//! The one source of chance: uniform draws for laying mines.

use rand::rngs::ThreadRng;
use rand::Rng;
use vstd::prelude::*;

verus! {

/// `rand::rngs::ThreadRng`, carried through as an opaque value.
#[verifier::external_type_specification]
#[verifier::external_body]
pub struct ExThreadRng(ThreadRng);

/// `rand::thread_rng`: a handle to the generator of the calling thread.
/// Nothing is claimed of the handle. The call needs the operating system's
/// source of randomness the first time a thread makes it.
pub assume_specification[ rand::thread_rng ]() -> ThreadRng;

/// `Rng::gen_range` on the thread's generator, for the range from 0 up to
/// but not including `high`. The draw is uniform over that range; the
/// contract claims only that it lies in it. `gen_range` panics on an empty
/// range, which `high > 0` rules out.
#[verifier::external_body]
pub(crate) fn draw_below(rng: &mut ThreadRng, high: u32) -> (drawn: u32)
    requires
        high > 0,
    ensures
        drawn < high,
{
    rng.gen_range(0, high)
}

} // verus!
