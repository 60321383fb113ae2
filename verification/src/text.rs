//! Reading words and numbers out of text.

use vstd::prelude::*;

verus! {

/// Whether a character separates words: the characters that Unicode
/// classes as `White_Space`.
pub open spec fn is_space(c: char) -> bool {
    let n = c as u32;
    ||| 0x09 <= n <= 0x0D
    ||| n == 0x20
    ||| n == 0x85
    ||| n == 0xA0
    ||| n == 0x1680
    ||| 0x2000 <= n <= 0x200A
    ||| n == 0x2028
    ||| n == 0x2029
    ||| n == 0x202F
    ||| n == 0x205F
    ||| n == 0x3000
}

/// The words of a text: its longest runs of characters that are not
/// spaces, from left to right. Read from the end: a space adds nothing, a
/// character that follows one of a word goes on with that word, and any
/// other character starts a new word.
pub open spec fn words(s: Seq<char>) -> Seq<Seq<char>>
    decreases s.len(),
{
    if s.len() == 0 {
        Seq::empty()
    } else {
        let before = words(s.drop_last());
        if is_space(s.last()) {
            before
        } else if s.len() >= 2 && !is_space(s[s.len() - 2]) {
            before.drop_last().push(before.last().push(s.last()))
        } else {
            before.push(seq![s.last()])
        }
    }
}

/// Holds of every character but `c`.
pub open spec fn other_than(c: char) -> spec_fn(char) -> bool {
    |x: char| x != c
}

/// A text without the occurrences of one character.
pub open spec fn without(s: Seq<char>, c: char) -> Seq<char> {
    s.filter(other_than(c))
}

/// Whether a character is one of the ten decimal digits.
pub open spec fn is_digit(c: char) -> bool {
    '0' <= c <= '9'
}

/// Whether a text holds decimal digits and nothing else.
pub open spec fn all_digits(s: Seq<char>) -> bool {
    forall|k: int| 0 <= k < s.len() ==> is_digit(#[trigger] s[k])
}

/// The number that a run of decimal digits writes.
pub open spec fn digits_value(s: Seq<char>) -> nat
    decreases s.len(),
{
    if s.len() == 0 {
        0
    } else {
        10 * digits_value(s.drop_last()) + (s.last() as u32 - '0' as u32) as nat
    }
}

/// A text without the `+` that it may begin with.
pub open spec fn unsigned(s: Seq<char>) -> Seq<char> {
    if s.len() > 0 && s[0] == '+' {
        s.drop_first()
    } else {
        s
    }
}

/// The number that a text writes in decimal, if it writes one: the text is
/// one or more decimal digits, with or without a `+` before them, and
/// nothing else. There is no bound on the number.
pub open spec fn number(s: Seq<char>) -> Option<nat> {
    let digits = unsigned(s);
    if digits.len() > 0 && all_digits(digits) {
        Some(digits_value(digits))
    } else {
        None
    }
}

/// The characters of a string.
pub fn chars_of(s: &str) -> (chars: Vec<char>)
    ensures
        chars@ == s@,
{
    let mut chars: Vec<char> = Vec::new();
    for c in it: s.chars()
        invariant
            chars@ == it.seq().take(it.index() as int),
    {
        chars.push(c);
    }
    chars
}

/// Whether a character separates words.
pub fn is_whitespace(c: char) -> (b: bool)
    ensures
        b == is_space(c),
{
    let n: u32 = c as u32;
    (0x09 <= n && n <= 0x0D) || n == 0x20 || n == 0x85 || n == 0xA0 || n == 0x1680 || (0x2000 <= n
        && n <= 0x200A) || n == 0x2028 || n == 0x2029 || n == 0x202F || n == 0x205F || n == 0x3000
}

/// Splits a text into its words.
pub fn split_words(s: &Vec<char>) -> (found: Vec<Vec<char>>)
    ensures
        found.len() == words(s@).len(),
        forall|k: int| 0 <= k < found.len() ==> (#[trigger] found[k])@ == words(s@)[k],
{
    let mut found: Vec<Vec<char>> = Vec::new();
    let mut word: Vec<char> = Vec::new();
    let mut i: usize = 0;
    let ghost mut done: Seq<Seq<char>> = Seq::empty();
    while i < s.len()
        invariant
            i <= s.len(),
            done.len() == found.len(),
            forall|k: int| 0 <= k < found.len() ==> (#[trigger] found[k])@ == done[k],
            word@.len() > 0 <==> (i > 0 && !is_space(s[i - 1])),
            words(s@.take(i as int)) == if word@.len() > 0 {
                done.push(word@)
            } else {
                done
            },
        decreases s.len() - i,
    {
        let c = s[i];
        proof {
            assert(s@.take(i + 1).drop_last() =~= s@.take(i as int));
            if word@.len() == 0 {
                assert(seq![c] =~= word@.push(c));
            }
        }
        if is_whitespace(c) {
            if word.len() > 0 {
                proof {
                    done = done.push(word@);
                }
                found.push(word);
                word = Vec::new();
            }
        } else {
            word.push(c);
        }
        i += 1;
    }
    assert(s@.take(i as int) =~= s@);
    if word.len() > 0 {
        proof {
            done = done.push(word@);
        }
        found.push(word);
    }
    found
}

/// Removes the occurrences of one character from a text.
pub fn remove_char(s: &Vec<char>, c: char) -> (kept: Vec<char>)
    ensures
        kept@ == without(s@, c),
{
    let mut kept: Vec<char> = Vec::new();
    let mut i: usize = 0;
    assert(without(Seq::empty(), c) =~= Seq::empty());
    while i < s.len()
        invariant
            i <= s.len(),
            kept@ == without(s@.take(i as int), c),
        decreases s.len() - i,
    {
        proof {
            assert(s@.take(i + 1) =~= s@.take(i as int).push(s[i as int]));
            s@.take(i as int).lemma_filter_push(s[i as int], other_than(c));
        }
        if s[i] != c {
            kept.push(s[i]);
        }
        i += 1;
    }
    assert(s@.take(i as int) =~= s@);
    kept
}

/// Reads a text as a decimal number that fits a `usize`.
pub fn parse_number(s: &Vec<char>) -> (parsed: Option<usize>)
    ensures
        parsed is Some <==> number(s@) is Some && number(s@)->0 <= usize::MAX,
        parsed matches Some(n) ==> number(s@) == Some(n as nat),
{
    let start: usize = if s.len() > 0 && s[0] == '+' {
        1
    } else {
        0
    };
    if start == s.len() {
        return None;
    }
    let ghost digits = s@.skip(start as int);
    let mut value: usize = 0;
    let mut i: usize = start;
    while i < s.len()
        invariant
            start <= i <= s.len(),
            digits == s@.skip(start as int),
            digits == unsigned(s@),
            all_digits(digits.take(i - start)),
            value == digits_value(digits.take(i - start)),
        decreases s.len() - i,
    {
        let c = s[i];
        assert(digits[i - start] == c);
        if !(c >= '0' && c <= '9') {
            return None;
        }
        let d: usize = (c as u32 - '0' as u32) as usize;
        assert(digits.take(i - start + 1).drop_last() =~= digits.take(i - start));
        let grown = match value.checked_mul(10) {
            Some(tens) => tens.checked_add(d),
            None => None,
        };
        match grown {
            Some(v) => {
                value = v;
            },
            None => {
                proof {
                    if number(s@) is Some {
                        lemma_value_grows(digits, i - start + 1);
                    }
                }
                return None;
            },
        }
        i += 1;
    }
    assert(digits.take(i - start) =~= digits);
    Some(value)
}

/// What a run of digits writes is at least what any beginning of it writes.
proof fn lemma_value_grows(s: Seq<char>, n: int)
    requires
        0 <= n <= s.len(),
        all_digits(s),
    ensures
        digits_value(s.take(n)) <= digits_value(s),
    decreases s.len() - n,
{
    if n == s.len() {
        assert(s.take(n) =~= s);
    } else {
        lemma_value_grows(s, n + 1);
        assert(s.take(n + 1).drop_last() =~= s.take(n));
    }
}

/// Whether a text holds no space.
pub open spec fn no_space(s: Seq<char>) -> bool {
    forall|k: int| 0 <= k < s.len() ==> !is_space(#[trigger] s[k])
}

/// A text that ends in a character that is no space has a word.
proof fn lemma_words_last(s: Seq<char>)
    requires
        s.len() > 0,
        !is_space(s.last()),
    ensures
        words(s).len() > 0,
    decreases s.len(),
{
    if s.len() >= 2 && !is_space(s[s.len() - 2]) {
        lemma_words_last(s.drop_last());
    }
}

/// Every word of a text holds a character, and none holds a space.
pub proof fn lemma_words_are_words(s: Seq<char>)
    ensures
        forall|k: int| 0 <= k < words(s).len() ==> (#[trigger] words(s)[k]).len() > 0 && no_space(
            words(s)[k],
        ),
    decreases s.len(),
{
    if s.len() > 0 {
        lemma_words_are_words(s.drop_last());
        let before = words(s.drop_last());
        let c = s.last();
        assert forall|k: int| 0 <= k < words(s).len() implies (#[trigger] words(s)[k]).len() > 0
            && no_space(words(s)[k]) by {
            if is_space(c) {
            } else if k < words(s).len() - 1 {
                assert(words(s)[k] == before[k]);
            } else if s.len() >= 2 && !is_space(s[s.len() - 2]) {
                lemma_words_last(s.drop_last());
                assert(words(s)[k] == before.last().push(c));
                assert(no_space(before.last()));
            } else {
                assert(words(s)[k] == seq![c]);
            }
        }
    }
}

/// A text without a space, unless it is empty, is its own single word.
pub proof fn lemma_words_of_a_word(s: Seq<char>)
    requires
        s.len() > 0,
        no_space(s),
    ensures
        words(s) == seq![s],
    decreases s.len(),
{
    if s.len() == 1 {
        assert(s.drop_last() =~= Seq::<char>::empty());
        assert(seq![s.last()] =~= s);
        assert(words(s.drop_last()) =~= Seq::<Seq<char>>::empty());
        assert(Seq::<Seq<char>>::empty().push(s) =~= seq![s]);
    } else {
        assert(!is_space(s[s.len() - 2]));
        assert(!is_space(s[s.len() - 1]));
        let front = s.drop_last();
        assert(no_space(front)) by {
            assert forall|k: int| 0 <= k < front.len() implies !is_space(#[trigger] front[k]) by {
                assert(front[k] == s[k]);
            }
        }
        lemma_words_of_a_word(front);
        assert(front.push(s.last()) =~= s);
        assert(seq![front].drop_last().push(seq![front].last().push(s.last())) =~= seq![s]);
    }
}

/// Where two texts meet at a space, the words of the two together are the
/// words of the first and then the words of the second.
pub proof fn lemma_words_of_parts(a: Seq<char>, b: Seq<char>)
    requires
        a.len() == 0 || b.len() == 0 || is_space(a.last()) || is_space(b[0]),
    ensures
        words(a + b) == words(a) + words(b),
    decreases b.len(),
{
    if b.len() == 0 {
        assert(a + b =~= a);
        assert(words(a) + words(b) =~= words(a));
    } else {
        let whole = a + b;
        let front = b.drop_last();
        assert(whole.drop_last() =~= a + front);
        assert(whole.last() == b.last());
        if front.len() > 0 {
            assert(front[0] == b[0]);
            assert(whole[whole.len() - 2] == b[b.len() - 2]);
            assert(front.last() == b[b.len() - 2]);
        } else if a.len() > 0 {
            assert(whole[whole.len() - 2] == a.last());
            assert(a + front =~= a);
        } else {
            assert(a + front =~= a);
        }
        lemma_words_of_parts(a, front);
        let before = words(a) + words(front);
        if is_space(b.last()) {
        } else if front.len() > 0 && !is_space(front.last()) {
            lemma_words_last(front);
            assert(before.last() == words(front).last());
            assert(before.drop_last() =~= words(a) + words(front).drop_last());
            assert(before.drop_last().push(before.last().push(b.last())) =~= words(a) + words(
                front,
            ).drop_last().push(words(front).last().push(b.last())));
        } else {
            assert(before.push(seq![b.last()]) =~= words(a) + words(front).push(seq![b.last()]));
        }
    }
}

} // verus!
