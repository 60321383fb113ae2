//! A single cell of the board.

use vstd::prelude::*;

verus! {

/// What a cell holds. Fixed when the board is generated.
#[derive(PartialEq, Eq, Structural, Clone, Copy, Debug)]
pub enum SquareState {
    /// No mine here and none next to it.
    Clear,
    /// A mine.
    Bomb,
    /// No mine here, and this many mines among the neighbours.
    Count(usize),
}

/// Whether the player can see a cell.
#[derive(PartialEq, Eq, Structural, Clone, Copy, Debug)]
pub enum HiddenState {
    Hidden,
    Revealed,
    Flagged,
}

/// What a renderer may draw for a cell.
#[derive(PartialEq, Eq, Structural, Clone, Copy, Debug)]
pub enum Face {
    /// A cell that is still hidden.
    Covered,
    /// A cell the player has flagged.
    Flag,
    /// A revealed mine.
    Bomb,
    /// A revealed cell with no mine next to it.
    Blank,
    /// A revealed cell with this many mines next to it.
    Count(usize),
}

/// A cell: its visibility, the cursor marker, and its content.
#[derive(PartialEq, Eq, Structural, Clone, Copy, Debug)]
pub struct Square {
    pub revealed: HiddenState,
    pub selected: bool,
    pub state: SquareState,
}

impl Square {
    /// The face of a cell with the given visibility and content: the content
    /// shows only through a revealed cell.
    pub open spec fn face_of(revealed: HiddenState, state: SquareState) -> Face {
        match revealed {
            HiddenState::Hidden => Face::Covered,
            HiddenState::Flagged => Face::Flag,
            HiddenState::Revealed => match state {
                SquareState::Bomb => Face::Bomb,
                SquareState::Clear => Face::Blank,
                SquareState::Count(n) => Face::Count(n),
            },
        }
    }

    /// A cell that the cursor is not on.
    pub fn new(revealed: HiddenState, state: SquareState) -> (sq: Self)
        ensures
            sq == (Square { revealed, selected: false, state }),
    {
        Self { revealed, selected: false, state }
    }

    /// What to draw for this cell. A hidden or flagged cell gives away
    /// nothing of its content.
    pub fn face(&self) -> (f: Face)
        ensures
            f == Self::face_of(self.revealed, self.state),
    {
        match self.revealed {
            HiddenState::Hidden => Face::Covered,
            HiddenState::Flagged => Face::Flag,
            HiddenState::Revealed => match self.state {
                SquareState::Bomb => Face::Bomb,
                SquareState::Clear => Face::Blank,
                SquareState::Count(n) => Face::Count(n),
            },
        }
    }
}

} // verus!
