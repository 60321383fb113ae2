//! What a player can ask for, and how keys and lines of text say it.

use vstd::prelude::*;
use crate::grid::GridDimensions;
use crate::text::{chars_of, number, parse_number, remove_char, split_words, without, words};

verus! {

/// A step of the cursor. `Up` and `Down` change the row, `Left` and `Right`
/// the column.
#[derive(PartialEq, Eq, Structural, Clone, Copy, Debug)]
pub enum Direction {
    Up,
    Down,
    Left,
    Right,
}

/// The size of board to play on.
#[derive(PartialEq, Eq, Structural, Clone, Copy, Debug)]
pub enum Difficulty {
    Easy,
    Medium,
    Hard,
    Custom(GridDimensions),
}

impl Difficulty {
    /// The board size that a difficulty stands for.
    pub open spec fn size(self) -> GridDimensions {
        match self {
            Difficulty::Easy => GridDimensions { x: 5, y: 5 },
            Difficulty::Medium => GridDimensions { x: 7, y: 7 },
            Difficulty::Hard => GridDimensions { x: 12, y: 12 },
            Difficulty::Custom(dimensions) => dimensions,
        }
    }
}

/// An action of the player, however it was entered.
#[derive(PartialEq, Eq, Structural, Clone, Copy, Debug)]
pub enum Command {
    /// Reveal the cell in the given row and column.
    Reveal(usize, usize),
    /// Flag or unflag the cell in the given row and column.
    ToggleFlag(usize, usize),
    /// Move the cursor one step.
    MoveCursor(Direction),
    /// Reveal the cell under the cursor.
    RevealAtCursor,
    /// Flag or unflag the cell under the cursor.
    ToggleFlagAtCursor,
    /// Reveal the whole board.
    RevealAll,
}

/// The key that moves the cursor left.
pub const KEY_LEFT: u8 = 104;

/// The key that moves the cursor down.
pub const KEY_DOWN: u8 = 106;

/// The key that moves the cursor up.
pub const KEY_UP: u8 = 107;

/// The key that moves the cursor right.
pub const KEY_RIGHT: u8 = 108;

/// The key that reveals the cell under the cursor.
pub const KEY_REVEAL: u8 = 32;

/// The key that flags or unflags the cell under the cursor.
pub const KEY_FLAG: u8 = 102;

/// What the first byte of a key press asks for: `h`, `j`, `k` and `l` move
/// the cursor left, down, up and right, the space bar reveals and `f` flags
/// under the cursor. No other byte, and no empty input, asks for anything.
pub open spec fn key_command(input: Seq<u8>) -> Option<Command> {
    if input.len() == 0 {
        None
    } else if input[0] == KEY_LEFT {
        Some(Command::MoveCursor(Direction::Left))
    } else if input[0] == KEY_DOWN {
        Some(Command::MoveCursor(Direction::Down))
    } else if input[0] == KEY_UP {
        Some(Command::MoveCursor(Direction::Up))
    } else if input[0] == KEY_RIGHT {
        Some(Command::MoveCursor(Direction::Right))
    } else if input[0] == KEY_REVEAL {
        Some(Command::RevealAtCursor)
    } else if input[0] == KEY_FLAG {
        Some(Command::ToggleFlagAtCursor)
    } else {
        None
    }
}

/// The row or column that a word names: the number it writes once its
/// hyphens are taken out.
pub open spec fn coordinate(word: Seq<char>) -> Option<nat> {
    number(without(word, '-'))
}

/// What a line of text asks for. The line is read as words. A first word
/// `r` asks to reveal the whole board. A first word that begins with `f`
/// asks to flag the cell that the next two words name, row first. Otherwise
/// the first two words name the cell to reveal. Further words are ignored.
/// A line that lacks a word, or in which a word that should name a row or
/// a column writes no number that fits a `usize`, asks for nothing.
pub open spec fn line_command(input: Seq<char>) -> Option<Command> {
    let w = words(input);
    if w.len() == 0 {
        None
    } else if w[0] == seq!['r'] {
        Some(Command::RevealAll)
    } else {
        let flag = w[0].len() > 0 && w[0][0] == 'f';
        let at: int = if flag {
            1
        } else {
            0
        };
        if w.len() < at + 2 {
            None
        } else {
            match (coordinate(w[at]), coordinate(w[at + 1])) {
                (Some(x), Some(y)) => if x <= usize::MAX && y <= usize::MAX {
                    if flag {
                        Some(Command::ToggleFlag(x as usize, y as usize))
                    } else {
                        Some(Command::Reveal(x as usize, y as usize))
                    }
                } else {
                    None
                },
                _ => None,
            }
        }
    }
}

/// The difficulty that a line of text chooses: with its line feeds taken
/// out it writes 1 for easy, 2 for medium, 3 for hard or 4 for a custom
/// board of four rows and four columns. Any other line chooses none.
pub open spec fn difficulty_choice(input: Seq<char>) -> Option<Difficulty> {
    match number(without(input, '\n')) {
        Some(n) => if n == 1 {
            Some(Difficulty::Easy)
        } else if n == 2 {
            Some(Difficulty::Medium)
        } else if n == 3 {
            Some(Difficulty::Hard)
        } else if n == 4 {
            Some(Difficulty::Custom(GridDimensions { x: 4, y: 4 }))
        } else {
            None
        },
        None => None,
    }
}

/// Reads a key press as a command.
pub fn decode_key(input: &[u8]) -> (cmd: Option<Command>)
    ensures
        cmd == key_command(input@),
{
    if input.len() == 0 {
        return None;
    }
    let key = input[0];
    if key == KEY_LEFT {
        Some(Command::MoveCursor(Direction::Left))
    } else if key == KEY_DOWN {
        Some(Command::MoveCursor(Direction::Down))
    } else if key == KEY_UP {
        Some(Command::MoveCursor(Direction::Up))
    } else if key == KEY_RIGHT {
        Some(Command::MoveCursor(Direction::Right))
    } else if key == KEY_REVEAL {
        Some(Command::RevealAtCursor)
    } else if key == KEY_FLAG {
        Some(Command::ToggleFlagAtCursor)
    } else {
        None
    }
}

/// Reads a word as a row or a column.
pub fn parse_coordinate(word: &Vec<char>) -> (parsed: Option<usize>)
    ensures
        parsed is Some <==> coordinate(word@) is Some && coordinate(word@)->0 <= usize::MAX,
        parsed matches Some(n) ==> coordinate(word@) == Some(n as nat),
{
    let bare = remove_char(word, '-');
    parse_number(&bare)
}

/// Reads a line of text as a command.
pub fn decode_move(input: &str) -> (cmd: Option<Command>)
    ensures
        cmd == line_command(input@),
{
    let chars = chars_of(input);
    let w = split_words(&chars);
    if w.len() == 0 {
        return None;
    }
    if w[0].len() == 1 && w[0][0] == 'r' {
        assert(w[0]@ =~= seq!['r']);
        return Some(Command::RevealAll);
    }
    let flag = w[0].len() > 0 && w[0][0] == 'f';
    let at: usize = if flag {
        1
    } else {
        0
    };
    if w.len() < at + 2 {
        return None;
    }
    match (parse_coordinate(&w[at]), parse_coordinate(&w[at + 1])) {
        (Some(x), Some(y)) => if flag {
            Some(Command::ToggleFlag(x, y))
        } else {
            Some(Command::Reveal(x, y))
        },
        _ => None,
    }
}

/// Reads a line of text as the choice of a difficulty.
pub fn parse_difficulty_input(difficulty: &str) -> (choice: Option<Difficulty>)
    ensures
        choice == difficulty_choice(difficulty@),
{
    let chars = chars_of(difficulty);
    let bare = remove_char(&chars, '\n');
    match parse_number(&bare) {
        Some(1) => Some(Difficulty::Easy),
        Some(2) => Some(Difficulty::Medium),
        Some(3) => Some(Difficulty::Hard),
        Some(4) => Some(Difficulty::Custom(GridDimensions::new(4, 4))),
        _ => None,
    }
}

} // verus!
