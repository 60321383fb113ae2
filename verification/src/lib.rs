//! A grid-reveal puzzle engine: a mined board, per-cell reveal and flag
//! state, the flood fill that opens connected empty regions, and the
//! playing / won / lost state machine driven by player actions.
//!
//! The engine does no input or output. A driver reads keys or lines, hands
//! them to [`Minesweeper::parse_arrow_input`] or [`Minesweeper::parse_move`],
//! and draws the board from [`Square::face`].

pub mod board;
pub mod chance;
pub mod command;
pub mod flood;
pub mod game;
pub mod grid;
pub mod laws;
pub mod square;
pub mod text;

pub use board::Board;
pub use command::{decode_key, decode_move, parse_difficulty_input, Command, Difficulty, Direction};
pub use game::{Game, GameState, Minesweeper};
pub use grid::{Grid, GridDimensions, Row, MINE_ODDS};
pub use square::{Face, HiddenState, Square, SquareState};
