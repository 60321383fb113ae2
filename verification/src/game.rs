//! The game: a board, a cursor, and the playing / won / lost state that the
//! player's actions drive.

use vstd::prelude::*;
use crate::board::Board;
use crate::command::{
    decode_key, decode_move, key_command, line_command, Command, Difficulty, Direction,
};
use crate::grid::{Grid, GridDimensions};
use crate::square::{Face, HiddenState, Square, SquareState};

verus! {

/// Where a game stands. `Win` and `Lose` are final.
#[derive(PartialEq, Eq, Structural, Clone, Copy, Debug)]
pub enum GameState {
    Win,
    Lose,
    Playing,
}

/// A game as a value: what `Minesweeper` stands for in contracts.
pub struct Game {
    pub state: GameState,
    pub cursor: (int, int),
    pub board: Board,
}

/// A game in progress or over.
#[derive(Debug)]
pub struct Minesweeper {
    pub game_state: GameState,
    pub cursor: (usize, usize),
    pub grid: Grid,
}

impl View for Minesweeper {
    type V = Game;

    open spec fn view(&self) -> Game {
        Game {
            state: self.game_state,
            cursor: (self.cursor.0 as int, self.cursor.1 as int),
            board: self.grid@,
        }
    }
}

impl Game {
    /// A game that can be played: the board is well formed and the cursor is
    /// on it.
    pub open spec fn wf(self) -> bool {
        self.board.wf() && self.board.in_bounds(self.cursor.0, self.cursor.1)
    }

    /// What a renderer is shown of the board: for each cell what to draw
    /// for it and whether it carries the cursor marker.
    pub open spec fn render(self) -> Seq<Seq<(Face, bool)>> {
        Seq::new(
            self.board.cells.len(),
            |x: int|
                Seq::new(
                    self.board.cells[x].len(),
                    |y: int|
                        (
                            Square::face_of(
                                self.board.cells[x][y].revealed,
                                self.board.cells[x][y].state,
                            ),
                            self.board.cells[x][y].selected,
                        ),
                ),
        )
    }

    /// The game with every cell revealed. The state stays as it is.
    pub open spec fn reveal_board(self) -> Game {
        Game { board: self.board.reveal_all(), ..self }
    }

    /// The game after the flood from `(x, y)`.
    pub open spec fn reveal_clear_region(self, x: int, y: int) -> Game {
        Game { board: self.board.flood(x, y), ..self }
    }

    /// The game with its state set by the board: won when every cell without
    /// a mine is revealed, and in play otherwise.
    pub open spec fn settle(self) -> Game {
        Game {
            state: if self.board.all_safe_revealed() {
                GameState::Win
            } else {
                GameState::Playing
            },
            ..self
        }
    }

    /// The game after the player reveals the cell at `(x, y)`. Nothing
    /// happens once the game is over, where there is no such cell, or on a
    /// flagged cell. Revealing a mine loses the game and discloses the whole
    /// board. Revealing any other cell reveals it, floods from it if it is
    /// clear, and wins the game if no cell without a mine is left unrevealed.
    pub open spec fn reveal_square(self, x: int, y: int) -> Game {
        if self.state != GameState::Playing || !self.board.in_bounds(x, y)
            || self.board.cells[x][y].revealed == HiddenState::Flagged {
            self
        } else {
            let opened = self.board.set_revealed(x, y, HiddenState::Revealed);
            match self.board.cells[x][y].state {
                SquareState::Bomb => Game {
                    state: GameState::Lose,
                    board: self.board.reveal_all(),
                    ..self
                },
                SquareState::Clear => (Game { board: opened.flood(x, y), ..self }).settle(),
                SquareState::Count(_) => (Game { board: opened, ..self }).settle(),
            }
        }
    }

    /// The game after the player flags or unflags the cell at `(x, y)`: a
    /// hidden cell becomes flagged and a flagged one hidden. Nothing happens
    /// once the game is over, where there is no such cell, or on a revealed
    /// cell.
    pub open spec fn toggle_flag(self, x: int, y: int) -> Game {
        if self.state != GameState::Playing || !self.board.in_bounds(x, y) {
            self
        } else {
            match self.board.cells[x][y].revealed {
                HiddenState::Hidden => Game {
                    board: self.board.set_revealed(x, y, HiddenState::Flagged),
                    ..self
                },
                HiddenState::Flagged => Game {
                    board: self.board.set_revealed(x, y, HiddenState::Hidden),
                    ..self
                },
                HiddenState::Revealed => self,
            }
        }
    }

    /// Where the cursor comes to by one step: one row or column further,
    /// but never off the board.
    pub open spec fn step(self, dir: Direction) -> (int, int) {
        let (x, y) = self.cursor;
        match dir {
            Direction::Up => (vstd::math::max(x - 1, 0), y),
            Direction::Down => (vstd::math::min(x + 1, self.board.rows() - 1), y),
            Direction::Left => (x, vstd::math::max(y - 1, 0)),
            Direction::Right => (x, vstd::math::min(y + 1, self.board.cols() - 1)),
        }
    }

    /// The game with the cursor marker set on the cell under the cursor.
    pub open spec fn highlight(self) -> Game {
        Game { board: self.board.set_selected(self.cursor.0, self.cursor.1, true), ..self }
    }

    /// The game after a command of the player.
    pub open spec fn apply(self, cmd: Command) -> Game {
        match cmd {
            Command::Reveal(x, y) => self.reveal_square(x as int, y as int),
            Command::ToggleFlag(x, y) => self.toggle_flag(x as int, y as int),
            Command::MoveCursor(dir) => self.move_cursor(dir),
            Command::RevealAtCursor => self.reveal_square(self.cursor.0, self.cursor.1),
            Command::ToggleFlagAtCursor => self.toggle_flag(self.cursor.0, self.cursor.1),
            Command::RevealAll => self.reveal_board(),
        }
    }

    /// The game after a line of text from the player: after the command
    /// that the line asks for, or unchanged if it asks for none.
    pub open spec fn parse_move(self, input: Seq<char>) -> Game {
        match line_command(input) {
            Some(cmd) => self.apply(cmd),
            None => self,
        }
    }

    /// The game after a key press of the player: after the command that
    /// the key asks for, if any, with the cursor marker set on the cell
    /// under the cursor. Nothing happens once the game is over.
    pub open spec fn parse_arrow_input(self, input: Seq<u8>) -> Game {
        if self.state != GameState::Playing {
            self
        } else {
            match key_command(input) {
                Some(cmd) => self.apply(cmd).highlight(),
                None => self.highlight(),
            }
        }
    }

    /// The game after the cursor takes one step: the marker leaves the cell
    /// the cursor was on and is set where it comes to. Nothing happens once
    /// the game is over.
    pub open spec fn move_cursor(self, dir: Direction) -> Game {
        if self.state != GameState::Playing {
            self
        } else {
            (Game {
                cursor: self.step(dir),
                board: self.board.set_selected(self.cursor.0, self.cursor.1, false),
                ..self
            }).highlight()
        }
    }
}

impl Minesweeper {
    /// A new game on a board of the size that `difficulty` stands for, with
    /// mines laid by chance, every cell hidden, and the cursor on the first
    /// cell. A board needs at least one row and one column.
    pub fn new(difficulty: Difficulty) -> (game: Self)
        requires
            difficulty.size().x >= 1,
            difficulty.size().y >= 1,
        ensures
            game@.wf(),
            game.game_state == GameState::Playing,
            game.cursor == (0usize, 0usize),
            game@.board.rows() == difficulty.size().x,
            game@.board.cols() == difficulty.size().y,
            game@.board.untouched(),
            game@.board.counts_consistent(),
    {
        Self {
            game_state: GameState::Playing,
            cursor: (0, 0),
            grid: match difficulty {
                Difficulty::Easy => Grid::new(GridDimensions::new(5, 5)),
                Difficulty::Medium => Grid::new(GridDimensions::new(7, 7)),
                Difficulty::Hard => Grid::new(GridDimensions::new(12, 12)),
                Difficulty::Custom(GridDimensions { x, y }) => Grid::new(GridDimensions::new(x, y)),
            },
        }
    }

    /// Whether the game can be played: its board is well formed and the
    /// cursor is on it.
    pub fn is_playable(&self) -> (b: bool)
        ensures
            b == self@.wf(),
    {
        self.grid.is_well_formed() && self.grid.get(self.cursor.0, self.cursor.1).is_some()
    }

    /// The board as a renderer may see it: row by row, for each cell what
    /// to draw for it and whether it carries the cursor marker. What a cell
    /// holds shows only where the cell is revealed.
    pub fn render(&self) -> (rows: Vec<Vec<(Face, bool)>>)
        ensures
            rows.len() == self@.render().len(),
            forall|x: int| 0 <= x < rows.len() ==> (#[trigger] rows[x])@ == self@.render()[x],
    {
        let mut rows: Vec<Vec<(Face, bool)>> = Vec::new();
        let mut x: usize = 0;
        while x < self.grid.rows()
            invariant
                x <= self@.board.cells.len(),
                rows.len() == x,
                forall|i: int| 0 <= i < x ==> (#[trigger] rows[i])@ == self@.render()[i],
            decreases self@.board.cells.len() - x,
        {
            let mut row: Vec<(Face, bool)> = Vec::new();
            let len = self.grid.row_len(x);
            let mut y: usize = 0;
            while y < len
                invariant
                    x < self@.board.cells.len(),
                    len == self@.board.cells[x as int].len(),
                    y <= len,
                    row.len() == y,
                    forall|j: int| 0 <= j < y ==> #[trigger] row[j] == self@.render()[x as int][j],
                decreases len - y,
            {
                let sq = self.grid.at(x, y);
                row.push((sq.face(), sq.selected));
                y += 1;
            }
            rows.push(row);
            x += 1;
        }
        rows
    }

    /// Reveals the cell at `(x, y)` for the player.
    pub fn reveal_square(&mut self, x: usize, y: usize)
        ensures
            final(self)@ == old(self)@.reveal_square(x as int, y as int),
    {
        if self.game_state != GameState::Playing {
            return ;
        }
        if let Some(sq) = self.grid.get(x, y) {
            if sq.revealed == HiddenState::Flagged {
                return ;
            }
            self.grid.set_revealed(x, y, HiddenState::Revealed);
            match sq.state {
                SquareState::Bomb => {
                    self.game_state = GameState::Lose;
                    self.reveal_board();
                    assert(self@.board.cells =~~= old(self)@.board.reveal_all().cells);
                },
                SquareState::Clear => {
                    self.reveal_clear_region(x, y);
                    self.settle();
                },
                SquareState::Count(_) => {
                    self.settle();
                },
            }
        }
    }

    /// Sets the state by the board: won when every cell without a mine is
    /// revealed, in play otherwise.
    fn settle(&mut self)
        ensures
            final(self)@ == old(self)@.settle(),
    {
        self.game_state = if self.grid.all_safe_revealed() {
            GameState::Win
        } else {
            GameState::Playing
        };
    }

    /// Flags or unflags the cell at `(x, y)` for the player.
    pub fn toggle_flag(&mut self, x: usize, y: usize)
        ensures
            final(self)@ == old(self)@.toggle_flag(x as int, y as int),
    {
        if self.game_state != GameState::Playing {
            return ;
        }
        if let Some(sq) = self.grid.get(x, y) {
            match sq.revealed {
                HiddenState::Hidden => self.grid.set_revealed(x, y, HiddenState::Flagged),
                HiddenState::Flagged => self.grid.set_revealed(x, y, HiddenState::Hidden),
                HiddenState::Revealed => {},
            }
        }
    }

    /// The cell at `(x, y)`, open to change. What the caller leaves in it is
    /// what the board then holds there; the rest of the game stays as it is.
    pub fn get_square(&mut self, x: usize, y: usize) -> (sq: &mut Square)
        requires
            old(self)@.board.in_bounds(x as int, y as int),
        ensures
            *sq == old(self)@.board.cells[x as int][y as int],
            final(self).game_state == old(self).game_state,
            final(self).cursor == old(self).cursor,
            final(self)@.board.cells == old(self)@.board.cells.update(
                x as int,
                old(self)@.board.cells[x as int].update(y as int, *final(sq)),
            ),
    {
        self.grid.square_mut(x, y)
    }

    /// Moves the cursor one step, keeping it on the board, and moves the
    /// cursor marker with it.
    pub fn move_cursor(&mut self, dir: Direction)
        requires
            old(self)@.wf(),
        ensures
            final(self)@ == old(self)@.move_cursor(dir),
            final(self)@.wf(),
    {
        if self.game_state != GameState::Playing {
            return ;
        }
        self.grid.set_selected(self.cursor.0, self.cursor.1, false);
        match dir {
            Direction::Up => {
                if self.cursor.0 > 0 {
                    self.cursor.0 -= 1;
                }
            },
            Direction::Down => {
                if self.cursor.0 < self.grid.rows() - 1 {
                    self.cursor.0 += 1;
                }
            },
            Direction::Left => {
                if self.cursor.1 > 0 {
                    self.cursor.1 -= 1;
                }
            },
            Direction::Right => {
                if self.cursor.1 < self.grid.cols() - 1 {
                    self.cursor.1 += 1;
                }
            },
        }
        self.grid.set_selected(self.cursor.0, self.cursor.1, true);
    }

    /// Carries out a command of the player. Moving the cursor needs a game
    /// that can be played.
    pub fn apply(&mut self, cmd: Command)
        requires
            cmd is MoveCursor ==> old(self)@.wf(),
        ensures
            final(self)@ == old(self)@.apply(cmd),
    {
        match cmd {
            Command::Reveal(x, y) => self.reveal_square(x, y),
            Command::ToggleFlag(x, y) => self.toggle_flag(x, y),
            Command::MoveCursor(dir) => self.move_cursor(dir),
            Command::RevealAtCursor => self.reveal_square(self.cursor.0, self.cursor.1),
            Command::ToggleFlagAtCursor => self.toggle_flag(self.cursor.0, self.cursor.1),
            Command::RevealAll => self.reveal_board(),
        }
    }

    /// Takes a line of text from the player: `r` to reveal the whole board,
    /// a row and a column to reveal a cell, or a word that begins with `f`
    /// and then a row and a column to flag one. A line that says none of
    /// these changes nothing.
    pub fn parse_move(&mut self, input: &str)
        ensures
            final(self)@ == old(self)@.parse_move(input@),
    {
        match decode_move(input) {
            Some(cmd) => self.apply(cmd),
            None => {},
        }
    }

    /// Takes a key press from the player: `h`, `j`, `k` and `l` to move the
    /// cursor left, down, up and right, the space bar to reveal and `f` to
    /// flag the cell under the cursor. Then marks the cell under the cursor.
    pub fn parse_arrow_input(&mut self, input: &[u8])
        requires
            old(self)@.wf(),
        ensures
            final(self)@ == old(self)@.parse_arrow_input(input@),
            final(self)@.wf(),
    {
        if self.game_state != GameState::Playing {
            return ;
        }
        match decode_key(input) {
            Some(cmd) => self.apply(cmd),
            None => {},
        }
        self.grid.set_selected(self.cursor.0, self.cursor.1, true);
    }

    /// Reveals every cell, whatever it holds and whatever the state of the
    /// game, which it leaves as it is.
    pub fn reveal_board(&mut self)
        ensures
            final(self)@ == old(self)@.reveal_board(),
    {
        self.grid.reveal_all();
    }

    /// Floods the board from `(x, y)`, for a clear cell that has just been
    /// revealed there. The rest of the game stays as it is.
    pub fn reveal_clear_region(&mut self, x: usize, y: usize)
        ensures
            final(self)@ == old(self)@.reveal_clear_region(x as int, y as int),
    {
        self.grid.flood(x, y);
    }
}

} // verus!
