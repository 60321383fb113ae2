//! What holds of every board and every game.

use vstd::prelude::*;
use crate::board::Board;
use crate::command::{Command, Direction};
use crate::game::{Game, GameState};
use crate::square::{HiddenState, SquareState};

verus! {

/// The flood changes no cell's content or cursor marker, reveals only
/// cells that were hidden, and leaves every mine as it was.
pub proof fn lemma_flood_reveals_hidden_cells_only(board: Board, x: int, y: int)
    ensures
        board.flood(x, y).same_content(board),
        forall|i: int, j: int|
            board.in_bounds(i, j) ==> {
                let was = board.cells[i][j];
                let is = #[trigger] board.flood(x, y).cells[i][j];
                &&& is.selected == was.selected
                &&& is.revealed == was.revealed || (was.revealed == HiddenState::Hidden
                    && is.revealed == HiddenState::Revealed)
                &&& was.state == SquareState::Bomb ==> is.revealed == was.revealed
            },
{
}

/// A command leaves a game that can be played one that can be played.
pub proof fn lemma_apply_keeps_wf(game: Game, cmd: Command)
    requires
        game.wf(),
    ensures
        game.apply(cmd).wf(),
{
}

/// A command changes no cell's content: it leaves the board its shape and
/// every cell what it holds. (A step of the cursor is a command only in a
/// game that can be played.)
pub proof fn lemma_content_is_fixed(game: Game, cmd: Command)
    requires
        cmd is MoveCursor ==> game.wf(),
    ensures
        game.board.same_content(game.apply(cmd).board),
{
}

/// Boards with the same content agree on the mines around every cell, so
/// that counts that agree with the mines on one agree with them on the
/// other.
pub proof fn lemma_counts_follow_content(a: Board, b: Board)
    requires
        a.same_content(b),
        a.counts_consistent(),
    ensures
        b.counts_consistent(),
{
    assert forall|x: int, y: int| b.in_bounds(x, y) implies #[trigger] b.count_agrees(x, y) by {
        assert(a.count_agrees(x, y));
        assert(a.mined_neighbours(x, y) =~= b.mined_neighbours(x, y));
    }
}

/// On a board whose counts agree with its mines they still agree after any
/// command: every count is the number of mines around its cell, and no
/// cell without a mine next to it shows a count.
pub proof fn lemma_counts_stay_true(game: Game, cmd: Command)
    requires
        game.board.counts_consistent(),
        cmd is MoveCursor ==> game.wf(),
    ensures
        game.apply(cmd).board.counts_consistent(),
{
    lemma_counts_follow_content(game.board, game.apply(cmd).board);
}

/// Revealing a cell that holds no mine changes the visibility of a cell in
/// one way only, from hidden to revealed, and of a mine in no way.
pub proof fn lemma_reveal_opens_hidden_cells_only(game: Game, x: int, y: int)
    requires
        !game.board.is_mine(x, y),
    ensures
        forall|i: int, j: int|
            game.board.in_bounds(i, j) ==> {
                let was = game.board.cells[i][j];
                let is = #[trigger] game.reveal_square(x, y).board.cells[i][j];
                &&& is.revealed == was.revealed || (was.revealed == HiddenState::Hidden
                    && is.revealed == HiddenState::Revealed)
                &&& was.state == SquareState::Bomb ==> is.revealed == was.revealed
            },
{
}

/// Flagging a hidden cell twice leaves the game as it was.
pub proof fn lemma_flag_twice_is_nothing(game: Game, x: int, y: int)
    requires
        game.board.is_hidden(x, y),
    ensures
        game.toggle_flag(x, y).toggle_flag(x, y) == game,
{
    let twice = game.toggle_flag(x, y).toggle_flag(x, y);
    assert(twice.board.cells[x] =~= game.board.cells[x]);
    assert(twice.board.cells =~= game.board.cells);
}

/// Once a game is won or lost, no command but the one that reveals the
/// whole board changes anything.
pub proof fn lemma_over_is_over(game: Game, cmd: Command)
    requires
        game.state != GameState::Playing,
        cmd != Command::RevealAll,
    ensures
        game.apply(cmd) == game,
{
}

/// Once a game is won or lost, no key press changes anything, and no line
/// of text but one that asks to reveal the whole board.
pub proof fn lemma_over_ignores_input(game: Game, key: Seq<u8>, line: Seq<char>)
    requires
        game.state != GameState::Playing,
    ensures
        game.parse_arrow_input(key) == game,
        crate::command::line_command(line) != Some(Command::RevealAll) ==> game.parse_move(line)
            == game,
{
}

/// Revealing the whole board does the same to the board whatever the state
/// of the game, and leaves that state and the cursor as they are. It is
/// also what losing does to the board.
pub proof fn lemma_reveal_all_ignores_state(game: Game, state: GameState, x: int, y: int)
    ensures
        game.apply(Command::RevealAll).board == game.board.reveal_all(),
        (Game { state, ..game }).apply(Command::RevealAll).board == game.apply(
            Command::RevealAll,
        ).board,
        game.apply(Command::RevealAll).state == game.state,
        game.apply(Command::RevealAll).cursor == game.cursor,
        game.reveal_square(x, y).state == GameState::Lose && game.state == GameState::Playing
            ==> game.reveal_square(x, y).board == game.apply(Command::RevealAll).board,
{
}

/// A game that is won or lost stays so.
pub proof fn lemma_end_states_absorb(game: Game, cmd: Command)
    requires
        game.state != GameState::Playing,
    ensures
        game.apply(cmd).state == game.state,
{
}

/// A step moves the cursor by one along its axis, except where that would
/// take it off the board: at the first row a step up leaves the cursor
/// where it is, and so does a step left at the first column, a step down at
/// the last row and a step right at the last column.
pub proof fn lemma_cursor_stops_at_edges(game: Game, dir: Direction)
    requires
        game.wf(),
    ensures
        ({
            let (x, y) = game.cursor;
            let to = game.move_cursor(dir).cursor;
            let over = game.state != GameState::Playing;
            match dir {
                Direction::Up => to == if x == 0 || over {
                    (x, y)
                } else {
                    (x - 1, y)
                },
                Direction::Down => to == if x == game.board.rows() - 1 || over {
                    (x, y)
                } else {
                    (x + 1, y)
                },
                Direction::Left => to == if y == 0 || over {
                    (x, y)
                } else {
                    (x, y - 1)
                },
                Direction::Right => to == if y == game.board.cols() - 1 || over {
                    (x, y)
                } else {
                    (x, y + 1)
                },
            }
        }),
{
}

/// After a step of the cursor in a game in play, the cell under the cursor
/// carries the marker, the cell the cursor left does not, and no other
/// cell's marker has changed.
pub proof fn lemma_marker_follows_cursor(game: Game, dir: Direction)
    requires
        game.wf(),
        game.state == GameState::Playing,
    ensures
        ({
            let after = game.move_cursor(dir);
            &&& after.board.cells[after.cursor.0][after.cursor.1].selected
            &&& after.cursor != game.cursor
                ==> !after.board.cells[game.cursor.0][game.cursor.1].selected
            &&& forall|i: int, j: int|
                game.board.in_bounds(i, j) && (i, j) != game.cursor && (i, j) != after.cursor
                    ==> (#[trigger] after.board.cells[i][j]) == game.board.cells[i][j]
        }),
{
}

/// What is drawn for a cell that is not revealed does not depend on what
/// the cell holds.
pub proof fn lemma_face_keeps_secrets(revealed: HiddenState, a: SquareState, b: SquareState)
    requires
        revealed != HiddenState::Revealed,
    ensures
        crate::square::Square::face_of(revealed, a) == crate::square::Square::face_of(revealed, b),
{
}

/// What a renderer is shown of two games is the same when they differ only
/// in what cells that are not revealed hold.
pub proof fn lemma_render_keeps_secrets(a: Game, b: Game)
    requires
        a.board.same_shape(b.board),
        forall|x: int, y: int|
            a.board.in_bounds(x, y) ==> {
                let p = #[trigger] a.board.cells[x][y];
                let q = b.board.cells[x][y];
                &&& p.revealed == q.revealed
                &&& p.selected == q.selected
                &&& p.revealed == HiddenState::Revealed ==> p.state == q.state
            },
    ensures
        a.render() == b.render(),
{
    assert forall|x: int| 0 <= x < a.render().len() implies #[trigger] a.render()[x]
        =~= b.render()[x] by {}
}

/// A game in play is lost by revealing a mine that is not flagged, and by
/// no other reveal; it is won by a reveal of another cell after which no
/// cell without a mine is left unrevealed, and by no other reveal.
pub proof fn lemma_how_games_end(game: Game, x: int, y: int)
    requires
        game.state == GameState::Playing,
    ensures
        ({
            let after = game.reveal_square(x, y);
            let opens = game.board.in_bounds(x, y) && game.board.cells[x][y].revealed
                != HiddenState::Flagged;
            &&& after.state == GameState::Lose <==> opens && game.board.is_mine(x, y)
            &&& after.state == GameState::Win <==> opens && !game.board.is_mine(x, y)
                && after.board.all_safe_revealed()
        }),
{
}

/// Only a reveal changes the state of a game.
pub proof fn lemma_only_reveals_end_games(game: Game, cmd: Command)
    requires
        !(cmd is Reveal),
        !(cmd is RevealAtCursor),
    ensures
        game.apply(cmd).state == game.state,
{
}

} // verus!
