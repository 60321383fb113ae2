//! The flood that opens a connected region of clear cells: what it reaches,
//! stated over paths on the board.

use vstd::prelude::*;
use crate::board::{adjacent, lemma_unhide, lists_exactly, Board};
use crate::grid::{coords, pairs, Grid};
use crate::square::{HiddenState, Square, SquareState};

verus! {

impl Board {
    /// Whether the flood from `(x, y)` can run along `path`: the path starts
    /// at a cell next to `(x, y)`, steps from each cell to one next to it,
    /// and stays on hidden cells, of which all but the last are clear. A
    /// clear cell passes the flood on; any other cell ends the path.
    pub open spec fn spreads_along(self, x: int, y: int, path: Seq<(int, int)>) -> bool {
        &&& path.len() >= 1
        &&& adjacent(x, y, path[0].0, path[0].1)
        &&& forall|k: int|
            0 < k < path.len() ==> adjacent(
                path[k - 1].0,
                path[k - 1].1,
                (#[trigger] path[k]).0,
                path[k].1,
            )
        &&& forall|k: int| 0 <= k < path.len() ==> self.is_hidden((#[trigger] path[k]).0, path[k].1)
        &&& forall|k: int|
            0 <= k < path.len() - 1 ==> self.cells[(#[trigger] path[k]).0][path[k].1].state
                == SquareState::Clear
    }

    /// Whether the flood from `(x, y)` comes to the cell at `(i, j)`.
    pub open spec fn reached(self, x: int, y: int, i: int, j: int) -> bool {
        exists|path: Seq<(int, int)>| #[trigger]
            self.spreads_along(x, y, path) && path.last() == (i, j)
    }

    /// Whether the flood from `(x, y)` opens the cell at `(i, j)`: it comes
    /// to it, and the cell holds no mine.
    pub open spec fn flooded(self, x: int, y: int, i: int, j: int) -> bool {
        self.reached(x, y, i, j) && self.cells[i][j].state != SquareState::Bomb
    }

    /// The board after the flood from `(x, y)`: the cells it opens are
    /// revealed, and nothing else has changed.
    pub open spec fn flood(self, x: int, y: int) -> Board {
        Board {
            cells: Seq::new(
                self.cells.len(),
                |i: int|
                    Seq::new(
                        self.cells[i].len(),
                        |j: int|
                            if self.flooded(x, y, i, j) {
                                Square { revealed: HiddenState::Revealed, ..self.cells[i][j] }
                            } else {
                                self.cells[i][j]
                            },
                    ),
            ),
        }
    }

    /// Whether `now` can be a stage of the flood from `(x, y)` on this
    /// board: the same cells with the same content and cursor marker, and no
    /// change of visibility but the revealing of cells that the flood opens.
    pub(crate) open spec fn flood_stage(self, x: int, y: int, now: Board) -> bool {
        &&& self.same_shape(now)
        &&& forall|i: int, j: int|
            self.in_bounds(i, j) ==> {
                let was = self.cells[i][j];
                let is = #[trigger] now.cells[i][j];
                &&& is.state == was.state
                &&& is.selected == was.selected
                &&& is.revealed == was.revealed || (was.revealed == HiddenState::Hidden
                    && is.revealed == HiddenState::Revealed && self.flooded(x, y, i, j))
            }
    }

    /// Whether, at the stage `now` of the flood from `(x, y)` on this board,
    /// the cell at `(i, j)` has passed the flood on: it is where the flood
    /// began, or a clear cell that the flood has revealed.
    pub(crate) open spec fn passed_on(self, x: int, y: int, now: Board, i: int, j: int) -> bool {
        (i == x && j == y) || (self.is_hidden(i, j) && now.cells[i][j].revealed
            == HiddenState::Revealed && self.cells[i][j].state == SquareState::Clear)
    }

    /// Whether, at the stage `now`, the cells of `work` from index `from` on
    /// are all that is left to look at: the flood comes to every cell of
    /// `work`, and each hidden neighbour without a mine of a cell that has
    /// passed the flood on is among those still waiting.
    pub(crate) open spec fn flood_waiting(
        self,
        x: int,
        y: int,
        now: Board,
        work: Seq<(int, int)>,
        from: int,
    ) -> bool {
        &&& self.flood_stage(x, y, now)
        &&& forall|k: int|
            0 <= k < work.len() ==> self.reached(x, y, (#[trigger] work[k]).0, work[k].1)
        &&& forall|i: int, j: int, a: int, b: int|
            #![trigger self.passed_on(x, y, now, i, j), now.hidden_neighbour(i, j, a, b)]
            self.passed_on(x, y, now, i, j) && now.hidden_neighbour(i, j, a, b)
                ==> now.cells[a][b].state == SquareState::Bomb || waits(work, from, a, b)
    }

    /// Whether `opened` is a record of the flood from `(x, y)`: it lists the
    /// cells that the flood opens, and each of them once.
    pub open spec fn flood_record(self, x: int, y: int, opened: Seq<(int, int)>) -> bool {
        &&& forall|k: int|
            0 <= k < opened.len() ==> self.flooded(x, y, (#[trigger] opened[k]).0, opened[k].1)
        &&& forall|i: int, j: int| #[trigger] self.flooded(x, y, i, j) ==> opened.contains((i, j))
        &&& forall|k1: int, k2: int|
            0 <= k1 < k2 < opened.len() ==> #[trigger] opened[k1] != #[trigger] opened[k2]
    }

    /// Whether `opened` lists the cells that are revealed on `now` and were
    /// hidden on this board, and each of them once.
    pub(crate) open spec fn opened_so_far(self, now: Board, opened: Seq<(int, int)>) -> bool {
        &&& forall|k: int|
            0 <= k < opened.len() ==> self.is_hidden((#[trigger] opened[k]).0, opened[k].1)
                && now.cells[opened[k].0][opened[k].1].revealed == HiddenState::Revealed
        &&& forall|i: int, j: int|
            self.in_bounds(i, j) && (#[trigger] now.cells[i][j]).revealed
                != self.cells[i][j].revealed ==> opened.contains((i, j))
        &&& forall|k1: int, k2: int|
            0 <= k1 < k2 < opened.len() ==> #[trigger] opened[k1] != #[trigger] opened[k2]
    }

    /// Whether, at the stage `now`, nothing is left to do: no cell that has
    /// passed the flood on has a hidden neighbour without a mine.
    pub(crate) open spec fn flood_settled(self, x: int, y: int, now: Board) -> bool {
        forall|i: int, j: int, a: int, b: int|
            #![trigger self.passed_on(x, y, now, i, j), now.hidden_neighbour(i, j, a, b)]
            self.passed_on(x, y, now, i, j) && now.hidden_neighbour(i, j, a, b)
                ==> now.cells[a][b].state == SquareState::Bomb
    }
}

/// Revealing a hidden cell adds it to the cells opened so far.
proof fn lemma_opened_grows(
    board: Board,
    x: int,
    y: int,
    now: Board,
    opened: Seq<(int, int)>,
    c: int,
    d: int,
)
    requires
        board.flood_stage(x, y, now),
        board.opened_so_far(now, opened),
        now.is_hidden(c, d),
    ensures
        board.opened_so_far(now.set_revealed(c, d, HiddenState::Revealed), opened.push((c, d))),
{
    let next = now.set_revealed(c, d, HiddenState::Revealed);
    let longer = opened.push((c, d));
    assert forall|i: int, j: int|
        board.in_bounds(i, j) && (#[trigger] next.cells[i][j]).revealed
            != board.cells[i][j].revealed implies longer.contains((i, j)) by {
        if i == c && j == d {
            assert(longer[opened.len() as int] == (i, j));
        } else {
            let k = choose|k: int| 0 <= k < opened.len() && opened[k] == (i, j);
            assert(longer[k] == (i, j));
        }
    }
}

/// At the end of the flood, the cells opened so far are its record.
proof fn lemma_opened_ends(board: Board, x: int, y: int, now: Board, opened: Seq<(int, int)>)
    requires
        board.flood_stage(x, y, now),
        board.opened_so_far(now, opened),
        now == board.flood(x, y),
    ensures
        board.flood_record(x, y, opened),
{
    assert forall|i: int, j: int| #[trigger] board.flooded(x, y, i, j) implies opened.contains(
        (i, j),
    ) by {
        assert(now.cells[i][j].revealed != board.cells[i][j].revealed);
    }
}

/// Whether `(a, b)` stands in `work` at index `from` or later.
pub(crate) open spec fn waits(work: Seq<(int, int)>, from: int, a: int, b: int) -> bool {
    exists|k: int| from <= k < work.len() && #[trigger] work[k] == (a, b)
}

/// The flood passes from a clear cell it has come to on to each hidden
/// cell next to it.
proof fn lemma_flood_step(board: Board, x: int, y: int, i: int, j: int, a: int, b: int)
    requires
        board.reached(x, y, i, j),
        board.cells[i][j].state == SquareState::Clear,
        adjacent(i, j, a, b),
        board.is_hidden(a, b),
    ensures
        board.reached(x, y, a, b),
{
    let path = choose|path: Seq<(int, int)>| #[trigger]
        board.spreads_along(x, y, path) && path.last() == (i, j);
    let longer = path.push((a, b));
    assert(board.spreads_along(x, y, longer) && longer.last() == (a, b));
}

/// The flood comes to every hidden cell next to where it began.
proof fn lemma_flood_start(board: Board, x: int, y: int, a: int, b: int)
    requires
        adjacent(x, y, a, b),
        board.is_hidden(a, b),
    ensures
        board.reached(x, y, a, b),
{
    let path = seq![(a, b)];
    assert(board.spreads_along(x, y, path) && path.last() == (a, b));
}

/// At a settled stage, every cell on a path of the flood is revealed,
/// unless it is a mine at the end of the path.
proof fn lemma_flood_opens(board: Board, x: int, y: int, now: Board, path: Seq<(int, int)>, k: int)
    requires
        board.flood_stage(x, y, now),
        board.flood_settled(x, y, now),
        board.spreads_along(x, y, path),
        0 <= k < path.len(),
        board.cells[path[k].0][path[k].1].state != SquareState::Bomb,
    ensures
        now.cells[path[k].0][path[k].1].revealed == HiddenState::Revealed,
    decreases k,
{
    let (a, b) = path[k];
    let (i, j) = if k == 0 {
        (x, y)
    } else {
        path[k - 1]
    };
    if k > 0 {
        lemma_flood_opens(board, x, y, now, path, k - 1);
    }
    assert(board.passed_on(x, y, now, i, j));
    if now.cells[a][b].revealed == HiddenState::Hidden {
        assert(now.hidden_neighbour(i, j, a, b));
    }
}

/// A settled stage of the flood is its end: the board after the flood.
proof fn lemma_flood_settles(board: Board, x: int, y: int, now: Board)
    requires
        board.flood_stage(x, y, now),
        board.flood_settled(x, y, now),
    ensures
        now == board.flood(x, y),
{
    let end = board.flood(x, y);
    assert forall|i: int| 0 <= i < now.cells.len() implies #[trigger] now.cells[i]
        =~= end.cells[i] by {
        assert forall|j: int| 0 <= j < now.cells[i].len() implies #[trigger] now.cells[i][j]
            == end.cells[i][j] by {
            if board.flooded(x, y, i, j) {
                let path = choose|path: Seq<(int, int)>| #[trigger]
                    board.spreads_along(x, y, path) && path.last() == (i, j);
                lemma_flood_opens(board, x, y, now, path, path.len() - 1);
            }
        }
    }
    assert(now.cells =~= end.cells);
}

/// The flood begins with the hidden neighbours of `(x, y)` waiting.
proof fn lemma_flood_begins(board: Board, x: int, y: int, work: Seq<(int, int)>)
    requires
        lists_exactly(work, |a: int, b: int| board.hidden_neighbour(x, y, a, b)),
    ensures
        board.flood_waiting(x, y, board, work, 0),
{
    let wanted = |a: int, b: int| board.hidden_neighbour(x, y, a, b);
    assert forall|k: int| 0 <= k < work.len() implies board.reached(
        x,
        y,
        (#[trigger] work[k]).0,
        work[k].1,
    ) by {
        lemma_flood_start(board, x, y, work[k].0, work[k].1);
    }
    assert forall|i: int, j: int, a: int, b: int|
        #![trigger board.passed_on(x, y, board, i, j), board.hidden_neighbour(i, j, a, b)]
        board.passed_on(x, y, board, i, j) && board.hidden_neighbour(i, j, a, b) implies waits(
        work,
        0,
        a,
        b,
    ) by {
        assert(wanted(a, b));
    }
}

/// A waiting hidden cell with a count is revealed, and passes nothing on.
proof fn lemma_flood_reveals(
    board: Board,
    x: int,
    y: int,
    now: Board,
    work: Seq<(int, int)>,
    from: int,
)
    requires
        board.flood_waiting(x, y, now, work, from),
        0 <= from < work.len(),
        now.is_hidden(work[from].0, work[from].1),
        now.cells[work[from].0][work[from].1].state is Count,
    ensures
        board.flood_waiting(
            x,
            y,
            now.set_revealed(work[from].0, work[from].1, HiddenState::Revealed),
            work,
            from + 1,
        ),
{
    let (c, d) = work[from];
    let next = now.set_revealed(c, d, HiddenState::Revealed);
    assert forall|i: int, j: int, a: int, b: int|
        #![trigger board.passed_on(x, y, next, i, j), next.hidden_neighbour(i, j, a, b)]
        board.passed_on(x, y, next, i, j) && next.hidden_neighbour(i, j, a, b)
            && next.cells[a][b].state != SquareState::Bomb implies waits(work, from + 1, a, b) by {
        assert(board.passed_on(x, y, now, i, j));
        assert(now.hidden_neighbour(i, j, a, b));
    }
}

/// A waiting hidden clear cell is revealed, and its hidden neighbours join
/// those waiting.
proof fn lemma_flood_spreads(
    board: Board,
    x: int,
    y: int,
    now: Board,
    work: Seq<(int, int)>,
    from: int,
    more: Seq<(int, int)>,
)
    requires
        board.flood_waiting(x, y, now, work, from),
        0 <= from < work.len(),
        now.is_hidden(work[from].0, work[from].1),
        now.cells[work[from].0][work[from].1].state == SquareState::Clear,
        lists_exactly(
            more,
            |a: int, b: int|
                now.set_revealed(
                    work[from].0,
                    work[from].1,
                    HiddenState::Revealed,
                ).hidden_neighbour(work[from].0, work[from].1, a, b),
        ),
    ensures
        board.flood_waiting(
            x,
            y,
            now.set_revealed(work[from].0, work[from].1, HiddenState::Revealed),
            work + more,
            from + 1,
        ),
{
    let (c, d) = work[from];
    let next = now.set_revealed(c, d, HiddenState::Revealed);
    let wanted = |a: int, b: int| next.hidden_neighbour(c, d, a, b);
    let longer = work + more;
    assert forall|k: int| 0 <= k < longer.len() implies board.reached(
        x,
        y,
        (#[trigger] longer[k]).0,
        longer[k].1,
    ) by {
        if k >= work.len() {
            let (a, b) = more[k - work.len()];
            lemma_flood_step(board, x, y, c, d, a, b);
        }
    }
    assert forall|i: int, j: int, a: int, b: int|
        #![trigger board.passed_on(x, y, next, i, j), next.hidden_neighbour(i, j, a, b)]
        board.passed_on(x, y, next, i, j) && next.hidden_neighbour(i, j, a, b)
            && next.cells[a][b].state != SquareState::Bomb implies waits(
            longer,
            from + 1,
            a,
            b,
        ) by {
        if i == c && j == d {
            assert(wanted(a, b));
            let m = choose|m: int| 0 <= m < more.len() && more[m] == (a, b);
            assert(longer[work.len() + m] == (a, b));
        } else {
            assert(board.passed_on(x, y, now, i, j));
            assert(now.hidden_neighbour(i, j, a, b));
            let k = choose|k: int| from <= k < work.len() && #[trigger] work[k] == (a, b);
            assert(longer[k] == (a, b));
        }
    }
}

/// When no cell is left waiting, the flood is at its end.
proof fn lemma_flood_ends(board: Board, x: int, y: int, now: Board, work: Seq<(int, int)>)
    requires
        board.flood_waiting(x, y, now, work, work.len() as int),
    ensures
        now == board.flood(x, y),
{
    lemma_flood_settles(board, x, y, now);
}

impl Grid {
    /// Floods from `(x, y)`: looks at the hidden cells around `(x, y)`, and
    /// at each in turn. A cell that holds a mine stays hidden. A cell with a
    /// count is revealed. A clear cell is revealed and has the hidden cells
    /// around it looked at in turn. A cell that comes up a second time is
    /// hidden no more and is passed over, so that no cell is revealed twice.
    /// Returns the cells revealed, in the order in which they were.
    pub fn flood(&mut self, x: usize, y: usize) -> (opened: Vec<(usize, usize)>)
        ensures
            final(self)@ == old(self)@.flood(x as int, y as int),
            old(self)@.flood_record(x as int, y as int, pairs(opened@)),
    {
        let ghost start = self@;
        let mut opened: Vec<(usize, usize)> = Vec::new();
        let mut work = self.get_adjacent_unrevealed_squares(x, y);
        let mut next: usize = 0;
        proof {
            lemma_flood_begins(start, x as int, y as int, coords(work@));
        }
        while next < work.len()
            invariant
                next <= work.len(),
                start == old(self)@,
                forall|k: int| 0 <= k < work.len() ==> (#[trigger] work[k])@.len() == 2,
                start.flood_waiting(x as int, y as int, self@, coords(work@), next as int),
                start.opened_so_far(self@, pairs(opened@)),
            decreases self@.hidden_count(), work.len() - next,
        {
            let ghost now = self@;
            let ghost cells = coords(work@);
            let ghost record = pairs(opened@);
            let cx = work[next][0];
            let cy = work[next][1];
            proof {
                assert(cells[next as int] == (cx as int, cy as int));
            }
            let sq = self.at(cx, cy);
            if sq.revealed == HiddenState::Hidden {
                match sq.state {
                    SquareState::Bomb => {},
                    SquareState::Count(_) => {
                        self.set_revealed(cx, cy, HiddenState::Revealed);
                        opened.push((cx, cy));
                        proof {
                            lemma_flood_reveals(start, x as int, y as int, now, cells, next as int);
                            lemma_unhide(now, cx as int, cy as int, HiddenState::Revealed);
                            assert(pairs(opened@) =~= record.push((cx as int, cy as int)));
                            lemma_opened_grows(
                                start,
                                x as int,
                                y as int,
                                now,
                                record,
                                cx as int,
                                cy as int,
                            );
                        }
                    },
                    SquareState::Clear => {
                        self.set_revealed(cx, cy, HiddenState::Revealed);
                        opened.push((cx, cy));
                        let mut more = self.get_adjacent_unrevealed_squares(cx, cy);
                        proof {
                            lemma_flood_spreads(
                                start,
                                x as int,
                                y as int,
                                now,
                                cells,
                                next as int,
                                coords(more@),
                            );
                            lemma_unhide(now, cx as int, cy as int, HiddenState::Revealed);
                            assert(coords(work@ + more@) =~= cells + coords(more@));
                            assert(pairs(opened@) =~= record.push((cx as int, cy as int)));
                            lemma_opened_grows(
                                start,
                                x as int,
                                y as int,
                                now,
                                record,
                                cx as int,
                                cy as int,
                            );
                        }
                        work.append(&mut more);
                    },
                }
            }
            next += 1;
        }
        proof {
            lemma_flood_ends(start, x as int, y as int, self@, coords(work@));
            lemma_opened_ends(start, x as int, y as int, self@, pairs(opened@));
        }
        opened
    }
}

} // verus!
