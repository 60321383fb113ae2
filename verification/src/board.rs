//! The mathematical model of a board: a grid of cells, the neighbour
//! relation on it, and what is counted and changed on it.

use vstd::prelude::*;
use crate::square::{HiddenState, Square, SquareState};

verus! {

/// Whether `(x2, y2)` is one of the up to eight cells around `(x1, y1)`:
/// next to it along a row, a column or a diagonal, and not the cell itself.
pub open spec fn adjacent(x1: int, y1: int, x2: int, y2: int) -> bool {
    &&& x1 - 1 <= x2 <= x1 + 1
    &&& y1 - 1 <= y2 <= y1 + 1
    &&& !(x1 == x2 && y1 == y2)
}

/// Whether `a` comes before `b` when cells are read row by row.
pub open spec fn precedes(a: (int, int), b: (int, int)) -> bool {
    a.0 < b.0 || (a.0 == b.0 && a.1 < b.1)
}

/// Whether `cells` lists each cell that `wanted` holds of, and no other,
/// once each and in reading order.
pub open spec fn lists_exactly(cells: Seq<(int, int)>, wanted: spec_fn(int, int) -> bool) -> bool {
    &&& forall|k: int| 0 <= k < cells.len() ==> wanted((#[trigger] cells[k]).0, cells[k].1)
    &&& forall|x: int, y: int| #[trigger] wanted(x, y) ==> cells.contains((x, y))
    &&& forall|k1: int, k2: int|
        0 <= k1 < k2 < cells.len() ==> precedes(#[trigger] cells[k1], #[trigger] cells[k2])
}

/// A board as a value: `cells[x][y]` is the cell in row `x`, column `y`.
pub struct Board {
    pub cells: Seq<Seq<Square>>,
}

impl Board {
    /// Whether `(x, y)` names a cell of the board.
    pub open spec fn in_bounds(self, x: int, y: int) -> bool {
        0 <= x < self.cells.len() && 0 <= y < self.cells[x].len()
    }

    /// The number of rows.
    pub open spec fn rows(self) -> nat {
        self.cells.len()
    }

    /// The number of columns, taken from the first row.
    pub open spec fn cols(self) -> nat {
        if self.cells.len() > 0 {
            self.cells[0].len()
        } else {
            0
        }
    }

    /// A playable board: at least one row and one column, and every row of
    /// the same length.
    pub open spec fn wf(self) -> bool {
        &&& self.rows() >= 1
        &&& self.cols() >= 1
        &&& forall|x: int|
            0 <= x < self.cells.len() ==> (#[trigger] self.cells[x]).len() == self.cols()
    }

    /// Whether `other` has the rows and row lengths of this board.
    pub open spec fn same_shape(self, other: Board) -> bool {
        &&& self.cells.len() == other.cells.len()
        &&& forall|x: int|
            0 <= x < self.cells.len() ==> (#[trigger] self.cells[x]).len() == other.cells[x].len()
    }

    /// Whether `other` has this board's shape and, cell by cell, its content.
    pub open spec fn same_content(self, other: Board) -> bool {
        &&& self.same_shape(other)
        &&& forall|x: int, y: int|
            self.in_bounds(x, y) ==> (#[trigger] self.cells[x][y]).state == other.cells[x][y].state
    }

    /// Whether there is a cell at `(x, y)` and it holds a mine.
    pub open spec fn is_mine(self, x: int, y: int) -> bool {
        self.in_bounds(x, y) && self.cells[x][y].state == SquareState::Bomb
    }

    /// Whether there is a cell at `(x, y)` and it is hidden.
    pub open spec fn is_hidden(self, x: int, y: int) -> bool {
        self.in_bounds(x, y) && self.cells[x][y].revealed == HiddenState::Hidden
    }

    /// Whether `(i, j)` is a cell of the board next to `(x, y)`.
    pub open spec fn neighbour(self, x: int, y: int, i: int, j: int) -> bool {
        adjacent(x, y, i, j) && self.in_bounds(i, j)
    }

    /// Whether `(i, j)` is a hidden cell of the board next to `(x, y)`.
    pub open spec fn hidden_neighbour(self, x: int, y: int, i: int, j: int) -> bool {
        adjacent(x, y, i, j) && self.is_hidden(i, j)
    }

    /// The mines around `(x, y)`: the cells next to it that hold one.
    pub open spec fn mined_neighbours(self, x: int, y: int) -> Set<(int, int)> {
        Set::new(|p: (int, int)| adjacent(x, y, p.0, p.1) && self.is_mine(p.0, p.1))
    }

    /// How many of the cells around `(x, y)` hold a mine.
    pub open spec fn mines_around(self, x: int, y: int) -> nat {
        self.mined_neighbours(x, y).len()
    }

    /// Whether the content of the cell at `(x, y)` agrees with the mines
    /// around it: a count is the number of those mines and is never zero,
    /// and a clear cell has none.
    pub open spec fn count_agrees(self, x: int, y: int) -> bool {
        match self.cells[x][y].state {
            SquareState::Bomb => true,
            SquareState::Clear => self.mines_around(x, y) == 0,
            SquareState::Count(n) => n > 0 && n == self.mines_around(x, y),
        }
    }

    /// Whether every cell's content agrees with the mines around it.
    pub open spec fn counts_consistent(self) -> bool {
        forall|x: int, y: int| self.in_bounds(x, y) ==> #[trigger] self.count_agrees(x, y)
    }

    /// Whether no cell has been touched: all are hidden and none carries the
    /// cursor marker.
    pub open spec fn untouched(self) -> bool {
        forall|x: int, y: int|
            self.in_bounds(x, y) ==> (#[trigger] self.cells[x][y]).revealed == HiddenState::Hidden
                && !self.cells[x][y].selected
    }

    /// Whether this is the untouched board for a layout of mines: it has the
    /// layout's shape, a mine exactly where the layout has one, and in every
    /// other cell the count of the mines around it.
    pub open spec fn laid_out(self, mines: Seq<Seq<bool>>) -> bool {
        &&& self.cells.len() == mines.len()
        &&& forall|x: int|
            0 <= x < self.cells.len() ==> (#[trigger] self.cells[x]).len() == mines[x].len()
        &&& forall|x: int, y: int|
            self.in_bounds(x, y) ==> ((#[trigger] self.cells[x][y]).state == SquareState::Bomb)
                == mines[x][y]
        &&& self.untouched()
        &&& self.counts_consistent()
    }

    /// The board with the visibility of the cell at `(x, y)` set to `to`.
    pub open spec fn set_revealed(self, x: int, y: int, to: HiddenState) -> Board
        recommends
            self.in_bounds(x, y),
    {
        Board {
            cells: self.cells.update(
                x,
                self.cells[x].update(y, Square { revealed: to, ..self.cells[x][y] }),
            ),
        }
    }

    /// The board with the cursor marker of the cell at `(x, y)` set to `to`.
    pub open spec fn set_selected(self, x: int, y: int, to: bool) -> Board
        recommends
            self.in_bounds(x, y),
    {
        Board {
            cells: self.cells.update(
                x,
                self.cells[x].update(y, Square { selected: to, ..self.cells[x][y] }),
            ),
        }
    }

    /// The board with every cell revealed, whatever it holds.
    pub open spec fn reveal_all(self) -> Board {
        Board {
            cells: Seq::new(
                self.cells.len(),
                |x: int|
                    Seq::new(
                        self.cells[x].len(),
                        |y: int| Square { revealed: HiddenState::Revealed, ..self.cells[x][y] },
                    ),
            ),
        }
    }

    /// How many cells are hidden.
    pub open spec fn hidden_count(self) -> nat {
        hidden_in_rows(self.cells)
    }

    /// Whether every cell without a mine is revealed: the winning position.
    pub open spec fn all_safe_revealed(self) -> bool {
        forall|x: int, y: int|
            self.in_bounds(x, y) && (#[trigger] self.cells[x][y]).state != SquareState::Bomb
                ==> self.cells[x][y].revealed == HiddenState::Revealed
    }
}

/// How many cells of a row are hidden.
pub open spec fn hidden_in_row(row: Seq<Square>) -> nat
    decreases row.len(),
{
    if row.len() == 0 {
        0
    } else {
        hidden_in_row(row.drop_last()) + if row.last().revealed == HiddenState::Hidden {
            1nat
        } else {
            0nat
        }
    }
}

/// How many cells of a sequence of rows are hidden.
pub open spec fn hidden_in_rows(rows: Seq<Seq<Square>>) -> nat
    decreases rows.len(),
{
    if rows.len() == 0 {
        0
    } else {
        hidden_in_rows(rows.drop_last()) + hidden_in_row(rows.last())
    }
}

/// Taking a hidden cell of a row out of hiding leaves one hidden cell fewer.
proof fn lemma_row_unhide(row: Seq<Square>, y: int, to: HiddenState)
    requires
        0 <= y < row.len(),
        row[y].revealed == HiddenState::Hidden,
        to != HiddenState::Hidden,
    ensures
        hidden_in_row(row.update(y, Square { revealed: to, ..row[y] })) + 1 == hidden_in_row(row),
    decreases row.len(),
{
    let changed = row.update(y, Square { revealed: to, ..row[y] });
    if y == row.len() - 1 {
        assert(changed.drop_last() =~= row.drop_last());
    } else {
        lemma_row_unhide(row.drop_last(), y, to);
        assert(changed.drop_last() =~= row.drop_last().update(
            y,
            Square { revealed: to, ..row[y] },
        ));
    }
}

/// Replacing a row by one with one hidden cell fewer leaves one hidden cell
/// fewer in all.
proof fn lemma_rows_unhide(rows: Seq<Seq<Square>>, x: int, row: Seq<Square>)
    requires
        0 <= x < rows.len(),
        hidden_in_row(row) + 1 == hidden_in_row(rows[x]),
    ensures
        hidden_in_rows(rows.update(x, row)) + 1 == hidden_in_rows(rows),
    decreases rows.len(),
{
    let changed = rows.update(x, row);
    if x == rows.len() - 1 {
        assert(changed.drop_last() =~= rows.drop_last());
    } else {
        lemma_rows_unhide(rows.drop_last(), x, row);
        assert(changed.drop_last() =~= rows.drop_last().update(x, row));
    }
}

/// Taking a hidden cell out of hiding leaves one hidden cell fewer.
pub proof fn lemma_unhide(board: Board, x: int, y: int, to: HiddenState)
    requires
        board.is_hidden(x, y),
        to != HiddenState::Hidden,
    ensures
        board.set_revealed(x, y, to).hidden_count() + 1 == board.hidden_count(),
{
    lemma_row_unhide(board.cells[x], y, to);
    lemma_rows_unhide(
        board.cells,
        x,
        board.cells[x].update(y, Square { revealed: to, ..board.cells[x][y] }),
    );
}

} // verus!
