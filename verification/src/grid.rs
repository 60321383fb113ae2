//! The board as it is stored, with the queries and updates the game needs.

use vstd::prelude::*;
use crate::board::{adjacent, lists_exactly, precedes, Board};
use crate::chance::draw_below;
use crate::square::{HiddenState, Square, SquareState};

verus! {

/// One row of cells.
pub type Row = Vec<Square>;

/// The size of a board: `x` rows of `y` cells.
#[derive(PartialEq, Eq, Structural, Clone, Copy, Debug)]
pub struct GridDimensions {
    pub x: usize,
    pub y: usize,
}

impl GridDimensions {
    /// The size of a board of `x` rows and `y` columns.
    pub fn new(x: usize, y: usize) -> (d: Self)
        ensures
            d.x == x,
            d.y == y,
    {
        Self { x, y }
    }
}

/// The cells of a board, row by row.
#[derive(Debug)]
pub struct Grid(Vec<Row>);

impl View for Grid {
    type V = Board;

    closed spec fn view(&self) -> Board {
        Board { cells: Seq::new(self.0@.len(), |x: int| self.0@[x]@) }
    }
}

/// The cells that a list of index pairs names.
pub open spec fn pairs(list: Seq<(usize, usize)>) -> Seq<(int, int)> {
    Seq::new(list.len(), |k: int| (list[k].0 as int, list[k].1 as int))
}

/// The cells that a list of two-element vectors names.
pub open spec fn coords(list: Seq<Vec<usize>>) -> Seq<(int, int)> {
    Seq::new(list.len(), |k: int| (list[k]@[0] as int, list[k]@[1] as int))
}

/// A layout of mines as a value: `layout(m)[x][y]` says whether the cell
/// in row `x`, column `y` holds one.
pub open spec fn layout(mines: Seq<Vec<bool>>) -> Seq<Seq<bool>> {
    Seq::new(mines.len(), |x: int| mines[x]@)
}

/// Whether a layout has at least one row and one column, and rows of one
/// length.
pub open spec fn rectangular(mines: Seq<Seq<bool>>) -> bool {
    &&& mines.len() >= 1
    &&& mines[0].len() >= 1
    &&& forall|x: int| 0 <= x < mines.len() ==> (#[trigger] mines[x]).len() == mines[0].len()
}

/// Of how many equally likely outcomes of a draw one lays a mine, unless
/// the caller chooses otherwise.
pub const MINE_ODDS: u32 = 6;

/// Whether a draw lays a mine: the outcome 0 does, and no other.
pub fn lays_mine(drawn: u32) -> (mine: bool)
    ensures
        mine == (drawn == 0),
{
    drawn == 0
}

impl Grid {
    /// A board of the given size with mines laid by chance: each cell gets a
    /// mine when a uniform draw from `0..MINE_ODDS` comes up 0.
    pub fn new(dimensions: GridDimensions) -> (grid: Self)
        requires
            dimensions.x >= 1,
            dimensions.y >= 1,
        ensures
            grid@.wf(),
            grid@.rows() == dimensions.x,
            grid@.cols() == dimensions.y,
            grid@.untouched(),
            grid@.counts_consistent(),
    {
        Self::generate(dimensions, MINE_ODDS)
    }

    /// A board of the given size with mines laid by chance: each cell gets a
    /// mine when a uniform draw from `0..odds` comes up 0, so with `odds` of 1
    /// every cell is mined. Which cells are mined is otherwise open; the
    /// counts agree with the mines whatever was drawn.
    pub fn generate(dimensions: GridDimensions, odds: u32) -> (grid: Self)
        requires
            dimensions.x >= 1,
            dimensions.y >= 1,
            odds >= 1,
        ensures
            grid@.wf(),
            grid@.rows() == dimensions.x,
            grid@.cols() == dimensions.y,
            grid@.untouched(),
            grid@.counts_consistent(),
            odds == 1 ==> forall|x: int, y: int|
                grid@.in_bounds(x, y) ==> (#[trigger] grid@.cells[x][y]).state == SquareState::Bomb,
    {
        let mut rng = rand::thread_rng();
        let mut mines: Vec<Vec<bool>> = Vec::new();
        let mut x: usize = 0;
        while x < dimensions.x
            invariant
                x <= dimensions.x,
                odds >= 1,
                mines.len() == x,
                forall|i: int| 0 <= i < x ==> (#[trigger] mines[i]).len() == dimensions.y,
                odds == 1 ==> forall|i: int, j: int|
                    0 <= i < x && 0 <= j < dimensions.y ==> #[trigger] mines[i][j],
            decreases dimensions.x - x,
        {
            let mut row: Vec<bool> = Vec::new();
            let mut y: usize = 0;
            while y < dimensions.y
                invariant
                    y <= dimensions.y,
                    odds >= 1,
                    row.len() == y,
                    odds == 1 ==> forall|j: int| 0 <= j < y ==> #[trigger] row[j],
                decreases dimensions.y - y,
            {
                let drawn = draw_below(&mut rng, odds);
                row.push(lays_mine(drawn));
                y += 1;
            }
            mines.push(row);
            x += 1;
        }
        match Self::from_mines(&mines) {
            Some(grid) => grid,
            None => vstd::pervasive::unreached(),
        }
    }

    /// The untouched board for a layout of mines, where `mines[x][y]` says
    /// whether the cell in row `x`, column `y` holds one: every cell hidden,
    /// and every cell without a mine clear or, with mines around it, their
    /// count. There is none for a layout without cells or with rows of
    /// different lengths.
    pub fn from_mines(mines: &Vec<Vec<bool>>) -> (made: Option<Self>)
        ensures
            made is Some <==> rectangular(layout(mines@)),
            made matches Some(grid) ==> grid@.wf() && grid@.laid_out(layout(mines@)),
    {
        let rows = mines.len();
        if rows == 0 || mines[0].len() == 0 {
            return None;
        }
        let cols = mines[0].len();
        let ghost plan = layout(mines@);
        let mut cells: Vec<Row> = Vec::new();
        let mut x: usize = 0;
        while x < rows
            invariant
                x <= rows,
                rows == mines.len(),
                rows >= 1,
                cols == mines[0].len(),
                cols >= 1,
                plan == layout(mines@),
                cells.len() == x,
                forall|i: int| 0 <= i < x ==> (#[trigger] plan[i]).len() == cols,
                forall|i: int| 0 <= i < x ==> (#[trigger] cells[i]).len() == cols,
                forall|i: int, j: int|
                    0 <= i < x && 0 <= j < cols ==> #[trigger] cells[i][j] == (Square {
                        revealed: HiddenState::Hidden,
                        selected: false,
                        state: if plan[i][j] {
                            SquareState::Bomb
                        } else {
                            SquareState::Clear
                        },
                    }),
            decreases rows - x,
        {
            if mines[x].len() != cols {
                return None;
            }
            let mut row: Row = Vec::new();
            let mut y: usize = 0;
            while y < cols
                invariant
                    y <= cols,
                    x < rows,
                    rows == mines.len(),
                    cols == mines[x as int].len(),
                    plan == layout(mines@),
                    row.len() == y,
                    forall|j: int|
                        0 <= j < y ==> #[trigger] row[j] == (Square {
                            revealed: HiddenState::Hidden,
                            selected: false,
                            state: if plan[x as int][j] {
                                SquareState::Bomb
                            } else {
                                SquareState::Clear
                            },
                        }),
                decreases cols - y,
            {
                let state = if mines[x][y] {
                    SquareState::Bomb
                } else {
                    SquareState::Clear
                };
                row.push(Square::new(HiddenState::Hidden, state));
                y += 1;
            }
            cells.push(row);
            x += 1;
        }
        let mut grid = Grid(cells);
        let mut x: usize = 0;
        while x < rows
            invariant
                x <= rows,
                rows == mines.len(),
                cols == mines[0].len(),
                plan == layout(mines@),
                rectangular(plan),
                grid@.wf(),
                grid@.rows() == rows,
                grid@.cols() == cols,
                grid@.untouched(),
                forall|i: int, j: int|
                    grid@.in_bounds(i, j) ==> ((#[trigger] grid@.cells[i][j]).state
                        == SquareState::Bomb) == plan[i][j],
                forall|i: int, j: int|
                    x <= i && grid@.in_bounds(i, j) ==> (#[trigger] grid@.cells[i][j]).state
                        != SquareState::Bomb ==> grid@.cells[i][j].state == SquareState::Clear,
                forall|i: int, j: int|
                    0 <= i < x && grid@.in_bounds(i, j) ==> #[trigger] grid@.count_agrees(i, j),
            decreases rows - x,
        {
            let mut y: usize = 0;
            while y < cols
                invariant
                    x < rows,
                    y <= cols,
                    rows == mines.len(),
                    cols == mines[0].len(),
                    plan == layout(mines@),
                    rectangular(plan),
                    grid@.wf(),
                    grid@.rows() == rows,
                    grid@.cols() == cols,
                    grid@.untouched(),
                    forall|i: int, j: int|
                        grid@.in_bounds(i, j) ==> ((#[trigger] grid@.cells[i][j]).state
                            == SquareState::Bomb) == plan[i][j],
                    forall|i: int, j: int|
                        (x < i || (i == x && y <= j)) && grid@.in_bounds(i, j) ==> (
                        #[trigger] grid@.cells[i][j]).state != SquareState::Bomb
                            ==> grid@.cells[i][j].state == SquareState::Clear,
                    forall|i: int, j: int|
                        (0 <= i < x || (i == x && 0 <= j < y)) && grid@.in_bounds(i, j)
                            ==> #[trigger] grid@.count_agrees(i, j),
                decreases cols - y,
            {
                let ghost before = grid@;
                let around = grid.mines_around(x, y);
                if around > 0 && grid.at(x, y).state == SquareState::Clear {
                    grid.set_state(x, y, SquareState::Count(around));
                }
                proof {
                    lemma_counts_keep(before, grid@);
                    assert forall|i: int, j: int|
                        (0 <= i < x || (i == x && 0 <= j < y + 1)) && grid@.in_bounds(
                            i,
                            j,
                        ) implies #[trigger] grid@.count_agrees(i, j) by {
                        if !(i == x && j == y) {
                            assert(before.count_agrees(i, j));
                        }
                    }
                }
                y += 1;
            }
            x += 1;
        }
        Some(grid)
    }

    /// Sets the content of the cell at `(x, y)`.
    fn set_state(&mut self, x: usize, y: usize, to: SquareState)
        requires
            old(self)@.in_bounds(x as int, y as int),
        ensures
            final(self)@.cells == old(self)@.cells.update(
                x as int,
                old(self)@.cells[x as int].update(
                    y as int,
                    Square { state: to, ..old(self)@.cells[x as int][y as int] },
                ),
            ),
    {
        self.0[x][y].state = to;
        assert(self@.cells =~~= old(self)@.cells.update(
            x as int,
            old(self)@.cells[x as int].update(
                y as int,
                Square { state: to, ..old(self)@.cells[x as int][y as int] },
            ),
        ));
    }

    /// The number of rows.
    pub fn rows(&self) -> (n: usize)
        ensures
            n == self@.rows(),
    {
        self.0.len()
    }

    /// The number of columns, taken from the first row.
    pub fn cols(&self) -> (n: usize)
        ensures
            n == self@.cols(),
    {
        if self.0.len() > 0 {
            self.0[0].len()
        } else {
            0
        }
    }

    /// The number of cells in row `x`.
    pub fn row_len(&self, x: usize) -> (n: usize)
        requires
            x < self@.rows(),
        ensures
            n == self@.cells[x as int].len(),
    {
        self.0[x].len()
    }

    /// Whether the board can be played on: it has a row and a column, and
    /// its rows are of one length.
    pub fn is_well_formed(&self) -> (b: bool)
        ensures
            b == self@.wf(),
    {
        let cols = self.cols();
        if cols == 0 {
            return false;
        }
        let mut x: usize = 0;
        while x < self.0.len()
            invariant
                x <= self.0.len(),
                cols == self@.cols(),
                forall|i: int| 0 <= i < x ==> (#[trigger] self@.cells[i]).len() == cols,
            decreases self.0.len() - x,
        {
            if self.0[x].len() != cols {
                assert(self@.cells[x as int].len() != cols);
                return false;
            }
            x += 1;
        }
        true
    }

    /// The cell at `(x, y)`.
    pub fn at(&self, x: usize, y: usize) -> (sq: Square)
        requires
            self@.in_bounds(x as int, y as int),
        ensures
            sq == self@.cells[x as int][y as int],
    {
        self.0[x][y]
    }

    /// The cell at `(x, y)`, if there is one.
    pub fn get(&self, x: usize, y: usize) -> (sq: Option<Square>)
        ensures
            sq is Some <==> self@.in_bounds(x as int, y as int),
            sq matches Some(s) ==> s == self@.cells[x as int][y as int],
    {
        if x < self.0.len() && y < self.0[x].len() {
            Some(self.0[x][y])
        } else {
            None
        }
    }

    /// The cells around `(x, y)` that exist, in reading order. The window of
    /// up to three rows and three columns is cut off at the edges of the
    /// board; `(x, y)` itself is left out.
    pub fn neighbours(&self, x: usize, y: usize) -> (list: Vec<(usize, usize)>)
        ensures
            lists_exactly(
                pairs(list@),
                |i: int, j: int| self@.neighbour(x as int, y as int, i, j),
            ),
    {
        let ghost wanted = |i: int, j: int| self@.neighbour(x as int, y as int, i, j);
        let rows = self.0.len();
        let x_lo = if x == 0 { 0 } else { x - 1 };
        let x_hi = if x < rows && x + 1 < rows { x + 2 } else { rows };
        let mut list: Vec<(usize, usize)> = Vec::new();
        let mut i = x_lo;
        while i < x_hi
            invariant
                rows == self.0.len(),
                x_lo == if x == 0 { 0 } else { x - 1 },
                x_hi == if x + 1 < rows { x + 2 } else { rows as int },
                x_lo <= i,
                i <= x_hi || i == x_lo,
                wanted == |i: int, j: int| self@.neighbour(x as int, y as int, i, j),
                forall|k: int|
                    0 <= k < list.len() ==> wanted(
                        (#[trigger] pairs(list@)[k]).0,
                        pairs(list@)[k].1,
                    ),
                forall|k: int| 0 <= k < list.len() ==> (#[trigger] pairs(list@)[k]).0 < i,
                forall|a: int, b: int|
                    #[trigger] wanted(a, b) && a < i ==> pairs(list@).contains((a, b)),
                forall|k1: int, k2: int|
                    0 <= k1 < k2 < list.len() ==> precedes(
                        #[trigger] pairs(list@)[k1],
                        #[trigger] pairs(list@)[k2],
                    ),
            decreases x_hi - i,
        {
            let len = self.0[i].len();
            let y_lo = if y == 0 { 0 } else { y - 1 };
            let y_hi = if y < len && y + 1 < len { y + 2 } else { len };
            let mut j = y_lo;
            while j < y_hi
                invariant
                    rows == self.0.len(),
                    x_lo <= i < x_hi,
                    x_lo == if x == 0 { 0 } else { x - 1 },
                    x_hi == if x + 1 < rows { x + 2 } else { rows as int },
                    len == self.0[i as int].len(),
                    y_lo == if y == 0 { 0 } else { y - 1 },
                    y_hi == if y + 1 < len { y + 2 } else { len as int },
                    y_lo <= j,
                    j <= y_hi || j == y_lo,
                    wanted == |i: int, j: int| self@.neighbour(x as int, y as int, i, j),
                    forall|k: int|
                        0 <= k < list.len() ==> wanted(
                            (#[trigger] pairs(list@)[k]).0,
                            pairs(list@)[k].1,
                        ),
                    forall|k: int|
                        0 <= k < list.len() ==> precedes(
                            #[trigger] pairs(list@)[k],
                            (i as int, j as int),
                        ),
                    forall|a: int, b: int|
                        #[trigger] wanted(a, b) && precedes((a, b), (i as int, j as int))
                            ==> pairs(list@).contains((a, b)),
                    forall|k1: int, k2: int|
                        0 <= k1 < k2 < list.len() ==> precedes(
                            #[trigger] pairs(list@)[k1],
                            #[trigger] pairs(list@)[k2],
                        ),
                decreases y_hi - j,
            {
                if !(i == x && j == y) {
                    let ghost before = pairs(list@);
                    list.push((i, j));
                    proof {
                        let after = pairs(list@);
                        assert(after =~= before.push((i as int, j as int)));
                        assert forall|a: int, b: int|
                            #[trigger] wanted(a, b) && precedes(
                                (a, b),
                                (i as int, j + 1),
                            ) implies after.contains((a, b)) by {
                            if precedes((a, b), (i as int, j as int)) {
                                let k = choose|k: int| 0 <= k < before.len() && before[k] == (a, b);
                                assert(after[k] == (a, b));
                            } else {
                                assert(after[before.len() as int] == (a, b));
                            }
                        }
                    }
                }
                j += 1;
            }
            i += 1;
        }
        list
    }

    /// How many of the cells around `(x, y)` hold a mine.
    pub fn mines_around(&self, x: usize, y: usize) -> (n: usize)
        ensures
            n == self@.mines_around(x as int, y as int),
            n <= 8,
    {
        let around = self.neighbours(x, y);
        let ghost cells = pairs(around@);
        let ghost wanted = |i: int, j: int| self@.neighbour(x as int, y as int, i, j);
        let mut n: usize = 0;
        let mut k: usize = 0;
        assert(mines_among(self@, cells, 0) =~= Set::empty());
        while k < around.len()
            invariant
                k <= around.len(),
                cells == pairs(around@),
                wanted == |i: int, j: int| self@.neighbour(x as int, y as int, i, j),
                lists_exactly(cells, wanted),
                mines_among(self@, cells, k as int).finite(),
                n == mines_among(self@, cells, k as int).len(),
                n <= k,
            decreases around.len() - k,
        {
            let (i, j) = around[k];
            proof {
                let here = cells[k as int];
                let before = mines_among(self@, cells, k as int);
                let after = mines_among(self@, cells, k + 1);
                if self@.is_mine(here.0, here.1) {
                    assert(after =~= before.insert(here));
                } else {
                    assert(after =~= before);
                }
            }
            if self.0[i][j].state == SquareState::Bomb {
                n += 1;
            }
            k += 1;
        }
        proof {
            let found = mines_among(self@, cells, k as int);
            let all = self@.mined_neighbours(x as int, y as int);
            assert forall|p: (int, int)| all.contains(p) implies found.contains(p) by {
                assert(wanted(p.0, p.1));
            }
            assert(found =~= all);
            lemma_window_size(cells, x as int, y as int);
        }
        n
    }

    /// The hidden cells around `(x, y)`, each as a vector of its row and its
    /// column, in reading order. Flagged and revealed cells are left out.
    pub fn get_adjacent_unrevealed_squares(&self, x: usize, y: usize) -> (list: Vec<Vec<usize>>)
        ensures
            forall|k: int| 0 <= k < list.len() ==> (#[trigger] list[k])@.len() == 2,
            lists_exactly(
                coords(list@),
                |i: int, j: int| self@.hidden_neighbour(x as int, y as int, i, j),
            ),
    {
        let around = self.neighbours(x, y);
        let ghost cells = pairs(around@);
        let ghost near = |i: int, j: int| self@.neighbour(x as int, y as int, i, j);
        let ghost wanted = |i: int, j: int| self@.hidden_neighbour(x as int, y as int, i, j);
        let mut list: Vec<Vec<usize>> = Vec::new();
        let mut k: usize = 0;
        while k < around.len()
            invariant
                k <= around.len(),
                cells == pairs(around@),
                near == |i: int, j: int| self@.neighbour(x as int, y as int, i, j),
                wanted == |i: int, j: int| self@.hidden_neighbour(x as int, y as int, i, j),
                lists_exactly(cells, near),
                forall|q: int| 0 <= q < list.len() ==> (#[trigger] list[q])@.len() == 2,
                forall|q: int|
                    0 <= q < list.len() ==> wanted(
                        (#[trigger] coords(list@)[q]).0,
                        coords(list@)[q].1,
                    ),
                forall|q: int, m: int|
                    0 <= q < list.len() && k <= m < cells.len() ==> precedes(
                        #[trigger] coords(list@)[q],
                        #[trigger] cells[m],
                    ),
                forall|m: int|
                    0 <= m < k && self@.is_hidden((#[trigger] cells[m]).0, cells[m].1)
                        ==> coords(list@).contains(cells[m]),
                forall|q1: int, q2: int|
                    0 <= q1 < q2 < list.len() ==> precedes(
                        #[trigger] coords(list@)[q1],
                        #[trigger] coords(list@)[q2],
                    ),
            decreases around.len() - k,
        {
            let (i, j) = around[k];
            let ghost before = coords(list@);
            proof {
                assert(near(cells[k as int].0, cells[k as int].1));
            }
            if self.0[i][j].revealed == HiddenState::Hidden {
                list.push(vec![i, j]);
                proof {
                    let after = coords(list@);
                    assert(after =~= before.push(cells[k as int]));
                    assert forall|m: int|
                        0 <= m < k + 1 && self@.is_hidden((#[trigger] cells[m]).0, cells[m].1)
                    implies after.contains(cells[m]) by {
                        if m < k {
                            let q = choose|q: int| 0 <= q < before.len() && before[q] == cells[m];
                            assert(after[q] == cells[m]);
                        } else {
                            assert(after[before.len() as int] == cells[m]);
                        }
                    }
                }
            }
            k += 1;
        }
        proof {
            let found = coords(list@);
            assert forall|i: int, j: int| #[trigger] wanted(i, j) implies found.contains(
                (i, j),
            ) by {
                assert(near(i, j));
            }
        }
        list
    }

    /// Sets the visibility of the cell at `(x, y)`.
    pub fn set_revealed(&mut self, x: usize, y: usize, to: HiddenState)
        requires
            old(self)@.in_bounds(x as int, y as int),
        ensures
            final(self)@ == old(self)@.set_revealed(x as int, y as int, to),
    {
        self.0[x][y].revealed = to;
        assert(self@.cells =~~= old(self)@.set_revealed(x as int, y as int, to).cells);
    }

    /// Sets the cursor marker of the cell at `(x, y)`.
    pub fn set_selected(&mut self, x: usize, y: usize, to: bool)
        requires
            old(self)@.in_bounds(x as int, y as int),
        ensures
            final(self)@ == old(self)@.set_selected(x as int, y as int, to),
    {
        self.0[x][y].selected = to;
        assert(self@.cells =~~= old(self)@.set_selected(x as int, y as int, to).cells);
    }

    /// The cell at `(x, y)`, open to change. What the caller leaves in it is
    /// what the board then holds there.
    pub fn square_mut(&mut self, x: usize, y: usize) -> (sq: &mut Square)
        requires
            old(self)@.in_bounds(x as int, y as int),
        ensures
            *sq == old(self)@.cells[x as int][y as int],
            final(self)@.cells == old(self)@.cells.update(
                x as int,
                old(self)@.cells[x as int].update(y as int, *final(sq)),
            ),
    {
        &mut self.0[x][y]
    }

    /// Reveals every cell, whatever it holds.
    pub fn reveal_all(&mut self)
        ensures
            final(self)@ == old(self)@.reveal_all(),
    {
        let mut x: usize = 0;
        while x < self.0.len()
            invariant
                x <= self.0.len(),
                self@.same_shape(old(self)@),
                forall|i: int, j: int|
                    0 <= i < x && self@.in_bounds(i, j) ==> #[trigger] self@.cells[i][j]
                        == old(self)@.reveal_all().cells[i][j],
                forall|i: int, j: int|
                    x <= i && self@.in_bounds(i, j) ==> #[trigger] self@.cells[i][j] == old(
                        self,
                    )@.cells[i][j],
            decreases self.0.len() - x,
        {
            let mut y: usize = 0;
            while y < self.0[x].len()
                invariant
                    x < self.0.len(),
                    y <= self.0[x as int].len(),
                    self@.same_shape(old(self)@),
                    forall|i: int, j: int|
                        (0 <= i < x || (i == x && 0 <= j < y)) && self@.in_bounds(i, j)
                            ==> #[trigger] self@.cells[i][j] == old(self)@.reveal_all().cells[i][j],
                    forall|i: int, j: int|
                        (x < i || (i == x && y <= j)) && self@.in_bounds(i, j)
                            ==> #[trigger] self@.cells[i][j] == old(self)@.cells[i][j],
                decreases self.0[x as int].len() - y,
            {
                self.set_revealed(x, y, HiddenState::Revealed);
                assert(self@.cells.len() == self.0.len());
                assert(self@.cells[x as int].len() == self.0[x as int].len());
                y += 1;
            }
            x += 1;
        }
        assert(self@.cells =~~= old(self)@.reveal_all().cells);
    }

    /// Whether every cell without a mine is revealed.
    pub fn all_safe_revealed(&self) -> (b: bool)
        ensures
            b == self@.all_safe_revealed(),
    {
        let mut x: usize = 0;
        while x < self.0.len()
            invariant
                x <= self.0.len(),
                forall|i: int, j: int|
                    0 <= i < x && self@.in_bounds(i, j) && (#[trigger] self@.cells[i][j]).state
                        != SquareState::Bomb ==> self@.cells[i][j].revealed
                        == HiddenState::Revealed,
            decreases self.0.len() - x,
        {
            let mut y: usize = 0;
            while y < self.0[x].len()
                invariant
                    x < self.0.len(),
                    y <= self.0[x as int].len(),
                    forall|i: int, j: int|
                        (0 <= i < x || (i == x && 0 <= j < y)) && self@.in_bounds(i, j) && (
                        #[trigger] self@.cells[i][j]).state != SquareState::Bomb
                            ==> self@.cells[i][j].revealed == HiddenState::Revealed,
                decreases self.0[x as int].len() - y,
            {
                let sq = self.0[x][y];
                if sq.state != SquareState::Bomb && sq.revealed != HiddenState::Revealed {
                    assert(self@.in_bounds(x as int, y as int));
                    return false;
                }
                y += 1;
            }
            x += 1;
        }
        true
    }
}

/// Two boards with mines in the same places have the same mines around
/// every cell.
proof fn lemma_counts_keep(a: Board, b: Board)
    requires
        a.same_shape(b),
        forall|x: int, y: int| a.is_mine(x, y) == b.is_mine(x, y),
    ensures
        forall|x: int, y: int| a.mines_around(x, y) == b.mines_around(x, y),
{
    assert forall|x: int, y: int| a.mines_around(x, y) == b.mines_around(x, y) by {
        assert(a.mined_neighbours(x, y) =~= b.mined_neighbours(x, y));
    }
}

/// The cells among the first `k` of `cells` that hold a mine.
spec fn mines_among(board: Board, cells: Seq<(int, int)>, k: int) -> Set<(int, int)> {
    Set::new(
        |p: (int, int)| board.is_mine(p.0, p.1) && exists|m: int| 0 <= m < k && cells[m] == p,
    )
}

/// A list of distinct cells around `(x, y)` has at most eight entries.
proof fn lemma_window_size(cells: Seq<(int, int)>, x: int, y: int)
    requires
        forall|k: int| 0 <= k < cells.len() ==> adjacent(x, y, (#[trigger] cells[k]).0, cells[k].1),
        forall|k1: int, k2: int|
            0 <= k1 < k2 < cells.len() ==> precedes(#[trigger] cells[k1], #[trigger] cells[k2]),
    ensures
        cells.len() <= 8,
{
    if cells.len() > 8 {
        // Nine entries in strictly rising order cannot all lie in a window
        // of three rows and three columns without its centre.
        let slot = |k: int| (cells[k].0 - x + 1) * 3 + (cells[k].1 - y + 1);
        assert(slot(0) < slot(1) < slot(2) < slot(3) < slot(4));
        assert(slot(4) < slot(5) < slot(6) < slot(7) < slot(8));
    }
}

} // verus!
