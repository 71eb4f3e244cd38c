//! The weighted grid: a rectangular table of visit counts.
//!
//! The table itself is an `ndarray::Array2<i32>`. Verus cannot look inside
//! it, so the functions that touch the array directly are trusted; everything
//! else in this module is proved from their contracts.

use vstd::prelude::*;

verus! {

/// A cell of the grid: row first, then column.
pub type Position = (usize, usize);

/// A non-empty rectangular table of weights.
///
/// The array is hidden from the verifier; [`grid_cells`] stands for what it
/// holds.
#[verifier::external_body]
pub struct Grid {
    cells: ndarray::Array2<i32>,
}

/// The rows of the table, top to bottom, each row left to right.
pub uninterp spec fn grid_cells(g: Grid) -> Seq<Seq<int>>;

/// Why a table of weights could not become a grid.
#[derive(Clone, Copy, PartialEq, Eq, Structural, Debug)]
pub enum GridError {
    /// There is no row, or the first row has no column.
    Empty,
    /// The weights would take more bytes than one allocation can have.
    TooLarge,
}

/// Whether `rows` by `cols` weights of four bytes each fit one allocation.
pub open spec fn fits_memory(rows: nat, cols: nat) -> bool {
    rows * cols * 4 <= isize::MAX
}

/// A table is rectangular when it has a cell and all rows are equally long.
pub open spec fn rectangular(cells: Seq<Seq<int>>) -> bool {
    &&& cells.len() >= 1
    &&& cells[0].len() >= 1
    &&& forall|r: int| 0 <= r < cells.len() ==> (#[trigger] cells[r]).len() == cells[0].len()
}

/// Whether `pos` names a cell of `cells`.
pub open spec fn in_bounds(cells: Seq<Seq<int>>, pos: Position) -> bool {
    pos.0 < cells.len() && pos.1 < cells[0].len()
}

/// The weight at `pos`.
pub open spec fn weight_at(cells: Seq<Seq<int>>, pos: Position) -> int {
    cells[pos.0 as int][pos.1 as int]
}

/// `cells` with the weight at `pos` replaced by `w`.
pub open spec fn with_weight(cells: Seq<Seq<int>>, pos: Position, w: int) -> Seq<Seq<int>> {
    cells.update(pos.0 as int, cells[pos.0 as int].update(pos.1 as int, w))
}

/// `cells` after one more visit to `pos`.
pub open spec fn visited(cells: Seq<Seq<int>>, pos: Position) -> Seq<Seq<int>> {
    with_weight(cells, pos, weight_at(cells, pos) + 1)
}

/// The weights that rows of numbers stand for.
pub open spec fn weights_of(rows: Seq<Vec<i32>>) -> Seq<Seq<int>> {
    Seq::new(rows.len(), |i: int| Seq::new(rows[i]@.len(), |j: int| rows[i]@[j] as int))
}

/// Rows cut or filled with zeros to the length of the first row.
pub open spec fn squared(rows: Seq<Seq<int>>) -> Seq<Seq<int>> {
    Seq::new(
        rows.len(),
        |i: int| Seq::new(rows[0].len(), |j: int| if j < rows[i].len() { rows[i][j] } else { 0 }),
    )
}

/// `Array2::zeros`: a table of `rows` by `cols` zeros. The outside function
/// panics when the number of cells overflows `isize`, and the vector it
/// fills panics when their bytes do; `requires` rules both out.
#[verifier::external_body]
fn raw_zeros(rows: usize, cols: usize) -> (g: Grid)
    requires
        rows >= 1,
        cols >= 1,
        fits_memory(rows as nat, cols as nat),
    ensures
        grid_cells(g) == Seq::new(rows as nat, |r: int| Seq::new(cols as nat, |c: int| 0int)),
{
    Grid { cells: ndarray::Array2::zeros((rows, cols)) }
}

/// `Array2::nrows`: the number of rows.
#[verifier::external_body]
fn raw_rows(g: &Grid) -> (n: usize)
    ensures
        n == grid_cells(*g).len(),
{
    g.cells.nrows()
}

/// `Array2::ncols`: the number of columns, which is the length of every row.
#[verifier::external_body]
fn raw_cols(g: &Grid) -> (n: usize)
    ensures
        forall|r: int| 0 <= r < grid_cells(*g).len() ==> (#[trigger] grid_cells(*g)[r]).len() == n,
{
    g.cells.ncols()
}

/// Indexing an `Array2` by a pair: the weight in row `r`, column `c`. The
/// outside function panics outside the table, which `requires` rules out.
#[verifier::external_body]
fn raw_get(g: &Grid, r: usize, c: usize) -> (w: i32)
    requires
        r < grid_cells(*g).len(),
        c < grid_cells(*g)[r as int].len(),
    ensures
        w == grid_cells(*g)[r as int][c as int],
{
    g.cells[(r, c)]
}

/// Assigning through an `Array2` index: the cell in row `r`, column `c`
/// becomes `w` and no other cell changes. The outside function panics outside
/// the table, which `requires` rules out.
#[verifier::external_body]
fn raw_set(g: &mut Grid, r: usize, c: usize, w: i32)
    requires
        r < grid_cells(*old(g)).len(),
        c < grid_cells(*old(g))[r as int].len(),
    ensures
        grid_cells(*final(g)) == with_weight(grid_cells(*old(g)), (r, c), w as int),
{
    g.cells[(r, c)] = w;
}

/// `Array2::clone`: a second table with the same shape and weights.
#[verifier::external_body]
fn raw_clone(g: &Grid) -> (copy: Grid)
    ensures
        grid_cells(copy) == grid_cells(*g),
{
    Grid { cells: g.cells.clone() }
}

impl View for Grid {
    type V = Seq<Seq<int>>;

    open spec fn view(&self) -> Seq<Seq<int>> {
        grid_cells(*self)
    }
}

impl Grid {
    /// Every grid that this module hands out is rectangular.
    pub open spec fn wf(&self) -> bool {
        rectangular(self@)
    }

    /// Builds a grid from rows of weights. The first row fixes the width:
    /// longer rows are cut, shorter ones filled with zeros.
    pub fn from_rows(rows: &Vec<Vec<i32>>) -> (res: Result<Grid, GridError>)
        ensures
            match res {
                Ok(g) => {
                    &&& rows.len() >= 1
                    &&& rows[0].len() >= 1
                    &&& fits_memory(rows@.len(), rows[0]@.len())
                    &&& g.wf()
                    &&& g@ == squared(weights_of(rows@))
                },
                Err(GridError::Empty) => rows.len() == 0 || rows[0].len() == 0,
                Err(GridError::TooLarge) => {
                    &&& rows.len() >= 1
                    &&& rows[0].len() >= 1
                    &&& !fits_memory(rows@.len(), rows[0]@.len())
                },
            },
    {
        let n: usize = rows.len();
        if n == 0 {
            return Err(GridError::Empty);
        }
        let m: usize = rows[0].len();
        if m == 0 {
            return Err(GridError::Empty);
        }
        match n.checked_mul(m) {
            None => {
                return Err(GridError::TooLarge);
            },
            Some(cells) => {
                if cells > isize::MAX as usize / 4 {
                    return Err(GridError::TooLarge);
                }
            },
        }
        let ghost want = squared(weights_of(rows@));
        let mut g = raw_zeros(n, m);
        let mut i: usize = 0;
        while i < n
            invariant
                i <= n,
                n == rows.len(),
                m == rows[0].len(),
                m >= 1,
                want == squared(weights_of(rows@)),
                g@.len() == n,
                forall|r: int| 0 <= r < n ==> (#[trigger] g@[r]).len() == m,
                forall|r: int| 0 <= r < i ==> #[trigger] g@[r] == want[r],
            decreases n - i,
        {
            let row = &rows[i];
            let mut j: usize = 0;
            while j < m
                invariant
                    i < n,
                    j <= m,
                    n == rows.len(),
                    m == rows[0].len(),
                    row == rows[i as int],
                    want == squared(weights_of(rows@)),
                    g@.len() == n,
                    forall|r: int| 0 <= r < n ==> (#[trigger] g@[r]).len() == m,
                    forall|r: int| 0 <= r < i ==> #[trigger] g@[r] == want[r],
                    forall|c: int| 0 <= c < j ==> #[trigger] g@[i as int][c] == want[i as int][c],
                decreases m - j,
            {
                let w: i32 = if j < row.len() { row[j] } else { 0 };
                raw_set(&mut g, i, j, w);
                j = j + 1;
            }
            assert(g@[i as int] =~= want[i as int]);
            i = i + 1;
        }
        assert(g@ =~= want);
        Ok(g)
    }

    /// The number of rows.
    pub fn rows(&self) -> (n: usize)
        requires
            self.wf(),
        ensures
            n == self@.len(),
            n >= 1,
    {
        raw_rows(self)
    }

    /// The number of columns.
    pub fn cols(&self) -> (n: usize)
        requires
            self.wf(),
        ensures
            n == self@[0].len(),
            n >= 1,
    {
        raw_cols(self)
    }

    /// Whether `pos` names a cell of this grid.
    pub fn contains(&self, pos: Position) -> (b: bool)
        requires
            self.wf(),
        ensures
            b == in_bounds(self@, pos),
    {
        pos.0 < self.rows() && pos.1 < self.cols()
    }

    /// The weight at `pos`.
    pub fn get(&self, pos: Position) -> (w: i32)
        requires
            self.wf(),
            in_bounds(self@, pos),
        ensures
            w == weight_at(self@, pos),
    {
        raw_get(self, pos.0, pos.1)
    }

    /// Records one more visit to `pos`: its weight grows by one and no other
    /// weight changes.
    pub fn increment(&mut self, pos: Position)
        requires
            old(self).wf(),
            in_bounds(old(self)@, pos),
            weight_at(old(self)@, pos) < i32::MAX,
        ensures
            final(self).wf(),
            final(self)@ == visited(old(self)@, pos),
    {
        let w = raw_get(self, pos.0, pos.1);
        raw_set(self, pos.0, pos.1, w + 1);
    }

    /// The largest weight in the grid: the weight of some cell, and no
    /// cell is heavier.
    pub fn max_weight(&self) -> (best: i32)
        requires
            self.wf(),
        ensures
            forall|p: Position| in_bounds(self@, p) ==> #[trigger] weight_at(self@, p) <= best,
            exists|p: Position| in_bounds(self@, p) && #[trigger] weight_at(self@, p) == best,
    {
        let n: usize = self.rows();
        let m: usize = self.cols();
        let mut best: i32 = raw_get(self, 0, 0);
        let ghost mut at: Position = (0usize, 0usize);
        let mut i: usize = 0;
        while i < n
            invariant
                self.wf(),
                i <= n,
                n == self@.len(),
                m == self@[0].len(),
                in_bounds(self@, at),
                weight_at(self@, at) == best,
                forall|p: Position| p.0 < i && in_bounds(self@, p) ==> #[trigger] weight_at(self@, p) <= best,
            decreases n - i,
        {
            let mut j: usize = 0;
            while j < m
                invariant
                    self.wf(),
                    i < n,
                    j <= m,
                    n == self@.len(),
                    m == self@[0].len(),
                    in_bounds(self@, at),
                    weight_at(self@, at) == best,
                    forall|p: Position|
                        p.0 < i && in_bounds(self@, p) ==> #[trigger] weight_at(self@, p) <= best,
                    forall|p: Position|
                        p.0 == i && p.1 < j ==> #[trigger] weight_at(self@, p) <= best,
                decreases m - j,
            {
                let w = raw_get(self, i, j);
                if w > best {
                    best = w;
                    proof {
                        at = (i, j);
                    }
                }
                j = j + 1;
            }
            i = i + 1;
        }
        best
    }
}

impl Clone for Grid {
    fn clone(&self) -> (copy: Grid)
        ensures
            copy@ == self@,
    {
        raw_clone(self)
    }
}

} // verus!
