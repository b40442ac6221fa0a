//! A rectangular domain cut into rows and columns, and the walk over its cells.
use vstd::prelude::*;
use vstd::arithmetic::div_mod::lemma_fundamental_div_mod_converse;
use crate::fixed::{lemma_trunc_div_bounds, trunc_div};

verus! {

/// The error of a grid that has no row or no column.
#[derive(Clone, Copy, Debug, PartialEq, Eq)]
pub struct InvalidConfiguration;

/// A rectangular domain partitioned into `rows` times `cols` cells.
#[derive(Clone, Copy, Debug, PartialEq, Eq)]
pub struct Grid {
    x_min: i64,
    x_max: i64,
    y_min: i64,
    y_max: i64,
    rows: usize,
    cols: usize,
}

/// A cursor over the cells of a [`Grid`], row by row.
#[derive(Clone, Copy, Debug)]
pub struct GridIterator {
    grid: Grid,
    x: i128,
    y: i128,
    x_step: i128,
    y_step: i128,
    row: usize,
    col: usize,
}

/// `c` steps of an extent cut into `parts` equal steps stay within the extent.
proof fn lemma_step_span(extent: int, parts: int, c: int)
    requires
        parts > 0,
        0 <= c <= parts,
    ensures
        extent >= 0 ==> 0 <= c * trunc_div(extent, parts) <= extent,
        extent <= 0 ==> extent <= c * trunc_div(extent, parts) <= 0,
{
    let q = trunc_div(extent, parts);
    lemma_trunc_div_bounds(extent, parts);
    if extent >= 0 {
        assert(0 <= c * q <= q * parts) by (nonlinear_arith)
            requires
                0 <= c <= parts,
                0 <= q,
        ;
    } else {
        assert(q * parts <= c * q <= 0) by (nonlinear_arith)
            requires
                0 <= c <= parts,
                q <= 0,
        ;
    }
}

impl Grid {
    pub closed spec fn x_min(&self) -> int {
        self.x_min as int
    }

    pub closed spec fn x_max(&self) -> int {
        self.x_max as int
    }

    pub closed spec fn y_min(&self) -> int {
        self.y_min as int
    }

    pub closed spec fn y_max(&self) -> int {
        self.y_max as int
    }

    pub closed spec fn rows(&self) -> nat {
        self.rows as nat
    }

    pub closed spec fn cols(&self) -> nat {
        self.cols as nat
    }

    /// The grid has at least one row and one column.
    pub open spec fn wf(&self) -> bool {
        self.rows() > 0 && self.cols() > 0
    }

    #[verifier::type_invariant]
    spec fn inv(&self) -> bool {
        self.wf()
    }

    /// The width of a cell.
    pub open spec fn x_step(&self) -> int {
        trunc_div(self.x_max() - self.x_min(), self.cols() as int)
    }

    /// The height of a cell.
    pub open spec fn y_step(&self) -> int {
        trunc_div(self.y_max() - self.y_min(), self.rows() as int)
    }

    /// The number of cells.
    pub open spec fn count(&self) -> nat {
        self.rows() * self.cols()
    }

    /// The origin of the cell in row `row` and column `col`: its corner
    /// nearest to `(x_min, y_min)`.
    pub open spec fn point_at(&self, row: int, col: int) -> (int, int) {
        (self.x_min() + col * self.x_step(), self.y_min() + row * self.y_step())
    }

    /// The origin of the `k`-th cell in row-major order.
    pub open spec fn point(&self, k: int) -> (int, int) {
        self.point_at(k / (self.cols() as int), k % (self.cols() as int))
    }

    /// The origins of all cells in row-major order.
    pub open spec fn points_spec(&self) -> Seq<(int, int)> {
        Seq::new(self.count(), |k: int| self.point(k))
    }

    /// Every cell origin lies between the grid's bounds, on both axes.
    pub proof fn lemma_point_in_bounds(&self, row: int, col: int)
        requires
            self.wf(),
            0 <= row <= self.rows(),
            0 <= col <= self.cols(),
        ensures
            self.x_min() <= self.x_max() ==> self.x_min() <= self.point_at(row, col).0
                <= self.x_max(),
            self.x_max() <= self.x_min() ==> self.x_max() <= self.point_at(row, col).0
                <= self.x_min(),
            self.y_min() <= self.y_max() ==> self.y_min() <= self.point_at(row, col).1
                <= self.y_max(),
            self.y_max() <= self.y_min() ==> self.y_max() <= self.point_at(row, col).1
                <= self.y_min(),
            i64::MIN <= self.point_at(row, col).0 <= i64::MAX,
            i64::MIN <= self.point_at(row, col).1 <= i64::MAX,
    {
        lemma_step_span(self.x_max() - self.x_min(), self.cols() as int, col);
        lemma_step_span(self.y_max() - self.y_min(), self.rows() as int, row);
    }

    /// Builds the partition of `[x_min, x_max] x [y_min, y_max]` into `rows`
    /// times `cols` cells; one without a row or without a column is refused.
    pub fn new(x_min: i64, x_max: i64, y_min: i64, y_max: i64, rows: usize, cols: usize) -> (r:
        Result<Grid, InvalidConfiguration>)
        ensures
            r is Err <==> rows == 0 || cols == 0,
            r matches Ok(g) ==> {
                &&& g.wf()
                &&& g.x_min() == x_min
                &&& g.x_max() == x_max
                &&& g.y_min() == y_min
                &&& g.y_max() == y_max
                &&& g.rows() == rows
                &&& g.cols() == cols
            },
    {
        if rows == 0 || cols == 0 {
            Err(InvalidConfiguration)
        } else {
            Ok(Grid { x_min, x_max, y_min, y_max, rows, cols })
        }
    }

    /// Starts a fresh walk at the first cell.
    pub fn iter(&self) -> (it: GridIterator)
        ensures
            self.wf(),
            it.wf(),
            it.grid() == *self,
            it.index() == 0,
            it.remaining() == self.points_spec(),
    {
        proof {
            use_type_invariant(self);
        }
        let x_step = (self.x_max as i128 - self.x_min as i128) / (self.cols as i128);
        let y_step = (self.y_max as i128 - self.y_min as i128) / (self.rows as i128);
        assert(0 * x_step == 0 && 0 * y_step == 0 && 0 * (self.cols as int) == 0);
        assert(self.points_spec().skip(0) =~= self.points_spec());
        GridIterator {
            grid: *self,
            x: self.x_min as i128,
            y: self.y_min as i128,
            x_step,
            y_step,
            row: 0,
            col: 0,
        }
    }

    /// Walks the whole grid and collects the cell origins in row-major order.
    pub fn points(&self) -> (v: Vec<(i64, i64)>)
        ensures
            self.wf(),
            v@.len() == self.count(),
            forall|k: int|
                0 <= k < v@.len() ==> (#[trigger] v@[k].0 as int, v@[k].1 as int) == self.point(k),
    {
        let mut it = self.iter();
        let mut v: Vec<(i64, i64)> = Vec::new();
        loop
            invariant
                it.wf(),
                it.grid() == *self,
                v@.len() == it.index(),
                forall|k: int|
                    0 <= k < v@.len() ==> (#[trigger] v@[k].0 as int, v@[k].1 as int)
                        == self.point(k),
            ensures
                v@.len() == self.count(),
            decreases self.count() - it.index(),
        {
            proof {
                it.lemma_index_bounded();
            }
            match it.next() {
                Some(p) => {
                    v.push(p);
                },
                None => {
                    break ;
                },
            }
        }
        v
    }
}

impl GridIterator {
    /// The grid that is walked.
    pub closed spec fn grid(&self) -> Grid {
        self.grid
    }

    /// The number of cells that the walk has left behind.
    pub closed spec fn index(&self) -> nat {
        (self.row * self.grid.cols + self.col) as nat
    }

    /// The cursor stands on a cell of its grid, or behind the last one.
    #[verifier::type_invariant]
    pub closed spec fn wf(&self) -> bool {
        &&& self.grid.wf()
        &&& self.x_step == self.grid.x_step()
        &&& self.y_step == self.grid.y_step()
        &&& self.row <= self.grid.rows
        &&& self.col < self.grid.cols
        &&& (self.row == self.grid.rows ==> self.col == 0)
        &&& self.x == self.grid.x_min + self.col * self.x_step
        &&& self.y == self.grid.y_min + self.row * self.y_step
    }

    /// The cells that the walk has yet to yield.
    pub open spec fn remaining(&self) -> Seq<(int, int)> {
        self.grid().points_spec().skip(self.index() as int)
    }

    /// A walk never leaves more cells behind than its grid has, and the
    /// cells ahead and behind make up the grid.
    pub proof fn lemma_index_bounded(&self)
        requires
            self.wf(),
        ensures
            self.index() <= self.grid().count(),
            self.remaining().len() == self.grid().count() - self.index(),
    {
        self.lemma_position();
    }

    /// Relates the cursor's row and column to its index.
    proof fn lemma_position(&self)
        requires
            self.wf(),
        ensures
            self.index() == self.row * self.grid.cols + self.col,
            self.row < self.grid.rows <==> self.index() < self.grid.count(),
            self.index() <= self.grid.count(),
            (self.index() as int) / (self.grid.cols as int) == self.row,
            (self.index() as int) % (self.grid.cols as int) == self.col,
    {
        let row = self.row as int;
        let col = self.col as int;
        let rows = self.grid.rows as int;
        let cols = self.grid.cols as int;
        assert(row * cols >= 0) by (nonlinear_arith)
            requires
                row >= 0,
                cols >= 0,
        ;
        if row < rows {
            assert(row * cols + cols <= rows * cols) by (nonlinear_arith)
                requires
                    row + 1 <= rows,
                    cols >= 0,
            ;
        }
        lemma_fundamental_div_mod_converse(row * cols + col, cols, row, col);
    }

    /// Yields the origin of the cell under the cursor and moves on to the
    /// next cell of the row, or to the first cell of the next row; yields
    /// nothing once every cell has been yielded.
    pub fn next(&mut self) -> (r: Option<(i64, i64)>)
        ensures
            final(self).wf(),
            final(self).grid() == old(self).grid(),
            old(self).remaining().len() > 0 ==> {
                &&& r matches Some(p)
                &&& (p.0 as int, p.1 as int) == old(self).remaining()[0]
                &&& old(self).remaining()[0] == old(self).grid().point(old(self).index() as int)
                &&& final(self).remaining() == old(self).remaining().skip(1)
                &&& final(self).index() == old(self).index() + 1
            },
            old(self).remaining().len() == 0 ==> r is None && *final(self) == *old(self),
    {
        proof {
            use_type_invariant(&*self);
            self.lemma_position();
        }
        if self.row >= self.grid.rows {
            return None;
        }
        let ghost before = *self;
        let ghost row = self.row as int;
        let ghost col = self.col as int;
        let ghost cols = self.grid.cols as int;
        proof {
            self.grid.lemma_point_in_bounds(row, col);
            self.grid.lemma_point_in_bounds(row + 1, col + 1);
            self.grid.lemma_point_in_bounds(row, cols);
            assert((col + 1) * self.x_step == col * self.x_step + self.x_step)
                by (nonlinear_arith);
            assert((row + 1) * self.y_step == row * self.y_step + self.y_step)
                by (nonlinear_arith);
            assert(self.x_step * cols == cols * self.x_step) by (nonlinear_arith);
            assert((row + 1) * cols + 0 == row * cols + col + 1 <==> col + 1 == cols)
                by (nonlinear_arith);
            assert(0 * self.x_step == 0);
        }
        let point = (self.x as i64, self.y as i64);
        let mut x = self.x + self.x_step;
        let mut y = self.y;
        let mut row = self.row;
        let mut col = self.col + 1;
        if col >= self.grid.cols {
            col = 0;
            x = x - self.x_step * (self.grid.cols as i128);
            y = y + self.y_step;
            row = row + 1;
        }
        *self = GridIterator {
            grid: self.grid,
            x,
            y,
            x_step: self.x_step,
            y_step: self.y_step,
            row,
            col,
        };
        proof {
            assert(self.index() == before.index() + 1);
            assert(self.remaining() =~= before.remaining().skip(1));
        }
        Some(point)
    }
}

} // verus!
