//! The mathematical model of a universe.

use vstd::prelude::*;
use vstd::arithmetic::div_mod::{lemma_fundamental_div_mod, lemma_fundamental_div_mod_converse};
use crate::cell::Cell;

verus! {

/// A grid of cells in row-major order, wrapped into a torus: the row above
/// the first is the last, and the column left of the first is the last.
pub struct Grid {
    pub width: nat,
    pub height: nat,
    pub cells: Seq<Cell>,
}

impl Grid {
    /// Both dimensions are positive and there is exactly one cell per position.
    pub open spec fn wf(self) -> bool {
        &&& self.width > 0
        &&& self.height > 0
        &&& self.cells.len() == self.width * self.height
    }

    /// `row` and `column` name a position of the grid.
    pub open spec fn in_bounds(self, row: int, column: int) -> bool {
        0 <= row < self.height && 0 <= column < self.width
    }

    /// The place of a position in the row-major cell sequence.
    pub open spec fn index_of(self, row: int, column: int) -> int {
        row * self.width + column
    }

    /// The cell at a position.
    pub open spec fn cell_at(self, row: int, column: int) -> Cell {
        self.cells[self.index_of(row, column)]
    }

    /// The cell that lies `delta_row` rows below and `delta_column` columns
    /// right of a position, going around the torus where the grid ends.
    pub open spec fn neighbor(self, row: int, column: int, delta_row: int, delta_column: int) -> Cell {
        self.cell_at(
            (row + delta_row) % (self.height as int),
            (column + delta_column) % (self.width as int),
        )
    }

    /// What the neighbor at the given offset adds to a live count: 1 if it is
    /// alive, 0 if it is dead.
    pub open spec fn live_at(self, row: int, column: int, delta_row: int, delta_column: int) -> int {
        self.neighbor(row, column, delta_row, delta_column).encoding() as int
    }

    /// The number of live cells among the eight neighbors of a position. On a
    /// grid with fewer than three rows or columns one cell fills several of
    /// the eight places and is counted once for each.
    pub open spec fn live_neighbor_count(self, row: int, column: int) -> int {
        self.live_at(row, column, -1, -1) + self.live_at(row, column, -1, 0)
            + self.live_at(row, column, -1, 1) + self.live_at(row, column, 0, -1)
            + self.live_at(row, column, 0, 1) + self.live_at(row, column, 1, -1)
            + self.live_at(row, column, 1, 0) + self.live_at(row, column, 1, 1)
    }

    /// The state that the cell at a position has in the next generation.
    pub open spec fn next_cell(self, row: int, column: int) -> Cell {
        self.cell_at(row, column).spec_next_state(self.live_neighbor_count(row, column))
    }

    /// The next generation: every cell follows the transition rule, each
    /// reading only this generation.
    pub open spec fn next(self) -> Grid {
        Grid {
            width: self.width,
            height: self.height,
            cells: Seq::new(
                self.cells.len(),
                |i: int| self.next_cell(i / (self.width as int), i % (self.width as int)),
            ),
        }
    }

    /// The cell buffer as bytes, one per cell.
    pub open spec fn encoded(self) -> Seq<u8> {
        Seq::new(self.cells.len(), |i: int| self.cells[i].encoding())
    }

    /// Every cell is dead.
    pub open spec fn all_dead(self) -> bool {
        forall|i: int| 0 <= i < self.cells.len() ==> self.cells[i] == Cell::Dead
    }
}

/// A position in bounds has its place inside the cell sequence, and the place
/// gives the position back.
pub proof fn lemma_index_of_position(grid: Grid, row: int, column: int)
    requires
        grid.wf(),
        grid.in_bounds(row, column),
    ensures
        0 <= grid.index_of(row, column) < grid.cells.len(),
        grid.index_of(row, column) / (grid.width as int) == row,
        grid.index_of(row, column) % (grid.width as int) == column,
{
    let w = grid.width as int;
    let h = grid.height as int;
    assert(0 <= row * w && row * w + w <= h * w) by (nonlinear_arith)
        requires
            0 <= row < h,
            0 < w,
    ;
    assert(row * w == w * row) by (nonlinear_arith);
    lemma_fundamental_div_mod_converse(row * w + column, w, row, column);
}

/// A place inside the cell sequence belongs to exactly one position in bounds.
pub proof fn lemma_position_of_index(grid: Grid, i: int)
    requires
        grid.wf(),
        0 <= i < grid.cells.len(),
    ensures
        grid.in_bounds(i / (grid.width as int), i % (grid.width as int)),
        grid.index_of(i / (grid.width as int), i % (grid.width as int)) == i,
{
    let w = grid.width as int;
    let h = grid.height as int;
    lemma_fundamental_div_mod(i, w);
    let q = i / w;
    assert(q * w == w * q) by (nonlinear_arith);
    assert(0 <= q < h) by (nonlinear_arith)
        requires
            0 < w,
            0 <= i < w * h,
            0 <= i - w * q < w,
    ;
}

/// On the torus, one step from a coordinate in `0..n` stays in `0..n`: the
/// step down from `n - 1` gives `0`, the step up from `0` gives `n - 1`.
/// Adding `n - 1` is the same as stepping up.
pub proof fn lemma_wrap(x: int, n: int)
    requires
        0 <= x < n,
    ensures
        (x + 0) % n == x,
        (x + 1) % n == if x + 1 == n { 0 } else { x + 1 },
        (x + -1) % n == if x == 0 { n - 1 } else { x - 1 },
        (x + (n - 1)) % n == (x + -1) % n,
{
    assert((x + 0) % n == x) by (nonlinear_arith)
        requires 0 <= x < n;
    assert((x + 1) % n == if x + 1 == n { 0 } else { x + 1 }) by (nonlinear_arith)
        requires 0 <= x < n;
    assert((x + -1) % n == if x == 0 { n - 1 } else { x - 1 }) by (nonlinear_arith)
        requires 0 <= x < n;
    assert((x + (n - 1)) % n == if x == 0 { n - 1 } else { x - 1 }) by (nonlinear_arith)
        requires 0 <= x < n;
}

} // verus!
