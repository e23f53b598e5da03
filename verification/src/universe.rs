//! The executable universe: a cell buffer of fixed dimensions and its
//! generation step.

use vstd::prelude::*;
use crate::cell::Cell;
use crate::grid::{Grid, lemma_index_of_position, lemma_wrap};

verus! {

/// Why a universe could not be made.
#[derive(Clone, Copy, Debug, PartialEq, Eq, Structural)]
pub enum UniverseError {
    /// The width or the height was zero.
    InvalidDimensions,
}

/// A toroidal grid of cells. The dimensions are fixed when it is made; the
/// buffer holds one byte per cell, row by row.
pub struct Universe {
    width: u32,
    height: u32,
    cells: Vec<u8>,
}

impl View for Universe {
    type V = Grid;

    closed spec fn view(&self) -> Grid {
        Grid {
            width: self.width as nat,
            height: self.height as nat,
            cells: Seq::new(self.cells@.len(), |i: int| Cell::decoding(self.cells@[i])),
        }
    }
}

impl Universe {
    #[verifier::type_invariant]
    spec fn inv(&self) -> bool {
        &&& self.width > 0
        &&& self.height > 0
        &&& self.cells@.len() == self.width * self.height
        &&& forall|i: int| 0 <= i < self.cells@.len() ==> self.cells@[i] <= 1
    }

    /// The live count over those of the nine places around a position, taken
    /// row by row, that come before place `done`; the center is left out.
    spec fn live_count_before(grid: Grid, row: int, column: int, done: int) -> int {
        Self::counted(grid, row, column, done, 0) + Self::counted(grid, row, column, done, 1)
            + Self::counted(grid, row, column, done, 2) + Self::counted(grid, row, column, done, 3)
            + Self::counted(grid, row, column, done, 5) + Self::counted(grid, row, column, done, 6)
            + Self::counted(grid, row, column, done, 7) + Self::counted(grid, row, column, done, 8)
    }

    spec fn counted(grid: Grid, row: int, column: int, done: int, place: int) -> int {
        if place < done {
            grid.live_at(row, column, place / 3 - 1, place % 3 - 1)
        } else {
            0
        }
    }

    /// Makes a universe of `width` by `height` cells and asks `pattern` for the
    /// state of each cell, by its place in row-major order.
    ///
    /// A width or height of zero is refused. The number of cells must not
    /// exceed what a buffer can hold.
    pub fn new<F: Fn(usize) -> Cell>(width: u32, height: u32, pattern: F) -> (result: Result<
        Universe,
        UniverseError,
    >)
        requires
            width * height <= isize::MAX,
            forall|index: usize| index < width * height ==> call_requires(pattern, (index,)),
        ensures
            width == 0 || height == 0 ==> result matches Err(UniverseError::InvalidDimensions),
            width > 0 && height > 0 ==> result is Ok,
            result matches Ok(universe) ==> {
                &&& universe@.wf()
                &&& universe@.width == width
                &&& universe@.height == height
                &&& forall|index: usize|
                    index < width * height ==> call_ensures(
                        pattern,
                        (index,),
                        #[trigger] universe@.cells[index as int],
                    )
            },
    {
        if width == 0 || height == 0 {
            return Err(UniverseError::InvalidDimensions);
        }
        assert(width * height <= usize::MAX);
        let len: usize = width as usize * height as usize;
        let mut cells: Vec<u8> = Vec::with_capacity(len);
        let mut index: usize = 0;
        while index < len
            invariant
                index <= len,
                len == width * height,
                cells@.len() == index,
                forall|i: usize| i < len ==> call_requires(pattern, (i,)),
                forall|i: int| 0 <= i < index ==> cells@[i] <= 1,
                forall|i: usize|
                    i < index ==> call_ensures(
                        pattern,
                        (i,),
                        #[trigger] Cell::decoding(cells@[i as int]),
                    ),
            decreases len - index,
        {
            let cell = pattern(index);
            cells.push(cell.to_byte());
            index += 1;
        }
        let universe = Universe { width, height, cells };
        assert forall|i: usize| i < width * height implies call_ensures(
            pattern,
            (i,),
            #[trigger] universe@.cells[i as int],
        ) by {
            assert(universe@.cells[i as int] == Cell::decoding(cells@[i as int]));
        }
        Ok(universe)
    }

    /// The number of columns.
    pub fn width(&self) -> (width: u32)
        ensures
            width == self@.width,
            self@.wf(),
    {
        proof {
            use_type_invariant(self);
        }
        self.width
    }

    /// The number of rows.
    pub fn height(&self) -> (height: u32)
        ensures
            height == self@.height,
            self@.wf(),
    {
        proof {
            use_type_invariant(self);
        }
        self.height
    }

    /// The cells of the current generation as bytes, row by row: `0` for a
    /// dead cell and `1` for a live one.
    ///
    /// The slice borrows the universe's own buffer; nothing is copied. It
    /// can be held only until the universe is next changed.
    pub fn cells(&self) -> (bytes: &[u8])
        ensures
            bytes@ == self@.encoded(),
            bytes@.len() == self@.width * self@.height,
            self@.wf(),
    {
        proof {
            use_type_invariant(self);
            assert(self.cells@ =~= self@.encoded());
        }
        self.cells.as_slice()
    }

    /// The place of a position in the cell buffer.
    fn get_index(&self, row: u32, column: u32) -> (index: usize)
        requires
            self@.in_bounds(row as int, column as int),
        ensures
            index == self@.index_of(row as int, column as int),
            index < self.cells@.len(),
    {
        proof {
            use_type_invariant(self);
            lemma_index_of_position(self@, row as int, column as int);
            assert(0 <= row * self.width) by (nonlinear_arith);
            vstd::std_specs::vec::axiom_spec_len(&self.cells);
        }
        row as usize * self.width as usize + column as usize
    }

    /// Counts the live cells among the eight neighbors of a position, going
    /// around the torus at the edges.
    ///
    /// The step up from row 0 is taken by adding `height - 1` before the
    /// remainder, never by subtracting; columns likewise.
    pub fn live_neighbor_count(&self, row: u32, column: u32) -> (count: u8)
        requires
            self@.in_bounds(row as int, column as int),
        ensures
            count == self@.live_neighbor_count(row as int, column as int),
            count <= 8,
    {
        proof {
            use_type_invariant(self);
        }
        let row_deltas: [u32; 3] = [self.height - 1, 0, 1];
        let column_deltas: [u32; 3] = [self.width - 1, 0, 1];
        let mut count: u8 = 0;
        let mut i: usize = 0;
        while i < 3
            invariant
                i <= 3,
                self@.in_bounds(row as int, column as int),
                row_deltas@ == seq![(self.height - 1) as u32, 0u32, 1u32],
                column_deltas@ == seq![(self.width - 1) as u32, 0u32, 1u32],
                count == Self::live_count_before(self@, row as int, column as int, 3 * i),
                count <= 3 * i,
            decreases 3 - i,
        {
            let mut j: usize = 0;
            while j < 3
                invariant
                    i < 3,
                    j <= 3,
                    self@.in_bounds(row as int, column as int),
                    row_deltas@ == seq![(self.height - 1) as u32, 0u32, 1u32],
                    column_deltas@ == seq![(self.width - 1) as u32, 0u32, 1u32],
                    count == Self::live_count_before(self@, row as int, column as int, 3 * i + j),
                    count <= 3 * i + j,
                decreases 3 - j,
            {
                // The center is the cell itself; skipped by its place, since
                // on a grid one cell high or wide a delta of zero is also a
                // step around the torus.
                if !(i == 1 && j == 1) {
                    proof {
                        use_type_invariant(self);
                        lemma_wrap(row as int, self.height as int);
                        lemma_wrap(column as int, self.width as int);
                    }
                    let height: u64 = self.height as u64;
                    let width: u64 = self.width as u64;
                    let neighbor_row: u32 = ((row as u64 + row_deltas[i] as u64) % height) as u32;
                    let neighbor_column: u32 = ((column as u64 + column_deltas[j] as u64)
                        % width) as u32;
                    assert(neighbor_row == (row + (i - 1)) % (self.height as int));
                    assert(neighbor_column == (column + (j - 1)) % (self.width as int));
                    let index: usize = self.get_index(neighbor_row, neighbor_column);
                    assert(self.cells@[index as int] == self@.live_at(
                        row as int,
                        column as int,
                        i - 1,
                        j - 1,
                    ));
                    count += self.cells[index];
                }
                j += 1;
            }
            i += 1;
        }
        count
    }

    /// Advances the universe by one generation.
    ///
    /// Every cell of the new generation is computed from the old one alone;
    /// the new buffer replaces the old one only when it is complete.
    pub fn tick(&mut self)
        ensures
            final(self)@ == old(self)@.next(),
            final(self)@.wf(),
            final(self)@.width == old(self)@.width,
            final(self)@.height == old(self)@.height,
    {
        proof {
            use_type_invariant(&*self);
        }
        let mut next: Vec<u8> = Vec::with_capacity(self.cells.len());
        let mut row: u32 = 0;
        while row < self.height
            invariant
                row <= self.height,
                self.inv(),
                next@.len() == row * self.width,
                forall|i: int| 0 <= i < next@.len() ==> next@[i] <= 1,
                forall|i: int|
                    0 <= i < next@.len() ==> #[trigger] next@[i] == self@.next_cell(
                        i / (self.width as int),
                        i % (self.width as int),
                    ).encoding(),
            decreases self.height - row,
        {
            let mut column: u32 = 0;
            while column < self.width
                invariant
                    row < self.height,
                    column <= self.width,
                    self.inv(),
                    next@.len() == row * self.width + column,
                    forall|i: int| 0 <= i < next@.len() ==> next@[i] <= 1,
                    forall|i: int|
                        0 <= i < next@.len() ==> #[trigger] next@[i] == self@.next_cell(
                            i / (self.width as int),
                            i % (self.width as int),
                        ).encoding(),
                decreases self.width - column,
            {
                proof {
                    lemma_index_of_position(self@, row as int, column as int);
                }
                let index: usize = self.get_index(row, column);
                let cell = Cell::from_byte(self.cells[index]);
                let live_neighbors: u8 = self.live_neighbor_count(row, column);
                next.push(cell.next_state(live_neighbors).to_byte());
                column += 1;
            }
            row += 1;
            assert((row - 1) * self.width + self.width == row * self.width) by (nonlinear_arith);
        }
        assert(self.height * self.width == self.width * self.height) by (nonlinear_arith);
        self.cells = next;
        proof {
            assert(self@.cells =~= old(self)@.next().cells);
        }
    }
}

} // verus!
