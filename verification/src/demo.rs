//! The demonstration universe: its dimensions and its first generation.

use vstd::prelude::*;
use crate::cell::Cell;
use crate::grid::Grid;
use crate::universe::Universe;

verus! {

/// The number of columns of the demonstration universe.
pub const DEMO_WIDTH: u32 = 496;

/// The number of rows of the demonstration universe.
pub const DEMO_HEIGHT: u32 = 256;

/// The first generation of the demonstration: the cell at a place in
/// row-major order is alive exactly if the place is a multiple of 2 or of 7.
pub open spec fn spec_demo_pattern(index: int) -> Cell {
    if index % 2 == 0 || index % 7 == 0 {
        Cell::Alive
    } else {
        Cell::Dead
    }
}

/// The grid that the demonstration starts from.
pub open spec fn demo_grid() -> Grid {
    Grid {
        width: DEMO_WIDTH as nat,
        height: DEMO_HEIGHT as nat,
        cells: Seq::new((DEMO_WIDTH * DEMO_HEIGHT) as nat, |index: int| spec_demo_pattern(index)),
    }
}

/// The state that the demonstration gives the cell at `index`.
pub fn demo_pattern(index: usize) -> (cell: Cell)
    ensures
        cell == spec_demo_pattern(index as int),
{
    if index % 2 == 0 || index % 7 == 0 {
        Cell::Alive
    } else {
        Cell::Dead
    }
}

impl Universe {
    /// Makes the demonstration universe in its first generation.
    pub fn demo() -> (universe: Universe)
        ensures
            universe@ == demo_grid(),
    {
        let made = Universe::new(DEMO_WIDTH, DEMO_HEIGHT, demo_pattern);
        let universe = made.unwrap();
        assert(universe@.cells =~= demo_grid().cells);
        universe
    }
}

} // verus!
