//! What holds of every grid and of the classic patterns on it.

use vstd::prelude::*;
use crate::cell::Cell;
use crate::grid::{Grid, lemma_index_of_position, lemma_position_of_index, lemma_wrap};

verus! {

/// A generation step keeps the dimensions, and with them the number of cells
/// and the length of the byte buffer.
pub proof fn next_keeps_dimensions(grid: Grid)
    requires
        grid.wf(),
    ensures
        grid.next().wf(),
        grid.next().width == grid.width,
        grid.next().height == grid.height,
        grid.next().cells.len() == grid.width * grid.height,
        grid.next().encoded().len() == grid.width * grid.height,
{
}

/// At a position in bounds, the next generation holds what the transition
/// rule makes of the cell there and its live neighbors.
pub proof fn next_at_position(grid: Grid, row: int, column: int)
    requires
        grid.wf(),
        grid.in_bounds(row, column),
    ensures
        grid.next().cell_at(row, column) == grid.next_cell(row, column),
{
    lemma_index_of_position(grid, row, column);
}

/// A cell never has fewer than zero or more than eight live neighbors.
pub proof fn live_neighbor_count_in_range(grid: Grid, row: int, column: int)
    ensures
        0 <= grid.live_neighbor_count(row, column) <= 8,
{
}

/// On a grid of one row and one column the cell is its own neighbor in all
/// eight places: it has eight live neighbors if it is alive and none if it
/// is dead.
pub proof fn single_cell_is_its_own_neighbors(grid: Grid)
    requires
        grid.wf(),
        grid.width == 1,
        grid.height == 1,
    ensures
        grid.live_neighbor_count(0, 0) == 8 * grid.cells[0].encoding(),
{
    lemma_wrap(0, 1);
}

/// Nothing comes alive on a grid of dead cells.
pub proof fn all_dead_stays_dead(grid: Grid)
    requires
        grid.wf(),
        grid.all_dead(),
    ensures
        grid.next().all_dead(),
        grid.next() == grid,
{
    assert forall|i: int| 0 <= i < grid.cells.len() implies grid.next().cells[i]
        == Cell::Dead by {
        lemma_position_of_index(grid, i);
        let row = i / (grid.width as int);
        let column = i % (grid.width as int);
        lemma_neighbors_in_bounds(grid, row, column);
    }
    assert(grid.next().cells =~= grid.cells);
}

/// A live cell without a live neighbor is dead in the next generation.
pub proof fn lonely_cell_dies(grid: Grid, row: int, column: int)
    requires
        grid.wf(),
        grid.in_bounds(row, column),
        grid.cell_at(row, column) == Cell::Alive,
        grid.live_neighbor_count(row, column) == 0,
    ensures
        grid.next().cell_at(row, column) == Cell::Dead,
{
    next_at_position(grid, row, column);
}

/// The cells of the two rows from `row` and the two columns from `column`,
/// around the torus, are alive, and no others.
pub open spec fn is_block(grid: Grid, row: int, column: int) -> bool {
    forall|r: int, c: int|
        grid.in_bounds(r, c) ==> (#[trigger] grid.cell_at(r, c) == Cell::Alive <==> (r == row || r
            == (row + 1) % (grid.height as int)) && (c == column || c == (column + 1) % (
        grid.width as int)))
}

/// A two-by-two block is a still life on every grid of at least three rows
/// and three columns: the generation step leaves the grid as it is.
///
/// On a narrower grid the block meets itself around the torus and dies.
pub proof fn block_is_still_life(grid: Grid, row: int, column: int)
    requires
        grid.wf(),
        grid.width >= 3,
        grid.height >= 3,
        grid.in_bounds(row, column),
        is_block(grid, row, column),
    ensures
        grid.next() == grid,
{
    assert forall|i: int| 0 <= i < grid.cells.len() implies grid.next().cells[i]
        == grid.cells[i] by {
        lemma_position_of_index(grid, i);
        let r = i / (grid.width as int);
        let c = i % (grid.width as int);
        lemma_wrap(row, grid.height as int);
        lemma_wrap(column, grid.width as int);
        lemma_neighbors_in_bounds(grid, r, c);
    }
    assert(grid.next().cells =~= grid.cells);
}

/// The three cells of row `row` in the columns left of, at and right of
/// `column`, around the torus, are alive, and no others.
pub open spec fn is_horizontal_blinker(grid: Grid, row: int, column: int) -> bool {
    forall|r: int, c: int|
        grid.in_bounds(r, c) ==> (#[trigger] grid.cell_at(r, c) == Cell::Alive <==> r == row && (c
            == (column + -1) % (grid.width as int) || c == column || c == (column + 1) % (
        grid.width as int)))
}

/// The three cells of column `column` in the rows above, at and below `row`,
/// around the torus, are alive, and no others.
pub open spec fn is_vertical_blinker(grid: Grid, row: int, column: int) -> bool {
    forall|r: int, c: int|
        grid.in_bounds(r, c) ==> (#[trigger] grid.cell_at(r, c) == Cell::Alive <==> c == column
            && (r == (row + -1) % (grid.height as int) || r == row || r == (row + 1) % (
        grid.height as int)))
}

/// A horizontal blinker on a grid of at least five rows and five columns has
/// period two: one generation step turns it into the vertical blinker with
/// the same center, a second step gives the first grid back.
pub proof fn blinker_has_period_two(grid: Grid, row: int, column: int)
    requires
        grid.wf(),
        grid.width >= 5,
        grid.height >= 5,
        grid.in_bounds(row, column),
        is_horizontal_blinker(grid, row, column),
    ensures
        is_vertical_blinker(grid.next(), row, column),
        grid.next().next() == grid,
{
    let upright = grid.next();
    assert forall|r: int, c: int| upright.in_bounds(r, c) implies (#[trigger] upright.cell_at(r, c)
        == Cell::Alive <==> c == column && (r == (row + -1) % (upright.height as int) || r == row
        || r == (row + 1) % (upright.height as int))) by {
        next_at_position(grid, r, c);
        lemma_horizontal_blinker_step(grid, row, column, r, c);
    }
    let back = upright.next();
    assert forall|i: int| 0 <= i < grid.cells.len() implies back.cells[i] == grid.cells[i] by {
        lemma_position_of_index(grid, i);
        let r = i / (grid.width as int);
        let c = i % (grid.width as int);
        lemma_vertical_blinker_step(upright, row, column, r, c);
    }
    assert(back.cells =~= grid.cells);
}

/// One cell of the step from a horizontal blinker: it is alive afterwards
/// exactly if it lies in the center column, at most one row from the center.
proof fn lemma_horizontal_blinker_step(grid: Grid, row: int, column: int, r: int, c: int)
    requires
        grid.wf(),
        grid.width >= 5,
        grid.height >= 5,
        grid.in_bounds(row, column),
        is_horizontal_blinker(grid, row, column),
        grid.in_bounds(r, c),
    ensures
        grid.next_cell(r, c) == Cell::Alive <==> c == column && (r == (row + -1) % (
        grid.height as int) || r == row || r == (row + 1) % (grid.height as int)),
{
    lemma_wrap(row, grid.height as int);
    lemma_wrap(column, grid.width as int);
    lemma_neighbors_in_bounds(grid, r, c);
}

/// One cell of the step from a vertical blinker: it is alive afterwards
/// exactly if it lies in the center row, at most one column from the center.
proof fn lemma_vertical_blinker_step(grid: Grid, row: int, column: int, r: int, c: int)
    requires
        grid.wf(),
        grid.width >= 5,
        grid.height >= 5,
        grid.in_bounds(row, column),
        is_vertical_blinker(grid, row, column),
        grid.in_bounds(r, c),
    ensures
        grid.next_cell(r, c) == Cell::Alive <==> r == row && (c == (column + -1) % (
        grid.width as int) || c == column || c == (column + 1) % (grid.width as int)),
{
    lemma_wrap(row, grid.height as int);
    lemma_wrap(column, grid.width as int);
    lemma_neighbors_in_bounds(grid, r, c);
}

/// The eight neighbors of a position in bounds lie in bounds, one step away
/// in each direction with the edges joined.
proof fn lemma_neighbors_in_bounds(grid: Grid, row: int, column: int)
    requires
        grid.wf(),
        grid.in_bounds(row, column),
    ensures
        grid.cell_at(row, column) == grid.cells[grid.index_of(row, column)],
        forall|delta_row: int, delta_column: int|
            -1 <= delta_row <= 1 && -1 <= delta_column <= 1 ==> {
                let r = if delta_row == -1 {
                    if row == 0 { grid.height - 1 } else { row - 1 }
                } else if delta_row == 0 {
                    row
                } else {
                    if row + 1 == grid.height { 0 } else { row + 1 }
                };
                let c = if delta_column == -1 {
                    if column == 0 { grid.width - 1 } else { column - 1 }
                } else if delta_column == 0 {
                    column
                } else {
                    if column + 1 == grid.width { 0 } else { column + 1 }
                };
                &&& grid.in_bounds(r, c)
                &&& 0 <= grid.index_of(r, c) < grid.cells.len()
                &&& #[trigger] grid.neighbor(row, column, delta_row, delta_column) == grid.cell_at(
                    r,
                    c,
                )
            },
{
    lemma_wrap(row, grid.height as int);
    lemma_wrap(column, grid.width as int);
    assert forall|delta_row: int, delta_column: int|
        -1 <= delta_row <= 1 && -1 <= delta_column <= 1 implies {
        let r = if delta_row == -1 {
            if row == 0 { grid.height - 1 } else { row - 1 }
        } else if delta_row == 0 {
            row
        } else {
            if row + 1 == grid.height { 0 } else { row + 1 }
        };
        let c = if delta_column == -1 {
            if column == 0 { grid.width - 1 } else { column - 1 }
        } else if delta_column == 0 {
            column
        } else {
            if column + 1 == grid.width { 0 } else { column + 1 }
        };
        &&& grid.in_bounds(r, c)
        &&& 0 <= grid.index_of(r, c) < grid.cells.len()
        &&& #[trigger] grid.neighbor(row, column, delta_row, delta_column) == grid.cell_at(r, c)
    } by {
        let r = (row + delta_row) % (grid.height as int);
        let c = (column + delta_column) % (grid.width as int);
        lemma_index_of_position(grid, r, c);
    }
}

} // verus!
