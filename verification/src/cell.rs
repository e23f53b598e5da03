//! The two cell states, their one-byte encoding and the transition rule.

use vstd::prelude::*;

verus! {

/// The state of one cell.
#[derive(Clone, Copy, Debug, PartialEq, Eq, Structural)]
pub enum Cell {
    Dead,
    Alive,
}

impl Cell {
    /// The byte that stands for this state in a cell buffer: `0` for `Dead`,
    /// `1` for `Alive`. It is also what the cell adds to a neighbor count.
    pub open spec fn encoding(self) -> u8 {
        match self {
            Cell::Dead => 0,
            Cell::Alive => 1,
        }
    }

    /// The state that a byte of a cell buffer stands for. A buffer holds no
    /// byte but `0` and `1`.
    pub open spec fn decoding(byte: u8) -> Cell {
        if byte == 1 {
            Cell::Alive
        } else {
            Cell::Dead
        }
    }

    /// The state of a cell in the next generation, given its state now and the
    /// number of its neighbors that are alive now.
    ///
    /// A live cell survives with two or three live neighbors and dies
    /// otherwise; a dead cell comes alive with exactly three.
    pub open spec fn spec_next_state(self, live_neighbors: int) -> Cell {
        match self {
            Cell::Alive => if live_neighbors == 2 || live_neighbors == 3 {
                Cell::Alive
            } else {
                Cell::Dead
            },
            Cell::Dead => if live_neighbors == 3 {
                Cell::Alive
            } else {
                Cell::Dead
            },
        }
    }

    /// Encodes the state as its byte.
    pub fn to_byte(self) -> (byte: u8)
        ensures
            byte == self.encoding(),
    {
        match self {
            Cell::Dead => 0,
            Cell::Alive => 1,
        }
    }

    /// Decodes a byte of a cell buffer.
    pub(crate) fn from_byte(byte: u8) -> (cell: Cell)
        requires
            byte <= 1,
        ensures
            cell == Cell::decoding(byte),
            cell.encoding() == byte,
    {
        if byte == 1 {
            Cell::Alive
        } else {
            Cell::Dead
        }
    }

    /// Applies the transition rule to one cell.
    pub fn next_state(self, live_neighbors: u8) -> (next: Cell)
        ensures
            next == self.spec_next_state(live_neighbors as int),
    {
        match (self, live_neighbors) {
            // Underpopulation.
            (Cell::Alive, x) if x < 2 => Cell::Dead,
            // Survival.
            (Cell::Alive, 2) | (Cell::Alive, 3) => Cell::Alive,
            // Overpopulation.
            (Cell::Alive, x) if x > 3 => Cell::Dead,
            // Reproduction.
            (Cell::Dead, 3) => Cell::Alive,
            // Everything else stays as it is.
            (otherwise, _) => otherwise,
        }
    }
}

} // verus!
