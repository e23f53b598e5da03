//! Conway's Game of Life on a fixed-size toroidal grid.
//!
//! [`Universe`] owns a dense row-major buffer with one byte per cell and
//! advances it one generation per call of [`Universe::tick`]. Every contract
//! is stated over [`Grid`], the mathematical model of a universe.

pub mod cell;
pub mod demo;
pub mod grid;
pub mod laws;
pub mod universe;

pub use cell::Cell;
pub use demo::{demo_pattern, DEMO_HEIGHT, DEMO_WIDTH};
pub use grid::Grid;
pub use universe::{Universe, UniverseError};
