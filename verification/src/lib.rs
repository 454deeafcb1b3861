//! Conway's Game of Life on a fixed-size grid with a closed border.
//!
//! [`Universe`] is the executable grid; its view is the mathematical
//! [`grid::Grid`], over which every contract is stated. A generation step
//! never changes the universe it starts from: it returns the successor.
//! What holds across several operations is proved in [`laws`], and
//! [`controls`] holds what the controls around a universe decide.
//!
//! Positions are `(row, col)`. Every position outside the grid, on any of
//! its four sides, reads as Dead and counts as a dead neighbor; nothing
//! wraps round from one edge to the opposite one.

pub mod cell;
pub mod controls;
pub mod grid;
pub mod laws;
mod parallel;
pub mod universe;

pub use cell::Cell;
pub use controls::UiState;
pub use universe::Universe;
