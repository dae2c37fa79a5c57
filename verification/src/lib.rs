//! Conway's Game of Life on a torus: a finite grid whose edges are joined to
//! the opposite edges, with verified construction, stepping and rendering.

pub mod blinker;
pub mod cell;
pub mod evolution;
pub mod grid;
pub mod text;
pub mod universe;

pub use cell::Cell;
pub use grid::Grid;
pub use universe::Universe;
