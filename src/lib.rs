//! A "Lights Out" style puzzle: a grid of lit and unlit cells, a cursor, and a
//! toggle that inverts the 3×3 neighbourhood around a cell, clipped to the grid.
//! The game is won once every cell is unlit.

pub mod board;
pub mod render;
pub mod session;
pub mod laws;
