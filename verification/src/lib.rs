//! Conway's Game of Life on a wrapping grid, with a decay trail for
//! recently dead cells, and the decisions behind its controls.

pub mod grid;
pub mod chance;
pub mod controls;
pub mod text;
pub mod laws;
