//! What the grid core shares with the tools that generate grids.
pub mod dggrid;
