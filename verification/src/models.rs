//! The records that the grid core hands out.
pub mod common;
pub mod dggrid;
