//! Planar layouts of the icosahedron.
pub mod rhombic5x6;
