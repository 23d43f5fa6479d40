//! Base polyhedra.
pub mod icosahedron;
