//! Projections of the sphere onto the faces of a polyhedron.
pub mod vgc;
