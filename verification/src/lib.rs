//! Geometric core of a discrete global grid system: the combinatorics of the
//! base icosahedron and of its planar layout, the rules by which a point is
//! placed in a face, the bit-packed cell identifier, the textual zone
//! identifier, and the text exchanged with the DGGRID tool.
//!
//! Everything in this crate works on integers and characters, and every
//! function carries a contract. All of them are proved but two, which are
//! believed: that `String::push` of the standard library appends one
//! character (in `text`), and that the crate `rand` draws a string of the
//! asked length from ASCII letters and digits (`sample_alphanumeric` in
//! `adapters::dggrid::common`).
pub mod adapters;
pub mod error;
pub mod layout;
pub mod models;
pub mod polyhedron;
pub mod projections;
pub mod text;
pub mod traits;
pub mod types;
