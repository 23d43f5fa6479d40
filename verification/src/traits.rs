//! The capabilities that a projection is composed of.
pub mod layout;
