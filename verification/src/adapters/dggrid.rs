//! The DGGRID tool: the text it is given and the text it returns.
pub mod common;
pub mod dggrid;
pub mod isea3h;
