//! The engine of a structural editor: trees of an algebraic type edited
//! through a cursor, grids of bits, and what both draw.

pub mod adapton;
pub mod bitmap;
pub mod candid;
pub mod chain;
pub mod eval;
pub mod grid;
pub mod init;
pub mod locus;
pub mod menu;
pub mod render;
pub mod types;
