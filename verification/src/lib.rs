//! Decision logic of the macOS disk-space scanner: which locations are
//! scanned, which findings are reported, how each reported item is
//! described, and how the output of `tmutil` is read.

pub mod model;
pub mod number;
pub mod purgeable;
pub mod recipes;
pub mod text;
