//! The mathematical model: what each rasterised shape is, as a sequence of
//! grid points, and the laws that hold of those sequences.

pub mod disc;
pub mod grid;
pub mod line;
