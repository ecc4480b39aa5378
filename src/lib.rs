//! Escape-time (Mandelbrot) iteration counts over a rectangular window of the
//! complex plane, computed sequentially, row-parallel, or row-parallel with a
//! lane-grouped kernel. Every strategy is proved to produce the same grid.
//!
//! Coordinates are fixed-point numbers: an `i32` or `i64` value `v` stands for
//! the real number `v / 2^24` (see [`geometry::ONE`]), so that every strategy
//! performs exactly the same arithmetic.

pub mod geometry;
pub mod escape;
pub mod grid;
pub mod laws;
