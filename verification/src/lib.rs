//! A minimal dense multi-dimensional array container with element-wise
//! arithmetic, built around a flat buffer and a column-major
//! (first-axis-fastest) indexing scheme.

pub mod arith;

pub mod array;

pub mod laws;

pub mod matrix;

pub mod shape;
