//! Dense linear-algebra primitives: fixed-length and heap-backed vectors and
//! a row-major matrix, with shape-checked arithmetic whose results are
//! specified over mathematical integers.

pub mod error;
pub mod matrix;
pub mod matrix_laws;
pub mod scalar;
pub mod vector;
