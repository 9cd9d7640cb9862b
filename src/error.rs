//! Recoverable shape errors reported by the arithmetic and constructors.

use vstd::prelude::*;

verus! {

/// Why an operation on containers could not be carried out.
#[derive(Debug, Clone, Copy, PartialEq, Eq, Structural)]
pub enum ShapeError {
    /// The operands' shapes make the operation undefined; both shapes are given
    /// as rows and columns.
    ShapeMismatch { left_rows: usize, left_cols: usize, right_rows: usize, right_cols: usize },
    /// A matrix was requested with zero rows or zero columns.
    ZeroDimension { rows: usize, cols: usize },
    /// A sequence of the wrong length was offered for a fixed-length vector.
    LengthMismatch { expected: usize, found: usize },
}

} // verus!
