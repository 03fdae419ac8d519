use vstd::prelude::*;

verus! {

/// The failure catalogue of the library.
///
/// Every checked entry point reports its contract violations through this
/// enum instead of aborting.
#[derive(Debug, Clone, Copy, PartialEq, Eq, Structural)]
pub enum SlalError {
    /// A square-only operation was asked of a matrix whose width and height
    /// differ.
    NotSquareMatrix,
    /// An operation that needs at least one entry was asked of a matrix
    /// without any.
    EmptyMatrix,
    /// Two vertices (or two matrices) whose shapes must agree do not.
    UnmatchingOperandLength,
    /// A vertex is in the wrong row/column state for the requested product.
    OrientationError,
    /// A vertex length does not fit the matrix height/width it is multiplied
    /// against.
    ShapeMismatch,
    /// Doolittle decomposition hit a zero pivot: no triangular form exists
    /// for the input under this (pivot-free) scheme.
    TriangularFormUnavailable,
    /// An inverse was requested of a matrix whose determinant is zero.
    DeterminantZero,
}

/// Shorthand for results whose failures are [`SlalError`] values.
pub type SlalErr<V> = Result<V, SlalError>;

} // verus!
