use vstd::prelude::*;

pub use crate::determinant::Determinant;
pub use crate::eigen::Eigen;
pub use crate::inner::InnerProduct;
pub use crate::inverse::Cofactor;
pub use crate::inverse::Inverse;
pub use crate::random::Random;
pub use crate::structure::DiagonalMatrix;
pub use crate::triangular::TriangularMatrix;

verus! {

/// The checked, orientation-aware product. Which operand pairs are defined,
/// and what shape the result takes, is fixed per implementation by
/// `dot_req` (the machine-limit bounds it asks of the operands) and
/// `dot_post` (everything it promises of the result).
pub trait Dot<Rhs> {
    type Output;

    /// What the product asks of its operands: validity of the values and
    /// room for the arithmetic in the element kind.
    spec fn dot_req(&self, other: &Rhs) -> bool;

    /// Everything the product promises of its result, failures included.
    spec fn dot_post(&self, other: &Rhs, r: Self::Output) -> bool;

    /// Computes the product, reporting contract violations as typed errors.
    fn dot(&self, other: &Rhs) -> (r: Self::Output)
        requires
            self.dot_req(other),
        ensures
            self.dot_post(other, r),
    ;
}

/// The checked generalized cross product of two vertices.
pub trait Cross<Rhs> {
    type Output;

    /// What the cross product asks of its operands.
    spec fn cross_req(&self, other: &Rhs) -> bool;

    /// Everything the cross product promises of its result.
    spec fn cross_post(&self, other: &Rhs, r: Self::Output) -> bool;

    /// Computes the cross product, reporting contract violations as typed
    /// errors.
    fn cross(&self, other: &Rhs) -> (r: Self::Output)
        requires
            self.cross_req(other),
        ensures
            self.cross_post(other, r),
    ;
}

} // verus!
