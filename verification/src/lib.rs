//! A small linear-algebra engine over integer element kinds: orientation-aware
//! vectors (`Vertex`), row-major matrices (`Matrix`), and an exact algebraic
//! engine for triangularization, determinants, cofactors, inverses and
//! dominant-eigenpair approximation.

pub mod determinant;
pub mod eigen;
pub mod error;
pub mod inner;
pub mod inverse;
pub mod laws;
pub mod linear;
pub mod matrix;
pub mod norm;
pub mod ops;
pub mod random;
pub mod rational;
pub mod scalar;
pub mod structure;
pub mod triangular;
pub mod vertex;

use vstd::prelude::*;

verus! {

} // verus!
