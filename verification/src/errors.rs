use vstd::prelude::*;

verus! {

/// Errors reported by the conversions between matrices and vectors.
#[derive(Debug, Clone, Copy, PartialEq, Eq, Structural)]
pub enum Errors {
    /// A matrix with more or fewer than one column was read as a column vector.
    MatToVecError,
    /// Two operands do not have the shapes that the operation needs.
    DimensionMismatchError,
}

} // verus!
