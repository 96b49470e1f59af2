use vstd::prelude::*;

verus! {

/// The ways an operation of this library can fail.
#[derive(Debug, Clone, Copy, PartialEq, Eq, Structural)]
pub enum FieldError {
    /// Coefficient or operator shapes are incompatible.
    DimensionMismatch,
    /// An operator could not be formed from degenerate (empty) factors.
    ConstructionFailure,
    /// An input was rejected before any numerical work, such as an empty point set.
    InvalidInput,
}

} // verus!
