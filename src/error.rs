use vstd::prelude::*;

verus! {

/// Why a vector or matrix operation failed.
#[derive(Debug, Clone, Copy, PartialEq, Eq, Structural)]
pub enum MatrixError {
    /// The operands' inner dimensions differ: `left` is the length (or
    /// column count) of the left operand, `right` that (or the row count) of
    /// the right one.
    DimensionMismatch { left: usize, right: usize },
    /// A task's reply carried a destination outside the result, or never
    /// arrived.
    WorkerCommunicationFailure,
}

} // verus!
