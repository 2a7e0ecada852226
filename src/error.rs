//! Errors of plan execution.
use vstd::prelude::*;

verus! {

/// What can go wrong while executing a plan or pulling from a stream.
#[derive(Debug, Clone, Copy, PartialEq, Eq, Structural)]
pub enum ExecError {
    /// A predicate names a column that the schema lacks, or mixes types.
    CompileError,
    /// Evaluating a compiled expression against a batch failed.
    EvaluationError,
    /// A value does not have the shape that its use needs, such as a
    /// selection mask that is not boolean or not one entry per row.
    ShapeError,
    /// A partition index past the plan's partition count.
    PartitionOutOfRange,
}

} // verus!
