use vstd::prelude::*;

verus! {

/// Everything an index operation can report in place of a result.
#[derive(Debug, PartialEq, Eq)]
pub enum HnswError {
    /// A generic validation or I/O failure, with its description.
    IoError(String),
    /// The lock that guards the graph could not be acquired.
    LockError,
    /// The operation needs at least one stored point.
    EmptyIndex,
    /// The requested metric differs from the metric the index was built with.
    DistanceMismatch,
    /// A vector's length differs from the dimension of the index.
    DimensionMismatch { expected: u32, got: u32 },
    /// A persisted image could not be read or decoded.
    ReloadError(String),
    /// A persisted image could not be encoded or written.
    DumpError(String),
}

} // verus!
