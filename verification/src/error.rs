use vstd::prelude::*;

verus! {

/// The hard failures of the chunk pipeline.
#[derive(Clone, Copy, Debug, PartialEq, Eq, Structural)]
pub enum ChunkError {
    /// A cell state was written at an index at or beyond the capacity of the set.
    OutOfRange,
    /// A mutation was attempted on a builder that has already been built.
    AlreadyFinalized,
    /// More state bits are required than the largest texture tier holds.
    CapacityExceeded,
}

} // verus!
