use vstd::prelude::*;

verus! {

/// Why a store operation did not succeed.
#[derive(Clone, Copy, Debug, PartialEq, Eq, Structural)]
pub enum StoreError {
    /// No record exists under the requested identifier where one is required.
    NotFound,
    /// Creating another record would need an identifier above 255; the store
    /// never wraps around or reuses identifiers to stay under that ceiling.
    CapacityExceeded,
    /// The bytes stored under the key do not decode to a task record.
    DeserializationError,
    /// The underlying storage engine reported a failure.
    EngineFailure,
}

} // verus!
