use vstd::prelude::*;

verus! {

/// What can go wrong in the layer store.
#[derive(Debug, Clone, Copy, PartialEq, Eq, Structural)]
pub enum MyDbError {
    /// No record matches the given identifier.
    NotFound,
    /// The store could not be reached, or its connection pool is exhausted.
    StoreUnavailable,
    /// A referential or uniqueness constraint of the store failed.
    ConstraintViolation,
    /// A payload could not be encoded or decoded.
    SerializationFailure,
    /// The operation would break the dense ordering of an image's layers.
    InvariantViolation,
}

} // verus!
