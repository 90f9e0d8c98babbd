//! The queue's error taxonomy and failure dispositions.

use vstd::prelude::*;

verus! {

/// Errors reported synchronously by queue operations.  The queue never
/// retries internally; callers decide what to do with each of these.
#[derive(Clone, Copy, Debug, PartialEq, Eq, Structural)]
pub enum QueueError {
    /// `enqueue` was called with a key that already exists.
    /// Recoverable: idempotent producers treat it as success.
    DuplicateRecord,
    /// A claim lost the race: the record holds a non-expired lease.
    /// Recoverable: retry the claim on the next poll.
    AlreadyLeased,
    /// `complete` or `fail` supplied an owner token that differs from
    /// the stored lease owner: the lease was reclaimed in the meantime.
    NotOwner,
    /// `complete` or `fail` was called on a record that is not
    /// `Leased` (for instance one already terminal).
    InvalidState,
    /// No record carries the given key.
    NotFound,
    /// Transient infrastructure failure of the backing store,
    /// propagated for the caller's own retry policy.  The in-memory
    /// store of this crate never raises it.
    StoreUnavailable,
}

/// What the attempt/backoff policy decided for a failed record.
#[derive(Clone, Copy, Debug, PartialEq, Eq, Structural)]
pub enum FailureOutcome {
    /// Attempts remain: the record went back to `Pending`.
    Retried,
    /// Attempts are exhausted: the record is dead-lettered, and an
    /// observability signal is owed to the caller's sink.
    DeadLettered,
}

} // verus!
