//! The unit of work and its mathematical model.

use vstd::prelude::*;

verus! {

/// The kind of outstanding work a record represents.  Each kind may be
/// configured with its own lease duration and retry budget.
#[derive(Clone, Copy, Debug, PartialEq, Eq, Hash, Structural)]
pub enum WorkKind {
    /// An order needs a lifecycle state transition.
    OrderEvent,
    /// A marketplace order needs acknowledgment.
    MarketplaceOrderEvent,
    /// A feed document needs submission and a response reconciled.
    FeedDocument,
}

/// The lifecycle state of a work record.  Exactly one state holds at
/// any instant.  `Completed` and `DeadLettered` are terminal.
#[derive(Clone, Copy, Debug, PartialEq, Eq, Hash, Structural)]
pub enum RecordState {
    /// Created by a producer; eligible for claiming.
    Pending,
    /// Claimed by an owner; exclusive until the lease expires.
    Leased,
    /// Processed successfully; terminal.
    Completed,
    /// Reserved for stores that distinguish a non-terminal failed
    /// snapshot; the queue's own transitions never produce it.
    Failed,
    /// Retries exhausted; terminal, surfaced for manual intervention.
    DeadLettered,
}

/// A unit of outstanding work, keyed by `(tenant_id, kind, record_id)`.
#[derive(Debug)]
pub struct WorkRecord {
    /// Merchant identifier; immutable after creation.
    pub tenant_id: u64,
    /// Which table-like family of work this record belongs to.
    pub kind: WorkKind,
    /// Opaque identifier, unique within `tenant_id` + `kind`.
    pub record_id: String,
    /// Opaque bytes specific to the kind.
    pub payload: Vec<u8>,
    /// Current lifecycle state.
    pub state: RecordState,
    /// Worker token; present exactly while `Leased`.
    pub lease_owner: Option<String>,
    /// Lease expiry timestamp; present exactly while `Leased`.
    pub lease_expires_at: Option<u64>,
    /// Optional floor before which a retried record is not claimable.
    pub not_before: Option<u64>,
    /// Number of successful claims so far; never decreases.
    pub attempts: u64,
    /// Diagnostic from the most recent failure, if any.
    pub last_error: Option<String>,
    /// Creation timestamp; claim order approximates FIFO over it.
    pub created_at: u64,
    /// Timestamp of the most recent state transition.
    pub updated_at: u64,
}

/// The mathematical model of a [`WorkRecord`]: the same fields with
/// strings and bytes abstracted to sequences.  All contracts in this
/// crate are stated over this model.
#[verifier::ext_equal]
pub ghost struct RecordModel {
    pub tenant_id: u64,
    pub kind: WorkKind,
    pub record_id: Seq<char>,
    pub payload: Seq<u8>,
    pub state: RecordState,
    pub lease_owner: Option<Seq<char>>,
    pub lease_expires_at: Option<u64>,
    pub not_before: Option<u64>,
    pub attempts: u64,
    pub last_error: Option<Seq<char>>,
    pub created_at: u64,
    pub updated_at: u64,
}

/// Saturating addition on timestamps and counters: the sum, or
/// `u64::MAX` where the sum does not fit.
pub open spec fn sat_add(a: u64, b: u64) -> u64 {
    if a + b > u64::MAX {
        u64::MAX
    } else {
        (a + b) as u64
    }
}

/// The view of an optional owned string.
pub open spec fn opt_str_view(o: Option<String>) -> Option<Seq<char>> {
    match o {
        Some(s) => Some(s@),
        None => None,
    }
}

impl View for WorkRecord {
    type V = RecordModel;

    open spec fn view(&self) -> RecordModel {
        RecordModel {
            tenant_id: self.tenant_id,
            kind: self.kind,
            record_id: self.record_id@,
            payload: self.payload@,
            state: self.state,
            lease_owner: opt_str_view(self.lease_owner),
            lease_expires_at: self.lease_expires_at,
            not_before: self.not_before,
            attempts: self.attempts,
            last_error: opt_str_view(self.last_error),
            created_at: self.created_at,
            updated_at: self.updated_at,
        }
    }
}

/// Internal consistency of one record: the lease fields are set exactly
/// while the record is `Leased`, and a retry floor only accompanies a
/// `Pending` record.
pub open spec fn record_wf(r: RecordModel) -> bool {
    &&& (r.state is Leased ==> r.lease_owner is Some && r.lease_expires_at is Some)
    &&& (!(r.state is Leased) ==> r.lease_owner is None && r.lease_expires_at is None)
    &&& (!(r.state is Pending) ==> r.not_before is None)
}

/// Whether `r` carries the queue key `(tenant_id, kind, record_id)`.
pub open spec fn key_matches(
    r: RecordModel,
    tenant_id: u64,
    kind: WorkKind,
    record_id: Seq<char>,
) -> bool {
    r.tenant_id == tenant_id && r.kind == kind && r.record_id == record_id
}

/// The model of a freshly enqueued record: `Pending`, zero attempts, no
/// lease, no error, created and updated at `now`.
pub open spec fn fresh_record(
    tenant_id: u64,
    kind: WorkKind,
    record_id: Seq<char>,
    payload: Seq<u8>,
    now: u64,
) -> RecordModel {
    RecordModel {
        tenant_id,
        kind,
        record_id,
        payload,
        state: RecordState::Pending,
        lease_owner: None,
        lease_expires_at: None,
        not_before: None,
        attempts: 0,
        last_error: None,
        created_at: now,
        updated_at: now,
    }
}

/// The model of `r` after its owner reports success: `Completed`,
/// terminal, lease cleared.
pub open spec fn completed_record(r: RecordModel, now: u64) -> RecordModel {
    RecordModel {
        state: RecordState::Completed,
        lease_owner: None,
        lease_expires_at: None,
        not_before: None,
        updated_at: now,
        ..r
    }
}

impl WorkRecord {
    /// Build the record a producer inserts: `Pending` with no lease and
    /// zero attempts.
    pub fn new(
        tenant_id: u64,
        kind: WorkKind,
        record_id: String,
        payload: Vec<u8>,
        now: u64,
    ) -> (r: WorkRecord)
        ensures
            r@ == fresh_record(tenant_id, kind, record_id@, payload@, now),
            record_wf(r@),
    {
        let r = WorkRecord {
            tenant_id,
            kind,
            record_id,
            payload,
            state: RecordState::Pending,
            lease_owner: None,
            lease_expires_at: None,
            not_before: None,
            attempts: 0,
            last_error: None,
            created_at: now,
            updated_at: now,
        };
        proof {
            assert(r@ =~= fresh_record(
                r.tenant_id, r.kind, r.record_id@, r.payload@, now));
        }
        r
    }
}

/// Clone an optional string, preserving its view.
fn clone_opt_string(o: &Option<String>) -> (r: Option<String>)
    ensures
        opt_str_view(r) == opt_str_view(*o),
{
    match o {
        Some(s) => Some(s.clone()),
        None => None,
    }
}

impl Clone for WorkRecord {
    /// A deep copy with the same model.
    fn clone(&self) -> (res: Self)
        ensures
            res@ == self@,
    {
        let res = WorkRecord {
            tenant_id: self.tenant_id,
            kind: self.kind,
            record_id: self.record_id.clone(),
            payload: self.payload.clone(),
            state: self.state,
            lease_owner: clone_opt_string(&self.lease_owner),
            lease_expires_at: self.lease_expires_at,
            not_before: self.not_before,
            attempts: self.attempts,
            last_error: clone_opt_string(&self.last_error),
            created_at: self.created_at,
            updated_at: self.updated_at,
        };
        proof {
            assert(res.payload@ =~= self.payload@);
            assert(res@ =~= self@);
        }
        res
    }
}

} // verus!
