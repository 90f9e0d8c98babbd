//! The lease manager: claim eligibility and the conditional claim write.

use vstd::prelude::*;

use crate::errors::QueueError;
use crate::record::{record_wf, sat_add, RecordModel, RecordState, WorkRecord};

verus! {

/// Whether `r` holds a lease that has expired by `now`.
pub open spec fn lease_expired(r: RecordModel, now: u64) -> bool {
    r.state is Leased && (match r.lease_expires_at {
        Some(e) => e <= now,
        None => false,
    })
}

/// A record may be claimed at `now` iff it is `Pending`, or `Leased`
/// with a lease that has expired; and, where a retry floor was
/// recorded, the floor has passed.  Expired leases are self-healing:
/// no sweep is needed before the record can be reclaimed.
pub open spec fn claimable(r: RecordModel, now: u64) -> bool {
    &&& (r.state is Pending || lease_expired(r, now))
    &&& (match r.not_before {
        Some(floor) => now >= floor,
        None => true,
    })
}

/// The model of an expired-lease record returned to `Pending` by the
/// optional sweep: an implicit failure that records no error and
/// leaves `attempts` alone (it was counted at claim time).
pub open spec fn swept_record(r: RecordModel, now: u64) -> RecordModel {
    RecordModel {
        state: RecordState::Pending,
        lease_owner: None,
        lease_expires_at: None,
        updated_at: now,
        ..r
    }
}

/// The model of `r` after `owner` claims it at `now` for `duration`:
/// `Leased` until `now + duration` (saturating), attempts incremented
/// by exactly one (accounted at claim time), retry floor cleared.
pub open spec fn leased_record(
    r: RecordModel,
    owner: Seq<char>,
    now: u64,
    duration: u64,
) -> RecordModel {
    RecordModel {
        state: RecordState::Leased,
        lease_owner: Some(owner),
        lease_expires_at: Some(sat_add(now, duration)),
        not_before: None,
        attempts: sat_add(r.attempts, 1),
        updated_at: now,
        ..r
    }
}

/// Decide claim eligibility of one record at `now`.
pub fn is_claimable(r: &WorkRecord, now: u64) -> (c: bool)
    ensures
        c == claimable(r@, now),
{
    let state_ok = match r.state {
        RecordState::Pending => true,
        RecordState::Leased => match r.lease_expires_at {
            Some(e) => e <= now,
            None => false,
        },
        _ => false,
    };
    let floor_ok = match r.not_before {
        Some(floor) => now >= floor,
        None => true,
    };
    state_ok && floor_ok
}

/// The conditional claim write: lease `r` to `owner` for `duration`
/// starting at `now`.  Succeeds iff the record was claimable at the
/// moment of the write; otherwise the record holds a live claim (or a
/// retry floor still applies) and the write fails with `AlreadyLeased`,
/// leaving the record untouched.
pub fn lease(
    r: &mut WorkRecord,
    owner: &String,
    now: u64,
    duration: u64,
) -> (res: Result<(), QueueError>)
    ensures
        res is Ok <==> claimable(old(r)@, now),
        res is Ok ==> final(r)@ == leased_record(old(r)@, owner@, now, duration),
        res is Err ==> *final(r) == *old(r)
            && res == Err::<(), QueueError>(QueueError::AlreadyLeased),
        record_wf(old(r)@) ==> record_wf(final(r)@),
{
    if is_claimable(r, now) {
        r.state = RecordState::Leased;
        r.lease_owner = Some(owner.clone());
        r.lease_expires_at = Some(now.saturating_add(duration));
        r.not_before = None;
        r.attempts = r.attempts.saturating_add(1);
        r.updated_at = now;
        proof {
            assert(r@ =~= leased_record(old(r)@, owner@, now, duration));
        }
        Ok(())
    } else {
        Err(QueueError::AlreadyLeased)
    }
}

} // verus!
