//! The attempt/backoff policy: retry vs. dead-letter, and retry delays.

use vstd::prelude::*;

use crate::errors::FailureOutcome;
use crate::record::{record_wf, sat_add, RecordModel, RecordState, WorkKind, WorkRecord};

verus! {

/// Queue configuration for one work kind.
#[derive(Clone, Copy, Debug, PartialEq, Eq, Structural)]
pub struct KindConfig {
    /// How long a claim's lease lasts.
    pub lease_duration: u64,
    /// Number of claims after which a failure dead-letters the record.
    pub max_attempts: u64,
    /// Delay before the first retry; `0` leaves retried records
    /// claimable immediately (no floor is recorded).
    pub retry_base_delay: u64,
    /// Upper bound on the doubling retry delay.
    pub retry_max_delay: u64,
}

/// Configuration for the whole queue: one policy per work kind (feed
/// submissions to an external marketplace warrant longer leases than
/// internal order-state transitions).
#[derive(Clone, Copy, Debug, PartialEq, Eq, Structural)]
pub struct QueueConfig {
    pub order_events: KindConfig,
    pub marketplace_order_events: KindConfig,
    pub feed_documents: KindConfig,
}

impl QueueConfig {
    /// The policy configured for `kind`.
    pub open spec fn spec_policy_for(self, kind: WorkKind) -> KindConfig {
        match kind {
            WorkKind::OrderEvent => self.order_events,
            WorkKind::MarketplaceOrderEvent => self.marketplace_order_events,
            WorkKind::FeedDocument => self.feed_documents,
        }
    }

    /// Look up the policy configured for `kind`.
    pub fn policy_for(&self, kind: WorkKind) -> (p: KindConfig)
        ensures
            p == self.spec_policy_for(kind),
    {
        match kind {
            WorkKind::OrderEvent => self.order_events,
            WorkKind::MarketplaceOrderEvent => self.marketplace_order_events,
            WorkKind::FeedDocument => self.feed_documents,
        }
    }
}

/// `d` capped at `cap`.
pub open spec fn cap_at(d: u64, cap: u64) -> u64 {
    if d > cap {
        cap
    } else {
        d
    }
}

/// `2 * d`, saturating at `u64::MAX`.
pub open spec fn double_sat(d: u64) -> u64 {
    if 2 * d > u64::MAX {
        u64::MAX
    } else {
        (2 * d) as u64
    }
}

/// The retry delay after `rounds` doublings of `base`, capped at `cap`
/// after every step.
pub open spec fn backoff(base: u64, cap: u64, rounds: nat) -> u64
    decreases rounds,
{
    if rounds == 0 {
        cap_at(base, cap)
    } else {
        cap_at(double_sat(backoff(base, cap, (rounds - 1) as nat)), cap)
    }
}

/// How many doublings a record failed after `attempts` claims gets:
/// one fewer than its attempts, and never more than 63 (beyond which
/// doubling saturates anyway).
pub open spec fn backoff_rounds(attempts: u64) -> nat {
    if attempts <= 1 {
        0
    } else if attempts - 1 > 63 {
        63
    } else {
        (attempts - 1) as nat
    }
}

/// The delay this policy imposes before the next claim of a record
/// that has failed after `attempts` claims: exponential backoff from
/// `retry_base_delay`, capped at `retry_max_delay`.
pub fn retry_backoff(policy: &KindConfig, attempts: u64) -> (d: u64)
    ensures
        d == backoff(policy.retry_base_delay, policy.retry_max_delay, backoff_rounds(attempts)),
{
    let base = policy.retry_base_delay;
    let cap = policy.retry_max_delay;
    let rounds: u64 = if attempts <= 1 {
        0
    } else if attempts - 1 > 63 {
        63
    } else {
        attempts - 1
    };
    let mut d: u64 = if base > cap {
        cap
    } else {
        base
    };
    let mut i: u64 = 0;
    while i < rounds
        invariant
            i <= rounds,
            d == backoff(base, cap, i as nat),
        decreases rounds - i,
    {
        let doubled: u64 = if d > u64::MAX / 2 {
            u64::MAX
        } else {
            2 * d
        };
        d = if doubled > cap {
            cap
        } else {
            doubled
        };
        i = i + 1;
    }
    d
}

/// A failure dead-letters a record iff its attempts have reached the
/// kind's budget.
pub open spec fn exhausts_attempts(attempts: u64, max_attempts: u64) -> bool {
    attempts >= max_attempts
}

/// Decide retry vs. dead-letter for a record that has been claimed
/// `attempts` times.
pub fn should_dead_letter(attempts: u64, max_attempts: u64) -> (b: bool)
    ensures
        b == exhausts_attempts(attempts, max_attempts),
{
    attempts >= max_attempts
}

/// The model of `r` after a failure that leaves attempts to spare:
/// back to `Pending`, lease cleared, diagnostic recorded, and — where
/// the policy imposes a delay — a retry floor of `now + delay`.
pub open spec fn retried_record(
    r: RecordModel,
    error: Seq<char>,
    now: u64,
    delay: u64,
) -> RecordModel {
    RecordModel {
        state: RecordState::Pending,
        lease_owner: None,
        lease_expires_at: None,
        not_before: if delay > 0 {
            Some(sat_add(now, delay))
        } else {
            None
        },
        last_error: Some(error),
        updated_at: now,
        ..r
    }
}

/// The model of `r` after a failure that exhausts its attempts:
/// `DeadLettered`, terminal, with the diagnostic recorded.
pub open spec fn dead_lettered_record(r: RecordModel, error: Seq<char>, now: u64) -> RecordModel {
    RecordModel {
        state: RecordState::DeadLettered,
        lease_owner: None,
        lease_expires_at: None,
        not_before: None,
        last_error: Some(error),
        updated_at: now,
        ..r
    }
}

/// The model of `r` after the policy handles a failure: dead-lettered
/// iff `r.attempts` has reached the budget, else retried with this
/// policy's backoff delay.
pub open spec fn failed_record(
    r: RecordModel,
    policy: KindConfig,
    error: Seq<char>,
    now: u64,
) -> RecordModel {
    if exhausts_attempts(r.attempts, policy.max_attempts) {
        dead_lettered_record(r, error, now)
    } else {
        retried_record(
            r,
            error,
            now,
            backoff(policy.retry_base_delay, policy.retry_max_delay, backoff_rounds(r.attempts)),
        )
    }
}

/// Dead-letter boundary law: a failure handled by the policy
/// dead-letters the record exactly when its attempts (counted at claim
/// time) have reached `max_attempts`, returns it to `Pending` exactly
/// when they have not, and never changes the attempt count itself.
pub proof fn lemma_dead_letter_boundary(
    r: RecordModel,
    policy: KindConfig,
    error: Seq<char>,
    now: u64,
)
    ensures
        failed_record(r, policy, error, now).state is DeadLettered <==> r.attempts
            >= policy.max_attempts,
        failed_record(r, policy, error, now).state is Pending <==> r.attempts
            < policy.max_attempts,
        failed_record(r, policy, error, now).attempts == r.attempts,
{
}

/// Apply the policy to a leased record whose handler reported failure.
/// The attempt increment was already accounted for at claim time, so
/// this only compares `attempts` against the budget and transitions.
pub fn apply_failure(
    r: &mut WorkRecord,
    policy: &KindConfig,
    error: String,
    now: u64,
) -> (outcome: FailureOutcome)
    ensures
        final(r)@ == failed_record(old(r)@, *policy, error@, now),
        outcome == FailureOutcome::DeadLettered <==> exhausts_attempts(
            old(r)@.attempts,
            policy.max_attempts,
        ),
        outcome == FailureOutcome::Retried <==> !exhausts_attempts(
            old(r)@.attempts,
            policy.max_attempts,
        ),
        record_wf(final(r)@),
{
    if should_dead_letter(r.attempts, policy.max_attempts) {
        r.state = RecordState::DeadLettered;
        r.lease_owner = None;
        r.lease_expires_at = None;
        r.not_before = None;
        r.last_error = Some(error);
        r.updated_at = now;
        proof {
            assert(r@ =~= failed_record(old(r)@, *policy, error@, now));
        }
        FailureOutcome::DeadLettered
    } else {
        let delay = retry_backoff(policy, r.attempts);
        r.state = RecordState::Pending;
        r.lease_owner = None;
        r.lease_expires_at = None;
        r.not_before = if delay > 0 {
            Some(now.saturating_add(delay))
        } else {
            None
        };
        r.last_error = Some(error);
        r.updated_at = now;
        proof {
            assert(r@ =~= failed_record(old(r)@, *policy, error@, now));
        }
        FailureOutcome::Retried
    }
}

} // verus!
