//! Concrete instances of the queue's laws: mutual exclusion, no lost
//! work, attempt monotonicity, tenant isolation, and FIFO order.

use commercerack::policy::{KindConfig, QueueConfig};
use commercerack::queue::WorkQueue;
use commercerack::record::{RecordState, WorkKind};
use commercerack::router::{TenantAssignment, TenantRouter};

fn cfg(max_attempts: u64, lease_duration: u64) -> QueueConfig {
    let k = KindConfig {
        lease_duration,
        max_attempts,
        retry_base_delay: 0,
        retry_max_delay: 0,
    };
    QueueConfig {
        order_events: k,
        marketplace_order_events: k,
        feed_documents: k,
    }
}

#[test]
fn exactly_one_of_two_simultaneous_claimants_wins() {
    // Two workers racing for a tenant with exactly one Pending record:
    // the first conditional write wins, the second sees a live lease
    // and gets an empty batch.
    let mut q = WorkQueue::new(cfg(3, 30), TenantRouter::single_store(), 1);
    q.enqueue(1, WorkKind::OrderEvent, "only".to_string(), vec![], 10)
        .unwrap();
    let first = q.claim_batch(1, WorkKind::OrderEvent, &"w1".to_string(), 1, 10);
    let second = q.claim_batch(1, WorkKind::OrderEvent, &"w2".to_string(), 1, 10);
    assert_eq!(first.len(), 1);
    assert_eq!(second.len(), 0);
    let r = q.get(1, WorkKind::OrderEvent, &"only".to_string()).unwrap();
    assert_eq!(r.lease_owner, Some("w1".to_string()));
}

#[test]
fn expired_lease_is_reclaimed_with_one_more_attempt() {
    // A record leased for 1 second is never completed; one second plus
    // epsilon later another claim returns it to a new owner, and
    // attempts has grown by exactly one (counted at claim, not at
    // expiry).
    let mut q = WorkQueue::new(cfg(5, 1), TenantRouter::single_store(), 1);
    q.enqueue(1, WorkKind::OrderEvent, "slow".to_string(), vec![], 10)
        .unwrap();
    let first = q.claim_batch(1, WorkKind::OrderEvent, &"w1".to_string(), 1, 10);
    assert_eq!(first.len(), 1);
    assert_eq!(first[0].attempts, 1);
    assert_eq!(first[0].lease_expires_at, Some(11));

    // Before expiry nothing is claimable.
    let early = q.claim_batch(1, WorkKind::OrderEvent, &"w2".to_string(), 1, 10);
    assert_eq!(early.len(), 0);

    // At expiry the record is self-healing: a new owner takes over.
    let late = q.claim_batch(1, WorkKind::OrderEvent, &"w2".to_string(), 1, 11);
    assert_eq!(late.len(), 1);
    assert_eq!(late[0].lease_owner, Some("w2".to_string()));
    assert_eq!(late[0].attempts, 2);
}

#[test]
fn batch_claim_takes_everything_eligible_oldest_first() {
    // With room for every eligible record, none is lost, and they come
    // back ordered by created_at ascending even when enqueued out of
    // order.
    let mut q = WorkQueue::new(cfg(3, 30), TenantRouter::single_store(), 1);
    q.enqueue(1, WorkKind::OrderEvent, "mid".to_string(), vec![], 5)
        .unwrap();
    q.enqueue(1, WorkKind::OrderEvent, "old".to_string(), vec![], 3)
        .unwrap();
    q.enqueue(1, WorkKind::OrderEvent, "new".to_string(), vec![], 7)
        .unwrap();
    let batch = q.claim_batch(1, WorkKind::OrderEvent, &"w1".to_string(), 10, 20);
    assert_eq!(batch.len(), 3);
    assert_eq!(batch[0].record_id, "old");
    assert_eq!(batch[1].record_id, "mid");
    assert_eq!(batch[2].record_id, "new");
    assert!(batch.iter().all(|r| r.state == RecordState::Leased));
}

#[test]
fn batch_claim_respects_max_n_and_fifo_fairness() {
    let mut q = WorkQueue::new(cfg(3, 30), TenantRouter::single_store(), 1);
    q.enqueue(1, WorkKind::OrderEvent, "a".to_string(), vec![], 1)
        .unwrap();
    q.enqueue(1, WorkKind::OrderEvent, "b".to_string(), vec![], 2)
        .unwrap();
    q.enqueue(1, WorkKind::OrderEvent, "c".to_string(), vec![], 3)
        .unwrap();
    let batch = q.claim_batch(1, WorkKind::OrderEvent, &"w1".to_string(), 2, 10);
    assert_eq!(batch.len(), 2);
    assert_eq!(batch[0].record_id, "a");
    assert_eq!(batch[1].record_id, "b");
    // The oldest remaining record goes to the next poll.
    let rest = q.claim_batch(1, WorkKind::OrderEvent, &"w2".to_string(), 2, 10);
    assert_eq!(rest.len(), 1);
    assert_eq!(rest[0].record_id, "c");
}

#[test]
fn attempts_never_decrease_across_cycles() {
    let mut q = WorkQueue::new(cfg(10, 30), TenantRouter::single_store(), 1);
    q.enqueue(1, WorkKind::OrderEvent, "A".to_string(), vec![], 0)
        .unwrap();
    let mut last: u64 = 0;
    let mut now: u64 = 0;
    for _ in 0..4 {
        now += 1;
        let batch = q.claim_batch(1, WorkKind::OrderEvent, &"w1".to_string(), 1, now);
        assert_eq!(batch.len(), 1);
        assert!(batch[0].attempts >= last);
        last = batch[0].attempts;
        now += 1;
        q.fail(
            1,
            WorkKind::OrderEvent,
            &"A".to_string(),
            &"w1".to_string(),
            "again".to_string(),
            now,
        )
        .unwrap();
        let r = q.get(1, WorkKind::OrderEvent, &"A".to_string()).unwrap();
        assert!(r.attempts >= last);
        last = r.attempts;
    }
    assert_eq!(last, 4);
}

#[test]
fn claims_for_one_tenant_never_observe_another() {
    // Tenants 1 and 2 share the default partition; tenant 3 has a
    // dedicated one.  Claiming for tenant 1 returns only tenant 1's
    // records and leaves everyone else's untouched.
    let router = TenantRouter::new(vec![TenantAssignment {
        tenant_id: 3,
        store_index: 1,
    }]);
    let mut q = WorkQueue::new(cfg(3, 30), router, 2);
    q.enqueue(1, WorkKind::OrderEvent, "one".to_string(), vec![], 1)
        .unwrap();
    q.enqueue(2, WorkKind::OrderEvent, "two".to_string(), vec![], 1)
        .unwrap();
    q.enqueue(3, WorkKind::OrderEvent, "three".to_string(), vec![], 1)
        .unwrap();

    let batch = q.claim_batch(1, WorkKind::OrderEvent, &"w1".to_string(), 10, 2);
    assert_eq!(batch.len(), 1);
    assert!(batch.iter().all(|r| r.tenant_id == 1));

    for (tenant, id) in [(2u64, "two"), (3u64, "three")] {
        let r = q.get(tenant, WorkKind::OrderEvent, &id.to_string()).unwrap();
        assert_eq!(r.state, RecordState::Pending);
        assert_eq!(r.lease_owner, None);
        assert_eq!(r.attempts, 0);
    }
}

#[test]
fn kinds_do_not_leak_into_each_other() {
    let mut q = WorkQueue::new(cfg(3, 30), TenantRouter::single_store(), 1);
    q.enqueue(1, WorkKind::OrderEvent, "x".to_string(), vec![], 1)
        .unwrap();
    q.enqueue(1, WorkKind::MarketplaceOrderEvent, "y".to_string(), vec![], 1)
        .unwrap();
    let batch = q.claim_batch(1, WorkKind::FeedDocument, &"w1".to_string(), 10, 2);
    assert_eq!(batch.len(), 0);
    let batch = q.claim_batch(1, WorkKind::MarketplaceOrderEvent, &"w1".to_string(), 10, 2);
    assert_eq!(batch.len(), 1);
    assert_eq!(batch[0].record_id, "y");
}

#[test]
fn empty_queue_and_zero_budget_claims_return_nothing() {
    let mut q = WorkQueue::new(cfg(3, 30), TenantRouter::single_store(), 1);
    assert_eq!(
        q.claim_batch(1, WorkKind::OrderEvent, &"w1".to_string(), 5, 10)
            .len(),
        0
    );
    q.enqueue(1, WorkKind::OrderEvent, "a".to_string(), vec![], 1)
        .unwrap();
    assert_eq!(
        q.claim_batch(1, WorkKind::OrderEvent, &"w1".to_string(), 0, 10)
            .len(),
        0
    );
    let r = q.get(1, WorkKind::OrderEvent, &"a".to_string()).unwrap();
    assert_eq!(r.state, RecordState::Pending);
}

#[test]
fn equal_creation_times_keep_arrival_order() {
    let mut q = WorkQueue::new(cfg(3, 30), TenantRouter::single_store(), 1);
    q.enqueue(1, WorkKind::OrderEvent, "first".to_string(), vec![], 5)
        .unwrap();
    q.enqueue(1, WorkKind::OrderEvent, "second".to_string(), vec![], 5)
        .unwrap();
    let batch = q.claim_batch(1, WorkKind::OrderEvent, &"w1".to_string(), 2, 10);
    assert_eq!(batch.len(), 2);
    assert_eq!(batch[0].record_id, "first");
    assert_eq!(batch[1].record_id, "second");
}

#[test]
fn sweep_returns_expired_leases_to_pending() {
    let mut q = WorkQueue::new(cfg(5, 10), TenantRouter::single_store(), 1);
    q.enqueue(1, WorkKind::OrderEvent, "a".to_string(), vec![], 0)
        .unwrap();
    q.enqueue(1, WorkKind::OrderEvent, "b".to_string(), vec![], 1)
        .unwrap();
    let batch = q.claim_batch(1, WorkKind::OrderEvent, &"w1".to_string(), 2, 5);
    assert_eq!(batch.len(), 2);

    // Live leases are not swept.
    assert_eq!(q.sweep_expired(1, WorkKind::OrderEvent, 14), 0);
    let r = q.get(1, WorkKind::OrderEvent, &"a".to_string()).unwrap();
    assert_eq!(r.state, RecordState::Leased);

    // At expiry both return to Pending: an implicit failure with no
    // error recorded and no attempt change.
    assert_eq!(q.sweep_expired(1, WorkKind::OrderEvent, 15), 2);
    let r = q.get(1, WorkKind::OrderEvent, &"a".to_string()).unwrap();
    assert_eq!(r.state, RecordState::Pending);
    assert_eq!(r.attempts, 1);
    assert_eq!(r.lease_owner, None);
    assert_eq!(r.last_error, None);

    // Nothing is left to sweep afterwards.
    assert_eq!(q.sweep_expired(1, WorkKind::OrderEvent, 16), 0);
}

#[test]
fn get_is_a_snapshot_and_never_mutates() {
    let mut q = WorkQueue::new(cfg(3, 30), TenantRouter::single_store(), 1);
    q.enqueue(1, WorkKind::OrderEvent, "A".to_string(), vec![5], 1)
        .unwrap();
    let a = q.get(1, WorkKind::OrderEvent, &"A".to_string()).unwrap();
    let b = q.get(1, WorkKind::OrderEvent, &"A".to_string()).unwrap();
    assert_eq!(a.state, b.state);
    assert_eq!(a.attempts, b.attempts);
    assert_eq!(a.payload, vec![5]);
    // The record is still claimable afterwards.
    let batch = q.claim_batch(1, WorkKind::OrderEvent, &"w1".to_string(), 1, 2);
    assert_eq!(batch.len(), 1);
}
