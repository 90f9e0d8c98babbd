//! The attempt/backoff policy's arithmetic, the dead-letter boundary,
//! the retry floor, and tenant routing.

use commercerack::policy::{retry_backoff, should_dead_letter, KindConfig, QueueConfig};
use commercerack::queue::WorkQueue;
use commercerack::record::{RecordState, WorkKind};
use commercerack::router::{TenantAssignment, TenantRouter};

fn cfg_with(k: KindConfig) -> QueueConfig {
    QueueConfig {
        order_events: k,
        marketplace_order_events: k,
        feed_documents: k,
    }
}

#[test]
fn backoff_doubles_from_base_and_caps() {
    let p = KindConfig {
        lease_duration: 30,
        max_attempts: 10,
        retry_base_delay: 10,
        retry_max_delay: 100,
    };
    assert_eq!(retry_backoff(&p, 0), 10);
    assert_eq!(retry_backoff(&p, 1), 10);
    assert_eq!(retry_backoff(&p, 2), 20);
    assert_eq!(retry_backoff(&p, 3), 40);
    assert_eq!(retry_backoff(&p, 4), 80);
    assert_eq!(retry_backoff(&p, 5), 100);
    assert_eq!(retry_backoff(&p, 60), 100);
}

#[test]
fn backoff_handles_degenerate_policies() {
    let zero = KindConfig {
        lease_duration: 30,
        max_attempts: 10,
        retry_base_delay: 0,
        retry_max_delay: 100,
    };
    assert_eq!(retry_backoff(&zero, 1), 0);
    assert_eq!(retry_backoff(&zero, 7), 0);
    let over = KindConfig {
        lease_duration: 30,
        max_attempts: 10,
        retry_base_delay: 500,
        retry_max_delay: 100,
    };
    assert_eq!(retry_backoff(&over, 1), 100);
    let huge = KindConfig {
        lease_duration: 30,
        max_attempts: 10,
        retry_base_delay: u64::MAX,
        retry_max_delay: u64::MAX,
    };
    assert_eq!(retry_backoff(&huge, 90), u64::MAX);
}

#[test]
fn dead_letter_exactly_at_the_budget() {
    assert!(!should_dead_letter(2, 3));
    assert!(should_dead_letter(3, 3));
    assert!(should_dead_letter(4, 3));
    assert!(should_dead_letter(0, 0));
}

#[test]
fn retry_floor_defers_the_next_claim() {
    let k = KindConfig {
        lease_duration: 30,
        max_attempts: 5,
        retry_base_delay: 10,
        retry_max_delay: 100,
    };
    let mut q = WorkQueue::new(cfg_with(k), TenantRouter::single_store(), 1);
    q.enqueue(1, WorkKind::OrderEvent, "A".to_string(), vec![], 0)
        .unwrap();
    let batch = q.claim_batch(1, WorkKind::OrderEvent, &"w1".to_string(), 1, 0);
    assert_eq!(batch.len(), 1);
    q.fail(
        1,
        WorkKind::OrderEvent,
        &"A".to_string(),
        &"w1".to_string(),
        "slow".to_string(),
        5,
    )
    .unwrap();
    let r = q.get(1, WorkKind::OrderEvent, &"A".to_string()).unwrap();
    assert_eq!(r.state, RecordState::Pending);
    assert_eq!(r.not_before, Some(15));

    // Below the floor the record is not claimable; at the floor it is.
    let early = q.claim_batch(1, WorkKind::OrderEvent, &"w2".to_string(), 1, 14);
    assert_eq!(early.len(), 0);
    let due = q.claim_batch(1, WorkKind::OrderEvent, &"w2".to_string(), 1, 15);
    assert_eq!(due.len(), 1);
    assert_eq!(due[0].not_before, None);
}

#[test]
fn zero_delay_leaves_the_record_immediately_claimable() {
    let k = KindConfig {
        lease_duration: 30,
        max_attempts: 5,
        retry_base_delay: 0,
        retry_max_delay: 0,
    };
    let mut q = WorkQueue::new(cfg_with(k), TenantRouter::single_store(), 1);
    q.enqueue(1, WorkKind::OrderEvent, "A".to_string(), vec![], 0)
        .unwrap();
    q.claim_batch(1, WorkKind::OrderEvent, &"w1".to_string(), 1, 0);
    q.fail(
        1,
        WorkKind::OrderEvent,
        &"A".to_string(),
        &"w1".to_string(),
        "x".to_string(),
        1,
    )
    .unwrap();
    let r = q.get(1, WorkKind::OrderEvent, &"A".to_string()).unwrap();
    assert_eq!(r.not_before, None);
    let batch = q.claim_batch(1, WorkKind::OrderEvent, &"w2".to_string(), 1, 1);
    assert_eq!(batch.len(), 1);
}

#[test]
fn per_kind_policies_are_independent() {
    let orders = KindConfig {
        lease_duration: 10,
        max_attempts: 1,
        retry_base_delay: 0,
        retry_max_delay: 0,
    };
    let feeds = KindConfig {
        lease_duration: 600,
        max_attempts: 8,
        retry_base_delay: 0,
        retry_max_delay: 0,
    };
    let config = QueueConfig {
        order_events: orders,
        marketplace_order_events: orders,
        feed_documents: feeds,
    };
    let mut q = WorkQueue::new(config, TenantRouter::single_store(), 1);
    q.enqueue(1, WorkKind::OrderEvent, "o".to_string(), vec![], 0)
        .unwrap();
    q.enqueue(1, WorkKind::FeedDocument, "f".to_string(), vec![], 0)
        .unwrap();
    let o = q.claim_batch(1, WorkKind::OrderEvent, &"w".to_string(), 1, 100);
    assert_eq!(o[0].lease_expires_at, Some(110));
    let f = q.claim_batch(1, WorkKind::FeedDocument, &"w".to_string(), 1, 100);
    assert_eq!(f[0].lease_expires_at, Some(700));
}

#[test]
fn router_falls_back_to_the_default_partition() {
    let router = TenantRouter::new(vec![
        TenantAssignment {
            tenant_id: 5,
            store_index: 1,
        },
        TenantAssignment {
            tenant_id: 9,
            store_index: 2,
        },
    ]);
    assert_eq!(router.resolve(5), 1);
    assert_eq!(router.resolve(9), 2);
    assert_eq!(router.resolve(77), 0);
    assert!(router.has_dedicated(5));
    assert!(!router.has_dedicated(77));
    let lone = TenantRouter::single_store();
    assert_eq!(lone.resolve(1), 0);
}
