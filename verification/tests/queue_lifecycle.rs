//! Lifecycle scenarios: enqueue / claim / fail / complete across
//! retries, dead-lettering, and the error taxonomy.

use commercerack::errors::{FailureOutcome, QueueError};
use commercerack::lease::lease;
use commercerack::policy::{KindConfig, QueueConfig};
use commercerack::queue::WorkQueue;
use commercerack::record::{RecordState, WorkKind, WorkRecord};
use commercerack::router::TenantRouter;

fn cfg(max_attempts: u64, lease_duration: u64) -> QueueConfig {
    let k = KindConfig {
        lease_duration,
        max_attempts,
        retry_base_delay: 0,
        retry_max_delay: 0,
    };
    QueueConfig {
        order_events: k,
        marketplace_order_events: k,
        feed_documents: k,
    }
}

#[test]
fn lifecycle_retries_then_dead_letters() {
    let mut q = WorkQueue::new(cfg(3, 30), TenantRouter::single_store(), 1);
    q.enqueue(1, WorkKind::OrderEvent, "ORD-1".to_string(), vec![1, 2], 100)
        .unwrap();

    // First claim: owner w1, 30-second lease, attempts becomes 1.
    let batch = q.claim_batch(1, WorkKind::OrderEvent, &"w1".to_string(), 10, 100);
    assert_eq!(batch.len(), 1);
    assert_eq!(batch[0].record_id, "ORD-1");
    assert_eq!(batch[0].attempts, 1);
    assert_eq!(batch[0].state, RecordState::Leased);
    assert_eq!(batch[0].lease_owner, Some("w1".to_string()));
    assert_eq!(batch[0].lease_expires_at, Some(130));

    // Fail with "timeout": attempts stays 1, back to Pending (1 < 3).
    let out = q
        .fail(
            1,
            WorkKind::OrderEvent,
            &"ORD-1".to_string(),
            &"w1".to_string(),
            "timeout".to_string(),
            101,
        )
        .unwrap();
    assert_eq!(out, FailureOutcome::Retried);
    let r = q.get(1, WorkKind::OrderEvent, &"ORD-1".to_string()).unwrap();
    assert_eq!(r.state, RecordState::Pending);
    assert_eq!(r.attempts, 1);
    assert_eq!(r.last_error, Some("timeout".to_string()));

    // Second cycle under a different owner.
    let batch = q.claim_batch(1, WorkKind::OrderEvent, &"w2".to_string(), 1, 102);
    assert_eq!(batch.len(), 1);
    assert_eq!(batch[0].attempts, 2);
    let out = q
        .fail(
            1,
            WorkKind::OrderEvent,
            &"ORD-1".to_string(),
            &"w2".to_string(),
            "timeout".to_string(),
            103,
        )
        .unwrap();
    assert_eq!(out, FailureOutcome::Retried);

    // Third cycle: attempts reaches 3 == max_attempts, so the third
    // failure dead-letters, not before, not after.
    let batch = q.claim_batch(1, WorkKind::OrderEvent, &"w2".to_string(), 1, 104);
    assert_eq!(batch.len(), 1);
    assert_eq!(batch[0].attempts, 3);
    let out = q
        .fail(
            1,
            WorkKind::OrderEvent,
            &"ORD-1".to_string(),
            &"w2".to_string(),
            "timeout".to_string(),
            105,
        )
        .unwrap();
    assert_eq!(out, FailureOutcome::DeadLettered);
    let r = q.get(1, WorkKind::OrderEvent, &"ORD-1".to_string()).unwrap();
    assert_eq!(r.state, RecordState::DeadLettered);
    assert_eq!(r.attempts, 3);

    // Terminal: completing after dead-lettering is an InvalidState error.
    let e = q.complete(
        1,
        WorkKind::OrderEvent,
        &"ORD-1".to_string(),
        &"w2".to_string(),
        106,
    );
    assert_eq!(e, Err(QueueError::InvalidState));
}

#[test]
fn complete_retires_a_leased_record() {
    let mut q = WorkQueue::new(cfg(3, 30), TenantRouter::single_store(), 1);
    q.enqueue(7, WorkKind::FeedDocument, "FEED-9".to_string(), vec![9], 50)
        .unwrap();
    let batch = q.claim_batch(7, WorkKind::FeedDocument, &"w1".to_string(), 1, 60);
    assert_eq!(batch.len(), 1);
    q.complete(
        7,
        WorkKind::FeedDocument,
        &"FEED-9".to_string(),
        &"w1".to_string(),
        61,
    )
    .unwrap();
    let r = q.get(7, WorkKind::FeedDocument, &"FEED-9".to_string()).unwrap();
    assert_eq!(r.state, RecordState::Completed);
    assert_eq!(r.lease_owner, None);
    assert_eq!(r.lease_expires_at, None);
    assert_eq!(r.updated_at, 61);
    // Completed is terminal: no further completion or failure.
    let e = q.complete(
        7,
        WorkKind::FeedDocument,
        &"FEED-9".to_string(),
        &"w1".to_string(),
        62,
    );
    assert_eq!(e, Err(QueueError::InvalidState));
    let e = q.fail(
        7,
        WorkKind::FeedDocument,
        &"FEED-9".to_string(),
        &"w1".to_string(),
        "late".to_string(),
        63,
    );
    assert_eq!(e, Err(QueueError::InvalidState));
}

#[test]
fn duplicate_enqueue_is_rejected() {
    let mut q = WorkQueue::new(cfg(3, 30), TenantRouter::single_store(), 1);
    q.enqueue(1, WorkKind::OrderEvent, "A".to_string(), vec![], 10)
        .unwrap();
    let e = q.enqueue(1, WorkKind::OrderEvent, "A".to_string(), vec![1], 11);
    assert_eq!(e, Err(QueueError::DuplicateRecord));
    // Same id under another kind or tenant is a different key.
    q.enqueue(1, WorkKind::FeedDocument, "A".to_string(), vec![], 12)
        .unwrap();
    q.enqueue(2, WorkKind::OrderEvent, "A".to_string(), vec![], 13)
        .unwrap();
}

#[test]
fn unknown_key_is_not_found() {
    let mut q = WorkQueue::new(cfg(3, 30), TenantRouter::single_store(), 1);
    let e = q.get(1, WorkKind::OrderEvent, &"missing".to_string());
    assert!(matches!(e, Err(QueueError::NotFound)));
    let e = q.complete(
        1,
        WorkKind::OrderEvent,
        &"missing".to_string(),
        &"w1".to_string(),
        5,
    );
    assert_eq!(e, Err(QueueError::NotFound));
    let e = q.fail(
        1,
        WorkKind::OrderEvent,
        &"missing".to_string(),
        &"w1".to_string(),
        "x".to_string(),
        5,
    );
    assert_eq!(e, Err(QueueError::NotFound));
}

#[test]
fn completing_an_unleased_record_is_invalid_state() {
    let mut q = WorkQueue::new(cfg(3, 30), TenantRouter::single_store(), 1);
    q.enqueue(1, WorkKind::OrderEvent, "A".to_string(), vec![], 10)
        .unwrap();
    let e = q.complete(
        1,
        WorkKind::OrderEvent,
        &"A".to_string(),
        &"w1".to_string(),
        11,
    );
    assert_eq!(e, Err(QueueError::InvalidState));
}

#[test]
fn wrong_owner_is_rejected() {
    let mut q = WorkQueue::new(cfg(3, 30), TenantRouter::single_store(), 1);
    q.enqueue(1, WorkKind::OrderEvent, "A".to_string(), vec![], 10)
        .unwrap();
    let batch = q.claim_batch(1, WorkKind::OrderEvent, &"w1".to_string(), 1, 10);
    assert_eq!(batch.len(), 1);
    let e = q.complete(
        1,
        WorkKind::OrderEvent,
        &"A".to_string(),
        &"w2".to_string(),
        11,
    );
    assert_eq!(e, Err(QueueError::NotOwner));
    let e = q.fail(
        1,
        WorkKind::OrderEvent,
        &"A".to_string(),
        &"w2".to_string(),
        "x".to_string(),
        11,
    );
    assert_eq!(e, Err(QueueError::NotOwner));
    // The rightful owner still completes.
    q.complete(
        1,
        WorkKind::OrderEvent,
        &"A".to_string(),
        &"w1".to_string(),
        12,
    )
    .unwrap();
}

#[test]
fn losing_the_claim_race_is_already_leased() {
    // The lease manager's conditional write, exercised directly: the
    // second claimant finds a live lease and fails without touching
    // the record.
    let mut r = WorkRecord::new(1, WorkKind::OrderEvent, "A".to_string(), vec![], 0);
    lease(&mut r, &"w1".to_string(), 10, 30).unwrap();
    assert_eq!(r.lease_owner, Some("w1".to_string()));
    let e = lease(&mut r, &"w2".to_string(), 20, 30);
    assert_eq!(e, Err(QueueError::AlreadyLeased));
    assert_eq!(r.lease_owner, Some("w1".to_string()));
    assert_eq!(r.attempts, 1);
    // Once expired, the same write succeeds for the new owner.
    lease(&mut r, &"w2".to_string(), 40, 30).unwrap();
    assert_eq!(r.lease_owner, Some("w2".to_string()));
    assert_eq!(r.attempts, 2);
}
