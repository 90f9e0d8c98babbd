//! The work queue core: the claim/process/complete/retry state
//! machine over partitioned record stores, scoped to one tenant per
//! call.

use vstd::prelude::*;

use crate::claim::{
    claim_result_seq, claim_store_seq, from_some_eligible, lemma_claim_index, lemma_claim_len,
    lemma_claim_result_origin, lemma_claim_result_sorted,
};
use crate::errors::{FailureOutcome, QueueError};
use crate::policy::{failed_record, QueueConfig};
use crate::record::{completed_record, fresh_record, RecordModel, WorkKind, WorkRecord};
use crate::router::{lemma_resolve_bounds, TenantRouter};
use crate::store::{
    count_expired, find_index, insert_pos, models_of, store_wf, sweep_seq, RecordStore,
};

verus! {

/// The queue: per-kind configuration, the tenant router, and the
/// record-store partitions (partition 0 is the default).  Cross-tenant
/// leakage is structurally prevented: every operation resolves the
/// tenant's partition through the router before touching any store,
/// and every stored record sits in the partition its tenant resolves
/// to.
pub struct WorkQueue {
    pub config: QueueConfig,
    pub router: TenantRouter,
    pub stores: Vec<RecordStore>,
}

impl View for WorkQueue {
    type V = Seq<Seq<RecordModel>>;

    open spec fn view(&self) -> Seq<Seq<RecordModel>> {
        self.stores@.map_values(|st: RecordStore| st@)
    }
}

impl WorkQueue {
    /// Structural consistency: at least the default partition exists,
    /// the router only names existing partitions, every partition is a
    /// well-formed store, and every record sits in the partition its
    /// tenant resolves to.
    pub open spec fn wf(self) -> bool {
        &&& self.stores@.len() >= 1
        &&& self.router.wf_for(self.stores@.len() as int)
        &&& forall|p: int| 0 <= p < self@.len() ==> store_wf(#[trigger] self@[p])
        &&& forall|p: int, k: int|
            #![trigger self@[p][k]]
            0 <= p < self@.len() && 0 <= k < self@[p].len() ==> self.router.resolve_spec(
                self@[p][k].tenant_id,
            ) == p
    }
}

/// After replacing one partition with a well-formed one whose records
/// all resolve there, the queue is well-formed again.
proof fn lemma_wf_after_update(q0: WorkQueue, q1: WorkQueue, p: int)
    requires
        q0.wf(),
        q1.router == q0.router,
        q1.stores@.len() == q0.stores@.len(),
        0 <= p < q0@.len(),
        q1@ == q0@.update(p, q1@[p]),
        store_wf(q1@[p]),
        forall|k: int|
            0 <= k < q1@[p].len() ==> q1.router.resolve_spec(
                (#[trigger] q1@[p][k]).tenant_id,
            ) == p,
    ensures
        q1.wf(),
{
    assert forall|pp: int| 0 <= pp < q1@.len() implies store_wf(#[trigger] q1@[pp]) by {
        if pp != p {
            assert(q1@[pp] == q0@[pp]);
        }
    }
    assert forall|pp: int, k: int|
        #![trigger q1@[pp][k]]
        0 <= pp < q1@.len() && 0 <= k < q1@[pp].len() implies q1.router.resolve_spec(
        q1@[pp][k].tenant_id,
    ) == pp by {
        if pp != p {
            assert(q1@[pp] == q0@[pp]);
            assert(q0.router.resolve_spec(q0@[pp][k].tenant_id) == pp);
        }
    }
}

impl WorkQueue {
    /// A queue with `n_stores` empty partitions (partition 0 is the
    /// default), the given per-kind configuration and routing table.
    pub fn new(config: QueueConfig, router: TenantRouter, n_stores: usize) -> (q: WorkQueue)
        requires
            n_stores >= 1,
            router.wf_for(n_stores as int),
        ensures
            q.wf(),
            q.config == config,
            q.router == router,
            q@.len() == n_stores,
            forall|p: int| 0 <= p < n_stores ==> #[trigger] q@[p] == Seq::<RecordModel>::empty(),
    {
        let mut stores: Vec<RecordStore> = Vec::new();
        let mut i: usize = 0;
        while i < n_stores
            invariant
                i <= n_stores,
                stores@.len() == i,
                forall|p: int|
                    0 <= p < i ==> #[trigger] stores@[p]@ == Seq::<RecordModel>::empty(),
            decreases n_stores - i,
        {
            stores.push(RecordStore::new());
            i = i + 1;
        }
        let q = WorkQueue { config, router, stores };
        proof {
            assert forall|p: int| 0 <= p < n_stores implies #[trigger] q@[p] == Seq::<
                RecordModel,
            >::empty() by {
                assert(q@[p] == q.stores@[p]@);
            }
        }
        q
    }

    /// The lease duration and retry policy for `kind` come from this
    /// configuration entry.
    pub open spec fn policy_of(self, kind: WorkKind) -> crate::policy::KindConfig {
        self.config.spec_policy_for(kind)
    }

    /// Create a `Pending` record under `(tenant_id, kind, record_id)`
    /// in the tenant's partition with `created_at = now`, or fail with
    /// `DuplicateRecord` when the key already exists (idempotent
    /// producers treat that as success).
    pub fn enqueue(
        &mut self,
        tenant_id: u64,
        kind: WorkKind,
        record_id: String,
        payload: Vec<u8>,
        now: u64,
    ) -> (res: Result<(), QueueError>)
        requires
            old(self).wf(),
        ensures
            final(self).wf(),
            final(self).config == old(self).config,
            final(self).router == old(self).router,
            ({
                let p = old(self).router.resolve_spec(tenant_id);
                let part = old(self)@[p];
                let f = find_index(part, tenant_id, kind, record_id@);
                &&& (f != -1 ==> res == Err::<(), QueueError>(QueueError::DuplicateRecord)
                    && final(self)@ == old(self)@)
                &&& (f == -1 ==> res is Ok && final(self)@ == old(self)@.update(
                    p,
                    part.insert(
                        insert_pos(part, now),
                        fresh_record(tenant_id, kind, record_id@, payload@, now),
                    ),
                ))
            }),
    {
        let p = self.router.resolve(tenant_id);
        proof {
            lemma_resolve_bounds(
                self.router.assignments@,
                tenant_id,
                self.stores@.len() as int,
            );
            assert(self@[p as int] == self.stores@[p as int]@);
        }
        let rec = WorkRecord::new(tenant_id, kind, record_id, payload, now);
        let ghost part = self@[p as int];
        let st = &mut self.stores[p];
        let res = st.insert_if_absent(rec);
        proof {
            assert forall|idx: int| 0 <= idx < self@.len() implies self@[idx] == old(
                self,
            )@.update(p as int, self@[p as int])[idx] by {
                assert(self@[idx] == self.stores@[idx]@);
                if idx != p as int {
                    assert(self.stores@[idx] == old(self).stores@[idx]);
                    assert(old(self)@[idx] == old(self).stores@[idx]@);
                }
            }
            assert(self@ =~= old(self)@.update(p as int, self@[p as int]));
            if res is Ok {
                let ip = insert_pos(part, now);
                let fresh = fresh_record(tenant_id, kind, record_id@, payload@, now);
                assert(self@[p as int] == part.insert(ip, fresh));
                crate::store::lemma_insert_pos(part, now);
                assert forall|k: int| 0 <= k < self@[p as int].len() implies self.router
                    .resolve_spec((#[trigger] self@[p as int][k]).tenant_id) == p as int by {
                    if k < ip {
                        assert(self@[p as int][k] == part[k]);
                        assert(old(self)@[p as int][k] == part[k]);
                    } else if k == ip {
                        assert(self@[p as int][k] == fresh);
                    } else {
                        assert(self@[p as int][k] == part[k - 1]);
                        assert(old(self)@[p as int][k - 1] == part[k - 1]);
                    }
                }
                lemma_wf_after_update(*old(self), *self, p as int);
            } else {
                assert(self@[p as int] == part);
                assert(self@ =~= old(self)@);
            }
        }
        res
    }

    /// Claim up to `max_n` claimable records of `(tenant_id, kind)` at
    /// `now` for `owner`, oldest (`created_at`) first, each leased for
    /// the kind's configured duration.  Returns fewer than `max_n`
    /// (possibly none) when fewer are eligible; never blocks.  Only
    /// the calling tenant's partition is touched, and every returned
    /// record was claimable and belongs to the calling tenant.
    pub fn claim_batch(
        &mut self,
        tenant_id: u64,
        kind: WorkKind,
        owner: &String,
        max_n: usize,
        now: u64,
    ) -> (out: Vec<WorkRecord>)
        requires
            old(self).wf(),
        ensures
            final(self).wf(),
            final(self).config == old(self).config,
            final(self).router == old(self).router,
            ({
                let p = old(self).router.resolve_spec(tenant_id);
                let dur = old(self).config.spec_policy_for(kind).lease_duration;
                &&& final(self)@ == old(self)@.update(
                    p,
                    claim_store_seq(
                        old(self)@[p],
                        tenant_id,
                        kind,
                        owner@,
                        now,
                        dur,
                        max_n as int,
                    ),
                )
                &&& models_of(out@) == claim_result_seq(
                    old(self)@[p],
                    tenant_id,
                    kind,
                    owner@,
                    now,
                    dur,
                    max_n as int,
                )
            }),
            out@.len() <= max_n,
            forall|j: int|
                0 <= j < out@.len() ==> {
                    let m = #[trigger] models_of(out@)[j];
                    &&& m.state is Leased
                    &&& m.lease_owner == Some(owner@)
                    &&& m.tenant_id == tenant_id
                    &&& m.kind == kind
                },
            forall|j1: int, j2: int|
                #![trigger models_of(out@)[j1], models_of(out@)[j2]]
                0 <= j1 <= j2 < out@.len() ==> models_of(out@)[j1].created_at <= models_of(
                    out@,
                )[j2].created_at,
    {
        let p = self.router.resolve(tenant_id);
        proof {
            lemma_resolve_bounds(
                self.router.assignments@,
                tenant_id,
                self.stores@.len() as int,
            );
            assert(self@[p as int] == self.stores@[p as int]@);
        }
        let duration = self.config.policy_for(kind).lease_duration;
        let ghost part = self@[p as int];
        let st = &mut self.stores[p];
        let out = st.claim(tenant_id, kind, owner, max_n, now, duration);
        proof {
            assert forall|idx: int| 0 <= idx < self@.len() implies self@[idx] == old(
                self,
            )@.update(p as int, self@[p as int])[idx] by {
                assert(self@[idx] == self.stores@[idx]@);
                if idx != p as int {
                    assert(self.stores@[idx] == old(self).stores@[idx]);
                    assert(old(self)@[idx] == old(self).stores@[idx]@);
                }
            }
            assert(self@ =~= old(self)@.update(p as int, self@[p as int]));
            lemma_claim_index(part, tenant_id, kind, owner@, now, duration, max_n as int);
            assert forall|k: int| 0 <= k < self@[p as int].len() implies self.router.resolve_spec(
                (#[trigger] self@[p as int][k]).tenant_id,
            ) == p as int by {
                assert(old(self)@[p as int][k] == part[k]);
            }
            lemma_wf_after_update(*old(self), *self, p as int);
            lemma_claim_len(part, tenant_id, kind, owner@, now, duration, max_n as int);
            lemma_claim_result_origin(part, tenant_id, kind, owner@, now, duration, max_n as int);
            lemma_claim_result_sorted(part, tenant_id, kind, owner@, now, duration, max_n as int);
            assert forall|j: int| 0 <= j < out@.len() implies {
                let m = #[trigger] models_of(out@)[j];
                &&& m.state is Leased
                &&& m.lease_owner == Some(owner@)
                &&& m.tenant_id == tenant_id
                &&& m.kind == kind
            } by {
                assert(from_some_eligible(
                    part,
                    tenant_id,
                    kind,
                    owner@,
                    now,
                    duration,
                    models_of(out@)[j],
                ));
            }
        }
        out
    }

    /// Transition the record under `(tenant_id, kind, record_id)` from
    /// `Leased` to `Completed`, provided `owner` still holds its
    /// lease.  Fails with `NotFound` when no such record exists,
    /// `InvalidState` when it is not `Leased`, and `NotOwner` when the
    /// lease belongs to someone else (the worker completed after its
    /// lease was reclaimed); in every failure the queue is untouched.
    pub fn complete(
        &mut self,
        tenant_id: u64,
        kind: WorkKind,
        record_id: &String,
        owner: &String,
        now: u64,
    ) -> (res: Result<(), QueueError>)
        requires
            old(self).wf(),
        ensures
            final(self).wf(),
            final(self).config == old(self).config,
            final(self).router == old(self).router,
            ({
                let p = old(self).router.resolve_spec(tenant_id);
                let part = old(self)@[p];
                let f = find_index(part, tenant_id, kind, record_id@);
                &&& (f == -1 ==> final(self)@ == old(self)@ && res == Err::<(), QueueError>(
                    QueueError::NotFound,
                ))
                &&& (f != -1 && !(part[f].state is Leased)
                    ==> final(self)@ == old(self)@ && res == Err::<(), QueueError>(
                    QueueError::InvalidState,
                ))
                &&& (f != -1 && part[f].state is Leased
                    && part[f].lease_owner != Some(owner@) ==> final(self)@ == old(self)@ && res
                    == Err::<(), QueueError>(QueueError::NotOwner))
                &&& (f != -1 && part[f].state is Leased
                    && part[f].lease_owner == Some(owner@) ==> res is Ok && final(self)@ == old(
                    self,
                )@.update(p, part.update(f, completed_record(part[f], now))))
            }),
    {
        let p = self.router.resolve(tenant_id);
        proof {
            lemma_resolve_bounds(
                self.router.assignments@,
                tenant_id,
                self.stores@.len() as int,
            );
            assert(self@[p as int] == self.stores@[p as int]@);
        }
        let ghost part = self@[p as int];
        let st = &mut self.stores[p];
        let res = st.complete(tenant_id, kind, record_id, owner, now);
        proof {
            assert forall|idx: int| 0 <= idx < self@.len() implies self@[idx] == old(
                self,
            )@.update(p as int, self@[p as int])[idx] by {
                assert(self@[idx] == self.stores@[idx]@);
                if idx != p as int {
                    assert(self.stores@[idx] == old(self).stores@[idx]);
                    assert(old(self)@[idx] == old(self).stores@[idx]@);
                }
            }
            assert(self@ =~= old(self)@.update(p as int, self@[p as int]));
            let f = find_index(part, tenant_id, kind, record_id@);
            if res is Ok {
                crate::store::lemma_find_index(part, tenant_id, kind, record_id@);
                assert(0 <= f < part.len());
                assert(self@[p as int] == part.update(f, completed_record(part[f], now)));
                assert forall|k: int| 0 <= k < self@[p as int].len() implies self.router
                    .resolve_spec((#[trigger] self@[p as int][k]).tenant_id) == p as int by {
                    assert(old(self)@[p as int][k] == part[k]);
                    if k == f {
                        assert(self@[p as int][k] == completed_record(part[f], now));
                        assert(self@[p as int][k].tenant_id == part[k].tenant_id);
                    } else {
                        assert(self@[p as int][k] == part[k]);
                    }
                }
                lemma_wf_after_update(*old(self), *self, p as int);
            } else {
                assert(self@[p as int] == part);
                assert(self@ =~= old(self)@);
            }
        }
        res
    }

    /// Hand the record under `(tenant_id, kind, record_id)` to the
    /// attempt/backoff policy after its handler failed, provided
    /// `owner` still holds its lease: it goes back to `Pending` (with
    /// this kind's backoff floor) while attempts remain, and is
    /// dead-lettered exactly when its attempts have reached the kind's
    /// `max_attempts`.  The same guards apply as for `complete`.
    pub fn fail(
        &mut self,
        tenant_id: u64,
        kind: WorkKind,
        record_id: &String,
        owner: &String,
        error: String,
        now: u64,
    ) -> (res: Result<FailureOutcome, QueueError>)
        requires
            old(self).wf(),
        ensures
            final(self).wf(),
            final(self).config == old(self).config,
            final(self).router == old(self).router,
            ({
                let p = old(self).router.resolve_spec(tenant_id);
                let part = old(self)@[p];
                let f = find_index(part, tenant_id, kind, record_id@);
                let policy = old(self).config.spec_policy_for(kind);
                &&& (f == -1 ==> final(self)@ == old(self)@ && res == Err::<
                    FailureOutcome,
                    QueueError,
                >(QueueError::NotFound))
                &&& (f != -1 && !(part[f].state is Leased)
                    ==> final(self)@ == old(self)@ && res == Err::<FailureOutcome, QueueError>(
                    QueueError::InvalidState,
                ))
                &&& (f != -1 && part[f].state is Leased
                    && part[f].lease_owner != Some(owner@) ==> final(self)@ == old(self)@ && res
                    == Err::<FailureOutcome, QueueError>(QueueError::NotOwner))
                &&& (f != -1 && part[f].state is Leased
                    && part[f].lease_owner == Some(owner@) ==> res is Ok && final(self)@ == old(
                    self,
                )@.update(p, part.update(f, failed_record(part[f], policy, error@, now))) && (res
                    == Ok::<FailureOutcome, QueueError>(FailureOutcome::DeadLettered) <==> part[f].attempts
                    >= policy.max_attempts))
            }),
    {
        let p = self.router.resolve(tenant_id);
        proof {
            lemma_resolve_bounds(
                self.router.assignments@,
                tenant_id,
                self.stores@.len() as int,
            );
            assert(self@[p as int] == self.stores@[p as int]@);
        }
        let policy = self.config.policy_for(kind);
        let ghost part = self@[p as int];
        let st = &mut self.stores[p];
        let res = st.fail(tenant_id, kind, record_id, owner, &policy, error, now);
        proof {
            assert forall|idx: int| 0 <= idx < self@.len() implies self@[idx] == old(
                self,
            )@.update(p as int, self@[p as int])[idx] by {
                assert(self@[idx] == self.stores@[idx]@);
                if idx != p as int {
                    assert(self.stores@[idx] == old(self).stores@[idx]);
                    assert(old(self)@[idx] == old(self).stores@[idx]@);
                }
            }
            assert(self@ =~= old(self)@.update(p as int, self@[p as int]));
            let f = find_index(part, tenant_id, kind, record_id@);
            if res is Ok {
                crate::store::lemma_find_index(part, tenant_id, kind, record_id@);
                assert(0 <= f < part.len());
                assert(self@[p as int] == part.update(
                    f,
                    failed_record(part[f], policy, error@, now),
                ));
                assert forall|k: int| 0 <= k < self@[p as int].len() implies self.router
                    .resolve_spec((#[trigger] self@[p as int][k]).tenant_id) == p as int by {
                    assert(old(self)@[p as int][k] == part[k]);
                    if k == f {
                        assert(self@[p as int][k] == failed_record(part[f], policy, error@, now));
                        assert(self@[p as int][k].tenant_id == part[k].tenant_id);
                    } else {
                        assert(self@[p as int][k] == part[k]);
                    }
                }
                lemma_wf_after_update(*old(self), *self, p as int);
            } else {
                assert(self@[p as int] == part);
                assert(self@ =~= old(self)@);
            }
        }
        res
    }

    /// The optional periodic sweep: proactively return every expired
    /// `Leased` record of `(tenant_id, kind)` to `Pending`, for
    /// observability.  Claims do not depend on it — an expired lease
    /// is claimable as it stands — but the sweep makes recovery
    /// visible to status readers.  Returns how many records it
    /// transitioned.
    pub fn sweep_expired(&mut self, tenant_id: u64, kind: WorkKind, now: u64) -> (n: usize)
        requires
            old(self).wf(),
        ensures
            final(self).wf(),
            final(self).config == old(self).config,
            final(self).router == old(self).router,
            ({
                let p = old(self).router.resolve_spec(tenant_id);
                &&& final(self)@ == old(self)@.update(
                    p,
                    sweep_seq(old(self)@[p], tenant_id, kind, now),
                )
                &&& n as int == count_expired(old(self)@[p], tenant_id, kind, now)
            }),
    {
        let p = self.router.resolve(tenant_id);
        proof {
            lemma_resolve_bounds(
                self.router.assignments@,
                tenant_id,
                self.stores@.len() as int,
            );
            assert(self@[p as int] == self.stores@[p as int]@);
        }
        let ghost part = self@[p as int];
        let st = &mut self.stores[p];
        let n = st.sweep_expired(tenant_id, kind, now);
        proof {
            assert forall|idx: int| 0 <= idx < self@.len() implies self@[idx] == old(
                self,
            )@.update(p as int, self@[p as int])[idx] by {
                assert(self@[idx] == self.stores@[idx]@);
                if idx != p as int {
                    assert(self.stores@[idx] == old(self).stores@[idx]);
                    assert(old(self)@[idx] == old(self).stores@[idx]@);
                }
            }
            assert(self@ =~= old(self)@.update(p as int, self@[p as int]));
            assert(self@[p as int] == sweep_seq(part, tenant_id, kind, now));
            assert forall|k: int| 0 <= k < self@[p as int].len() implies self.router.resolve_spec(
                (#[trigger] self@[p as int][k]).tenant_id,
            ) == p as int by {
                assert(old(self)@[p as int][k] == part[k]);
                assert(self@[p as int][k].tenant_id == part[k].tenant_id);
            }
            lemma_wf_after_update(*old(self), *self, p as int);
        }
        n
    }

    /// A read-only snapshot of the record under `(tenant_id, kind,
    /// record_id)` for status inquiries; never mutates state.  Fails
    /// with `NotFound` when no such record exists.
    pub fn get(&self, tenant_id: u64, kind: WorkKind, record_id: &String) -> (res: Result<
        WorkRecord,
        QueueError,
    >)
        requires
            self.wf(),
        ensures
            ({
                let p = self.router.resolve_spec(tenant_id);
                let part = self@[p];
                let f = find_index(part, tenant_id, kind, record_id@);
                &&& (res is Ok <==> f != -1)
                &&& (res matches Ok(r) ==> r@ == part[f])
                &&& (res is Err ==> res == Err::<WorkRecord, QueueError>(QueueError::NotFound))
            }),
    {
        let p = self.router.resolve(tenant_id);
        proof {
            lemma_resolve_bounds(
                self.router.assignments@,
                tenant_id,
                self.stores@.len() as int,
            );
            assert(self@[p as int] == self.stores@[p as int]@);
        }
        let st = &self.stores[p];
        st.get(tenant_id, kind, record_id)
    }
}

} // verus!
