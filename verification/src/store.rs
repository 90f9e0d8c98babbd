//! One partition of the record store: an in-memory, ordered table of
//! work records with atomic (single-owner) conditional updates.

use vstd::prelude::*;

use crate::claim::{
    claim_result_seq, claim_store_seq, lemma_claim_index, lemma_claim_len, lemma_claim_push,
};
use crate::errors::{FailureOutcome, QueueError};
use crate::lease::{is_claimable, lease, lease_expired, leased_record, swept_record};
use crate::policy::{apply_failure, failed_record, KindConfig};
use crate::record::{
    completed_record, key_matches, record_wf, RecordModel, RecordState, WorkKind, WorkRecord,
};

verus! {

/// The models of a sequence of records.
pub open spec fn models_of(v: Seq<WorkRecord>) -> Seq<RecordModel> {
    v.map_values(|r: WorkRecord| r@)
}

/// No two records of `s` share a key.
pub open spec fn unique_keys(s: Seq<RecordModel>) -> bool {
    forall|i: int, j: int|
        #![trigger s[i], s[j]]
        0 <= i < s.len() && 0 <= j < s.len() && i != j ==> !(s[i].tenant_id == s[j].tenant_id
            && s[i].kind == s[j].kind && s[i].record_id == s[j].record_id)
}

/// Records appear oldest first.
pub open spec fn sorted_by_created(s: Seq<RecordModel>) -> bool {
    forall|i: int, j: int|
        #![trigger s[i], s[j]]
        0 <= i <= j < s.len() ==> s[i].created_at <= s[j].created_at
}

/// Every record of `s` is internally consistent.
pub open spec fn all_wf(s: Seq<RecordModel>) -> bool {
    forall|i: int| 0 <= i < s.len() ==> record_wf(#[trigger] s[i])
}

/// Well-formedness of a partition: unique keys, oldest first, and
/// consistent records.
pub open spec fn store_wf(s: Seq<RecordModel>) -> bool {
    unique_keys(s) && sorted_by_created(s) && all_wf(s)
}

/// The position of the (unique) record of `s` with the given key, or
/// `-1` when no record carries it.
pub open spec fn find_index(
    s: Seq<RecordModel>,
    tenant_id: u64,
    kind: WorkKind,
    record_id: Seq<char>,
) -> int
    decreases s.len(),
{
    if s.len() == 0 {
        -1
    } else if key_matches(s[0], tenant_id, kind, record_id) {
        0
    } else {
        let rest = find_index(s.drop_first(), tenant_id, kind, record_id);
        if rest == -1 {
            -1
        } else {
            rest + 1
        }
    }
}

/// Characterisation of [`find_index`]: `-1` means no record carries
/// the key; otherwise it is the first position that does.
pub proof fn lemma_find_index(s: Seq<RecordModel>, tenant_id: u64, kind: WorkKind, rid: Seq<char>)
    ensures
        find_index(s, tenant_id, kind, rid) == -1 ==> forall|i: int|
            0 <= i < s.len() ==> !key_matches(#[trigger] s[i], tenant_id, kind, rid),
        find_index(s, tenant_id, kind, rid) != -1 ==> {
            let f = find_index(s, tenant_id, kind, rid);
            &&& 0 <= f < s.len()
            &&& key_matches(s[f], tenant_id, kind, rid)
            &&& forall|i: int| 0 <= i < f ==> !key_matches(#[trigger] s[i], tenant_id, kind, rid)
        },
    decreases s.len(),
{
    if s.len() > 0 && !key_matches(s[0], tenant_id, kind, rid) {
        lemma_find_index(s.drop_first(), tenant_id, kind, rid);
        let rest = find_index(s.drop_first(), tenant_id, kind, rid);
        if rest == -1 {
            assert forall|i: int| 0 <= i < s.len() implies !key_matches(
                #[trigger] s[i],
                tenant_id,
                kind,
                rid,
            ) by {
                if i > 0 {
                    assert(s[i] == s.drop_first()[i - 1]);
                }
            }
        } else {
            assert(s[rest + 1] == s.drop_first()[rest]);
            assert forall|i: int| 0 <= i < rest + 1 implies !key_matches(
                #[trigger] s[i],
                tenant_id,
                kind,
                rid,
            ) by {
                if i > 0 {
                    assert(s[i] == s.drop_first()[i - 1]);
                }
            }
        }
    }
}

/// The first position whose record was created strictly after
/// `created_at`; `s.len()` when there is none.  Inserting there keeps
/// the partition oldest-first and, on ties, behind earlier arrivals.
pub open spec fn insert_pos(s: Seq<RecordModel>, created_at: u64) -> int
    decreases s.len(),
{
    if s.len() == 0 {
        0
    } else if s[0].created_at > created_at {
        0
    } else {
        1 + insert_pos(s.drop_first(), created_at)
    }
}

/// Characterisation of [`insert_pos`]: everything before it was
/// created no later than `created_at`, everything from it on strictly
/// later.
pub proof fn lemma_insert_pos(s: Seq<RecordModel>, created_at: u64)
    requires
        sorted_by_created(s),
    ensures
        0 <= insert_pos(s, created_at) <= s.len(),
        forall|i: int|
            0 <= i < insert_pos(s, created_at) ==> #[trigger] s[i].created_at <= created_at,
        forall|i: int|
            insert_pos(s, created_at) <= i < s.len() ==> #[trigger] s[i].created_at > created_at,
    decreases s.len(),
{
    if s.len() > 0 {
        if s[0].created_at > created_at {
            assert forall|i: int| 0 <= i < s.len() implies #[trigger] s[i].created_at
                > created_at by {
                assert(s[0].created_at <= s[i].created_at);
            }
        } else {
            assert forall|i: int, j: int|
                #![trigger s.drop_first()[i], s.drop_first()[j]]
                0 <= i <= j < s.drop_first().len() implies s.drop_first()[i].created_at
                <= s.drop_first()[j].created_at by {
                assert(s.drop_first()[i] == s[i + 1]);
                assert(s.drop_first()[j] == s[j + 1]);
            }
            lemma_insert_pos(s.drop_first(), created_at);
            let p = insert_pos(s, created_at);
            assert forall|i: int| 0 <= i < p implies #[trigger] s[i].created_at <= created_at by {
                if i > 0 {
                    assert(s[i] == s.drop_first()[i - 1]);
                }
            }
            assert forall|i: int| p <= i < s.len() implies #[trigger] s[i].created_at
                > created_at by {
                assert(s[i] == s.drop_first()[i - 1]);
            }
        }
    }
}

/// Whether the optional sweep for `(tenant_id, kind)` at `now` would
/// transition `r`.
pub open spec fn sweepable(r: RecordModel, tenant_id: u64, kind: WorkKind, now: u64) -> bool {
    r.tenant_id == tenant_id && r.kind == kind && lease_expired(r, now)
}

/// The partition after a sweep for `(tenant_id, kind)` at `now`: every
/// matching record whose lease has expired goes back to `Pending`.
pub open spec fn sweep_seq(
    s: Seq<RecordModel>,
    tenant_id: u64,
    kind: WorkKind,
    now: u64,
) -> Seq<RecordModel> {
    s.map_values(
        |r: RecordModel|
            if sweepable(r, tenant_id, kind, now) {
                swept_record(r, now)
            } else {
                r
            },
    )
}

/// How many records such a sweep transitions.
pub open spec fn count_expired(s: Seq<RecordModel>, tenant_id: u64, kind: WorkKind, now: u64) -> int
    decreases s.len(),
{
    if s.len() == 0 {
        0
    } else {
        (if sweepable(s[0], tenant_id, kind, now) {
            1int
        } else {
            0int
        }) + count_expired(s.drop_first(), tenant_id, kind, now)
    }
}

pub proof fn lemma_count_expired_push(
    s: Seq<RecordModel>,
    x: RecordModel,
    tenant_id: u64,
    kind: WorkKind,
    now: u64,
)
    ensures
        0 <= count_expired(s, tenant_id, kind, now) <= s.len(),
        count_expired(s.push(x), tenant_id, kind, now) == count_expired(s, tenant_id, kind, now)
            + (if sweepable(x, tenant_id, kind, now) {
            1int
        } else {
            0int
        }),
    decreases s.len(),
{
    if s.len() == 0 {
        assert(s.push(x)[0] == x);
        assert(s.push(x).drop_first() =~= s);
    } else {
        assert(s.push(x)[0] == s[0]);
        assert(s.push(x).drop_first() =~= s.drop_first().push(x));
        lemma_count_expired_push(s.drop_first(), x, tenant_id, kind, now);
    }
}

/// One partition: records oldest first, keys unique.
pub struct RecordStore {
    pub records: Vec<WorkRecord>,
}

impl View for RecordStore {
    type V = Seq<RecordModel>;

    open spec fn view(&self) -> Seq<RecordModel> {
        models_of(self.records@)
    }
}

impl RecordStore {
    /// An empty partition.
    pub fn new() -> (st: RecordStore)
        ensures
            st@ =~= Seq::<RecordModel>::empty(),
    {
        RecordStore { records: Vec::new() }
    }

    /// The position of the record with the given key, if any.
    pub fn find(&self, tenant_id: u64, kind: WorkKind, record_id: &String) -> (pos: Option<usize>)
        ensures
            match pos {
                Some(i) => i < self.records@.len() && find_index(
                    self@,
                    tenant_id,
                    kind,
                    record_id@,
                ) == i as int,
                None => find_index(self@, tenant_id, kind, record_id@) == -1,
            },
    {
        let n = self.records.len();
        let mut i: usize = 0;
        while i < n
            invariant
                n == self.records@.len(),
                i <= n,
                forall|j: int|
                    0 <= j < i ==> !key_matches(#[trigger] self@[j], tenant_id, kind, record_id@),
            decreases n - i,
        {
            let r = &self.records[i];
            if r.tenant_id == tenant_id && r.kind == kind && r.record_id == *record_id {
                proof {
                    lemma_find_index(self@, tenant_id, kind, record_id@);
                    let f = find_index(self@, tenant_id, kind, record_id@);
                    assert(key_matches(self@[i as int], tenant_id, kind, record_id@));
                    assert(f != -1);
                    assert(f == i as int);
                }
                return Some(i);
            }
            i = i + 1;
        }
        proof {
            lemma_find_index(self@, tenant_id, kind, record_id@);
        }
        None
    }

    /// A read-only snapshot of the record with the given key; never
    /// mutates state.
    pub fn get(&self, tenant_id: u64, kind: WorkKind, record_id: &String) -> (res: Result<
        WorkRecord,
        QueueError,
    >)
        ensures
            res is Ok <==> find_index(self@, tenant_id, kind, record_id@) != -1,
            res matches Ok(r) ==> r@ == self@[find_index(self@, tenant_id, kind, record_id@)],
            res is Err ==> res == Err::<WorkRecord, QueueError>(QueueError::NotFound),
    {
        match self.find(tenant_id, kind, record_id) {
            Some(i) => {
                let r = self.records[i].clone();
                proof {
                    assert(self@[i as int] == self.records@[i as int]@);
                }
                Ok(r)
            },
            None => Err(QueueError::NotFound),
        }
    }

    /// Insert a record whose key is absent, keeping the partition
    /// oldest-first (behind earlier arrivals with the same creation
    /// time); reject a duplicate key, leaving the partition untouched.
    pub fn insert_if_absent(&mut self, rec: WorkRecord) -> (res: Result<(), QueueError>)
        requires
            store_wf(old(self)@),
            record_wf(rec@),
        ensures
            store_wf(final(self)@),
            res is Ok <==> find_index(old(self)@, rec.tenant_id, rec.kind, rec.record_id@) == -1,
            res is Ok ==> final(self)@ == old(self)@.insert(
                insert_pos(old(self)@, rec.created_at),
                rec@,
            ),
            res is Err ==> *final(self) == *old(self) && res == Err::<(), QueueError>(
                QueueError::DuplicateRecord,
            ),
    {
        match self.find(rec.tenant_id, rec.kind, &rec.record_id) {
            Some(_) => Err(QueueError::DuplicateRecord),
            None => {
                let ghost s0 = self@;
                let created = rec.created_at;
                let n = self.records.len();
                let mut pos: usize = 0;
                while pos < n && self.records[pos].created_at <= created
                    invariant
                        n == self.records@.len(),
                        s0 == self@,
                        created == rec.created_at,
                        pos <= n,
                        forall|j: int| 0 <= j < pos ==> #[trigger] s0[j].created_at <= created,
                    decreases n - pos,
                {
                    proof {
                        assert(s0[pos as int] == self.records@[pos as int]@);
                    }
                    pos = pos + 1;
                }
                proof {
                    lemma_insert_pos(s0, created);
                    let ip = insert_pos(s0, created);
                    if pos < n {
                        assert(s0[pos as int] == self.records@[pos as int]@);
                        assert(s0[pos as int].created_at > created);
                    }
                    if ip < pos as int {
                        assert(s0[ip].created_at <= created);
                        assert(false);
                    }
                    if ip > pos as int {
                        assert(s0[pos as int].created_at > created);
                        assert(false);
                    }
                    assert(ip == pos as int);
                }
                self.records.insert(pos, rec);
                proof {
                    let ghost t = s0.insert(pos as int, rec@);
                    assert(self@ =~= t);
                    lemma_find_index(s0, rec.tenant_id, rec.kind, rec.record_id@);
                    lemma_insert_pos(s0, created);
                    assert forall|i: int, j: int|
                        #![trigger t[i], t[j]]
                        0 <= i < t.len() && 0 <= j < t.len() && i != j implies !(t[i].tenant_id
                        == t[j].tenant_id && t[i].kind == t[j].kind && t[i].record_id
                        == t[j].record_id) by {
                        let p = pos as int;
                        let si: int = if i < p {
                            i
                        } else {
                            i - 1
                        };
                        let sj: int = if j < p {
                            j
                        } else {
                            j - 1
                        };
                        if i == p {
                            if j != p {
                                assert(t[j] == s0[sj]);
                                assert(!key_matches(s0[sj], rec.tenant_id, rec.kind,
                                rec.record_id@));
                            }
                        } else if j == p {
                            assert(t[i] == s0[si]);
                            assert(!key_matches(s0[si], rec.tenant_id, rec.kind, rec.record_id@));
                        } else {
                            assert(t[i] == s0[si]);
                            assert(t[j] == s0[sj]);
                        }
                    }
                    assert forall|i: int, j: int|
                        #![trigger t[i], t[j]]
                        0 <= i <= j < t.len() implies t[i].created_at <= t[j].created_at by {
                        let p = pos as int;
                        let si: int = if i < p {
                            i
                        } else {
                            i - 1
                        };
                        let sj: int = if j < p {
                            j
                        } else {
                            j - 1
                        };
                        if i == p && j == p {
                        } else if i == p {
                            assert(t[j] == s0[sj]);
                            assert(s0[sj].created_at > created);
                        } else if j == p {
                            assert(t[i] == s0[si]);
                            assert(s0[si].created_at <= created);
                        } else {
                            assert(t[i] == s0[si]);
                            assert(t[j] == s0[sj]);
                        }
                    }
                    assert forall|i: int| 0 <= i < t.len() implies record_wf(#[trigger] t[i]) by {
                        let p = pos as int;
                        if i != p {
                            let si: int = if i < p {
                                i
                            } else {
                                i - 1
                            };
                            assert(t[i] == s0[si]);
                        }
                    }
                }
                Ok(())
            },
        }
    }

    /// Transition the record with the given key from `Leased` to
    /// `Completed`, provided `owner` still holds its lease.
    pub fn complete(
        &mut self,
        tenant_id: u64,
        kind: WorkKind,
        record_id: &String,
        owner: &String,
        now: u64,
    ) -> (res: Result<(), QueueError>)
        requires
            store_wf(old(self)@),
        ensures
            store_wf(final(self)@),
            ({
                let f = find_index(old(self)@, tenant_id, kind, record_id@);
                &&& (f == -1 ==> *final(self) == *old(self) && res == Err::<(), QueueError>(
                    QueueError::NotFound,
                ))
                &&& (f != -1 && !(old(self)@[f].state is Leased) ==> *final(self) == *old(self)
                    && res == Err::<(), QueueError>(QueueError::InvalidState))
                &&& (f != -1 && old(self)@[f].state is Leased && old(self)@[f].lease_owner != Some(
                    owner@,
                ) ==> *final(self) == *old(self) && res == Err::<(), QueueError>(
                    QueueError::NotOwner,
                ))
                &&& (f != -1 && old(self)@[f].state is Leased && old(self)@[f].lease_owner == Some(
                    owner@,
                ) ==> res is Ok && final(self)@ == old(self)@.update(
                    f,
                    completed_record(old(self)@[f], now),
                ))
            }),
    {
        let i = match self.find(tenant_id, kind, record_id) {
            None => {
                return Err(QueueError::NotFound);
            },
            Some(i) => i,
        };
        proof {
            assert(self@[i as int] == self.records@[i as int]@);
        }
        let leased_now = match self.records[i].state {
            RecordState::Leased => true,
            _ => false,
        };
        if !leased_now {
            return Err(QueueError::InvalidState);
        }
        let owner_ok = match &self.records[i].lease_owner {
            Some(o) => *o == *owner,
            None => false,
        };
        if !owner_ok {
            return Err(QueueError::NotOwner);
        }
        let ghost s0 = self@;
        let ghost f = i as int;
        let r = &mut self.records[i];
        r.state = RecordState::Completed;
        r.lease_owner = None;
        r.lease_expires_at = None;
        r.not_before = None;
        r.updated_at = now;
        proof {
            let t = s0.update(f, completed_record(s0[f], now));
            assert(self.records@[f]@ =~= completed_record(s0[f], now));
            assert(self@ =~= t);
            assert forall|a: int, b: int|
                #![trigger t[a], t[b]]
                0 <= a < t.len() && 0 <= b < t.len() && a != b implies !(t[a].tenant_id
                == t[b].tenant_id && t[a].kind == t[b].kind && t[a].record_id == t[b].record_id) by {
                assert(s0[a].tenant_id == t[a].tenant_id && s0[a].kind == t[a].kind
                    && s0[a].record_id == t[a].record_id);
                assert(s0[b].tenant_id == t[b].tenant_id && s0[b].kind == t[b].kind
                    && s0[b].record_id == t[b].record_id);
            }
            assert forall|a: int, b: int|
                #![trigger t[a], t[b]]
                0 <= a <= b < t.len() implies t[a].created_at <= t[b].created_at by {
                assert(s0[a].created_at == t[a].created_at);
                assert(s0[b].created_at == t[b].created_at);
            }
            assert forall|a: int| 0 <= a < t.len() implies record_wf(#[trigger] t[a]) by {
                if a != f {
                    assert(t[a] == s0[a]);
                }
            }
        }
        Ok(())
    }

    /// Hand the record with the given key to the attempt/backoff
    /// policy after its handler failed, provided `owner` still holds
    /// its lease: it is retried or dead-lettered.
    pub fn fail(
        &mut self,
        tenant_id: u64,
        kind: WorkKind,
        record_id: &String,
        owner: &String,
        policy: &KindConfig,
        error: String,
        now: u64,
    ) -> (res: Result<FailureOutcome, QueueError>)
        requires
            store_wf(old(self)@),
        ensures
            store_wf(final(self)@),
            ({
                let f = find_index(old(self)@, tenant_id, kind, record_id@);
                &&& (f == -1 ==> *final(self) == *old(self) && res == Err::<
                    FailureOutcome,
                    QueueError,
                >(QueueError::NotFound))
                &&& (f != -1 && !(old(self)@[f].state is Leased) ==> *final(self) == *old(self)
                    && res == Err::<FailureOutcome, QueueError>(QueueError::InvalidState))
                &&& (f != -1 && old(self)@[f].state is Leased && old(self)@[f].lease_owner != Some(
                    owner@,
                ) ==> *final(self) == *old(self) && res == Err::<FailureOutcome, QueueError>(
                    QueueError::NotOwner,
                ))
                &&& (f != -1 && old(self)@[f].state is Leased && old(self)@[f].lease_owner == Some(
                    owner@,
                ) ==> res is Ok && final(self)@ == old(self)@.update(
                    f,
                    failed_record(old(self)@[f], *policy, error@, now),
                ) && (res == Ok::<FailureOutcome, QueueError>(FailureOutcome::DeadLettered)
                    <==> old(self)@[f].attempts >= policy.max_attempts))
            }),
    {
        let i = match self.find(tenant_id, kind, record_id) {
            None => {
                return Err(QueueError::NotFound);
            },
            Some(i) => i,
        };
        proof {
            assert(self@[i as int] == self.records@[i as int]@);
        }
        let leased_now = match self.records[i].state {
            RecordState::Leased => true,
            _ => false,
        };
        if !leased_now {
            return Err(QueueError::InvalidState);
        }
        let owner_ok = match &self.records[i].lease_owner {
            Some(o) => *o == *owner,
            None => false,
        };
        if !owner_ok {
            return Err(QueueError::NotOwner);
        }
        let ghost s0 = self@;
        let ghost f = i as int;
        let r = &mut self.records[i];
        let outcome = apply_failure(r, policy, error, now);
        proof {
            let t = s0.update(f, failed_record(s0[f], *policy, error@, now));
            assert(self@ =~= t);
            assert forall|a: int, b: int|
                #![trigger t[a], t[b]]
                0 <= a < t.len() && 0 <= b < t.len() && a != b implies !(t[a].tenant_id
                == t[b].tenant_id && t[a].kind == t[b].kind && t[a].record_id == t[b].record_id) by {
                assert(s0[a].tenant_id == t[a].tenant_id && s0[a].kind == t[a].kind
                    && s0[a].record_id == t[a].record_id);
                assert(s0[b].tenant_id == t[b].tenant_id && s0[b].kind == t[b].kind
                    && s0[b].record_id == t[b].record_id);
            }
            assert forall|a: int, b: int|
                #![trigger t[a], t[b]]
                0 <= a <= b < t.len() implies t[a].created_at <= t[b].created_at by {
                assert(s0[a].created_at == t[a].created_at);
                assert(s0[b].created_at == t[b].created_at);
            }
            assert forall|a: int| 0 <= a < t.len() implies record_wf(#[trigger] t[a]) by {
                if a != f {
                    assert(t[a] == s0[a]);
                }
            }
        }
        Ok(outcome)
    }

    /// Claim up to `max_n` eligible records for `(tenant_id, kind)` at
    /// `now`, oldest first, leasing each to `owner` for `duration`.
    /// Returns the claimed records, already leased; returns fewer than
    /// `max_n` (possibly none) when fewer are eligible, and never
    /// blocks.
    pub fn claim(
        &mut self,
        tenant_id: u64,
        kind: WorkKind,
        owner: &String,
        max_n: usize,
        now: u64,
        duration: u64,
    ) -> (out: Vec<WorkRecord>)
        requires
            store_wf(old(self)@),
        ensures
            store_wf(final(self)@),
            final(self)@ == claim_store_seq(
                old(self)@,
                tenant_id,
                kind,
                owner@,
                now,
                duration,
                max_n as int,
            ),
            models_of(out@) == claim_result_seq(
                old(self)@,
                tenant_id,
                kind,
                owner@,
                now,
                duration,
                max_n as int,
            ),
    {
        let ghost s0 = self@;
        let n = self.records.len();
        let mut out: Vec<WorkRecord> = Vec::new();
        let mut remaining: usize = max_n;
        let mut i: usize = 0;
        proof {
            assert(s0.take(0) =~= Seq::<RecordModel>::empty());
            assert(claim_store_seq(
                s0.take(0),
                tenant_id,
                kind,
                owner@,
                now,
                duration,
                max_n as int,
            ) =~= Seq::<RecordModel>::empty());
            assert(claim_result_seq(
                s0.take(0),
                tenant_id,
                kind,
                owner@,
                now,
                duration,
                max_n as int,
            ) =~= Seq::<RecordModel>::empty());
            assert(self@ =~= claim_store_seq(
                s0.take(0),
                tenant_id,
                kind,
                owner@,
                now,
                duration,
                max_n as int,
            ) + s0.skip(0));
            assert(models_of(out@) =~= claim_result_seq(
                s0.take(0),
                tenant_id,
                kind,
                owner@,
                now,
                duration,
                max_n as int,
            ));
        }
        while i < n
            invariant
                n == self.records@.len(),
                s0.len() == n,
                s0 == old(self)@,
                store_wf(s0),
                i <= n,
                remaining as int == max_n as int - claim_result_seq(
                    s0.take(i as int),
                    tenant_id,
                    kind,
                    owner@,
                    now,
                    duration,
                    max_n as int,
                ).len(),
                self@ == claim_store_seq(
                    s0.take(i as int),
                    tenant_id,
                    kind,
                    owner@,
                    now,
                    duration,
                    max_n as int,
                ) + s0.skip(i as int),
                models_of(out@) == claim_result_seq(
                    s0.take(i as int),
                    tenant_id,
                    kind,
                    owner@,
                    now,
                    duration,
                    max_n as int,
                ),
            decreases n - i,
        {
            proof {
                lemma_claim_len(
                    s0.take(i as int),
                    tenant_id,
                    kind,
                    owner@,
                    now,
                    duration,
                    max_n as int,
                );
                assert(s0.take(i as int).len() == i as int);
                assert(s0.skip(i as int)[0] == s0[i as int]);
                assert(self@[i as int] == s0[i as int]);
                assert(self.records@[i as int]@ == self@[i as int]);
            }
            let can = remaining > 0 && self.records[i].tenant_id == tenant_id
                && self.records[i].kind == kind && is_claimable(&self.records[i], now);
            let ghost mid_records = self.records@;
            let ghost gi = i as int;
            let ghost lr = leased_record(s0[gi], owner@, now, duration);
            if can {
                let r = &mut self.records[i];
                let claimed = lease(r, owner, now, duration);
                proof {
                    assert(claimed is Ok);
                    assert(self.records@[gi]@ == lr);
                    assert(self.records@ =~= mid_records.update(gi, self.records@[gi]));
                    assert forall|idx: int| 0 <= idx < self@.len() implies self@[idx] == (
                    models_of(mid_records).update(gi, lr))[idx] by {
                        if idx != gi {
                            assert(self.records@[idx] == mid_records[idx]);
                        }
                    }
                    assert(self@ =~= models_of(mid_records).update(gi, lr));
                }
                let snap = self.records[i].clone();
                out.push(snap);
                remaining = remaining - 1;
            }
            proof {
                let pre = claim_store_seq(
                    s0.take(gi),
                    tenant_id,
                    kind,
                    owner@,
                    now,
                    duration,
                    max_n as int,
                );
                let post = claim_store_seq(
                    s0.take(gi + 1),
                    tenant_id,
                    kind,
                    owner@,
                    now,
                    duration,
                    max_n as int,
                );
                lemma_claim_push(
                    s0.take(gi),
                    s0[gi],
                    tenant_id,
                    kind,
                    owner@,
                    now,
                    duration,
                    max_n as int,
                );
                assert(s0.take(gi).push(s0[gi]) =~= s0.take(gi + 1));
                assert(pre.len() == gi);
                assert(post == pre.push(if can {
                    lr
                } else {
                    s0[gi]
                }));
                let target = post + s0.skip(gi + 1);
                assert(target.len() == n as int);
                assert forall|idx: int| 0 <= idx < n as int implies self@[idx] == target[idx] by {
                    if idx < gi {
                        assert(target[idx] == post[idx]);
                        assert(post[idx] == pre[idx]);
                        assert((pre + s0.skip(gi))[idx] == pre[idx]);
                    } else if idx == gi {
                        assert(target[idx] == post[idx]);
                        assert(post[gi] == (if can {
                            lr
                        } else {
                            s0[gi]
                        }));
                        assert((pre + s0.skip(gi))[gi] == s0.skip(gi)[0]);
                    } else {
                        assert(target[idx] == s0.skip(gi + 1)[idx - gi - 1]);
                        assert(s0.skip(gi + 1)[idx - gi - 1] == s0[idx]);
                        assert((pre + s0.skip(gi))[idx] == s0.skip(gi)[idx - gi]);
                        assert(s0.skip(gi)[idx - gi] == s0[idx]);
                    }
                }
                assert(self@ =~= target);
                assert(models_of(out@) =~= claim_result_seq(
                    s0.take(gi + 1),
                    tenant_id,
                    kind,
                    owner@,
                    now,
                    duration,
                    max_n as int,
                ));
            }
            i = i + 1;
        }
        proof {
            assert(s0.take(n as int) =~= s0);
            assert(s0.skip(n as int) =~= Seq::<RecordModel>::empty());
            let t = claim_store_seq(s0, tenant_id, kind, owner@, now, duration, max_n as int);
            lemma_claim_index(s0, tenant_id, kind, owner@, now, duration, max_n as int);
            assert(self@ =~= t);
            assert forall|a: int, b: int|
                #![trigger t[a], t[b]]
                0 <= a < t.len() && 0 <= b < t.len() && a != b implies !(t[a].tenant_id
                == t[b].tenant_id && t[a].kind == t[b].kind && t[a].record_id == t[b].record_id) by {
                assert(s0[a].tenant_id == t[a].tenant_id && s0[a].kind == t[a].kind
                    && s0[a].record_id == t[a].record_id);
                assert(s0[b].tenant_id == t[b].tenant_id && s0[b].kind == t[b].kind
                    && s0[b].record_id == t[b].record_id);
            }
            assert forall|a: int, b: int|
                #![trigger t[a], t[b]]
                0 <= a <= b < t.len() implies t[a].created_at <= t[b].created_at by {
                assert(s0[a].created_at == t[a].created_at);
                assert(s0[b].created_at == t[b].created_at);
            }
            assert forall|a: int| 0 <= a < t.len() implies record_wf(#[trigger] t[a]) by {
                assert(record_wf(s0[a]));
            }
        }
        out
    }

    /// The optional periodic sweep: proactively transition every
    /// expired `Leased` record of `(tenant_id, kind)` back to
    /// `Pending`, for observability.  Returns how many records it
    /// transitioned.  Claims do not need this: expired leases are
    /// claimable as they stand.
    pub fn sweep_expired(&mut self, tenant_id: u64, kind: WorkKind, now: u64) -> (n: usize)
        requires
            store_wf(old(self)@),
        ensures
            store_wf(final(self)@),
            final(self)@ == sweep_seq(old(self)@, tenant_id, kind, now),
            n as int == count_expired(old(self)@, tenant_id, kind, now),
    {
        let ghost s0 = self@;
        let len = self.records.len();
        let mut swept: usize = 0;
        let mut i: usize = 0;
        proof {
            assert(s0.take(0) =~= Seq::<RecordModel>::empty());
        }
        while i < len
            invariant
                len == self.records@.len(),
                s0.len() == len,
                s0 == old(self)@,
                store_wf(s0),
                i <= len,
                swept <= i,
                swept as int == count_expired(s0.take(i as int), tenant_id, kind, now),
                self@.len() == s0.len(),
                forall|idx: int|
                    0 <= idx < i ==> #[trigger] self@[idx] == sweep_seq(
                        s0,
                        tenant_id,
                        kind,
                        now,
                    )[idx],
                forall|idx: int| i <= idx < len ==> #[trigger] self@[idx] == s0[idx],
            decreases len - i,
        {
            proof {
                assert(self.records@[i as int]@ == self@[i as int]);
            }
            let expired = match self.records[i].state {
                RecordState::Leased => match self.records[i].lease_expires_at {
                    Some(e) => e <= now,
                    None => false,
                },
                _ => false,
            };
            let matches_key = self.records[i].tenant_id == tenant_id && self.records[i].kind
                == kind;
            let ghost mid = self.records@;
            if expired && matches_key {
                let r = &mut self.records[i];
                r.state = RecordState::Pending;
                r.lease_owner = None;
                r.lease_expires_at = None;
                r.updated_at = now;
                swept = swept + 1;
                proof {
                    assert(self.records@[i as int]@ =~= swept_record(s0[i as int], now));
                    assert(self.records@ =~= mid.update(i as int, self.records@[i as int]));
                    assert forall|idx: int| 0 <= idx < self@.len() && idx != i as int implies self@[idx]
                        == models_of(mid)[idx] by {
                        assert(self.records@[idx] == mid[idx]);
                    }
                }
            }
            proof {
                lemma_count_expired_push(s0.take(i as int), s0[i as int], tenant_id, kind, now);
                assert(s0.take(i as int).push(s0[i as int]) =~= s0.take(i as int + 1));
                let gi = i as int;
                let t = sweep_seq(s0, tenant_id, kind, now);
                if expired && matches_key {
                    assert(sweepable(s0[gi], tenant_id, kind, now));
                    assert(self@[gi] == swept_record(s0[gi], now));
                    assert(self@[gi] == t[gi]);
                    assert forall|idx: int| 0 <= idx < gi implies #[trigger] self@[idx]
                        == t[idx] by {
                        assert(self@[idx] == models_of(mid)[idx]);
                    }
                    assert forall|idx: int| gi + 1 <= idx < len implies #[trigger] self@[idx]
                        == s0[idx] by {
                        assert(self@[idx] == models_of(mid)[idx]);
                    }
                } else {
                    assert(!sweepable(s0[gi], tenant_id, kind, now));
                    assert(self@[gi] == s0[gi]);
                    assert(self@[gi] == t[gi]);
                }
            }
            i = i + 1;
        }
        proof {
            assert(s0.take(len as int) =~= s0);
            let t = sweep_seq(s0, tenant_id, kind, now);
            assert(self@ =~= t);
            assert forall|a: int, b: int|
                #![trigger t[a], t[b]]
                0 <= a < t.len() && 0 <= b < t.len() && a != b implies !(t[a].tenant_id
                == t[b].tenant_id && t[a].kind == t[b].kind && t[a].record_id == t[b].record_id) by {
                assert(s0[a].tenant_id == t[a].tenant_id && s0[a].kind == t[a].kind
                    && s0[a].record_id == t[a].record_id);
                assert(s0[b].tenant_id == t[b].tenant_id && s0[b].kind == t[b].kind
                    && s0[b].record_id == t[b].record_id);
            }
            assert forall|a: int, b: int|
                #![trigger t[a], t[b]]
                0 <= a <= b < t.len() implies t[a].created_at <= t[b].created_at by {
                assert(s0[a].created_at == t[a].created_at);
                assert(s0[b].created_at == t[b].created_at);
            }
            assert forall|a: int| 0 <= a < t.len() implies record_wf(#[trigger] t[a]) by {
                assert(record_wf(s0[a]));
            }
        }
        swept
    }
}

} // verus!
