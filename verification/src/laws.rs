//! The queue's laws, stated over the claim transformation that
//! `claim_batch` is proved to perform on the tenant's partition
//! (`claim_store_seq` for the partition, `claim_result_seq` for the
//! returned batch).

use vstd::prelude::*;

use crate::claim::{
    claim_result_seq, claim_store_seq, count_eligible, eligible, from_some_eligible,
    lemma_claim_index, lemma_claim_result_origin, lemma_count_eligible_bounds,
};
use crate::lease::{claimable, leased_record};
use crate::record::{key_matches, RecordModel, WorkKind};
use crate::store::unique_keys;

verus! {

/// At-most-one-owner: a record holding a non-expired lease at `now` is
/// untouched by any claim at `now` — its owner remains the record's
/// only owner — and no record of the returned batch carries its key.
/// (Two concurrent claimants are two such walks in some order: the
/// first to write leases the record, the second finds the fresh,
/// non-expired lease and must leave it.)
pub proof fn lemma_at_most_one_owner(
    s: Seq<RecordModel>,
    tenant_id: u64,
    kind: WorkKind,
    owner: Seq<char>,
    now: u64,
    duration: u64,
    budget: int,
    i: int,
)
    requires
        unique_keys(s),
        0 <= i < s.len(),
        s[i].state is Leased,
        s[i].lease_expires_at matches Some(e) && e > now,
    ensures
        claim_store_seq(s, tenant_id, kind, owner, now, duration, budget)[i] == s[i],
        forall|j: int|
            0 <= j < claim_result_seq(s, tenant_id, kind, owner, now, duration, budget).len()
                ==> !key_matches(
                #[trigger] claim_result_seq(s, tenant_id, kind, owner, now, duration, budget)[j],
                s[i].tenant_id,
                s[i].kind,
                s[i].record_id,
            ),
{
    lemma_claim_index(s, tenant_id, kind, owner, now, duration, budget);
    assert(!claimable(s[i], now));
    lemma_claim_result_origin(s, tenant_id, kind, owner, now, duration, budget);
    let res = claim_result_seq(s, tenant_id, kind, owner, now, duration, budget);
    assert forall|j: int| 0 <= j < res.len() implies !key_matches(
        #[trigger] res[j],
        s[i].tenant_id,
        s[i].kind,
        s[i].record_id,
    ) by {
        assert(from_some_eligible(s, tenant_id, kind, owner, now, duration, res[j]));
        let w: int = choose|m: int|
            #![trigger s[m]]
            0 <= m < s.len() && eligible(s[m], tenant_id, kind, now) && res[j] == leased_record(
                s[m],
                owner,
                now,
                duration,
            );
        if key_matches(res[j], s[i].tenant_id, s[i].kind, s[i].record_id) {
            assert(s[w].tenant_id == s[i].tenant_id && s[w].kind == s[i].kind && s[w].record_id
                == s[i].record_id);
            assert(w == i);
            assert(false);
        }
    }
}

/// No lost work: give the walk budget for every eligible record
/// (`max_n >= count_eligible`), and every claimable record of the
/// tenant and kind is leased in place and appears in the returned
/// batch.  A `Pending` record therefore cannot be starved: it stays
/// eligible until some claim takes it, and any claim with room must.
pub proof fn lemma_no_lost_work(
    s: Seq<RecordModel>,
    tenant_id: u64,
    kind: WorkKind,
    owner: Seq<char>,
    now: u64,
    duration: u64,
    budget: int,
)
    requires
        budget >= count_eligible(s, tenant_id, kind, now),
    ensures
        claim_store_seq(s, tenant_id, kind, owner, now, duration, budget).len() == s.len(),
        forall|i: int|
            0 <= i < s.len() && eligible(#[trigger] s[i], tenant_id, kind, now)
                ==> claim_store_seq(s, tenant_id, kind, owner, now, duration, budget)[i]
                == leased_record(s[i], owner, now, duration) && claim_result_seq(
                s,
                tenant_id,
                kind,
                owner,
                now,
                duration,
                budget,
            ).contains(leased_record(s[i], owner, now, duration)),
    decreases s.len(),
{
    if s.len() > 0 {
        lemma_count_eligible_bounds(s.drop_first(), tenant_id, kind, now);
        let post = claim_store_seq(s, tenant_id, kind, owner, now, duration, budget);
        let res = claim_result_seq(s, tenant_id, kind, owner, now, duration, budget);
        if eligible(s[0], tenant_id, kind, now) {
            assert(budget > 0);
            lemma_no_lost_work(
                s.drop_first(),
                tenant_id,
                kind,
                owner,
                now,
                duration,
                budget - 1,
            );
            let rest_post = claim_store_seq(
                s.drop_first(),
                tenant_id,
                kind,
                owner,
                now,
                duration,
                budget - 1,
            );
            let rest_res = claim_result_seq(
                s.drop_first(),
                tenant_id,
                kind,
                owner,
                now,
                duration,
                budget - 1,
            );
            assert forall|i: int|
                0 <= i < s.len() && eligible(#[trigger] s[i], tenant_id, kind, now) implies post[i]
                == leased_record(s[i], owner, now, duration) && res.contains(
                leased_record(s[i], owner, now, duration),
            ) by {
                if i == 0 {
                    assert(res[0] == leased_record(s[0], owner, now, duration));
                } else {
                    assert(s.drop_first()[i - 1] == s[i]);
                    assert(post[i] == rest_post[i - 1]);
                    assert(rest_res.contains(leased_record(s[i], owner, now, duration)));
                    let j: int = choose|j: int|
                        0 <= j < rest_res.len() && rest_res[j] == leased_record(
                            s[i],
                            owner,
                            now,
                            duration,
                        );
                    assert(res[j + 1] == rest_res[j]);
                }
            }
        } else {
            lemma_no_lost_work(s.drop_first(), tenant_id, kind, owner, now, duration, budget);
            let rest_post = claim_store_seq(
                s.drop_first(),
                tenant_id,
                kind,
                owner,
                now,
                duration,
                budget,
            );
            let rest_res = claim_result_seq(
                s.drop_first(),
                tenant_id,
                kind,
                owner,
                now,
                duration,
                budget,
            );
            assert forall|i: int|
                0 <= i < s.len() && eligible(#[trigger] s[i], tenant_id, kind, now) implies post[i]
                == leased_record(s[i], owner, now, duration) && res.contains(
                leased_record(s[i], owner, now, duration),
            ) by {
                assert(i > 0);
                assert(s.drop_first()[i - 1] == s[i]);
                assert(post[i] == rest_post[i - 1]);
                assert(rest_res.contains(leased_record(s[i], owner, now, duration)));
            }
        }
    }
}

/// Attempts are monotonic: no position of the partition ever loses
/// attempts across a claim — a claim adds exactly one to each record
/// it leases and touches nothing else.  (`complete` and `fail` keep
/// `attempts` unchanged by their contracts, and `enqueue` only adds
/// records, so no queue operation ever decreases an `attempts` count.)
pub proof fn lemma_attempts_monotonic(
    s: Seq<RecordModel>,
    tenant_id: u64,
    kind: WorkKind,
    owner: Seq<char>,
    now: u64,
    duration: u64,
    budget: int,
)
    ensures
        claim_store_seq(s, tenant_id, kind, owner, now, duration, budget).len() == s.len(),
        forall|i: int|
            0 <= i < s.len() ==> (#[trigger] claim_store_seq(
                s,
                tenant_id,
                kind,
                owner,
                now,
                duration,
                budget,
            )[i]).attempts >= s[i].attempts,
{
    lemma_claim_index(s, tenant_id, kind, owner, now, duration, budget);
}

/// Tenant isolation: a claim for `tenant_id` never mutates another
/// tenant's record and never returns one.  (Partitions other than the
/// tenant's are untouched by `claim_batch`'s own contract; this law
/// covers the records of other tenants sharing the default partition.)
pub proof fn lemma_tenant_isolation(
    s: Seq<RecordModel>,
    tenant_id: u64,
    kind: WorkKind,
    owner: Seq<char>,
    now: u64,
    duration: u64,
    budget: int,
)
    ensures
        claim_store_seq(s, tenant_id, kind, owner, now, duration, budget).len() == s.len(),
        forall|i: int|
            0 <= i < s.len() && (#[trigger] s[i]).tenant_id != tenant_id ==> claim_store_seq(
                s,
                tenant_id,
                kind,
                owner,
                now,
                duration,
                budget,
            )[i] == s[i],
        forall|j: int|
            0 <= j < claim_result_seq(s, tenant_id, kind, owner, now, duration, budget).len()
                ==> (#[trigger] claim_result_seq(
                s,
                tenant_id,
                kind,
                owner,
                now,
                duration,
                budget,
            )[j]).tenant_id == tenant_id,
{
    lemma_claim_index(s, tenant_id, kind, owner, now, duration, budget);
    lemma_claim_result_origin(s, tenant_id, kind, owner, now, duration, budget);
    let res = claim_result_seq(s, tenant_id, kind, owner, now, duration, budget);
    assert forall|j: int| 0 <= j < res.len() implies (#[trigger] res[j]).tenant_id
        == tenant_id by {
        assert(from_some_eligible(s, tenant_id, kind, owner, now, duration, res[j]));
        let w: int = choose|m: int|
            #![trigger s[m]]
            0 <= m < s.len() && eligible(s[m], tenant_id, kind, now) && res[j] == leased_record(
                s[m],
                owner,
                now,
                duration,
            );
        assert(res[j].tenant_id == s[w].tenant_id);
    }
}

} // verus!
