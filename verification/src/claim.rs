//! The claim transformation: what one `claim_batch` walk does to a
//! store partition, as a function of the partition's model.

use vstd::prelude::*;

use crate::lease::{claimable, leased_record};
use crate::record::{RecordModel, WorkKind};

verus! {

/// Whether a claim for `(tenant_id, kind)` at `now` may take `r`.
pub open spec fn eligible(r: RecordModel, tenant_id: u64, kind: WorkKind, now: u64) -> bool {
    r.tenant_id == tenant_id && r.kind == kind && claimable(r, now)
}

/// The partition after a claim walks `s` oldest-first with `budget`
/// leases to hand out: each eligible record is leased to `owner` until
/// the budget runs out; every other record is untouched.
pub open spec fn claim_store_seq(
    s: Seq<RecordModel>,
    tenant_id: u64,
    kind: WorkKind,
    owner: Seq<char>,
    now: u64,
    duration: u64,
    budget: int,
) -> Seq<RecordModel>
    decreases s.len(),
{
    if s.len() == 0 {
        s
    } else if budget > 0 && eligible(s[0], tenant_id, kind, now) {
        seq![leased_record(s[0], owner, now, duration)] + claim_store_seq(
            s.drop_first(),
            tenant_id,
            kind,
            owner,
            now,
            duration,
            budget - 1,
        )
    } else {
        seq![s[0]] + claim_store_seq(s.drop_first(), tenant_id, kind, owner, now, duration, budget)
    }
}

/// The records the same walk hands back: the claimed ones, in store
/// (oldest-first) order, already leased.
pub open spec fn claim_result_seq(
    s: Seq<RecordModel>,
    tenant_id: u64,
    kind: WorkKind,
    owner: Seq<char>,
    now: u64,
    duration: u64,
    budget: int,
) -> Seq<RecordModel>
    decreases s.len(),
{
    if s.len() == 0 {
        Seq::empty()
    } else if budget > 0 && eligible(s[0], tenant_id, kind, now) {
        seq![leased_record(s[0], owner, now, duration)] + claim_result_seq(
            s.drop_first(),
            tenant_id,
            kind,
            owner,
            now,
            duration,
            budget - 1,
        )
    } else {
        claim_result_seq(s.drop_first(), tenant_id, kind, owner, now, duration, budget)
    }
}

/// How many records of `s` a claim for `(tenant_id, kind)` at `now`
/// could take, were the budget unbounded.
pub open spec fn count_eligible(s: Seq<RecordModel>, tenant_id: u64, kind: WorkKind, now: u64) -> int
    decreases s.len(),
{
    if s.len() == 0 {
        0
    } else {
        (if eligible(s[0], tenant_id, kind, now) {
            1int
        } else {
            0int
        }) + count_eligible(s.drop_first(), tenant_id, kind, now)
    }
}

pub proof fn lemma_count_eligible_bounds(
    s: Seq<RecordModel>,
    tenant_id: u64,
    kind: WorkKind,
    now: u64,
)
    ensures
        0 <= count_eligible(s, tenant_id, kind, now) <= s.len(),
    decreases s.len(),
{
    if s.len() > 0 {
        lemma_count_eligible_bounds(s.drop_first(), tenant_id, kind, now);
    }
}

/// The claim walk keeps the partition's length, and hands out at most
/// `budget` leases and at most one lease per eligible record.
pub proof fn lemma_claim_len(
    s: Seq<RecordModel>,
    tenant_id: u64,
    kind: WorkKind,
    owner: Seq<char>,
    now: u64,
    duration: u64,
    budget: int,
)
    ensures
        claim_store_seq(s, tenant_id, kind, owner, now, duration, budget).len() == s.len(),
        claim_result_seq(s, tenant_id, kind, owner, now, duration, budget).len() <= (if budget
            > 0 {
            budget
        } else {
            0
        }),
        claim_result_seq(s, tenant_id, kind, owner, now, duration, budget).len()
            <= count_eligible(s, tenant_id, kind, now),
    decreases s.len(),
{
    lemma_count_eligible_bounds(s, tenant_id, kind, now);
    if s.len() > 0 {
        if budget > 0 && eligible(s[0], tenant_id, kind, now) {
            lemma_claim_len(s.drop_first(), tenant_id, kind, owner, now, duration, budget - 1);
        } else {
            lemma_claim_len(s.drop_first(), tenant_id, kind, owner, now, duration, budget);
        }
    }
}

/// Frame law of the claim walk: every position is either untouched or
/// was eligible and now carries the new lease.
pub proof fn lemma_claim_index(
    s: Seq<RecordModel>,
    tenant_id: u64,
    kind: WorkKind,
    owner: Seq<char>,
    now: u64,
    duration: u64,
    budget: int,
)
    ensures
        claim_store_seq(s, tenant_id, kind, owner, now, duration, budget).len() == s.len(),
        forall|i: int|
            0 <= i < s.len() ==> {
                let post = #[trigger] claim_store_seq(
                    s,
                    tenant_id,
                    kind,
                    owner,
                    now,
                    duration,
                    budget,
                )[i];
                post == s[i] || (eligible(s[i], tenant_id, kind, now) && post == leased_record(
                    s[i],
                    owner,
                    now,
                    duration,
                ))
            },
    decreases s.len(),
{
    if s.len() > 0 {
        let rest_budget: int = if budget > 0 && eligible(s[0], tenant_id, kind, now) {
            budget - 1
        } else {
            budget
        };
        lemma_claim_index(s.drop_first(), tenant_id, kind, owner, now, duration, rest_budget);
        let post = claim_store_seq(s, tenant_id, kind, owner, now, duration, budget);
        assert forall|i: int| 0 < i < s.len() implies post[i] == claim_store_seq(
            s.drop_first(),
            tenant_id,
            kind,
            owner,
            now,
            duration,
            rest_budget,
        )[i - 1] && s[i] == s.drop_first()[i - 1] by {}
    }
}

/// Whether `r` is the leased image of some eligible record of `s`.
pub open spec fn from_some_eligible(
    s: Seq<RecordModel>,
    tenant_id: u64,
    kind: WorkKind,
    owner: Seq<char>,
    now: u64,
    duration: u64,
    r: RecordModel,
) -> bool {
    exists|i: int|
        #![trigger s[i]]
        0 <= i < s.len() && eligible(s[i], tenant_id, kind, now) && r == leased_record(
            s[i],
            owner,
            now,
            duration,
        )
}

/// Every record the claim walk returns is the leased image of some
/// eligible record of the partition.
pub proof fn lemma_claim_result_origin(
    s: Seq<RecordModel>,
    tenant_id: u64,
    kind: WorkKind,
    owner: Seq<char>,
    now: u64,
    duration: u64,
    budget: int,
)
    ensures
        forall|j: int|
            0 <= j < claim_result_seq(s, tenant_id, kind, owner, now, duration, budget).len()
                ==> from_some_eligible(
                s,
                tenant_id,
                kind,
                owner,
                now,
                duration,
                #[trigger] claim_result_seq(s, tenant_id, kind, owner, now, duration, budget)[j],
            ),
    decreases s.len(),
{
    if s.len() > 0 {
        let res = claim_result_seq(s, tenant_id, kind, owner, now, duration, budget);
        if budget > 0 && eligible(s[0], tenant_id, kind, now) {
            let rest = claim_result_seq(
                s.drop_first(),
                tenant_id,
                kind,
                owner,
                now,
                duration,
                budget - 1,
            );
            lemma_claim_result_origin(
                s.drop_first(),
                tenant_id,
                kind,
                owner,
                now,
                duration,
                budget - 1,
            );
            assert forall|j: int| #![trigger res[j]] 0 <= j < res.len() implies from_some_eligible(
                s,
                tenant_id,
                kind,
                owner,
                now,
                duration,
                res[j],
            ) by {
                if j == 0 {
                    assert(res[0] == leased_record(s[0], owner, now, duration));
                    assert(0 <= 0 < s.len() && eligible(s[0], tenant_id, kind, now) && res[0]
                        == leased_record(s[0], owner, now, duration));
                } else {
                    assert(res[j] == rest[j - 1]);
                    assert(from_some_eligible(
                        s.drop_first(),
                        tenant_id,
                        kind,
                        owner,
                        now,
                        duration,
                        rest[j - 1],
                    ));
                    let w: int = choose|i: int|
                        #![trigger s.drop_first()[i]]
                        0 <= i < s.drop_first().len() && eligible(
                            s.drop_first()[i],
                            tenant_id,
                            kind,
                            now,
                        ) && rest[j - 1] == leased_record(s.drop_first()[i], owner, now, duration);
                    assert(s.drop_first()[w] == s[w + 1]);
                    assert(0 <= w + 1 < s.len() && eligible(s[w + 1], tenant_id, kind, now)
                        && res[j] == leased_record(s[w + 1], owner, now, duration));
                }
            }
        } else {
            let rest = claim_result_seq(
                s.drop_first(),
                tenant_id,
                kind,
                owner,
                now,
                duration,
                budget,
            );
            lemma_claim_result_origin(
                s.drop_first(),
                tenant_id,
                kind,
                owner,
                now,
                duration,
                budget,
            );
            assert forall|j: int| #![trigger res[j]] 0 <= j < res.len() implies from_some_eligible(
                s,
                tenant_id,
                kind,
                owner,
                now,
                duration,
                res[j],
            ) by {
                assert(res[j] == rest[j]);
                assert(from_some_eligible(
                    s.drop_first(),
                    tenant_id,
                    kind,
                    owner,
                    now,
                    duration,
                    rest[j],
                ));
                let w: int = choose|i: int|
                    #![trigger s.drop_first()[i]]
                    0 <= i < s.drop_first().len() && eligible(
                        s.drop_first()[i],
                        tenant_id,
                        kind,
                        now,
                    ) && rest[j] == leased_record(s.drop_first()[i], owner, now, duration);
                assert(s.drop_first()[w] == s[w + 1]);
                assert(0 <= w + 1 < s.len() && eligible(s[w + 1], tenant_id, kind, now) && res[j]
                    == leased_record(s[w + 1], owner, now, duration));
            }
        }
    }
}

/// A partition walked oldest-first returns its batch oldest-first:
/// the claimed records come back ordered by `created_at` ascending.
pub proof fn lemma_claim_result_sorted(
    s: Seq<RecordModel>,
    tenant_id: u64,
    kind: WorkKind,
    owner: Seq<char>,
    now: u64,
    duration: u64,
    budget: int,
)
    requires
        forall|a: int, b: int|
            #![trigger s[a], s[b]]
            0 <= a <= b < s.len() ==> s[a].created_at <= s[b].created_at,
    ensures
        ({
            let res = claim_result_seq(s, tenant_id, kind, owner, now, duration, budget);
            forall|a: int, b: int|
                #![trigger res[a], res[b]]
                0 <= a <= b < res.len() ==> res[a].created_at <= res[b].created_at
        }),
    decreases s.len(),
{
    if s.len() > 0 {
        let rest = s.drop_first();
        assert forall|a: int, b: int|
            #![trigger rest[a], rest[b]]
            0 <= a <= b < rest.len() implies rest[a].created_at <= rest[b].created_at by {
            assert(rest[a] == s[a + 1]);
            assert(rest[b] == s[b + 1]);
        }
        let rest_budget: int = if budget > 0 && eligible(s[0], tenant_id, kind, now) {
            budget - 1
        } else {
            budget
        };
        lemma_claim_result_sorted(rest, tenant_id, kind, owner, now, duration, rest_budget);
        lemma_claim_result_origin(rest, tenant_id, kind, owner, now, duration, rest_budget);
        let res = claim_result_seq(s, tenant_id, kind, owner, now, duration, budget);
        let rest_res = claim_result_seq(rest, tenant_id, kind, owner, now, duration, rest_budget);
        assert forall|a: int, b: int|
            #![trigger res[a], res[b]]
            0 <= a <= b < res.len() implies res[a].created_at <= res[b].created_at by {
            if budget > 0 && eligible(s[0], tenant_id, kind, now) {
                if a == 0 {
                    assert(res[0] == leased_record(s[0], owner, now, duration));
                    if b > 0 {
                        assert(res[b] == rest_res[b - 1]);
                        assert(from_some_eligible(
                            rest,
                            tenant_id,
                            kind,
                            owner,
                            now,
                            duration,
                            rest_res[b - 1],
                        ));
                        let w: int = choose|m: int|
                            #![trigger rest[m]]
                            0 <= m < rest.len() && eligible(rest[m], tenant_id, kind, now)
                                && rest_res[b - 1] == leased_record(rest[m], owner, now, duration);
                        assert(rest[w] == s[w + 1]);
                        assert(s[0].created_at <= s[w + 1].created_at);
                    }
                } else {
                    assert(res[a] == rest_res[a - 1]);
                    assert(res[b] == rest_res[b - 1]);
                }
            } else {
                assert(res[a] == rest_res[a]);
                assert(res[b] == rest_res[b]);
            }
        }
    }
}

/// Unrolling law used by the claiming loop: extending the walked
/// prefix by one record either leases it (when budget remains and it
/// is eligible) or leaves it, at the end of both output sequences.
pub proof fn lemma_claim_push(
    s: Seq<RecordModel>,
    x: RecordModel,
    tenant_id: u64,
    kind: WorkKind,
    owner: Seq<char>,
    now: u64,
    duration: u64,
    budget: int,
)
    ensures
        ({
            let taken = claim_result_seq(s, tenant_id, kind, owner, now, duration, budget).len();
            let takes_x = budget - taken > 0 && eligible(x, tenant_id, kind, now);
            let ximage = if takes_x {
                leased_record(x, owner, now, duration)
            } else {
                x
            };
            &&& claim_store_seq(s.push(x), tenant_id, kind, owner, now, duration, budget)
                == claim_store_seq(s, tenant_id, kind, owner, now, duration, budget).push(ximage)
            &&& claim_result_seq(s.push(x), tenant_id, kind, owner, now, duration, budget) == (
            if takes_x {
                claim_result_seq(s, tenant_id, kind, owner, now, duration, budget).push(ximage)
            } else {
                claim_result_seq(s, tenant_id, kind, owner, now, duration, budget)
            })
        }),
    decreases s.len(),
{
    lemma_claim_len(s, tenant_id, kind, owner, now, duration, budget);
    if s.len() == 0 {
        let one = s.push(x);
        assert(one[0] == x);
        assert(one.drop_first() =~= s);
        assert(claim_store_seq(s, tenant_id, kind, owner, now, duration, budget) =~= s);
        assert(claim_store_seq(s, tenant_id, kind, owner, now, duration, budget - 1) =~= s);
        assert(claim_result_seq(s, tenant_id, kind, owner, now, duration, budget)
            =~= Seq::<RecordModel>::empty());
        assert(claim_result_seq(s, tenant_id, kind, owner, now, duration, budget - 1)
            =~= Seq::<RecordModel>::empty());
        if budget > 0 && eligible(x, tenant_id, kind, now) {
            assert(claim_store_seq(one, tenant_id, kind, owner, now, duration, budget)
                == seq![leased_record(x, owner, now, duration)] + claim_store_seq(
                one.drop_first(),
                tenant_id,
                kind,
                owner,
                now,
                duration,
                budget - 1,
            ));
            assert(claim_store_seq(one, tenant_id, kind, owner, now, duration, budget)
                =~= claim_store_seq(s, tenant_id, kind, owner, now, duration, budget).push(
                leased_record(x, owner, now, duration),
            ));
            assert(claim_result_seq(one, tenant_id, kind, owner, now, duration, budget)
                =~= claim_result_seq(s, tenant_id, kind, owner, now, duration, budget).push(
                leased_record(x, owner, now, duration),
            ));
        } else {
            assert(claim_store_seq(one, tenant_id, kind, owner, now, duration, budget)
                == seq![x] + claim_store_seq(
                one.drop_first(),
                tenant_id,
                kind,
                owner,
                now,
                duration,
                budget,
            ));
            assert(claim_store_seq(one, tenant_id, kind, owner, now, duration, budget)
                =~= claim_store_seq(s, tenant_id, kind, owner, now, duration, budget).push(x));
            assert(claim_result_seq(one, tenant_id, kind, owner, now, duration, budget)
                =~= claim_result_seq(s, tenant_id, kind, owner, now, duration, budget));
        }
    } else {
        assert(s.push(x)[0] == s[0]);
        assert(s.push(x).drop_first() =~= s.drop_first().push(x));
        if budget > 0 && eligible(s[0], tenant_id, kind, now) {
            lemma_claim_push(s.drop_first(), x, tenant_id, kind, owner, now, duration, budget - 1);
            let taken = claim_result_seq(s, tenant_id, kind, owner, now, duration, budget).len();
            let takes_x = budget - taken > 0 && eligible(x, tenant_id, kind, now);
            let ximage = if takes_x {
                leased_record(x, owner, now, duration)
            } else {
                x
            };
            assert(seq![leased_record(s[0], owner, now, duration)] + claim_store_seq(
                s.drop_first(),
                tenant_id,
                kind,
                owner,
                now,
                duration,
                budget - 1,
            ).push(ximage) =~= (seq![leased_record(s[0], owner, now, duration)] + claim_store_seq(
                s.drop_first(),
                tenant_id,
                kind,
                owner,
                now,
                duration,
                budget - 1,
            )).push(ximage));
            if takes_x {
                assert(seq![leased_record(s[0], owner, now, duration)] + claim_result_seq(
                    s.drop_first(),
                    tenant_id,
                    kind,
                    owner,
                    now,
                    duration,
                    budget - 1,
                ).push(ximage) =~= (seq![leased_record(s[0], owner, now, duration)]
                    + claim_result_seq(
                    s.drop_first(),
                    tenant_id,
                    kind,
                    owner,
                    now,
                    duration,
                    budget - 1,
                )).push(ximage));
            }
        } else {
            lemma_claim_push(s.drop_first(), x, tenant_id, kind, owner, now, duration, budget);
            let taken = claim_result_seq(s, tenant_id, kind, owner, now, duration, budget).len();
            let takes_x = budget - taken > 0 && eligible(x, tenant_id, kind, now);
            let ximage = if takes_x {
                leased_record(x, owner, now, duration)
            } else {
                x
            };
            assert(seq![s[0]] + claim_store_seq(
                s.drop_first(),
                tenant_id,
                kind,
                owner,
                now,
                duration,
                budget,
            ).push(ximage) =~= (seq![s[0]] + claim_store_seq(
                s.drop_first(),
                tenant_id,
                kind,
                owner,
                now,
                duration,
                budget,
            )).push(ximage));
        }
    }
}

} // verus!
