//! The tenant router: which partition serves a given tenant.

use vstd::prelude::*;

verus! {

/// One routing entry: the tenant's records live in the partition at
/// `store_index`.
#[derive(Clone, Copy, Debug, PartialEq, Eq, Structural)]
pub struct TenantAssignment {
    pub tenant_id: u64,
    pub store_index: usize,
}

/// Maps each tenant to the partition holding its records.  A tenant
/// with no dedicated entry falls back to the default partition (index
/// 0) — never to another tenant's partition.
pub struct TenantRouter {
    pub assignments: Vec<TenantAssignment>,
}

/// The partition the entries of `a` give `tenant_id`: the first
/// matching entry's index, or the default 0.
pub open spec fn resolve_in(a: Seq<TenantAssignment>, tenant_id: u64) -> int
    decreases a.len(),
{
    if a.len() == 0 {
        0
    } else if a[0].tenant_id == tenant_id {
        a[0].store_index as int
    } else {
        resolve_in(a.drop_first(), tenant_id)
    }
}

/// With every entry's index below `n_stores` (and at least the default
/// partition present), resolution stays in bounds.
pub proof fn lemma_resolve_bounds(a: Seq<TenantAssignment>, tenant_id: u64, n_stores: int)
    requires
        n_stores >= 1,
        forall|i: int| 0 <= i < a.len() ==> (#[trigger] a[i].store_index) < n_stores,
    ensures
        0 <= resolve_in(a, tenant_id) < n_stores,
    decreases a.len(),
{
    if a.len() > 0 && a[0].tenant_id != tenant_id {
        assert forall|i: int| 0 <= i < a.drop_first().len() implies (#[trigger] a.drop_first()[i].store_index)
            < n_stores by {
            assert(a.drop_first()[i] == a[i + 1]);
        }
        lemma_resolve_bounds(a.drop_first(), tenant_id, n_stores);
    }
}

impl TenantRouter {
    /// The partition this router gives `tenant_id`.
    pub open spec fn resolve_spec(self, tenant_id: u64) -> int {
        resolve_in(self.assignments@, tenant_id)
    }

    /// Every entry names one of `n_stores` partitions.
    pub open spec fn wf_for(self, n_stores: int) -> bool {
        forall|i: int|
            0 <= i < self.assignments@.len() ==> (#[trigger] self.assignments@[i].store_index)
                < n_stores
    }

    /// Whether a dedicated partition is configured for `tenant_id`.
    pub open spec fn spec_has_dedicated(self, tenant_id: u64) -> bool {
        exists|i: int|
            0 <= i < self.assignments@.len() && (#[trigger] self.assignments@[i].tenant_id)
                == tenant_id
    }

    /// A router that sends every tenant to the default partition.
    pub fn single_store() -> (r: TenantRouter)
        ensures
            r.assignments@.len() == 0,
    {
        TenantRouter { assignments: Vec::new() }
    }

    /// A router with the given dedicated assignments.
    pub fn new(assignments: Vec<TenantAssignment>) -> (r: TenantRouter)
        ensures
            r.assignments == assignments,
    {
        TenantRouter { assignments }
    }

    /// Resolve the partition serving `tenant_id`: the first dedicated
    /// entry, or the default partition 0 when none is configured.
    pub fn resolve(&self, tenant_id: u64) -> (p: usize)
        ensures
            p as int == self.resolve_spec(tenant_id),
    {
        let n = self.assignments.len();
        let mut i: usize = 0;
        proof {
            assert(self.assignments@.skip(0) =~= self.assignments@);
        }
        while i < n
            invariant
                n == self.assignments@.len(),
                i <= n,
                resolve_in(self.assignments@, tenant_id) == resolve_in(
                    self.assignments@.skip(i as int),
                    tenant_id,
                ),
            decreases n - i,
        {
            proof {
                assert(self.assignments@.skip(i as int)[0] == self.assignments@[i as int]);
                assert(self.assignments@.skip(i as int).drop_first() =~= self.assignments@.skip(
                    i as int + 1,
                ));
            }
            if self.assignments[i].tenant_id == tenant_id {
                return self.assignments[i].store_index;
            }
            i = i + 1;
        }
        proof {
            assert(self.assignments@.skip(n as int) =~= Seq::<TenantAssignment>::empty());
        }
        0
    }

    /// Whether `tenant_id` has a dedicated partition; callers log the
    /// fallback decision when it does not.
    pub fn has_dedicated(&self, tenant_id: u64) -> (b: bool)
        ensures
            b == self.spec_has_dedicated(tenant_id),
    {
        let n = self.assignments.len();
        let mut i: usize = 0;
        while i < n
            invariant
                n == self.assignments@.len(),
                i <= n,
                forall|j: int|
                    0 <= j < i ==> (#[trigger] self.assignments@[j].tenant_id) != tenant_id,
            decreases n - i,
        {
            if self.assignments[i].tenant_id == tenant_id {
                return true;
            }
            i = i + 1;
        }
        false
    }
}

} // verus!
