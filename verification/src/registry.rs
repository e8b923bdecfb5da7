//! The widget registry: sole owner of widget-definition storage, keyed by
//! opaque, monotonically increasing identities that are never reused.

use std::collections::HashMap;
use vstd::prelude::*;
use crate::widgets::{WidgetConfig, WidgetView};

verus! {

broadcast use vstd::std_specs::hash::group_hash_axioms;

/// Identity-based widget storage together with the identity allocator.
/// Identities are issued by a counter that only grows, so no identity is
/// ever reused, even after removal.
pub struct WidgetRegistry {
    next_id: u64,
    table: HashMap<u64, WidgetConfig>,
}

impl WidgetRegistry {
    /// The stored definitions, keyed by identity.
    pub closed spec fn view(&self) -> Map<u64, WidgetView> {
        self.table@.map_values(|c: WidgetConfig| c@)
    }

    /// The identity the next allocation will return.
    pub closed spec fn next_identity(&self) -> u64 {
        self.next_id
    }

    /// Every stored identity was issued before the counter's current
    /// value.
    pub closed spec fn wf(&self) -> bool {
        forall|k: u64| self.table@.dom().contains(k) ==> k < self.next_id
    }

    pub fn new() -> (r: Self)
        ensures
            r.wf(),
            r@ == Map::<u64, WidgetView>::empty(),
            r.next_identity() == 0,
    {
        let r = WidgetRegistry { next_id: 0, table: HashMap::new() };
        proof {
            assert(r@ =~= Map::<u64, WidgetView>::empty());
        }
        r
    }

    /// How many identities have been issued so far, which is also the
    /// identity the next allocation will return.
    pub fn identities_issued(&self) -> (r: u64)
        ensures
            r == self.next_identity(),
    {
        self.next_id
    }

    /// Returns a fresh, never-before-issued identity.
    pub fn allocate_identity(&mut self) -> (r: u64)
        requires
            old(self).wf(),
            old(self).next_identity() < u64::MAX,
        ensures
            final(self).wf(),
            r == old(self).next_identity(),
            final(self).next_identity() == r + 1,
            final(self)@ == old(self)@,
            !final(self)@.contains_key(r),
    {
        let id = self.next_id;
        self.next_id = self.next_id + 1;
        id
    }

    /// Stores or overwrites the definition under the identity. The
    /// identity must have been issued by this registry's allocator, which
    /// keeps every stored key below the counter.
    pub fn insert(&mut self, id: u64, config: WidgetConfig)
        requires
            old(self).wf(),
            id < old(self).next_identity(),
        ensures
            final(self).wf(),
            final(self)@ == old(self)@.insert(id, config@),
            final(self).next_identity() == old(self).next_identity(),
    {
        self.table.insert(id, config);
        proof {
            assert(self@ =~= old(self)@.insert(id, config@));
        }
    }

    /// Looks a definition up; `None` when the reference has outlived its
    /// definition.
    pub fn get(&self, id: u64) -> (r: Option<&WidgetConfig>)
        ensures
            match r {
                Some(c) => self@.contains_key(id) && c@ == self@[id],
                None => !self@.contains_key(id),
            },
    {
        self.table.get(&id)
    }

    /// Removes the definition under the identity; removing an absent
    /// identity is a silent no-op. Returns whether anything was stored.
    pub fn remove(&mut self, id: u64) -> (r: bool)
        requires
            old(self).wf(),
        ensures
            final(self).wf(),
            final(self)@ == old(self)@.remove(id),
            r == old(self)@.contains_key(id),
            final(self).next_identity() == old(self).next_identity(),
            !final(self)@.contains_key(id),
    {
        let removed = self.table.remove(&id);
        proof {
            assert(self@ =~= old(self)@.remove(id));
        }
        removed.is_some()
    }
}

proof fn lemma_identity_chain(regs: Seq<WidgetRegistry>, ids: Seq<u64>, i: int, j: int)
    requires
        regs.len() == ids.len() + 1,
        forall|m: int|
            0 <= m < ids.len() ==> ids[m] == (#[trigger] regs[m]).next_identity() && regs[m
                + 1].next_identity() == ids[m] + 1,
        0 <= i <= j < ids.len(),
    ensures
        ids[j] - ids[i] == j - i,
    decreases j - i,
{
    if i < j {
        lemma_identity_chain(regs, ids, i, j - 1);
        assert(ids[j - 1] == regs[j - 1].next_identity());
        assert(ids[j] == regs[j].next_identity());
    }
}

/// Law: the identities issued by any sequence of construction calls are
/// pairwise distinct and strictly increasing. `regs` are the registry
/// states around the calls and `ids` what each allocation returned: each
/// call returns the counter's current value and leaves the counter one
/// higher — which is exactly what `allocate_identity` ensures — so no two
/// calls can ever return the same identity, even across removals, which
/// never touch the counter.
pub proof fn lemma_identity_uniqueness(regs: Seq<WidgetRegistry>, ids: Seq<u64>)
    requires
        regs.len() == ids.len() + 1,
        forall|m: int|
            0 <= m < ids.len() ==> ids[m] == (#[trigger] regs[m]).next_identity() && regs[m
                + 1].next_identity() == ids[m] + 1,
    ensures
        forall|i: int, j: int| 0 <= i < j < ids.len() ==> ids[i] < ids[j],
        forall|i: int, j: int| 0 <= i < j < ids.len() ==> ids[i] != ids[j],
{
    assert forall|i: int, j: int| 0 <= i < j < ids.len() implies ids[i] < ids[j] by {
        lemma_identity_chain(regs, ids, i, j);
    }
}

} // verus!
