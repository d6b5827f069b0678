//! The ledger: the current quantity of every resource, the engine's sole
//! piece of derived state.

use vstd::prelude::*;
use crate::resource::{Resource, RESOURCE_COUNT, res_idx};

verus! {

/// A mapping from every resource to a signed quantity, default 0. Stored
/// densely: slot `res_idx(r)` holds the quantity of `r`.
#[derive(Debug, PartialEq, Eq)]
pub struct Ledger {
    pub counts: Vec<i64>,
}

impl View for Ledger {
    type V = Seq<int>;

    open spec fn view(&self) -> Seq<int> {
        self.counts@.map_values(|q: i64| q as int)
    }
}

/// A well-formed ledger has one slot per resource.
pub open spec fn ledger_wf(l: Ledger) -> bool {
    l.counts@.len() == RESOURCE_COUNT as int
}

/// The ledger in which every resource has quantity 0.
pub open spec fn empty_ledger() -> Seq<int> {
    Seq::new(RESOURCE_COUNT as nat, |i: int| 0int)
}

/// Every quantity of the abstract ledger `l` fits its machine slot.
pub open spec fn ledger_in_range(l: Seq<int>) -> bool {
    forall|i: int| 0 <= i < l.len() ==> i64::MIN <= #[trigger] l[i] <= i64::MAX
}

impl Ledger {
    /// The ledger with every quantity 0.
    pub fn new() -> (r: Ledger)
        ensures
            ledger_wf(r),
            r@ == empty_ledger(),
    {
        let mut counts: Vec<i64> = Vec::new();
        let mut i: usize = 0;
        while i < RESOURCE_COUNT
            invariant
                i <= RESOURCE_COUNT,
                counts@.len() == i as int,
                forall|k: int| 0 <= k < i as int ==> counts@[k] == 0i64,
            decreases RESOURCE_COUNT - i,
        {
            counts.push(0);
            i += 1;
        }
        let r = Ledger { counts };
        proof {
            assert(r@ =~= empty_ledger());
        }
        r
    }

    /// The quantity of resource `r`.
    pub fn get(&self, r: Resource) -> (q: i64)
        requires
            ledger_wf(*self),
        ensures
            q as int == self@[res_idx(r)],
    {
        proof {
            crate::resource::lemma_res_idx_of(r);
        }
        self.counts[r.index()]
    }

    /// Replace the quantity of resource `r` with `q`.
    pub fn set(&mut self, r: Resource, q: i64)
        requires
            ledger_wf(*old(self)),
        ensures
            ledger_wf(*final(self)),
            final(self)@ == old(self)@.update(res_idx(r), q as int),
    {
        proof {
            crate::resource::lemma_res_idx_of(r);
        }
        let i = r.index();
        self.counts.set(i, q);
        proof {
            assert(final(self)@ =~= old(self)@.update(res_idx(r), q as int));
        }
    }

    /// An independent copy with the same quantities.
    pub fn duplicate(&self) -> (r: Ledger)
        requires
            ledger_wf(*self),
        ensures
            ledger_wf(r),
            r@ == self@,
    {
        let mut counts: Vec<i64> = Vec::new();
        let mut i: usize = 0;
        while i < self.counts.len()
            invariant
                i <= self.counts.len(),
                counts@.len() == i as int,
                forall|k: int| 0 <= k < i as int ==> counts@[k] == self.counts@[k],
            decreases self.counts.len() - i,
        {
            counts.push(self.counts[i]);
            i += 1;
        }
        let r = Ledger { counts };
        proof {
            assert(r@ =~= self@);
        }
        r
    }
}

} // verus!
