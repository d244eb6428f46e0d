//! The set of slot addresses of one pool that are currently in use,
//! keyed by address so a free can find and remove its slot.

use std::collections::BTreeSet;
use vstd::prelude::*;

verus! {

broadcast use {vstd::std_specs::btree::group_btree_axioms, vstd::laws_cmp::group_laws_cmp};

/// Slot addresses currently in use.
pub struct UsedPool {
    set: BTreeSet<usize>,
}

impl View for UsedPool {
    type V = Set<usize>;

    closed spec fn view(&self) -> Set<usize> {
        self.set@
    }
}

impl Default for UsedPool {
    /// An empty set.
    fn default() -> (r: UsedPool)
        ensures
            r@ == Set::<usize>::empty(),
    {
        UsedPool { set: BTreeSet::new() }
    }
}

impl UsedPool {
    /// Record an address as in use.
    pub fn insert(&mut self, address: usize) -> (r: bool)
        ensures
            final(self)@ == old(self)@.insert(address),
            r == !old(self)@.contains(address),
    {
        self.set.insert(address)
    }

    /// Withdraw an address from use; refused when it is not in use.
    pub fn remove(&mut self, address: usize) -> (r: Option<usize>)
        ensures
            old(self)@.contains(address) ==> r == Some(address) && final(self)@ == old(
                self,
            )@.remove(address),
            !old(self)@.contains(address) ==> r is None && final(self)@ == old(self)@,
    {
        if self.set.remove(&address) {
            Some(address)
        } else {
            None
        }
    }
}

} // verus!
