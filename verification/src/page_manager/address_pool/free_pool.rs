//! The queue of free slot addresses of one pool, reused first-in
//! first-out: the address freed longest ago is handed out first.

use std::collections::VecDeque;
use vstd::prelude::*;

verus! {

/// Free slot addresses in their reuse order.
pub struct FreePool {
    deque: VecDeque<usize>,
}

impl View for FreePool {
    type V = Seq<usize>;

    closed spec fn view(&self) -> Seq<usize> {
        self.deque@
    }
}

impl Default for FreePool {
    /// An empty queue.
    fn default() -> (r: FreePool)
        ensures
            r@ == Seq::<usize>::empty(),
    {
        FreePool { deque: VecDeque::new() }
    }
}

impl FreePool {
    /// Number of queued addresses.
    pub fn len(&self) -> (r: usize)
        ensures
            r == self@.len(),
    {
        self.deque.len()
    }

    /// Hand out the oldest queued address, if any.
    pub fn pop_front(&mut self) -> (r: Option<usize>)
        ensures
            old(self)@.len() == 0 ==> r is None && final(self)@ == old(self)@,
            old(self)@.len() > 0 ==> r == Some(old(self)@[0]) && final(self)@ == old(
                self,
            )@.subrange(1, old(self)@.len() as int),
    {
        self.deque.pop_front()
    }

    /// Queue an address behind all others.
    pub fn push_back(&mut self, address: usize)
        ensures
            final(self)@ == old(self)@.push(address),
    {
        self.deque.push_back(address)
    }

    /// Queue an address in front of all others.
    pub fn push_front(&mut self, address: usize)
        ensures
            final(self)@ == seq![address] + old(self)@,
    {
        self.deque.push_front(address)
    }
}

} // verus!
