//! Logical page identifiers: a monotonic counter that steps by two, so
//! every minted identifier is odd (the handle tagging scheme needs the
//! low bit set), and a first-in first-out queue of released identifiers
//! that are reused before new ones are minted.

use std::collections::VecDeque;
use vstd::prelude::*;

verus! {

/// The allocator of logical page identifiers.
pub struct PageIdPool {
    counter: u64,
    free: VecDeque<u64>,
}

impl PageIdPool {
    /// The next identifier the counter would mint.
    pub closed spec fn spec_counter(&self) -> u64 {
        self.counter
    }

    /// Released identifiers awaiting reuse, oldest first.
    pub closed spec fn reuse_seq(&self) -> Seq<u64> {
        self.free@
    }

    /// The allocator is sound: the counter is odd, and every queued
    /// identifier is odd, older than the counter, and queued once.
    pub open spec fn wf(&self) -> bool {
        &&& self.spec_counter() % 2 == 1
        &&& forall|i: int|
            0 <= i < self.reuse_seq().len() ==> (#[trigger] self.reuse_seq()[i]) % 2 == 1
                && self.reuse_seq()[i] < self.spec_counter()
        &&& forall|i: int, j: int|
            0 <= i < j < self.reuse_seq().len() ==> self.reuse_seq()[i] != self.reuse_seq()[j]
    }

    /// The identifier the counter would mint next.
    pub fn counter_value(&self) -> (r: u64)
        ensures
            r == self.spec_counter(),
    {
        self.counter
    }

    /// A fresh allocator: nothing released, the counter at one.
    pub fn new() -> (r: PageIdPool)
        ensures
            r.wf(),
            r.spec_counter() == 1,
            r.reuse_seq() == Seq::<u64>::empty(),
    {
        PageIdPool { counter: 1, free: VecDeque::new() }
    }

    /// The oldest released identifier, or a freshly minted one when none
    /// awaits reuse.
    pub fn next(&mut self) -> (r: u64)
        requires
            old(self).wf(),
            old(self).spec_counter() + 2 <= u64::MAX,
        ensures
            final(self).wf(),
            r % 2 == 1,
            r < final(self).spec_counter(),
            old(self).reuse_seq().len() > 0 ==> {
                &&& r == old(self).reuse_seq()[0]
                &&& final(self).reuse_seq() == old(self).reuse_seq().subrange(
                    1,
                    old(self).reuse_seq().len() as int,
                )
                &&& final(self).spec_counter() == old(self).spec_counter()
                &&& !final(self).reuse_seq().contains(r)
            },
            old(self).reuse_seq().len() == 0 ==> {
                &&& r == old(self).spec_counter()
                &&& final(self).reuse_seq() == old(self).reuse_seq()
                &&& final(self).spec_counter() == old(self).spec_counter() + 2
            },
    {
        match self.free.pop_front() {
            Some(free_id) => {
                proof {
                    assert(!self.reuse_seq().contains(free_id)) by {
                        if self.reuse_seq().contains(free_id) {
                            let k = choose|k: int|
                                0 <= k < self.reuse_seq().len() && self.reuse_seq()[k] == free_id;
                            assert(old(self).reuse_seq()[k + 1] == free_id);
                        }
                    }
                }
                free_id
            },
            None => self.generate_id(),
        }
    }

    /// Queue an identifier for reuse. Only an identifier this allocator
    /// could have minted, and which is not already queued, rejoins the
    /// queue; anything else is dropped, so a stray release cannot corrupt
    /// the allocator.
    pub fn free(&mut self, pid: u64)
        requires
            old(self).wf(),
        ensures
            final(self).wf(),
            final(self).spec_counter() == old(self).spec_counter(),
            pid % 2 == 1 && pid < old(self).spec_counter() && !old(self).reuse_seq().contains(pid)
                ==> final(self).reuse_seq() == old(self).reuse_seq().push(pid),
            !(pid % 2 == 1 && pid < old(self).spec_counter() && !old(self).reuse_seq().contains(
                pid,
            )) ==> final(self).reuse_seq() == old(self).reuse_seq(),
    {
        if pid % 2 != 1 || pid >= self.counter {
            return ;
        }
        let n = self.free.len();
        let mut i: usize = 0;
        while i < n
            invariant
                self == old(self),
                old(self).wf(),
                n == self.reuse_seq().len(),
                i <= n,
                forall|k: int| 0 <= k < i ==> self.reuse_seq()[k] != pid,
            decreases n - i,
        {
            if self.free[i] == pid {
                return ;
            }
            i = i + 1;
        }
        proof {
            assert(forall|k: int|
                0 <= k < old(self).reuse_seq().len() ==> old(self).reuse_seq()[k] != pid);
        }
        self.free.push_back(pid)
    }

    /// Mint a fresh identifier by stepping the counter.
    fn generate_id(&mut self) -> (r: u64)
        requires
            old(self).wf(),
            old(self).spec_counter() + 2 <= u64::MAX,
        ensures
            final(self).wf(),
            r == old(self).spec_counter(),
            final(self).spec_counter() == old(self).spec_counter() + 2,
            final(self).reuse_seq() == old(self).reuse_seq(),
    {
        let id = self.counter;
        proof {
            vstd::arithmetic::div_mod::lemma_mod_add_multiples_vanish(
                self.spec_counter() as int,
                2,
            );
        }
        self.counter = self.counter + 2;
        proof {
            assert(self.spec_counter() % 2 == 1);
            assert forall|i: int| 0 <= i < self.reuse_seq().len() implies (
            #[trigger] self.reuse_seq()[i]) % 2 == 1 && self.reuse_seq()[i]
                < self.spec_counter() by {
                assert(old(self).reuse_seq()[i] < old(self).spec_counter());
            }
        }
        id
    }
}

/// The identifier `next` hands out of a given allocator state.
pub open spec fn spec_next_id(counter: u64, reuse: Seq<u64>) -> u64 {
    if reuse.len() > 0 {
        reuse[0]
    } else {
        counter
    }
}

/// An allocator state is sound relative to a set of live identifiers
/// (handed out and not yet released): everything live or queued is odd
/// and below the counter, and no identifier is both live and queued.
pub open spec fn wf_live(counter: u64, reuse: Seq<u64>, live: Set<u64>) -> bool {
    &&& counter % 2 == 1
    &&& forall|i: int|
        0 <= i < reuse.len() ==> (#[trigger] reuse[i]) % 2 == 1 && reuse[i] < counter
    &&& forall|i: int, j: int| 0 <= i < j < reuse.len() ==> reuse[i] != reuse[j]
    &&& forall|id: u64| #[trigger] live.contains(id) ==> id % 2 == 1 && id < counter
    &&& forall|i: int| 0 <= i < reuse.len() ==> !live.contains(#[trigger] reuse[i])
}

/// Law: the allocator never hands out an identifier that is still live.
/// Whatever `next` returns lies outside the live set, and the state with
/// that identifier added to the live set is sound again, so no two live
/// pages ever share an identifier.
pub proof fn lemma_next_is_fresh(counter: u64, reuse: Seq<u64>, live: Set<u64>)
    requires
        wf_live(counter, reuse, live),
        counter + 2 <= u64::MAX,
    ensures
        !live.contains(spec_next_id(counter, reuse)),
        reuse.len() > 0 ==> wf_live(
            counter,
            reuse.subrange(1, reuse.len() as int),
            live.insert(spec_next_id(counter, reuse)),
        ),
        reuse.len() == 0 ==> wf_live(
            (counter + 2) as u64,
            reuse,
            live.insert(spec_next_id(counter, reuse)),
        ),
{
    let r = spec_next_id(counter, reuse);
    if reuse.len() > 0 {
        let rest = reuse.subrange(1, reuse.len() as int);
        assert forall|i: int| 0 <= i < rest.len() implies !live.insert(r).contains(
            #[trigger] rest[i],
        ) by {
            assert(rest[i] == reuse[i + 1]);
            assert(reuse[0] != reuse[i + 1]);
        }
    }
}

/// Law: a release rejoins the queue soundly, and when nothing else awaits
/// reuse, the very next mint returns exactly the released identifier.
pub proof fn lemma_release_then_next(counter: u64, reuse: Seq<u64>, live: Set<u64>, id: u64)
    requires
        wf_live(counter, reuse, live),
        live.contains(id),
        !reuse.contains(id),
    ensures
        wf_live(counter, reuse.push(id), live.remove(id)),
        reuse.len() == 0 ==> spec_next_id(counter, reuse.push(id)) == id,
{
    assert(forall|i: int| 0 <= i < reuse.len() ==> reuse[i] != id);
}

} // verus!
