//! The free/used bookkeeping of one slot pool: every slot address is at
//! all times in exactly one of the free queue and the used set, and their
//! union never changes after construction.

use vstd::prelude::*;
use vstd::arithmetic::div_mod::lemma_fundamental_div_mod;
use vstd::arithmetic::mul::{lemma_mul_inequality, lemma_mul_strict_inequality};

use crate::page_manager::address_pool::free_pool::FreePool;
use crate::page_manager::address_pool::used_pool::UsedPool;
use crate::PageError;

verus! {

/// One pool's partition of slot addresses into free and used.
pub struct AddrPool {
    pub(crate) free: FreePool,
    pub(crate) used: UsedPool,
}

impl AddrPool {
    /// The free queue, oldest first.
    pub closed spec fn free_seq(&self) -> Seq<usize> {
        self.free@
    }

    /// The set of addresses in use.
    pub closed spec fn used_set(&self) -> Set<usize> {
        self.used@
    }

    /// The partition is sound: no address is queued twice, no queued
    /// address is in use, and the used set stays finite.
    pub open spec fn wf(&self) -> bool {
        &&& forall|i: int, j: int|
            0 <= i < j < self.free_seq().len() ==> self.free_seq()[i] != self.free_seq()[j]
        &&& forall|i: int|
            0 <= i < self.free_seq().len() ==> !self.used_set().contains(self.free_seq()[i])
        &&& self.used_set().finite()
    }

    /// Take the oldest free address into use; `None` when the pool is
    /// exhausted.
    pub fn allocate(&mut self) -> (r: Option<usize>)
        requires
            old(self).wf(),
        ensures
            final(self).wf(),
            old(self).free_seq().len() == 0 ==> {
                &&& r is None
                &&& final(self).free_seq() == old(self).free_seq()
                &&& final(self).used_set() == old(self).used_set()
            },
            old(self).free_seq().len() > 0 ==> {
                let a = old(self).free_seq()[0];
                &&& r == Some(a)
                &&& !old(self).used_set().contains(a)
                &&& final(self).free_seq() == old(self).free_seq().subrange(
                    1,
                    old(self).free_seq().len() as int,
                )
                &&& final(self).used_set() == old(self).used_set().insert(a)
            },
    {
        if let Some(addr) = self.free.pop_front() {
            self.used.insert(addr);
            Some(addr)
        } else {
            None
        }
    }

    /// Return an address to the back of the free queue; refused, with
    /// nothing changed, when the address is not in use.
    pub fn free(&mut self, addr: usize) -> (r: bool)
        requires
            old(self).wf(),
        ensures
            final(self).wf(),
            old(self).used_set().contains(addr) ==> {
                &&& r == true
                &&& final(self).free_seq() == old(self).free_seq().push(addr)
                &&& final(self).used_set() == old(self).used_set().remove(addr)
            },
            !old(self).used_set().contains(addr) ==> {
                &&& r == false
                &&& final(self).free_seq() == old(self).free_seq()
                &&& final(self).used_set() == old(self).used_set()
            },
    {
        if let Some(addr) = self.used.remove(addr) {
            self.free.push_back(addr);
            proof {
                assert(forall|i: int|
                    0 <= i < old(self).free_seq().len() ==> self.free_seq()[i] == old(
                        self,
                    ).free_seq()[i]);
            }
            true
        } else {
            false
        }
    }

    /// Carve a region of `region_len` bytes into slots of `frame_size`
    /// bytes: every whole slot's offset starts out free, none in use.
    pub fn try_new(region_len: usize, frame_size: usize) -> (r: Result<AddrPool, PageError>)
        requires
            frame_size >= 1,
        ensures
            r matches Ok(pool) && {
                &&& pool.wf()
                &&& pool.free_seq().len() == region_len as int / frame_size as int
                &&& forall|i: int|
                    0 <= i < pool.free_seq().len() ==> pool.free_seq()[i] == i * frame_size
                &&& pool.used_set() == Set::<usize>::empty()
            },
    {
        let slots = region_len / frame_size;
        let mut free = FreePool::default();
        let mut i: usize = 0;
        let mut offset: usize = 0;
        proof {
            lemma_fundamental_div_mod(region_len as int, frame_size as int);
        }
        while i < slots
            invariant
                frame_size >= 1,
                slots == region_len as int / frame_size as int,
                slots * frame_size <= region_len,
                i <= slots,
                offset == i * frame_size,
                free@.len() == i,
                forall|k: int| 0 <= k < i ==> free@[k] == k * frame_size,
            decreases slots - i,
        {
            proof {
                lemma_mul_inequality(i + 1, slots as int, frame_size as int);
                assert((i + 1) * frame_size == i * frame_size + frame_size) by (nonlinear_arith);
            }
            free.push_back(offset);
            offset = offset + frame_size;
            i = i + 1;
        }
        let pool = AddrPool { free, used: UsedPool::default() };
        proof {
            assert forall|a: int, b: int|
                0 <= a < b < pool.free_seq().len() implies pool.free_seq()[a]
                != pool.free_seq()[b] by {
                lemma_mul_strict_inequality(a, b, frame_size as int);
            }
        }
        Ok(pool)
    }
}

/// Law: allocating and then freeing the handed-out address restores the
/// pool's free/used partition, with the address requeued at the back; and
/// a second free of the same address is refused with nothing changed,
/// because the address is no longer in use.
pub proof fn lemma_alloc_then_free_restores(free0: Seq<usize>, used0: Set<usize>)
    requires
        free0.len() > 0,
        forall|i: int, j: int| 0 <= i < j < free0.len() ==> free0[i] != free0[j],
        forall|i: int| 0 <= i < free0.len() ==> !used0.contains(free0[i]),
        used0.finite(),
    ensures
        ({
            // after alloc: the oldest free address moves to the used set
            let a = free0[0];
            let free1 = free0.subrange(1, free0.len() as int);
            let used1 = used0.insert(a);
            // after free(a): the address returns to the back of the queue
            let free2 = free1.push(a);
            let used2 = used1.remove(a);
            &&& used1.contains(a)
            &&& used2 == used0
            &&& free2.to_set() == free0.to_set()
            &&& free2.len() == free0.len()
            &&& !used2.contains(a)
        }),
{
    let a = free0[0];
    let free1 = free0.subrange(1, free0.len() as int);
    let free2 = free1.push(a);
    assert(used0.insert(a).remove(a) =~= used0);
    assert forall|x: usize| free2.to_set().contains(x) implies free0.to_set().contains(x) by {
        assert(free2.contains(x));
        let k = choose|k: int| 0 <= k < free2.len() && free2[k] == x;
        if k == free2.len() - 1 {
            assert(free0[0] == x);
        } else {
            assert(free0[k + 1] == x);
        }
        assert(free0.contains(x));
    }
    assert forall|x: usize| free0.to_set().contains(x) implies free2.to_set().contains(x) by {
        assert(free0.contains(x));
        let k = choose|k: int| 0 <= k < free0.len() && free0[k] == x;
        if k == 0 {
            assert(free2[free2.len() - 1] == x);
        } else {
            assert(free2[k - 1] == x);
        }
        assert(free2.contains(x));
    }
    assert(free2.to_set() =~= free0.to_set());
}

} // verus!
