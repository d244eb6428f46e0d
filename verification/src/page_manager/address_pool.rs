//! One slot pool per size class: an anonymously mapped region carved into
//! equally sized slots, whose addresses (offsets into the region) are
//! partitioned into a free queue and a used set.

pub mod addr_pool;
pub mod free_pool;
pub mod used_pool;

use vstd::prelude::*;
use vstd::arithmetic::div_mod::{lemma_fundamental_div_mod, lemma_mod_multiples_basic};
use vstd::arithmetic::power2::{lemma_pow2_pos, pow2};

use crate::mapping::{map_anon, mmap_len, mmap_region_len};
use crate::page_class;
use crate::page_manager::address_pool::addr_pool::AddrPool;
use crate::{PageError, MAX_CLASS_ID};

verus! {

/// The slot pool of one size class.
pub struct AddressPool {
    cid: usize,
    slots: usize,
    data: memmap2::MmapMut,
    pools: AddrPool,
}

impl AddressPool {
    /// The size class this pool serves.
    pub closed spec fn spec_cid(&self) -> usize {
        self.cid
    }

    /// How many slots the region was carved into.
    pub closed spec fn spec_slots(&self) -> usize {
        self.slots
    }

    /// The free queue, oldest first.
    pub closed spec fn free_seq(&self) -> Seq<usize> {
        self.pools.free_seq()
    }

    /// The set of addresses in use.
    pub closed spec fn used_set(&self) -> Set<usize> {
        self.pools.used_set()
    }

    /// The underlying partition bookkeeping is sound.
    pub closed spec fn partition_wf(&self) -> bool {
        self.pools.wf()
    }

    /// The pool is sound: its partition is, every slot is on exactly one
    /// side, and every address is aligned to the slot size.
    pub open spec fn wf(&self) -> bool {
        &&& self.partition_wf()
        &&& self.spec_cid() <= MAX_CLASS_ID
        &&& self.free_seq().len() + self.used_set().len() == self.spec_slots()
        &&& forall|i: int|
            0 <= i < self.free_seq().len() ==> (#[trigger] self.free_seq()[i]) as int % pow2(
                self.spec_cid() as nat,
            ) as int == 0
        &&& forall|a: usize|
            self.used_set().contains(a) ==> a as int % pow2(self.spec_cid() as nat) as int == 0
    }

    /// Take the oldest free slot address into use; `None` when the pool
    /// is exhausted.
    pub fn allocate(&mut self) -> (r: Option<usize>)
        requires
            old(self).wf(),
        ensures
            final(self).wf(),
            final(self).spec_cid() == old(self).spec_cid(),
            final(self).spec_slots() == old(self).spec_slots(),
            old(self).free_seq().len() == 0 ==> {
                &&& r is None
                &&& final(self).free_seq() == old(self).free_seq()
                &&& final(self).used_set() == old(self).used_set()
            },
            old(self).free_seq().len() > 0 ==> {
                let a = old(self).free_seq()[0];
                &&& r == Some(a)
                &&& a as int % pow2(old(self).spec_cid() as nat) as int == 0
                &&& !old(self).used_set().contains(a)
                &&& final(self).free_seq() == old(self).free_seq().subrange(
                    1,
                    old(self).free_seq().len() as int,
                )
                &&& final(self).used_set() == old(self).used_set().insert(a)
                &&& final(self).used_set().len() == old(self).used_set().len() + 1
            },
    {
        let r = self.pools.allocate();
        proof {
            if old(self).free_seq().len() > 0 {
                vstd::set::axiom_set_insert_len(old(self).used_set(), old(self).free_seq()[0]);
                assert(forall|i: int|
                    0 <= i < self.free_seq().len() ==> #[trigger] self.free_seq()[i] == old(
                        self,
                    ).free_seq()[i + 1]);
            }
        }
        r
    }

    /// Return a slot address to the back of the free queue; refused, with
    /// nothing changed, when the address is not in use.
    pub fn free(&mut self, addr: usize) -> (r: bool)
        requires
            old(self).wf(),
        ensures
            final(self).wf(),
            final(self).spec_cid() == old(self).spec_cid(),
            final(self).spec_slots() == old(self).spec_slots(),
            old(self).used_set().contains(addr) ==> {
                &&& r == true
                &&& final(self).free_seq() == old(self).free_seq().push(addr)
                &&& final(self).used_set() == old(self).used_set().remove(addr)
                &&& final(self).used_set().len() == old(self).used_set().len() - 1
            },
            !old(self).used_set().contains(addr) ==> {
                &&& r == false
                &&& final(self).free_seq() == old(self).free_seq()
                &&& final(self).used_set() == old(self).used_set()
            },
    {
        let r = self.pools.free(addr);
        proof {
            if old(self).used_set().contains(addr) {
                vstd::set::axiom_set_remove_len(old(self).used_set(), addr);
                assert(forall|i: int|
                    0 <= i < old(self).free_seq().len() ==> #[trigger] self.free_seq()[i] == old(
                        self,
                    ).free_seq()[i]);
            }
        }
        r
    }

    /// Map an anonymous region of `pool_size` bytes and carve it into
    /// slots of the class size, all free. Refused when the class exceeds
    /// the largest one, when no whole number of slots covers the pool, or
    /// when the operating system will not map the region.
    pub fn try_new(pool_size: usize, cid: usize) -> (r: Result<AddressPool, PageError>)
        ensures
            r matches Ok(p) ==> {
                &&& cid <= MAX_CLASS_ID
                &&& pool_size as int % pow2(cid as nat) as int == 0
                &&& p.wf()
                &&& p.spec_cid() == cid
                &&& p.spec_slots() == pool_size as int / pow2(cid as nat) as int
                &&& p.used_set() == Set::<usize>::empty()
                &&& p.free_seq().len() == p.spec_slots()
            },
            cid > MAX_CLASS_ID ==> r == Err::<AddressPool, PageError>(PageError::ClassOutOfRange),
            cid <= MAX_CLASS_ID && pool_size as int % pow2(cid as nat) as int != 0 ==> r
                == Err::<AddressPool, PageError>(PageError::InvalidPoolSize),
            cid <= MAX_CLASS_ID && pool_size as int % pow2(cid as nat) as int == 0 ==> r is Ok
                || r == Err::<AddressPool, PageError>(PageError::MapFailed),
    {
        if cid > MAX_CLASS_ID {
            return Err(PageError::ClassOutOfRange);
        }
        let frame_size = page_class::size_of(cid);
        proof {
            lemma_pow2_pos(cid as nat);
        }
        if pool_size % frame_size != 0 {
            return Err(PageError::InvalidPoolSize);
        }
        let data = match map_anon(pool_size) {
            Ok(data) => data,
            Err(e) => {
                return Err(e);
            },
        };
        let region = mmap_region_len(&data);
        let pools = match AddrPool::try_new(region, frame_size) {
            Ok(pools) => pools,
            Err(e) => {
                return Err(e);
            },
        };
        let slots = region / frame_size;
        let pool = AddressPool { cid, slots, data, pools };
        proof {
            assert forall|i: int| 0 <= i < pool.free_seq().len() implies (
            #[trigger] pool.free_seq()[i]) as int % pow2(cid as nat) as int == 0 by {
                lemma_mod_multiples_basic(i, frame_size as int);
            }
        }
        Ok(pool)
    }
}

} // verus!
