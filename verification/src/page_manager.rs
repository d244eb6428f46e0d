//! The page manager: one slot pool per size class, the page-identifier
//! allocator, and the live-byte counter. Handle creation, allocation and
//! release of pages all run through it.

pub mod address_pool;
pub mod frame;
pub mod page_id_pool;

use vstd::prelude::*;
use vstd::arithmetic::div_mod::lemma_fundamental_div_mod;
use vstd::arithmetic::mul::lemma_mul_inequality;
use vstd::arithmetic::power2::pow2;

use crate::latch_word::{latch_is_open, word_latch};
use crate::page::Page;
use crate::page_class;
use crate::page_class::spec_cid_to_fit;
use crate::page_guard::PageGuard;
use crate::page_handle::page_swip::PageSWIP;
use crate::page_handle::PageHandle;
use crate::page_manager::address_pool::AddressPool;
use crate::page_manager::frame::frame_swip::{
    lemma_swip_parts, swip_cid, swip_pack, swip_pid, swip_tag, FrameSWIP, PID_FIELD_MAX,
};
use crate::page_manager::frame::frame_vlds::FrameVLDS;
use crate::page_manager::page_id_pool::{spec_next_id, PageIdPool};
use crate::{PageError, HEADER_LEN, MAX_CLASS_ID, MIN_CLASS_ID};

verus! {

/// How many size classes the manager serves.
pub const CLASS_COUNT: usize = 20;

/// Total bytes covered by the used slots of every pool.
pub closed spec fn used_bytes_of(pools: Seq<AddressPool>) -> int
    decreases pools.len(),
{
    if pools.len() == 0 {
        0
    } else {
        pools[0].used_set().len() * pow2(pools[0].spec_cid() as nat) + used_bytes_of(
            pools.subrange(1, pools.len() as int),
        )
    }
}

/// Two pool sequences agree in everything the accounting reads.
pub open spec fn pools_view_eq(p0: Seq<AddressPool>, p1: Seq<AddressPool>) -> bool {
    &&& p1.len() == p0.len()
    &&& forall|j: int|
        0 <= j < p0.len() ==> {
            &&& (#[trigger] p1[j]).free_seq() == p0[j].free_seq()
            &&& p1[j].used_set() == p0[j].used_set()
            &&& p1[j].spec_cid() == p0[j].spec_cid()
            &&& p1[j].spec_slots() == p0[j].spec_slots()
        }
}

/// The sum never counts a slot negatively.
proof fn lemma_used_bytes_nonneg(pools: Seq<AddressPool>)
    ensures
        used_bytes_of(pools) >= 0,
    decreases pools.len(),
{
    if pools.len() > 0 {
        lemma_used_bytes_nonneg(pools.subrange(1, pools.len() as int));
    }
}

/// The sum reads only each pool's used count and class.
proof fn lemma_used_bytes_congruent(p0: Seq<AddressPool>, p1: Seq<AddressPool>)
    requires
        p1.len() == p0.len(),
        forall|j: int|
            0 <= j < p0.len() ==> (#[trigger] p1[j]).used_set().len() == p0[j].used_set().len()
                && p1[j].spec_cid() == p0[j].spec_cid(),
    ensures
        used_bytes_of(p1) == used_bytes_of(p0),
    decreases p0.len(),
{
    if p0.len() > 0 {
        let t0 = p0.subrange(1, p0.len() as int);
        let t1 = p1.subrange(1, p1.len() as int);
        assert(forall|j: int|
            0 <= j < t0.len() ==> (#[trigger] t1[j]).used_set().len() == t0[j].used_set().len()
                && t1[j].spec_cid() == t0[j].spec_cid()) by {
            assert(forall|j: int| 0 <= j < t0.len() ==> #[trigger] t0[j] == p0[j + 1]);
            assert(forall|j: int| 0 <= j < t1.len() ==> #[trigger] t1[j] == p1[j + 1]);
        }
        lemma_used_bytes_congruent(t0, t1);
    }
}

/// Appending a pool adds exactly its own share to the sum.
proof fn lemma_used_bytes_push(pools: Seq<AddressPool>, pool: AddressPool)
    ensures
        used_bytes_of(pools.push(pool)) == used_bytes_of(pools) + pool.used_set().len() * pow2(
            pool.spec_cid() as nat,
        ),
    decreases pools.len(),
{
    let pushed = pools.push(pool);
    assert(pushed.len() == pools.len() + 1);
    assert(used_bytes_of(pushed) == pushed[0].used_set().len() * pow2(pushed[0].spec_cid() as nat)
        + used_bytes_of(pushed.subrange(1, pushed.len() as int)));
    if pools.len() == 0 {
        assert(pushed[0] == pool);
        assert(pushed.subrange(1, pushed.len() as int) =~= Seq::<AddressPool>::empty());
        assert(used_bytes_of(pushed.subrange(1, pushed.len() as int)) == 0);
    } else {
        assert(pushed[0] == pools[0]);
        assert(pushed.subrange(1, pushed.len() as int) =~= pools.subrange(
            1,
            pools.len() as int,
        ).push(pool));
        lemma_used_bytes_push(pools.subrange(1, pools.len() as int), pool);
    }
}

/// Changing one pool moves the sum by exactly that pool's change, as long
/// as its class stays put.
proof fn lemma_used_bytes_update(p0: Seq<AddressPool>, p1: Seq<AddressPool>, idx: int)
    requires
        0 <= idx < p0.len(),
        p1.len() == p0.len(),
        forall|j: int|
            0 <= j < p0.len() && j != idx ==> (#[trigger] p1[j]).used_set().len()
                == p0[j].used_set().len() && p1[j].spec_cid() == p0[j].spec_cid(),
        p1[idx].spec_cid() == p0[idx].spec_cid(),
    ensures
        used_bytes_of(p1) == used_bytes_of(p0) + (p1[idx].used_set().len()
            - p0[idx].used_set().len()) * pow2(p0[idx].spec_cid() as nat),
    decreases p0.len(),
{
    let t0 = p0.subrange(1, p0.len() as int);
    let t1 = p1.subrange(1, p1.len() as int);
    assert(forall|j: int| 0 <= j < t0.len() ==> #[trigger] t0[j] == p0[j + 1]);
    assert(forall|j: int| 0 <= j < t1.len() ==> #[trigger] t1[j] == p1[j + 1]);
    if idx == 0 {
        lemma_used_bytes_congruent(t0, t1);
        assert(used_bytes_of(p1) - used_bytes_of(p0) == p1[0].used_set().len() * pow2(
            p1[0].spec_cid() as nat,
        ) - p0[0].used_set().len() * pow2(p0[0].spec_cid() as nat));
        assert((p1[0].used_set().len() - p0[0].used_set().len()) * pow2(p0[0].spec_cid() as nat)
            == p1[0].used_set().len() * pow2(p0[0].spec_cid() as nat) - p0[0].used_set().len()
            * pow2(p0[0].spec_cid() as nat)) by (nonlinear_arith);
    } else {
        lemma_used_bytes_update(t0, t1, idx - 1);
        assert((p1[idx].used_set().len() - p0[idx].used_set().len()) * pow2(
            p0[idx].spec_cid() as nat,
        ) == (t1[idx - 1].used_set().len() - t0[idx - 1].used_set().len()) * pow2(
            t0[idx - 1].spec_cid() as nat,
        ));
    }
}

/// With every pool sound and covering `pool_size` bytes, the sum stays
/// within the total capacity.
proof fn lemma_used_bytes_bounds(pools: Seq<AddressPool>, pool_size: usize)
    requires
        forall|j: int|
            0 <= j < pools.len() ==> (#[trigger] pools[j]).wf() && pools[j].spec_slots() * pow2(
                pools[j].spec_cid() as nat,
            ) <= pool_size,
    ensures
        0 <= used_bytes_of(pools) <= pools.len() * pool_size,
    decreases pools.len(),
{
    if pools.len() == 0 {
    } else {
        let tail = pools.subrange(1, pools.len() as int);
        assert(forall|j: int| 0 <= j < tail.len() ==> #[trigger] tail[j] == pools[j + 1]);
        lemma_used_bytes_bounds(tail, pool_size);
        let head = pools[0];
        assert(head.used_set().len() <= head.spec_slots());
        lemma_mul_inequality(
            head.used_set().len() as int,
            head.spec_slots() as int,
            pow2(head.spec_cid() as nat) as int,
        );
        assert((pools.len() - 1) * pool_size + pool_size == pools.len() * pool_size)
            by (nonlinear_arith);
    }
}

/// One pool's share never exceeds the sum.
proof fn lemma_used_bytes_lower(pools: Seq<AddressPool>, idx: int)
    requires
        0 <= idx < pools.len(),
    ensures
        used_bytes_of(pools) >= pools[idx].used_set().len() * pow2(pools[idx].spec_cid() as nat),
    decreases pools.len(),
{
    let tail = pools.subrange(1, pools.len() as int);
    if idx == 0 {
        lemma_used_bytes_nonneg(tail);
    } else {
        lemma_used_bytes_lower(tail, idx - 1);
        lemma_used_bytes_nonneg(pools.subrange(0, 1));
        assert(tail[idx - 1] == pools[idx]);
    }
}

/// The buffer manager's core state.
pub struct PageManager {
    pools: Vec<AddressPool>,
    ids: PageIdPool,
    used: usize,
    pool_size: usize,
}

impl PageManager {
    /// The per-class pools, smallest class first.
    pub closed spec fn spec_pools(&self) -> Seq<AddressPool> {
        self.pools@
    }

    /// The page-identifier allocator.
    pub closed spec fn spec_ids(&self) -> PageIdPool {
        self.ids
    }

    /// Bytes covered by currently used slots.
    pub closed spec fn spec_used(&self) -> usize {
        self.used
    }

    /// The byte budget each class's region was carved from.
    pub closed spec fn spec_pool_size(&self) -> usize {
        self.pool_size
    }

    /// The identifier the counter would mint next.
    pub open spec fn spec_id_counter(&self) -> u64 {
        self.spec_ids().spec_counter()
    }

    /// Identifiers awaiting reuse.
    pub open spec fn spec_id_reuse(&self) -> Seq<u64> {
        self.spec_ids().reuse_seq()
    }

    /// The free queue of the pool serving class `cid`.
    pub open spec fn spec_free_of(&self, cid: usize) -> Seq<usize>
        recommends
            MIN_CLASS_ID <= cid <= MAX_CLASS_ID,
    {
        self.spec_pools()[cid - MIN_CLASS_ID].free_seq()
    }

    /// The used set of the pool serving class `cid`.
    pub open spec fn spec_used_of(&self, cid: usize) -> Set<usize>
        recommends
            MIN_CLASS_ID <= cid <= MAX_CLASS_ID,
    {
        self.spec_pools()[cid - MIN_CLASS_ID].used_set()
    }

    /// The manager is sound: one sound pool per class in order, each
    /// holding as many whole slots as the byte budget fits; a sound
    /// identifier allocator; and a live-byte counter that equals the
    /// bytes of the used slots.
    pub open spec fn wf(&self) -> bool {
        &&& self.spec_pools().len() == CLASS_COUNT
        &&& forall|j: int|
            0 <= j < CLASS_COUNT ==> {
                let p = #[trigger] self.spec_pools()[j];
                &&& p.wf()
                &&& p.spec_cid() == MIN_CLASS_ID + j
                &&& p.spec_slots() * pow2(p.spec_cid() as nat) <= self.spec_pool_size()
                &&& p.spec_slots() == self.spec_pool_size() as int / pow2(p.spec_cid() as nat) as int
            }
        &&& self.spec_ids().wf()
        &&& self.spec_used() == used_bytes_of(self.spec_pools())
        &&& self.spec_pool_size() * CLASS_COUNT <= usize::MAX
    }

    /// The identifier the counter would mint next; callers that must
    /// stay clear of the identifier space's end can watch it.
    pub fn id_counter(&self) -> (r: u64)
        ensures
            r == self.spec_id_counter(),
    {
        self.ids.counter_value()
    }

    /// The live-byte counter: how many bytes of pool memory back
    /// currently allocated pages.
    pub fn used_bytes(&self) -> (r: usize)
        ensures
            r == self.spec_used(),
    {
        self.used
    }

    /// A manager with one pool per size class, each carved from its own
    /// anonymously mapped region holding as many whole slots of its class
    /// as fit in `pool_size` bytes; all slots free, no identifier minted,
    /// nothing used. Refused when the total capacity cannot be accounted
    /// for in one machine word, or when the operating system will not map
    /// a region.
    pub fn try_new(pool_size: usize) -> (r: Result<PageManager, PageError>)
        ensures
            r matches Ok(m) ==> {
                &&& m.wf()
                &&& m.spec_used() == 0
                &&& m.spec_pool_size() == pool_size
                &&& m.spec_id_counter() == 1
                &&& m.spec_id_reuse().len() == 0
                &&& forall|c: usize|
                    MIN_CLASS_ID <= c <= MAX_CLASS_ID ==> #[trigger] m.spec_free_of(c).len()
                        == pool_size as int / pow2(c as nat) as int && m.spec_used_of(
                        c,
                    ).is_empty()
            },
            r is Err ==> r == Err::<PageManager, PageError>(PageError::InvalidPoolSize) || r
                == Err::<PageManager, PageError>(PageError::MapFailed),
            r is Err && pool_size <= usize::MAX as int / CLASS_COUNT as int ==> r == Err::<
                PageManager,
                PageError,
            >(PageError::MapFailed),
            pool_size > usize::MAX as int / CLASS_COUNT as int ==> r == Err::<
                PageManager,
                PageError,
            >(PageError::InvalidPoolSize),
    {
        if pool_size > usize::MAX / CLASS_COUNT {
            return Err(PageError::InvalidPoolSize);
        }
        let mut pools: Vec<AddressPool> = Vec::new();
        let mut cid: usize = MIN_CLASS_ID;
        while cid <= MAX_CLASS_ID
            invariant
                MIN_CLASS_ID <= cid <= MAX_CLASS_ID + 1,
                pools@.len() == cid - MIN_CLASS_ID,
                pool_size <= usize::MAX as int / CLASS_COUNT as int,
                forall|j: int|
                    0 <= j < pools@.len() ==> {
                        let p = #[trigger] pools@[j];
                        &&& p.wf()
                        &&& p.spec_cid() == MIN_CLASS_ID + j
                        &&& p.spec_slots() * pow2(p.spec_cid() as nat) <= pool_size
                        &&& p.spec_slots() == pool_size as int / pow2(p.spec_cid() as nat) as int
                        &&& p.used_set().is_empty()
                        &&& p.free_seq().len() == pool_size as int / pow2(p.spec_cid() as nat) as int
                    },
                used_bytes_of(pools@) == 0,
            decreases MAX_CLASS_ID + 1 - cid,
        {
            let frame_size = page_class::size_of(cid);
            proof {
                vstd::arithmetic::power2::lemma_pow2_pos(cid as nat);
                lemma_fundamental_div_mod(pool_size as int, pow2(cid as nat) as int);
            }
            // The largest whole number of this class's slots that fits.
            let aligned = pool_size - pool_size % frame_size;
            proof {
                vstd::arithmetic::div_mod::lemma_mod_multiples_basic(
                    pool_size as int / frame_size as int,
                    frame_size as int,
                );
                vstd::arithmetic::div_mod::lemma_fundamental_div_mod_converse(
                    aligned as int,
                    frame_size as int,
                    pool_size as int / frame_size as int,
                    0,
                );
            }
            let pool = match AddressPool::try_new(aligned, cid) {
                Ok(pool) => pool,
                Err(e) => {
                    return Err(e);
                },
            };
            proof {
                lemma_fundamental_div_mod(aligned as int, pow2(cid as nat) as int);
                lemma_used_bytes_push(pools@, pool);
            }
            let ghost pools0 = pools@;
            pools.push(pool);
            proof {
                assert(pools@ == pools0.push(pool));
                assert(forall|j: int| 0 <= j < pools0.len() ==> #[trigger] pools@[j] == pools0[j]);
                assert(pools@[pools0.len() as int] == pool);
                assert(pool.spec_slots() == aligned as int / pow2(cid as nat) as int);
                assert(pool.spec_slots() * pow2(cid as nat) <= aligned);
            }
            cid = cid + 1;
        }
        proof {
            lemma_mul_inequality(
                pool_size as int,
                usize::MAX as int / CLASS_COUNT as int,
                CLASS_COUNT as int,
            );
            lemma_fundamental_div_mod(usize::MAX as int, CLASS_COUNT as int);
        }
        Ok(PageManager { pools, ids: PageIdPool::new(), used: 0, pool_size })
    }

    /// Allocate a page large enough for `len` payload bytes: pick the
    /// fitting class, pull the oldest free slot of its pool, mint a page
    /// identifier, activate the frame, and account the slot's bytes.
    /// Fails with `ClassOutOfRange` when no class fits and with
    /// `PoolExhausted` when the class's pool has no free slot; neither
    /// failure changes any state.
    pub fn try_alloc(&mut self, len: u32) -> (r: Result<PageGuard, PageError>)
        requires
            old(self).wf(),
            old(self).spec_id_counter() + 2 <= PID_FIELD_MAX,
        ensures
            final(self).wf(),
            final(self).spec_pool_size() == old(self).spec_pool_size(),
            ({
                let fit = spec_cid_to_fit(len as nat);
                let cid = fit->0;
                &&& (fit is None ==> {
                    &&& r == Err::<PageGuard, PageError>(PageError::ClassOutOfRange)
                    &&& pools_view_eq(old(self).spec_pools(), final(self).spec_pools())
                    &&& final(self).spec_used() == old(self).spec_used()
                    &&& final(self).spec_ids() == old(self).spec_ids()
                })
                &&& (fit is Some && old(self).spec_free_of(cid).len() == 0 ==> {
                    &&& r == Err::<PageGuard, PageError>(PageError::PoolExhausted)
                    &&& pools_view_eq(old(self).spec_pools(), final(self).spec_pools())
                    &&& final(self).spec_used() == old(self).spec_used()
                    &&& final(self).spec_ids() == old(self).spec_ids()
                })
                &&& (fit is Some && old(self).spec_free_of(cid).len() > 0 ==> (r matches Ok(g)
                    && {
                    let addr = old(self).spec_free_of(cid)[0];
                    let pid = spec_next_id(
                        old(self).spec_id_counter(),
                        old(self).spec_id_reuse(),
                    );
                    &&& g.spec_addr() == addr
                    &&& g.spec_frame().swip == swip_pack(pid, cid as u64)
                    &&& swip_cid(g.spec_frame().swip) == cid
                    &&& swip_pid(g.spec_frame().swip) == pid
                    &&& g.spec_frame().vlds == 1
                    &&& g.spec_frame().data.len() + HEADER_LEN == pow2(cid as nat)
                    &&& (forall|i: int|
                        0 <= i < g.spec_frame().data.len() ==> g.spec_frame().data[i] == 0u8)
                    &&& final(self).spec_used() == old(self).spec_used() + pow2(cid as nat)
                    &&& final(self).spec_free_of(cid) == old(self).spec_free_of(cid).subrange(
                        1,
                        old(self).spec_free_of(cid).len() as int,
                    )
                    &&& final(self).spec_used_of(cid) == old(self).spec_used_of(cid).insert(addr)
                    &&& (forall|c: usize|
                        MIN_CLASS_ID <= c <= MAX_CLASS_ID && c != cid ==> #[trigger] final(self).spec_free_of(c) == old(self).spec_free_of(c) && final(self).spec_used_of(c) == old(self).spec_used_of(c))
                    &&& final(self).spec_id_counter() <= old(self).spec_id_counter() + 2
                }))
            }),
    {
        let cid = match page_class::cid_to_fit(len) {
            Ok(cid) => cid,
            Err(e) => {
                return Err(e);
            },
        };
        let idx = page_class::index_of(cid);
        let ghost pools0 = self.pools@;
        let mut pool = self.pools.remove(idx);
        proof {
            pools0.remove_ensures(idx as int);
        }
        let addr = match pool.allocate() {
            Some(addr) => addr,
            None => {
                // The free queue is empty: the pool is exhausted, and the
                // decision what to do about it belongs to the caller.
                let ghost removed = self.pools@;
                self.pools.insert(idx, pool);
                proof {
                    removed.insert_ensures(idx as int, pool);
                    assert(forall|j: int|
                        0 <= j < pools0.len() && j != idx ==> #[trigger] self.spec_pools()[j]
                            == pools0[j]);
                    assert(self.spec_pools()[idx as int] == pool);
                    lemma_used_bytes_congruent(pools0, self.spec_pools());
                }
                return Err(PageError::PoolExhausted);
            },
        };
        let pid = self.ids.next();
        let page = match Page::try_alloc(addr, pid, cid) {
            Ok(page) => page,
            Err(e) => {
                proof {
                    assert(false);
                }
                return Err(e);
            },
        };
        let size = page_class::size_of(cid);
        let ghost removed = self.pools@;
        self.pools.insert(idx, pool);
        proof {
            removed.insert_ensures(idx as int, pool);
            assert(forall|j: int|
                0 <= j < pools0.len() && j != idx ==> #[trigger] self.spec_pools()[j]
                    == pools0[j]);
            assert(self.spec_pools()[idx as int] == pool);
            lemma_used_bytes_update(pools0, self.spec_pools(), idx as int);
            lemma_used_bytes_bounds(self.spec_pools(), self.pool_size);
            lemma_used_bytes_nonneg(pools0);
            assert(used_bytes_of(self.spec_pools()) == used_bytes_of(pools0) + pow2(
                cid as nat,
            )) by {
                assert((pool.used_set().len() - pools0[idx as int].used_set().len()) * pow2(
                    cid as nat,
                ) == 1 * pow2(cid as nat)) by (nonlinear_arith)
                    requires
                        pool.used_set().len() == pools0[idx as int].used_set().len() + 1,
                ;
            }
            assert(CLASS_COUNT * self.pool_size == self.spec_pools().len() * self.pool_size);
        }
        self.used = self.used + size;
        Ok(PageGuard::new(page))
    }

    /// A fresh, fizzled handle for a page large enough for `len` payload
    /// bytes: the fitting class paired with a newly minted page
    /// identifier. Fails with `ClassOutOfRange`, minting nothing, when no
    /// class fits.
    pub fn new_handle(&mut self, len: u32) -> (r: Result<PageHandle, PageError>)
        requires
            old(self).wf(),
            old(self).spec_id_counter() + 2 <= PID_FIELD_MAX,
        ensures
            final(self).wf(),
            final(self).spec_pool_size() == old(self).spec_pool_size(),
            pools_view_eq(old(self).spec_pools(), final(self).spec_pools()),
            final(self).spec_used() == old(self).spec_used(),
            spec_cid_to_fit(len as nat) is None ==> {
                &&& r == Err::<PageHandle, PageError>(PageError::ClassOutOfRange)
                &&& final(self).spec_ids() == old(self).spec_ids()
            },
            spec_cid_to_fit(len as nat) matches Some(cid) ==> (r matches Ok(h) && {
                let pid = spec_next_id(old(self).spec_id_counter(), old(self).spec_id_reuse());
                &&& h@ == swip_pack(pid, cid as u64)
                &&& swip_tag(h@) == 1
                &&& swip_cid(h@) == cid
                &&& swip_pid(h@) == pid
                &&& final(self).spec_id_counter() <= old(self).spec_id_counter() + 2
            }),
    {
        let cid = match page_class::cid_to_fit(len) {
            Ok(cid) => cid,
            Err(e) => {
                return Err(e);
            },
        };
        let pid = self.ids.next();
        Ok(PageHandle::new(FrameSWIP::new(FrameSWIP::pack(pid, cid as u64))))
    }

    /// Back a fizzled handle with memory: pull a free slot of the
    /// handle's class, activate the frame for the handle's page
    /// identifier, account the slot's bytes, and swizzle the handle to
    /// the slot address — the one Fizzled-to-Swizzled transition of a
    /// handle's life. Fails with `AlreadyAllocated` on a handle that is
    /// already swizzled, with `ClassOutOfRange` on a handle whose class
    /// lies outside the valid range, and with `PoolExhausted` when the
    /// class's pool has no free slot; every failure leaves the handle and
    /// the manager unchanged.
    pub fn try_alloc_handle(&mut self, handle: &mut PageHandle) -> (r: Result<
        PageGuard,
        PageError,
    >)
        requires
            old(self).wf(),
        ensures
            final(self).wf(),
            final(self).spec_pool_size() == old(self).spec_pool_size(),
            final(self).spec_ids() == old(self).spec_ids(),
            ({
                let cid = swip_cid(old(handle)@) as usize;
                let fizzled = swip_tag(old(handle)@) == 1;
                &&& (!fizzled ==> {
                    &&& r == Err::<PageGuard, PageError>(PageError::AlreadyAllocated)
                    &&& final(handle)@ == old(handle)@
                    &&& pools_view_eq(old(self).spec_pools(), final(self).spec_pools())
                    &&& final(self).spec_used() == old(self).spec_used()
                })
                &&& (fizzled && !(MIN_CLASS_ID <= cid <= MAX_CLASS_ID) ==> {
                    &&& r == Err::<PageGuard, PageError>(PageError::ClassOutOfRange)
                    &&& final(handle)@ == old(handle)@
                    &&& pools_view_eq(old(self).spec_pools(), final(self).spec_pools())
                    &&& final(self).spec_used() == old(self).spec_used()
                })
                &&& (fizzled && MIN_CLASS_ID <= cid <= MAX_CLASS_ID && old(self).spec_free_of(
                    cid,
                ).len() == 0 ==> {
                    &&& r == Err::<PageGuard, PageError>(PageError::PoolExhausted)
                    &&& final(handle)@ == old(handle)@
                    &&& pools_view_eq(old(self).spec_pools(), final(self).spec_pools())
                    &&& final(self).spec_used() == old(self).spec_used()
                })
                &&& (fizzled && MIN_CLASS_ID <= cid <= MAX_CLASS_ID && old(self).spec_free_of(
                    cid,
                ).len() > 0 ==> (r matches Ok(g) && {
                    let addr = old(self).spec_free_of(cid)[0];
                    &&& g.spec_addr() == addr
                    &&& g.spec_frame().swip == old(handle)@
                    &&& g.spec_frame().vlds == 1
                    &&& g.spec_frame().data.len() + HEADER_LEN == pow2(cid as nat)
                    &&& (forall|i: int|
                        0 <= i < g.spec_frame().data.len() ==> g.spec_frame().data[i] == 0u8)
                    &&& final(handle)@ == addr as u64
                    &&& swip_tag(final(handle)@) == 0
                    &&& final(self).spec_used() == old(self).spec_used() + pow2(cid as nat)
                    &&& final(self).spec_free_of(cid) == old(self).spec_free_of(cid).subrange(
                        1,
                        old(self).spec_free_of(cid).len() as int,
                    )
                    &&& final(self).spec_used_of(cid) == old(self).spec_used_of(cid).insert(addr)
                    &&& (forall|c: usize|
                        MIN_CLASS_ID <= c <= MAX_CLASS_ID && c != cid ==> #[trigger] final(self).spec_free_of(c) == old(self).spec_free_of(c) && final(self).spec_used_of(c)
                            == old(self).spec_used_of(c))
                }))
            }),
    {
        let word = handle.swip();
        let fizzled = match word {
            PageSWIP::Swizzled(_) => {
                return Err(PageError::AlreadyAllocated);
            },
            PageSWIP::Fizzled(f) => f,
        };
        let cid64 = fizzled.cid();
        let cid = cid64 as usize;
        if cid < MIN_CLASS_ID || cid > MAX_CLASS_ID {
            return Err(PageError::ClassOutOfRange);
        }
        let pid = fizzled.pid();
        proof {
            lemma_swip_parts(old(handle)@);
        }
        let idx = page_class::index_of(cid);
        let ghost pools0 = self.pools@;
        let mut pool = self.pools.remove(idx);
        proof {
            pools0.remove_ensures(idx as int);
        }
        let addr = match pool.allocate() {
            Some(addr) => addr,
            None => {
                // The free queue is empty: the pool is exhausted, and the
                // decision what to do about it belongs to the caller.
                let ghost removed = self.pools@;
                self.pools.insert(idx, pool);
                proof {
                    removed.insert_ensures(idx as int, pool);
                    assert(forall|j: int|
                        0 <= j < pools0.len() && j != idx ==> #[trigger] self.spec_pools()[j]
                            == pools0[j]);
                    assert(self.spec_pools()[idx as int] == pool);
                    lemma_used_bytes_congruent(pools0, self.spec_pools());
                }
                return Err(PageError::PoolExhausted);
            },
        };
        let page = match Page::try_alloc(addr, pid, cid) {
            Ok(page) => page,
            Err(e) => {
                proof {
                    assert(false);
                }
                return Err(e);
            },
        };
        // The slot address is a multiple of the (even) slot size, so its
        // tag bit is naturally clear: the handle word now reads Swizzled.
        proof {
            lemma_addr_is_even(addr, cid);
        }
        *handle = PageHandle::new(FrameSWIP::new(addr as u64));
        let size = page_class::size_of(cid);
        let ghost removed = self.pools@;
        self.pools.insert(idx, pool);
        proof {
            removed.insert_ensures(idx as int, pool);
            assert(forall|j: int|
                0 <= j < pools0.len() && j != idx ==> #[trigger] self.spec_pools()[j]
                    == pools0[j]);
            assert(self.spec_pools()[idx as int] == pool);
            lemma_used_bytes_update(pools0, self.spec_pools(), idx as int);
            lemma_used_bytes_bounds(self.spec_pools(), self.pool_size);
            lemma_used_bytes_nonneg(pools0);
            assert(used_bytes_of(self.spec_pools()) == used_bytes_of(pools0) + pow2(
                cid as nat,
            )) by {
                assert((pool.used_set().len() - pools0[idx as int].used_set().len()) * pow2(
                    cid as nat,
                ) == 1 * pow2(cid as nat)) by (nonlinear_arith)
                    requires
                        pool.used_set().len() == pools0[idx as int].used_set().len() + 1,
                ;
            }
            assert(CLASS_COUNT * self.pool_size == self.spec_pools().len() * self.pool_size);
        }
        self.used = self.used + size;
        Ok(PageGuard::new(page))
    }

    /// Free a page: with the latch open — so an exclusive guard is
    /// obtainable and no reader or writer is inside — recover the size
    /// class from the frame header, return the slot to its pool, subtract
    /// the slot's bytes from the live-byte counter, and release the page
    /// identifier for reuse. Fails with `LatchContended` while the latch
    /// is held, with `ClassOutOfRange` on a header whose class lies
    /// outside the valid range, and — never silently — with `InvalidFree`
    /// when the slot address is not in use; every failure leaves the
    /// manager unchanged.
    pub fn try_free(&mut self, page: PageGuard) -> (r: Result<(), PageError>)
        requires
            old(self).wf(),
        ensures
            final(self).wf(),
            final(self).spec_pool_size() == old(self).spec_pool_size(),
            final(self).spec_id_counter() == old(self).spec_id_counter(),
            ({
                let cid = swip_cid(page.spec_frame().swip) as usize;
                let addr = page.spec_addr();
                let pid = swip_pid(page.spec_frame().swip);
                let held = !latch_is_open(word_latch(page.spec_frame().vlds));
                &&& (held ==> {
                    &&& r == Err::<(), PageError>(PageError::LatchContended)
                    &&& pools_view_eq(old(self).spec_pools(), final(self).spec_pools())
                    &&& final(self).spec_used() == old(self).spec_used()
                    &&& final(self).spec_ids() == old(self).spec_ids()
                })
                &&& (!held && !(MIN_CLASS_ID <= cid <= MAX_CLASS_ID) ==> {
                    &&& r == Err::<(), PageError>(PageError::ClassOutOfRange)
                    &&& pools_view_eq(old(self).spec_pools(), final(self).spec_pools())
                    &&& final(self).spec_used() == old(self).spec_used()
                    &&& final(self).spec_ids() == old(self).spec_ids()
                })
                &&& (!held && MIN_CLASS_ID <= cid <= MAX_CLASS_ID && !old(self).spec_used_of(
                    cid,
                ).contains(addr) ==> {
                    &&& r == Err::<(), PageError>(PageError::InvalidFree)
                    &&& pools_view_eq(old(self).spec_pools(), final(self).spec_pools())
                    &&& final(self).spec_used() == old(self).spec_used()
                    &&& final(self).spec_ids() == old(self).spec_ids()
                })
                &&& (!held && MIN_CLASS_ID <= cid <= MAX_CLASS_ID && old(self).spec_used_of(
                    cid,
                ).contains(addr) ==> {
                    &&& r == Ok::<(), PageError>(())
                    &&& final(self).spec_used() == old(self).spec_used() - pow2(cid as nat)
                    &&& final(self).spec_free_of(cid) == old(self).spec_free_of(cid).push(addr)
                    &&& final(self).spec_used_of(cid) == old(self).spec_used_of(cid).remove(addr)
                    &&& (forall|c: usize|
                        MIN_CLASS_ID <= c <= MAX_CLASS_ID && c != cid ==> #[trigger] final(self).spec_free_of(c) == old(self).spec_free_of(c) && final(self).spec_used_of(c)
                            == old(self).spec_used_of(c))
                    &&& (pid % 2 == 1 && pid < old(self).spec_id_counter() && !old(
                        self,
                    ).spec_id_reuse().contains(pid) ==> final(self).spec_id_reuse() == old(
                        self,
                    ).spec_id_reuse().push(pid))
                    &&& (!(pid % 2 == 1 && pid < old(self).spec_id_counter() && !old(
                        self,
                    ).spec_id_reuse().contains(pid)) ==> final(self).spec_id_reuse() == old(
                        self,
                    ).spec_id_reuse())
                })
            }),
    {
        let p = page.into_page();
        let vlds_value = p.frame.vlds.value();
        if !FrameVLDS::is_open(FrameVLDS::latch(vlds_value)) {
            // Someone still reads or writes through this page.
            return Err(PageError::LatchContended);
        }
        let swip_value = p.frame.swip.value();
        let cid64 = FrameSWIP::cid(swip_value);
        let cid = cid64 as usize;
        if cid < MIN_CLASS_ID || cid > MAX_CLASS_ID {
            return Err(PageError::ClassOutOfRange);
        }
        let addr = p.addr;
        let idx = page_class::index_of(cid);
        let ghost pools0 = self.pools@;
        let mut pool = self.pools.remove(idx);
        proof {
            pools0.remove_ensures(idx as int);
        }
        let freed = pool.free(addr);
        let ghost removed = self.pools@;
        self.pools.insert(idx, pool);
        proof {
            removed.insert_ensures(idx as int, pool);
            assert(forall|j: int|
                0 <= j < pools0.len() && j != idx ==> #[trigger] self.spec_pools()[j]
                    == pools0[j]);
            assert(self.spec_pools()[idx as int] == pool);
        }
        if !freed {
            proof {
                lemma_used_bytes_congruent(pools0, self.spec_pools());
            }
            return Err(PageError::InvalidFree);
        }
        proof {
            lemma_used_bytes_update(pools0, self.spec_pools(), idx as int);
            lemma_used_bytes_lower(pools0, idx as int);
            lemma_used_bytes_bounds(self.spec_pools(), self.pool_size);
            lemma_mul_inequality(
                1,
                pools0[idx as int].used_set().len() as int,
                pow2(cid as nat) as int,
            );
            assert(used_bytes_of(self.spec_pools()) == used_bytes_of(pools0) - pow2(
                cid as nat,
            )) by {
                assert((pool.used_set().len() - pools0[idx as int].used_set().len()) * pow2(
                    cid as nat,
                ) == -1 * pow2(cid as nat)) by (nonlinear_arith)
                    requires
                        pool.used_set().len() == pools0[idx as int].used_set().len() - 1,
                ;
            }
        }
        let size = page_class::size_of(cid);
        self.used = self.used - size;
        let pid = FrameSWIP::pid(swip_value);
        self.ids.free(pid);
        Ok(())
    }
}

/// An address aligned to a slot size of at least one size class is even,
/// so a swizzled handle word's tag bit is naturally clear.
proof fn lemma_addr_is_even(addr: usize, cid: usize)
    requires
        MIN_CLASS_ID <= cid <= MAX_CLASS_ID,
        addr as int % pow2(cid as nat) as int == 0,
    ensures
        addr as u64 % 2 == 0,
        swip_tag(addr as u64) == 0,
{
    vstd::arithmetic::power2::lemma_pow2_pos(cid as nat);
    vstd::arithmetic::power2::lemma_pow2_unfold(cid as nat);
    lemma_fundamental_div_mod(addr as int, pow2(cid as nat) as int);
    let k = addr as int / pow2(cid as nat) as int;
    assert(addr as int == (k * pow2((cid - 1) as nat) as int) * 2) by (nonlinear_arith)
        requires
            addr as int == pow2(cid as nat) * k,
            pow2(cid as nat) == 2 * pow2((cid - 1) as nat),
    ;
    vstd::arithmetic::div_mod::lemma_mod_multiples_basic(
        k * pow2((cid - 1) as nat) as int,
        2,
    );
}

} // verus!
