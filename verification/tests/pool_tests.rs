use vex_pages::page_manager::address_pool::addr_pool::AddrPool;
use vex_pages::page_manager::address_pool::AddressPool;
use vex_pages::PageError;

#[test]
fn carving_hands_out_offsets_in_order() {
    let mut pool = AddrPool::try_new(4 * 4096, 4096).unwrap();
    assert_eq!(pool.allocate(), Some(0));
    assert_eq!(pool.allocate(), Some(4096));
    assert_eq!(pool.allocate(), Some(8192));
    assert_eq!(pool.allocate(), Some(12288));
    assert_eq!(pool.allocate(), None);
}

#[test]
fn alloc_then_free_restores_the_partition() {
    // An allocation followed by a free of the same address leaves the
    // same addresses free as before, requeued at the back; a second free
    // of that address is refused and changes nothing.
    let mut pool = AddrPool::try_new(2 * 4096, 4096).unwrap();
    let addr = pool.allocate().unwrap();
    assert_eq!(addr, 0);
    assert!(pool.free(addr));
    // Both addresses are free again: two allocations succeed.
    assert!(!pool.free(addr));
    assert_eq!(pool.allocate(), Some(4096));
    assert_eq!(pool.allocate(), Some(0));
    assert_eq!(pool.allocate(), None);
}

#[test]
fn freed_addresses_are_reused_oldest_first() {
    let mut pool = AddrPool::try_new(3 * 4096, 4096).unwrap();
    let a = pool.allocate().unwrap();
    let b = pool.allocate().unwrap();
    let c = pool.allocate().unwrap();
    assert!(pool.free(b));
    assert!(pool.free(a));
    assert!(pool.free(c));
    // Reuse order follows the frees, first in first out.
    assert_eq!(pool.allocate(), Some(b));
    assert_eq!(pool.allocate(), Some(a));
    assert_eq!(pool.allocate(), Some(c));
}

#[test]
fn double_free_is_refused_and_changes_nothing() {
    let mut pool = AddrPool::try_new(2 * 4096, 4096).unwrap();
    let a = pool.allocate().unwrap();
    assert!(pool.free(a));
    assert!(!pool.free(a));
    // A free of a never-allocated address is refused too.
    assert!(!pool.free(77777));
    // The partition is intact: exactly two slots can be taken.
    assert!(pool.allocate().is_some());
    assert!(pool.allocate().is_some());
    assert_eq!(pool.allocate(), None);
}

#[test]
fn exhausted_pool_recovers_after_one_free() {
    // A class-12 pool sized to exactly four slots refuses the fifth
    // allocation and accepts one again right after a single free.
    let mut pool = AddressPool::try_new(4 * 4096, 12).unwrap();
    let mut taken = Vec::new();
    for _ in 0..4 {
        taken.push(pool.allocate().unwrap());
    }
    assert_eq!(pool.allocate(), None);
    let victim = taken[1];
    assert!(pool.free(victim));
    assert_eq!(pool.allocate(), Some(victim));
    assert_eq!(pool.allocate(), None);
}

#[test]
fn pool_construction_is_validated() {
    // A class above the largest one is refused.
    assert!(matches!(
        AddressPool::try_new(4096, 32),
        Err(PageError::ClassOutOfRange)
    ));
    // A pool size no whole number of slots covers is refused.
    assert!(matches!(
        AddressPool::try_new(4097, 12),
        Err(PageError::InvalidPoolSize)
    ));
    // An empty pool is legal and immediately exhausted.
    let mut empty = AddressPool::try_new(0, 12).unwrap();
    assert_eq!(empty.allocate(), None);
}

#[test]
fn pool_addresses_are_slot_aligned() {
    let mut pool = AddressPool::try_new(4 * 8192, 13).unwrap();
    for _ in 0..4 {
        let addr = pool.allocate().unwrap();
        assert_eq!(addr % 8192, 0);
    }
}
