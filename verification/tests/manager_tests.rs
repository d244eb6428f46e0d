use vex_pages::page::Page;
use vex_pages::page_guard::PageGuard;
use vex_pages::page_handle::page_swip::PageSWIP;
use vex_pages::page_manager::PageManager;
use vex_pages::{PageError, HEADER_LEN};

const POOL_SIZE: usize = usize::pow(2, 22);

#[test]
fn handle_alloc_free_end_to_end() {
    // A 100 byte payload fits the smallest class: the handle is fizzled
    // with class 12, allocation backs it with a 4096 byte frame whose data
    // zone is the class size less the header, and freeing returns the
    // slot and the accounted bytes.
    let mut manager = PageManager::try_new(POOL_SIZE).unwrap();
    assert_eq!(manager.used_bytes(), 0);

    let mut handle = manager.new_handle(100).unwrap();
    match handle.swip() {
        PageSWIP::Fizzled(f) => {
            assert_eq!(f.cid(), 12);
            assert_eq!(f.pid(), 1);
        },
        PageSWIP::Swizzled(_) => panic!("a fresh handle is fizzled"),
    }

    let guard = manager.try_alloc_handle(&mut handle).unwrap();
    match handle.swip() {
        PageSWIP::Swizzled(s) => assert_eq!(s.address(), 0),
        PageSWIP::Fizzled(_) => panic!("an allocated handle is swizzled"),
    }
    assert_eq!(manager.used_bytes(), 4096);

    let page = guard.into_page();
    assert_eq!(page.frame().try_data().len(), 4096 - HEADER_LEN);

    manager.try_free(PageGuard::new(page)).unwrap();
    assert_eq!(manager.used_bytes(), 0);

    // The freed slot is available again, and the released identifier is
    // the next one minted.
    let mut handle = manager.new_handle(100).unwrap();
    match handle.swip() {
        PageSWIP::Fizzled(f) => assert_eq!(f.pid(), 1),
        PageSWIP::Swizzled(_) => panic!("a fresh handle is fizzled"),
    }
    assert!(manager.try_alloc_handle(&mut handle).is_ok());
}

#[test]
fn allocation_accounts_each_class() {
    let mut manager = PageManager::try_new(POOL_SIZE).unwrap();
    let small = manager.try_alloc(100).unwrap();
    assert_eq!(manager.used_bytes(), 4096);
    let large = manager.try_alloc(5000).unwrap();
    assert_eq!(manager.used_bytes(), 4096 + 8192);
    manager.try_free(small).unwrap();
    assert_eq!(manager.used_bytes(), 8192);
    manager.try_free(large).unwrap();
    assert_eq!(manager.used_bytes(), 0);
}

#[test]
fn payloads_too_large_for_every_class_are_refused() {
    let mut manager = PageManager::try_new(0).unwrap();
    assert!(matches!(
        manager.try_alloc(u32::MAX),
        Err(PageError::ClassOutOfRange)
    ));
    assert!(matches!(
        manager.new_handle(u32::MAX),
        Err(PageError::ClassOutOfRange)
    ));
}

#[test]
fn empty_pools_report_exhaustion() {
    let mut manager = PageManager::try_new(0).unwrap();
    assert!(matches!(
        manager.try_alloc(100),
        Err(PageError::PoolExhausted)
    ));
    let mut handle = manager.new_handle(100).unwrap();
    assert!(matches!(
        manager.try_alloc_handle(&mut handle),
        Err(PageError::PoolExhausted)
    ));
    assert_eq!(manager.used_bytes(), 0);
}

#[test]
fn allocating_a_swizzled_handle_is_refused() {
    let mut manager = PageManager::try_new(POOL_SIZE).unwrap();
    let mut handle = manager.new_handle(100).unwrap();
    let guard = manager.try_alloc_handle(&mut handle).unwrap();
    assert!(matches!(
        manager.try_alloc_handle(&mut handle),
        Err(PageError::AlreadyAllocated)
    ));
    manager.try_free(guard).unwrap();
}

#[test]
fn freeing_an_unallocated_address_is_reported() {
    let mut manager = PageManager::try_new(POOL_SIZE).unwrap();
    let _held = manager.try_alloc(100).unwrap();
    // Slot 4096 of the class-12 pool was never allocated: freeing it is a
    // logic error and is surfaced, never silently accepted.
    let stray = Page::try_alloc(4096, 7, 12).unwrap();
    assert!(matches!(
        manager.try_free(PageGuard::new(stray)),
        Err(PageError::InvalidFree)
    ));
    assert_eq!(manager.used_bytes(), 4096);
}

#[test]
fn double_free_is_reported() {
    let mut manager = PageManager::try_new(POOL_SIZE).unwrap();
    let guard = manager.try_alloc(100).unwrap();
    manager.try_free(guard).unwrap();
    // A second page claiming the same slot: the slot is no longer in use.
    let stale = Page::try_alloc(0, 1, 12).unwrap();
    assert!(matches!(
        manager.try_free(PageGuard::new(stale)),
        Err(PageError::InvalidFree)
    ));
    assert_eq!(manager.used_bytes(), 0);
}

#[test]
fn freeing_a_latched_page_is_refused() {
    let mut manager = PageManager::try_new(POOL_SIZE).unwrap();
    let guard = manager.try_alloc(100).unwrap();
    let mut page = guard.into_page();
    page.frame.vlds.latch_write().unwrap();
    match manager.try_free(PageGuard::new(page)) {
        Err(PageError::LatchContended) => {},
        other => panic!("a held latch must refuse the free: {:?}", other),
    }
    assert_eq!(manager.used_bytes(), 4096);
}

#[test]
fn manager_construction_is_validated() {
    // A capacity beyond what one machine word can account for is refused.
    assert!(matches!(
        PageManager::try_new(usize::MAX),
        Err(PageError::InvalidPoolSize)
    ));
}

#[test]
fn exhausting_a_class_pool_reports_and_recovers() {
    // A manager whose class-12 pool holds exactly one slot refuses the
    // second allocation of that class and accepts one again right after
    // a single free.
    let mut manager = PageManager::try_new(4096).unwrap();
    let first = manager.try_alloc(100).unwrap();
    assert!(matches!(
        manager.try_alloc(100),
        Err(PageError::PoolExhausted)
    ));
    manager.try_free(first).unwrap();
    let second = manager.try_alloc(100).unwrap();
    manager.try_free(second).unwrap();
    assert_eq!(manager.used_bytes(), 0);
}

#[test]
fn page_content_survives_alloc_write_read() {
    let mut manager = PageManager::try_new(POOL_SIZE).unwrap();
    let guard = manager.try_alloc(2048).unwrap();
    let mut write_guard = guard.try_write().ok().unwrap();
    let payload = vec![1u8, 2, 3];
    assert_eq!(write_guard.write(0, 3, &payload), Ok(3));
    let mut out = Vec::new();
    assert_eq!(write_guard.read(0, 3, &mut out), Ok(3));
    assert_eq!(out, payload);
    let page = write_guard.release();
    manager.try_free(PageGuard::new(page)).unwrap();
    assert_eq!(manager.used_bytes(), 0);
}
