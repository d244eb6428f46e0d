use vex_pages::PageManager;

const POOL_SIZE: usize = usize::pow(2, 22);

#[test]
fn timely_dataflow_integration_allocates_pages_in_ops() {
    // Two workers each drive 100000 rounds of handle creation and
    // allocation against one shared manager; every page is taken
    // exclusively once before it is dropped.
    let mut pages = PageManager::try_new(POOL_SIZE).unwrap();
    let workers = 2usize;
    let rounds = 100000usize;
    for _ in 0..workers {
        for _ in 0..rounds {
            let mut handle = pages.new_handle(12).unwrap();
            let page = pages.try_alloc_handle(&mut handle).unwrap();
            let guard = page.try_write().ok().unwrap();
            pages.try_free(vex_pages::PageGuard::new(guard.release())).unwrap();
        }
    }
    assert_eq!(pages.used_bytes(), 0);
}

#[test]
fn timely_dataflow_tests_allocates_pages_in_ops() {
    // Two workers each allocate and free one 2048 byte page against one
    // shared manager; the total page count comes out exact.
    let page_size = 2048u32;
    let thread_pages = 1usize;
    let thread_count = 2usize;

    let mut pages = PageManager::try_new(POOL_SIZE).unwrap();
    let mut page_count = 0usize;

    for _ in 0..thread_count {
        for _ in 0..thread_pages {
            match pages.try_alloc(page_size) {
                Err(err) => panic!("{:?}", err),
                Ok(page) => {
                    pages.try_free(page).unwrap();
                    page_count += 1;
                },
            }
        }
    }

    assert_eq!(page_count, thread_count * thread_pages);
}
