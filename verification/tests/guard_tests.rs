use vex_pages::page::exclusive_page_guard::ExclusivePageGuard;
use vex_pages::page::read_guard::ReadGuard;
use vex_pages::page::read_opt_guard::ReadOptGuard;
use vex_pages::page::read_write_guard::ReadWriteGuard;
use vex_pages::page::share_guard::ShareGuard;
use vex_pages::page::write_guard::WriteGuard;
use vex_pages::page::Page;
use vex_pages::page_manager::frame::frame_vlds::FrameVLDS;
use vex_pages::PageError;

fn fresh_page() -> Page {
    Page::try_alloc(0, 1, 12).unwrap()
}

#[test]
fn write_guard_owns_the_critical_section() {
    let page = fresh_page();
    let mut guard = WriteGuard::try_new(page).ok().unwrap();
    let payload = vec![1u8, 2, 3];
    assert_eq!(guard.write(0, 3, &payload), Ok(3));
    let mut out = Vec::new();
    assert_eq!(guard.read(0, 3, &mut out), Ok(3));
    assert_eq!(out, payload);
    // Release reopens the latch, bumps the version once, marks dirty.
    let page = guard.release();
    let word = page.frame.vlds.value();
    assert!(FrameVLDS::is_open(FrameVLDS::latch(word)));
    assert_eq!(FrameVLDS::version(word), 1);
    assert_eq!(FrameVLDS::dirty(word), 1);
    // The data survives the critical section.
    let mut out = Vec::new();
    assert_eq!(page.frame.try_data().try_read(0, 3, &mut out), Ok(3));
    assert_eq!(out, payload);
}

#[test]
fn write_guard_is_refused_while_the_latch_is_held() {
    let mut page = fresh_page();
    page.frame.vlds.latch_write().unwrap();
    match page.try_write() {
        Ok(_) => panic!("an exclusive latch cannot be taken twice"),
        Err(page) => {
            // The page comes back unchanged and still latched.
            assert!(FrameVLDS::is_exclusive(FrameVLDS::latch(page.frame.vlds.value())));
        },
    }
}

#[test]
fn writes_are_bounds_checked() {
    let page = fresh_page();
    let mut guard = WriteGuard::try_new(page).ok().unwrap();
    let payload = vec![9u8; 8];
    // The data zone holds 4080 bytes; one past the end is refused.
    assert_eq!(guard.write(4072, 8, &payload), Ok(8));
    assert_eq!(
        guard.write(4073, 8, &payload),
        Err(PageError::OutOfBounds)
    );
    let mut out = Vec::new();
    assert_eq!(
        guard.read(4073, 8, &mut out),
        Err(PageError::OutOfBounds)
    );
    assert!(out.is_empty());
}

#[test]
fn short_sources_write_only_what_they_offer() {
    let page = fresh_page();
    let mut guard = WriteGuard::try_new(page).ok().unwrap();
    let payload = vec![7u8, 8];
    assert_eq!(guard.write(0, 10, &payload), Ok(2));
    let mut out = Vec::new();
    assert_eq!(guard.read(0, 3, &mut out), Ok(3));
    assert_eq!(out, vec![7, 8, 0]);
}

#[test]
fn share_guard_admits_readers_and_refuses_writers() {
    let page = fresh_page();
    let guard = ShareGuard::try_new(page).ok().unwrap();
    let mut out = Vec::new();
    assert_eq!(guard.read(0, 4, &mut out), Ok(4));
    assert_eq!(out, vec![0u8; 4]);
    let page = guard.release();
    // The last reader reopened the latch; the version did not move.
    let word = page.frame.vlds.value();
    assert!(FrameVLDS::is_open(FrameVLDS::latch(word)));
    assert_eq!(FrameVLDS::version(word), 0);
    // A writer in its critical section keeps readers out.
    let mut page = page;
    page.frame.vlds.latch_write().unwrap();
    assert!(ShareGuard::try_new(page).is_err());
}

#[test]
fn optimistic_read_validates_against_its_snapshot() {
    let page = fresh_page();
    let guard = ReadOptGuard::new(&page);
    assert_eq!(guard.version(), 0);
    assert!(std::ptr::eq(guard.page(), &page));
    let mut out = Vec::new();
    assert_eq!(guard.try_read(0, 4, &mut out), Ok(Some(4)));
    assert_eq!(out, vec![0u8; 4]);
    assert_eq!(
        guard.try_read(4090, 10, &mut Vec::new()),
        Err(PageError::OutOfBounds)
    );
    guard.unlock();
}

#[test]
fn optimistic_read_reports_a_conflict_under_a_writer() {
    let mut page = fresh_page();
    // A writer holds the latch: the copy would be torn, so the read
    // reports a conflict instead of bytes.
    page.frame.vlds.latch_write().unwrap();
    let guard = ReadOptGuard::new(&page);
    let mut out = Vec::new();
    assert_eq!(guard.try_read(0, 4, &mut out), Ok(None));
    assert!(out.is_empty());
}

#[test]
fn frame_level_optimistic_read_works_the_same_way() {
    let page = fresh_page();
    let guard = ReadGuard::new(&page.frame.vlds, &page.frame.data);
    let mut out = Vec::new();
    assert_eq!(guard.try_read(0, 2, &mut out), Ok(Some(2)));
    assert_eq!(out, vec![0u8, 0u8]);
}

#[test]
fn exclusive_wrappers_write_through_a_taken_latch() {
    let mut page = fresh_page();
    page.frame.vlds.latch_write().unwrap();
    let mut guard = ExclusivePageGuard::new(page);
    let payload = vec![5u8, 6];
    assert_eq!(guard.write(10, 2, &payload), Ok(2));
    assert_eq!(guard.frame().try_data().len(), 4080);
    let page = guard.into_page();

    let mut guard = ReadWriteGuard::new(page);
    let payload = vec![9u8];
    assert_eq!(guard.write(0, 1, &payload), Ok(1));
    let page = guard.into_page();
    let mut out = Vec::new();
    assert_eq!(page.frame.try_data().try_read(0, 12, &mut out), Ok(12));
    assert_eq!(out, vec![9, 0, 0, 0, 0, 0, 0, 0, 0, 0, 5, 6]);
}
