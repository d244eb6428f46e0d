use vex_pages::page::page_latch::PageLatch;
use vex_pages::page::page_vlds::PageVLDS;
use vex_pages::page_manager::frame::frame_vlds::FrameVLDS;

#[test]
fn default_word_is_version_zero_open_dirty() {
    let w = FrameVLDS::default_value();
    assert_eq!(w, 1);
    assert_eq!(FrameVLDS::version(w), 0);
    assert!(FrameVLDS::is_open(FrameVLDS::latch(w)));
    assert_eq!(FrameVLDS::dirty(w), 1);
}

#[test]
fn field_decoding_reads_the_packed_word() {
    // version 3, latch 2 (one shared reader), dirty 1
    let w: u64 = 3 * 0x10000 + 2 * 2 + 1;
    assert_eq!(FrameVLDS::version(w), 3);
    assert_eq!(FrameVLDS::latch(w), 2);
    assert_eq!(FrameVLDS::dirty(w), 1);
    assert!(FrameVLDS::is_shared(FrameVLDS::latch(w)));
    assert!(!FrameVLDS::is_open(FrameVLDS::latch(w)));
    assert!(!FrameVLDS::is_exclusive(FrameVLDS::latch(w)));
}

#[test]
fn exactly_one_exclusive_acquisition_succeeds() {
    let mut v = FrameVLDS::new(FrameVLDS::default_value());
    // The first competitor wins the open latch.
    assert!(v.latch_write().is_ok());
    assert!(FrameVLDS::is_exclusive(FrameVLDS::latch(v.value())));
    // Every further competitor observes Exclusive and is refused.
    assert!(v.latch_write().is_err());
    assert!(v.latch_write().is_err());
    assert!(FrameVLDS::is_exclusive(FrameVLDS::latch(v.value())));
    // Releasing moves the version strictly forward and reopens the latch.
    let before = FrameVLDS::version(v.value());
    assert!(v.increment_version().is_ok());
    assert!(v.latch_open().is_ok());
    assert!(FrameVLDS::version(v.value()) > before);
    assert_eq!(FrameVLDS::version(v.value()), before + 1);
    // Only now can the next competitor win.
    assert!(v.latch_write().is_ok());
}

#[test]
fn shared_readers_count_up_and_down() {
    let mut v = FrameVLDS::new(FrameVLDS::default_value());
    assert!(v.latch_read().is_ok());
    assert_eq!(FrameVLDS::latch(v.value()), 2); // one reader
    assert!(v.latch_read().is_ok());
    assert_eq!(FrameVLDS::latch(v.value()), 3); // two readers
    // A writer is kept out while readers hold the latch.
    assert!(v.latch_write().is_err());
    assert!(v.latch_read_release().is_ok());
    assert_eq!(FrameVLDS::latch(v.value()), 2);
    assert!(v.latch_read_release().is_ok());
    assert!(FrameVLDS::is_open(FrameVLDS::latch(v.value())));
    // Readers do not move the version.
    assert_eq!(FrameVLDS::version(v.value()), 0);
    // No reader left: another release is refused.
    assert!(v.latch_read_release().is_err());
}

#[test]
fn readers_are_kept_out_by_a_writer() {
    let mut v = FrameVLDS::new(FrameVLDS::default_value());
    assert!(v.latch_write().is_ok());
    assert!(v.latch_read().is_err());
}

#[test]
fn dirty_flag_marks_and_clears() {
    let mut v = FrameVLDS::new(FrameVLDS::default_value());
    assert_eq!(FrameVLDS::dirty(v.value()), 1);
    assert!(v.mark_clean().is_ok());
    assert_eq!(FrameVLDS::dirty(v.value()), 0);
    assert_eq!(FrameVLDS::version(v.value()), 0);
    assert!(v.mark_dirty().is_ok());
    assert_eq!(FrameVLDS::dirty(v.value()), 1);
}

#[test]
fn write_release_cycle_invalidates_a_snapshot() {
    // An optimistic reader records the version, a writer then runs a full
    // exclusive write-release cycle: validation against the old version
    // must fail afterwards.
    let mut v = FrameVLDS::new(FrameVLDS::default_value());
    let snapshot = v.snapshot();
    assert!(v.validate(snapshot));
    assert!(v.latch_write().is_ok());
    // While the writer holds the latch, validation already fails on the
    // Exclusive state.
    assert!(!v.validate(snapshot));
    assert!(v.increment_version().is_ok());
    assert!(v.mark_dirty().is_ok());
    assert!(v.latch_open().is_ok());
    // The word is open again, but the version moved past the snapshot.
    assert!(FrameVLDS::is_open(FrameVLDS::latch(v.value())));
    assert!(!v.validate(snapshot));
    assert_ne!(v.snapshot(), snapshot);
}

#[test]
fn page_vlds_mirrors_the_frame_word() {
    let mut v = PageVLDS::new(PageVLDS::default_value());
    assert!(v.latch_write().is_ok());
    assert!(v.latch_write().is_err());
    assert!(v.increment_version().is_ok());
    assert!(v.latch_open().is_ok());
    assert_eq!(PageVLDS::version(v.value()), 1);
    assert_eq!(PageVLDS::dirty(v.value()), 1);
}

#[test]
fn page_latch_compare_and_swap_takes_only_the_observed_word() {
    let mut l = PageLatch::new(1);
    let observed = l.value();
    assert_eq!(PageLatch::state(observed), 0);
    assert!(PageLatch::is_open(PageLatch::state(observed)));
    // Swap in the exclusive state against the word we read.
    assert_eq!(l.set_state(observed, 1), Ok(observed));
    assert!(PageLatch::is_exclusive(PageLatch::state(l.value())));
    // A competitor still holding the stale word is refused and learns the
    // current word instead.
    let current = l.value();
    assert_eq!(l.set_state(observed, 1), Err(current));
    // Version and dirty ride along untouched.
    assert_eq!(PageLatch::version(l.value()), 0);
    let with_version = PageLatch::with_version(l.value(), 7);
    assert_eq!(PageLatch::version(with_version), 7);
    assert_eq!(PageLatch::state(with_version), 1);
    let with_state = PageLatch::with_state(with_version, 0);
    assert_eq!(PageLatch::version(with_state), 7);
    assert!(PageLatch::is_open(PageLatch::state(with_state)));
}
