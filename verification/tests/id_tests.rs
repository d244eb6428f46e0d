use vex_pages::page_manager::page_id_pool::PageIdPool;

#[test]
fn minted_identifiers_are_odd_and_never_repeat() {
    let mut ids = PageIdPool::new();
    let mut seen = Vec::new();
    for _ in 0..100 {
        let id = ids.next();
        assert_eq!(id % 2, 1);
        assert!(!seen.contains(&id));
        seen.push(id);
    }
    assert_eq!(seen[0], 1);
    assert_eq!(seen[1], 3);
    assert_eq!(seen[99], 199);
}

#[test]
fn released_identifier_is_the_very_next_one_handed_out() {
    let mut ids = PageIdPool::new();
    let a = ids.next();
    let b = ids.next();
    let _ = b;
    // With nothing else awaiting reuse, the next mint returns exactly the
    // released identifier.
    ids.free(a);
    assert_eq!(ids.next(), a);
}

#[test]
fn released_identifiers_are_reused_oldest_first_before_minting() {
    let mut ids = PageIdPool::new();
    let a = ids.next();
    let b = ids.next();
    let c = ids.next();
    ids.free(b);
    ids.free(a);
    assert_eq!(ids.next(), b);
    assert_eq!(ids.next(), a);
    // Queue drained: minting continues past the highest identifier.
    let fresh = ids.next();
    assert!(fresh > c);
    assert_eq!(fresh % 2, 1);
}

#[test]
fn stray_releases_are_dropped() {
    let mut ids = PageIdPool::new();
    let a = ids.next();
    // An even word, an identifier never minted, and a duplicate release
    // all leave the queue alone.
    ids.free(4);
    ids.free(999);
    assert_eq!(ids.next(), a + 2);
    ids.free(a);
    ids.free(a);
    assert_eq!(ids.next(), a);
    assert_ne!(ids.next(), a);
}
