use vex_pages::page_class::{cid_to_fit, index_of, size_of};
use vex_pages::{PageError, HEADER_LEN, MAX_CLASS_ID, MIN_CLASS_ID};

#[test]
fn test_try_new_to_fit() {
    // Min class up to 4096b - 18b
    assert_eq!(12, cid_to_fit(0).unwrap());
    assert_eq!(12, cid_to_fit(2u32.pow(1) + 1).unwrap());
    assert_eq!(12, cid_to_fit(2u32.pow(2) + 1).unwrap());
    assert_eq!(12, cid_to_fit(2u32.pow(3) + 1).unwrap());
    assert_eq!(12, cid_to_fit(2u32.pow(4) + 1).unwrap());
    assert_eq!(12, cid_to_fit(2u32.pow(5) + 1).unwrap());
    assert_eq!(12, cid_to_fit(2u32.pow(6) + 1).unwrap());
    assert_eq!(12, cid_to_fit(2u32.pow(7) + 1).unwrap());
    assert_eq!(12, cid_to_fit(2u32.pow(8) + 1).unwrap());
    assert_eq!(12, cid_to_fit(2u32.pow(9) + 1).unwrap());
    assert_eq!(12, cid_to_fit(2u32.pow(10) + 1).unwrap());
    assert_eq!(12, cid_to_fit(2u32.pow(11) + 1).unwrap());

    assert_eq!(13, cid_to_fit(2u32.pow(12) + 1).unwrap());
    assert_eq!(14, cid_to_fit(2u32.pow(13) + 1).unwrap());
    assert_eq!(15, cid_to_fit(2u32.pow(14) + 1).unwrap());
    assert_eq!(16, cid_to_fit(2u32.pow(15) + 1).unwrap());

    assert_eq!(17, cid_to_fit(2u32.pow(16) + 1).unwrap());
    assert_eq!(18, cid_to_fit(2u32.pow(17) + 1).unwrap());
    assert_eq!(19, cid_to_fit(2u32.pow(18) + 1).unwrap());
    assert_eq!(20, cid_to_fit(2u32.pow(19) + 1).unwrap());

    assert_eq!(21, cid_to_fit(2u32.pow(20) + 1).unwrap());
    assert_eq!(22, cid_to_fit(2u32.pow(21) + 1).unwrap());
    assert_eq!(23, cid_to_fit(2u32.pow(22) + 1).unwrap());
    assert_eq!(24, cid_to_fit(2u32.pow(23) + 1).unwrap());

    assert_eq!(25, cid_to_fit(2u32.pow(24) + 1).unwrap());
    assert_eq!(26, cid_to_fit(2u32.pow(25) + 1).unwrap());
    assert_eq!(27, cid_to_fit(2u32.pow(26) + 1).unwrap());
    assert_eq!(28, cid_to_fit(2u32.pow(27) + 1).unwrap());

    assert_eq!(29, cid_to_fit(2u32.pow(28) + 1).unwrap());
    assert_eq!(30, cid_to_fit(2u32.pow(29) + 1).unwrap());
    assert_eq!(31, cid_to_fit(2u32.pow(30) + 1).unwrap());

    if let Ok(class) = cid_to_fit(2u32.pow(31)) {
        assert!(false, "page class {} unexpectedly found for bytes {}", class, 2u32.pow(31));
    }

    if let Ok(class) = cid_to_fit(u32::MAX) {
        assert!(false, "page class {} unexpectedly found for bytes {}", class, u32::MAX);
    }
}

#[test]
fn size_of_is_the_power_of_two() {
    assert_eq!(size_of(0), 1);
    assert_eq!(size_of(MIN_CLASS_ID), 4096);
    assert_eq!(size_of(13), 8192);
    assert_eq!(size_of(20), 1048576);
    assert_eq!(size_of(MAX_CLASS_ID), 2147483648);
    let mut expected: usize = 4096;
    for cid in MIN_CLASS_ID..=MAX_CLASS_ID {
        assert_eq!(size_of(cid), expected);
        expected *= 2;
    }
}

#[test]
fn index_of_starts_at_the_minimum_class() {
    assert_eq!(index_of(MIN_CLASS_ID), 0);
    assert_eq!(index_of(17), 5);
    assert_eq!(index_of(MAX_CLASS_ID), 19);
}

#[test]
fn fit_picks_the_minimal_class_at_exact_boundaries() {
    // 4080 payload bytes plus the 16 byte header exactly fill a class-12
    // page; one more byte forces class 13.
    assert_eq!(HEADER_LEN, 16);
    assert_eq!(12, cid_to_fit(4096 - HEADER_LEN as u32).unwrap());
    assert_eq!(13, cid_to_fit(4096 - HEADER_LEN as u32 + 1).unwrap());
    assert_eq!(13, cid_to_fit(8192 - HEADER_LEN as u32).unwrap());
    assert_eq!(14, cid_to_fit(8192 - HEADER_LEN as u32 + 1).unwrap());
    // The largest class still fits a payload that leaves room for the
    // header; one more byte is out of range.
    assert_eq!(31, cid_to_fit(2147483648 - HEADER_LEN as u32).unwrap());
    assert_eq!(
        Err(PageError::ClassOutOfRange),
        cid_to_fit(2147483648 - HEADER_LEN as u32 + 1)
    );
}

#[test]
fn fit_clamps_small_payloads_to_the_minimum_class() {
    assert_eq!(12, cid_to_fit(0).unwrap());
    assert_eq!(12, cid_to_fit(1).unwrap());
    assert_eq!(12, cid_to_fit(100).unwrap());
}
