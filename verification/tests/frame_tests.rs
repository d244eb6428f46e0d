use vex_pages::page::page_data::PageData;
use vex_pages::page::Page;
use vex_pages::page_handle::page_swip::{FizzledPageSWIP, PageSWIP};
use vex_pages::page_manager::frame::frame_swip::FrameSWIP;
use vex_pages::page_manager::frame::frame_head::FrameHead;
use vex_pages::page_manager::frame::frame_vlds::FrameVLDS;
use vex_pages::page_manager::frame::Frame;
use vex_pages::{PageError, HEADER_LEN};

#[test]
fn swip_word_packs_and_unpacks() {
    let word = FrameSWIP::pack(5, 12);
    assert_eq!(FrameSWIP::tag(word), 1);
    assert_eq!(FrameSWIP::cid(word), 12);
    assert_eq!(FrameSWIP::pid(word), 5);
    // Bit-exact: pid above the 6-bit class above the tag bit.
    assert_eq!(word, 5 * 128 + 12 * 2 + 1);
    let word = FrameSWIP::pack(0x1FF_FFFF_FFFF_FFFF, 63);
    assert_eq!(FrameSWIP::pid(word), 0x1FF_FFFF_FFFF_FFFF);
    assert_eq!(FrameSWIP::cid(word), 63);
    assert_eq!(FrameSWIP::tag(word), 1);
}

#[test]
fn activation_lays_out_the_frame() {
    let frame = Frame::try_activate(7, 12).unwrap();
    assert_eq!(frame.len(), 4096);
    assert_eq!(frame.try_data().len(), 4096 - HEADER_LEN);
    let swip = frame.swip.value();
    assert_eq!(FrameSWIP::pid(swip), 7);
    assert_eq!(FrameSWIP::cid(swip), 12);
    assert_eq!(FrameSWIP::tag(swip), 1);
    let vlds = frame.vlds.value();
    assert_eq!(vlds, FrameVLDS::default_value());
    // The data zone starts out zeroed.
    let mut out = Vec::new();
    assert_eq!(frame.try_data().try_read(0, 16, &mut out), Ok(16));
    assert_eq!(out, vec![0u8; 16]);
}

#[test]
fn activation_refuses_classes_out_of_range() {
    assert!(matches!(
        Frame::try_activate(1, 11),
        Err(PageError::ClassOutOfRange)
    ));
    assert!(matches!(
        Frame::try_activate(1, 32),
        Err(PageError::ClassOutOfRange)
    ));
}

#[test]
fn header_wire_form_round_trips() {
    let frame = Frame::try_activate(9, 13).unwrap();
    let head = frame.try_head();
    assert_eq!(head.len(), HEADER_LEN);
    let swip = head.try_swip().unwrap();
    let vlds = head.try_vlds().unwrap();
    assert_eq!(swip.value(), frame.swip.value());
    assert_eq!(vlds.value(), frame.vlds.value());
    // The two words stand little-endian at fixed offsets.
    let bytes = head.into_bytes();
    assert_eq!(&bytes[0..8], &frame.swip.value().to_le_bytes());
    assert_eq!(&bytes[8..16], &frame.vlds.value().to_le_bytes());
}

#[test]
fn header_writes_land_at_their_offsets() {
    let frame = Frame::try_activate(3, 12).unwrap();
    let mut head = frame.try_head();
    assert_eq!(head.try_write_swip(0x0123_4567_89AB_CDEF), Ok(8));
    assert_eq!(head.try_write_vlds(0x1111_2222_3333_4444), Ok(8));
    assert_eq!(head.try_swip().unwrap().value(), 0x0123_4567_89AB_CDEF);
    assert_eq!(head.try_vlds().unwrap().value(), 0x1111_2222_3333_4444);
    let mut head = frame.try_head();
    assert_eq!(head.try_write_all(2, 3), Ok(16));
    assert_eq!(head.try_swip().unwrap().value(), 2);
    assert_eq!(head.try_vlds().unwrap().value(), 3);
}

#[test]
fn short_headers_are_refused() {
    let head = FrameHead::new(vec![0u8; 4]);
    assert!(matches!(head.try_swip(), Err(PageError::OutOfBounds)));
    assert!(matches!(head.try_vlds(), Err(PageError::OutOfBounds)));
    let mut head = FrameHead::new(vec![0u8; 12]);
    assert!(head.try_write_swip(1).is_ok());
    assert!(matches!(
        head.try_write_vlds(1),
        Err(PageError::OutOfBounds)
    ));
    assert!(matches!(
        head.try_write_all(1, 2),
        Err(PageError::OutOfBounds)
    ));
}

#[test]
fn handle_words_classify_by_their_tag_bit() {
    match PageSWIP::from_word(FrameSWIP::pack(5, 12)) {
        PageSWIP::Fizzled(f) => {
            assert_eq!(f.tag(), 1);
            assert_eq!(f.cid(), 12);
            assert_eq!(f.pid(), 5);
        },
        PageSWIP::Swizzled(_) => panic!("a packed identity is fizzled"),
    }
    match PageSWIP::from_word(4096) {
        PageSWIP::Swizzled(s) => assert_eq!(s.address(), 4096),
        PageSWIP::Fizzled(_) => panic!("an aligned address is swizzled"),
    }
    let packed = FizzledPageSWIP::pack(5, 12);
    assert_eq!(packed.value(), FrameSWIP::pack(5, 12));
}

#[test]
fn page_reports_its_handle() {
    let page = Page::try_alloc(8192, 11, 12).unwrap();
    let handle = page.try_handle().unwrap();
    match handle.swip() {
        PageSWIP::Fizzled(f) => {
            assert_eq!(f.pid(), 11);
            assert_eq!(f.cid(), 12);
        },
        PageSWIP::Swizzled(_) => panic!("a fresh header carries the fizzled identity"),
    }
    assert_eq!(page.frame().try_data().len(), 4096 - HEADER_LEN);
}

#[test]
fn page_data_stages_payload_bytes() {
    let mut data = PageData::new(vec![0u8; 8]);
    assert_eq!(data.len(), 8);
    let payload = vec![4u8, 5, 6];
    assert_eq!(data.try_write(2, 3, &payload), Ok(3));
    let mut out = Vec::new();
    assert_eq!(data.try_read(0, 8, &mut out), Ok(8));
    assert_eq!(out, vec![0, 0, 4, 5, 6, 0, 0, 0]);
    assert!(matches!(
        data.try_read(5, 4, &mut Vec::new()),
        Err(vex_pages::PageError::OutOfBounds)
    ));
    assert!(matches!(
        data.try_write(7, 2, &payload),
        Err(vex_pages::PageError::OutOfBounds)
    ));
}
