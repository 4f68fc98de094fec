use novadb_lite::constants::PAGE_SIZE;
use novadb_lite::error::DbError;
use novadb_lite::page::header::{
    clear_flag, decode, flags, has_flag, has_free_slots, init_empty, is_page_type, lower,
    reserved, set_flag, set_flags, set_lower, set_page_type, set_reserved, set_slot_count,
    set_upper, slot_count, upper, PageHeaderSnapshot, FLAG_HAS_FREE_SLOTS, FLAG_IS_CHECKSUMMED,
    FLAG_IS_COMPRESSED, PAGE_TYPE_BTREE_INTERNAL, PAGE_TYPE_BTREE_LEAF, PAGE_TYPE_BTREE_OVERFLOW,
    PAGE_TYPE_HEAP,
};
use novadb_lite::page::{SLOTTED_HEADER_SIZE, SLOTTED_SLOT_SIZE};

fn new_page_buf() -> Vec<u8> {
    vec![0u8; PAGE_SIZE]
}

fn check_invariants(h: &PageHeaderSnapshot) {
    let header_size = SLOTTED_HEADER_SIZE as u16;
    let slot_size = SLOTTED_SLOT_SIZE as u16;
    let page_size = PAGE_SIZE as u16;

    assert!(h.lower() >= header_size);
    assert!(h.upper() <= page_size);
    assert!(h.lower() <= h.upper());

    let expected_lower = header_size + h.slot_count() * slot_size;
    assert_eq!(h.lower(), expected_lower);
}

#[test]
fn test_flags_helpers_and_set_page_type() {
    let flags = set_flag(PAGE_TYPE_BTREE_INTERNAL, FLAG_HAS_FREE_SLOTS);

    assert!(is_page_type(flags, PAGE_TYPE_BTREE_INTERNAL));
    assert!(has_free_slots(flags));

    let flags2 = set_page_type(flags, PAGE_TYPE_HEAP);
    assert!(is_page_type(flags2, PAGE_TYPE_HEAP));
    assert!(has_free_slots(flags2)); // must preserve non-type bits
}

#[test]
fn test_flag_helpers_generic() {
    let mut f: u16 = 0;
    assert!(!has_flag(f, FLAG_HAS_FREE_SLOTS));

    f = set_flag(f, FLAG_HAS_FREE_SLOTS);
    assert!(has_flag(f, FLAG_HAS_FREE_SLOTS));

    f = clear_flag(f, FLAG_HAS_FREE_SLOTS);
    assert!(!has_flag(f, FLAG_HAS_FREE_SLOTS));
}

#[test]
fn test_invariants_ok() {
    let slot_count: u16 = 10;
    let lower = SLOTTED_HEADER_SIZE as u16 + slot_count * SLOTTED_SLOT_SIZE as u16;

    let h = PageHeaderSnapshot {
        lower,
        upper: PAGE_SIZE as u16,
        slot_count,
        flags: 0,
        reserved: 0,
    };

    check_invariants(&h);
}

#[test]
#[should_panic]
fn test_invariants_fail_lower_formula() {
    let h = PageHeaderSnapshot {
        lower: (SLOTTED_HEADER_SIZE as u16) + 1, // wrong formula
        upper: PAGE_SIZE as u16,
        slot_count: 0,
        flags: 0,
        reserved: 0,
    };

    check_invariants(&h);
}

#[test]
fn test_init_empty_sets_fields() {
    let mut buf = new_page_buf();
    init_empty(&mut buf, PAGE_TYPE_BTREE_INTERNAL).unwrap();

    assert_eq!(lower(&buf).unwrap(), SLOTTED_HEADER_SIZE as u16);
    assert_eq!(upper(&buf).unwrap(), PAGE_SIZE as u16);
    assert_eq!(slot_count(&buf).unwrap(), 0);
    assert!(is_page_type(flags(&buf).unwrap(), PAGE_TYPE_BTREE_INTERNAL));
    assert_eq!(reserved(&buf).unwrap(), 0);
}

#[test]
fn test_header_setters_roundtrip() {
    let mut buf = new_page_buf();
    init_empty(&mut buf, PAGE_TYPE_HEAP).unwrap();

    set_lower(&mut buf, 123).unwrap();
    set_upper(&mut buf, 4000).unwrap();
    set_slot_count(&mut buf, 10).unwrap();
    set_flags(&mut buf, 0x00F2).unwrap();
    set_reserved(&mut buf, 0x1122_3344_5566_7788).unwrap();

    assert_eq!(lower(&buf).unwrap(), 123);
    assert_eq!(upper(&buf).unwrap(), 4000);
    assert_eq!(slot_count(&buf).unwrap(), 10);
    assert_eq!(flags(&buf).unwrap(), 0x00F2);
    assert_eq!(reserved(&buf).unwrap(), 0x1122_3344_5566_7788);
}

#[test]
fn test_decode_invalid_size() {
    let buf = vec![0u8; 100];
    let e = decode(&buf).is_err();
    assert_eq!(e, true)
}

#[test]
fn test_decode_roundtrip_basic() {
    let mut buf = new_page_buf();
    init_empty(&mut buf, PAGE_TYPE_BTREE_LEAF).unwrap();
    let cur = flags(&buf).unwrap();
    set_flags(&mut buf, set_flag(cur, FLAG_HAS_FREE_SLOTS)).unwrap();
    set_reserved(&mut buf, 99).unwrap();

    let h = decode(&buf).unwrap();
    assert_eq!(h.lower(), SLOTTED_HEADER_SIZE as u16);
    assert_eq!(h.upper(), PAGE_SIZE as u16);
    assert_eq!(h.slot_count(), 0);
    assert!(is_page_type(h.flags(), PAGE_TYPE_BTREE_LEAF));
    assert!(has_free_slots(h.flags()));
    assert_eq!(h.reserved(), 99);
}

#[test]
fn test_struct_size_sanity() {
    assert_eq!(std::mem::size_of::<PageHeaderSnapshot>(), 16);
}

#[test]
fn test_header_round_trip_for_every_page_type() {
    for page_type in [
        PAGE_TYPE_HEAP,
        PAGE_TYPE_BTREE_LEAF,
        PAGE_TYPE_BTREE_INTERNAL,
        PAGE_TYPE_BTREE_OVERFLOW,
    ] {
        let mut buf = vec![0xA5u8; PAGE_SIZE];
        init_empty(&mut buf, page_type).unwrap();
        let h = decode(&buf).unwrap();
        assert_eq!(h.lower(), 16);
        assert_eq!(h.upper(), 4096);
        assert_eq!(h.slot_count(), 0);
        assert_eq!(h.flags() & 0xF, page_type);
        assert_eq!(h.flags(), page_type);
        assert_eq!(h.reserved(), 0);
        assert!(buf[16..].iter().all(|b| *b == 0xA5));
    }
}

#[test]
fn test_init_empty_byte_layout() {
    let mut buf = vec![0xFFu8; PAGE_SIZE];
    init_empty(&mut buf, PAGE_TYPE_BTREE_OVERFLOW).unwrap();
    assert_eq!(
        &buf[..16],
        &[0x10, 0x00, 0x00, 0x10, 0x00, 0x00, 0x03, 0x00, 0, 0, 0, 0, 0, 0, 0, 0]
    );
}

#[test]
fn test_init_empty_keeps_only_the_type_bits() {
    let mut buf = new_page_buf();
    init_empty(&mut buf, 0xFFF2).unwrap();
    assert_eq!(flags(&buf).unwrap(), 0x0002);
}

#[test]
fn test_init_empty_on_short_buffers() {
    let mut buf = vec![0xEEu8; 16];
    assert!(init_empty(&mut buf, PAGE_TYPE_BTREE_LEAF).is_ok());
    assert_eq!(buf, vec![0x10, 0, 0, 0x10, 0, 0, 1, 0, 0, 0, 0, 0, 0, 0, 0, 0]);

    let mut buf = vec![0xEEu8; 15];
    match init_empty(&mut buf, PAGE_TYPE_BTREE_LEAF) {
        Err(DbError::OutOfBounds { off, size, len }) => assert_eq!((off, size, len), (8, 8, 15)),
        other => panic!("expected OutOfBounds, got: {:?}", other),
    }
    assert_eq!(&buf[..8], &[0x10, 0, 0, 0x10, 0, 0, 1, 0]);
    assert!(buf[8..].iter().all(|b| *b == 0xEE));

    let mut buf = vec![0xEEu8; 5];
    match init_empty(&mut buf, PAGE_TYPE_BTREE_LEAF) {
        Err(DbError::OutOfBounds { off, size, len }) => assert_eq!((off, size, len), (4, 2, 5)),
        other => panic!("expected OutOfBounds, got: {:?}", other),
    }
    assert_eq!(buf, vec![0x10, 0, 0, 0x10, 0xEE]);

    let mut buf: Vec<u8> = Vec::new();
    match init_empty(&mut buf, PAGE_TYPE_BTREE_LEAF) {
        Err(DbError::OutOfBounds { off, size, len }) => assert_eq!((off, size, len), (0, 2, 0)),
        other => panic!("expected OutOfBounds, got: {:?}", other),
    }
}

#[test]
fn test_decode_reports_corruption_for_a_wrong_size() {
    for len in [0usize, 16, 4095, 4097] {
        let buf = vec![0u8; len];
        match decode(&buf) {
            Err(DbError::Corruption(reason)) => {
                assert_eq!(reason, "buffer length must equal PAGE_SIZE")
            }
            other => panic!("expected Corruption, got: {:?}", other),
        }
    }
}

#[test]
fn test_decode_reads_the_fixed_offsets() {
    let mut buf = new_page_buf();
    for (i, b) in buf.iter_mut().enumerate().take(16) {
        *b = (i + 1) as u8;
    }
    let h = decode(&buf).unwrap();
    assert_eq!(h.lower(), 0x0201);
    assert_eq!(h.upper(), 0x0403);
    assert_eq!(h.slot_count(), 0x0605);
    assert_eq!(h.flags(), 0x0807);
    assert_eq!(h.reserved(), 0x100F_0E0D_0C0B_0A09);
    assert_eq!(
        h,
        PageHeaderSnapshot {
            lower: 0x0201,
            upper: 0x0403,
            slot_count: 0x0605,
            flags: 0x0807,
            reserved: 0x100F_0E0D_0C0B_0A09,
        }
    );
}

#[test]
fn test_accessors_on_short_buffers() {
    let buf = [0u8; 3];
    assert_eq!(lower(&buf).unwrap(), 0);
    match upper(&buf) {
        Err(DbError::OutOfBounds { off, size, len }) => assert_eq!((off, size, len), (2, 2, 3)),
        other => panic!("expected OutOfBounds, got: {:?}", other),
    }
    assert!(slot_count(&buf).is_err());
    assert!(flags(&buf).is_err());
    assert!(reserved(&buf).is_err());
    let mut buf = [0u8; 7];
    assert!(set_slot_count(&mut buf, 1).is_ok());
    assert!(set_flags(&mut buf, 1).is_err());
    assert!(set_reserved(&mut buf, 1).is_err());
    assert_eq!(buf, [0, 0, 0, 0, 1, 0, 0]);
}

#[test]
fn test_setters_touch_only_their_field() {
    let mut buf = vec![0x11u8; PAGE_SIZE];
    set_upper(&mut buf, 0xBEEF).unwrap();
    assert_eq!(&buf[..6], &[0x11, 0x11, 0xEF, 0xBE, 0x11, 0x11]);
    assert!(buf[4..].iter().all(|b| *b == 0x11));
}

#[test]
fn test_page_type_helpers_touch_only_the_low_bits() {
    assert_eq!(set_page_type(0xFFFF, PAGE_TYPE_HEAP), 0xFFF0);
    assert_eq!(set_page_type(0x0010, 0x00F3), 0x0013);
    assert!(is_page_type(0x0013, 0xFF03));
    assert!(!is_page_type(0x0013, PAGE_TYPE_BTREE_INTERNAL));
    assert_eq!(FLAG_HAS_FREE_SLOTS, 1 << 4);
    assert_eq!(FLAG_IS_COMPRESSED, 1 << 5);
    assert_eq!(FLAG_IS_CHECKSUMMED, 1 << 6);
    assert_eq!(set_flag(0x0003, FLAG_IS_COMPRESSED | FLAG_IS_CHECKSUMMED), 0x0063);
    assert_eq!(clear_flag(0x0073, FLAG_HAS_FREE_SLOTS | FLAG_IS_CHECKSUMMED), 0x0023);
    assert!(has_flag(0x0040, FLAG_IS_CHECKSUMMED));
    assert!(!has_flag(0x0040, FLAG_IS_COMPRESSED));
    assert!(!has_free_slots(0xFFEF));
}
