use novadb_lite::constants::PAGE_SIZE;
use novadb_lite::error::DbError;
use novadb_lite::page::header::{
    self, FLAG_HAS_FREE_SLOTS, PAGE_TYPE_BTREE_LEAF, PAGE_TYPE_BTREE_OVERFLOW, PAGE_TYPE_HEAP,
};
use novadb_lite::page::slot::{self, Slot};
use novadb_lite::page::slotted_page::SlottedPage;

fn fresh(buf: &mut [u8]) -> SlottedPage<'_> {
    SlottedPage::new(buf).unwrap().init(PAGE_TYPE_HEAP).unwrap()
}

fn corruption_reason<T: std::fmt::Debug>(r: Result<T, DbError>) -> &'static str {
    match r {
        Err(DbError::Corruption(reason)) => reason,
        other => panic!("expected Corruption, got: {:?}", other),
    }
}

#[test]
fn test_concrete_insert_scenario() {
    let mut buf = vec![0u8; PAGE_SIZE];
    let mut p = fresh(&mut buf);

    assert_eq!(p.insert(b"abc").unwrap(), 0);
    let h = header::decode(p.buf).unwrap();
    assert_eq!(h.slot_count(), 1);
    assert_eq!(h.lower(), 22);
    assert_eq!(h.upper(), 4093);
    assert_eq!(p.get(0).unwrap().unwrap(), b"abc");

    assert_eq!(p.insert(b"hello world").unwrap(), 1);
    let h = header::decode(p.buf).unwrap();
    assert_eq!(h.slot_count(), 2);
    assert_eq!(h.lower(), 28);
    assert_eq!(h.upper(), 4082);
    assert_eq!(p.get(1).unwrap().unwrap(), b"hello world");
    assert_eq!(p.get(0).unwrap().unwrap(), b"abc");
}

#[test]
fn test_insert_byte_layout() {
    let mut buf = vec![0u8; PAGE_SIZE];
    {
        let mut p = fresh(&mut buf);
        assert_eq!(p.insert(b"abc").unwrap(), 0);
    }
    // header: lower = 22, upper = 4093, slot_count = 1, flags = 0
    assert_eq!(&buf[..8], &[22, 0, 0xFD, 0x0F, 1, 0, 0, 0]);
    // slot 0: offset = 4093, len = 3, flags = 0
    assert_eq!(&buf[16..22], &[0xFD, 0x0F, 3, 0, 0, 0]);
    assert_eq!(&buf[4093..], b"abc");
    assert!(buf[22..4093].iter().all(|b| *b == 0));
}

#[test]
fn test_new_reports_corruption_and_leaves_the_bytes() {
    let mut buf = vec![3u8; PAGE_SIZE + 1];
    match SlottedPage::new(&mut buf) {
        Err(DbError::Corruption(reason)) => {
            assert_eq!(reason, "buffer length must equal PAGE_SIZE")
        }
        Err(other) => panic!("expected Corruption, got: {:?}", other),
        Ok(_) => panic!("expected Corruption"),
    }
    assert!(buf.iter().all(|b| *b == 3));

    let mut buf = vec![3u8; PAGE_SIZE];
    {
        let p = SlottedPage::new(&mut buf).unwrap();
        // nothing is a page yet: the header is garbage, and found to be so
        assert!(p.validate_header().is_err());
    }
    assert!(buf.iter().all(|b| *b == 3));
}

#[test]
fn test_init_keeps_the_page_type() {
    let mut buf = vec![0xABu8; PAGE_SIZE];
    let p = SlottedPage::new(&mut buf).unwrap().init(PAGE_TYPE_BTREE_OVERFLOW).unwrap();
    let h = header::decode(p.buf).unwrap();
    assert_eq!(
        (h.lower(), h.upper(), h.slot_count(), h.flags(), h.reserved()),
        (16, 4096, 0, 3, 0)
    );
    assert_eq!(p.free_space().unwrap(), 4080);
    p.validate_full().unwrap();
    assert!(p.buf[16..].iter().all(|b| *b == 0xAB));
}

#[test]
fn test_insert_get_round_trip_with_interleaved_reads() {
    let mut buf = vec![0u8; PAGE_SIZE];
    let mut p = fresh(&mut buf);
    let records: Vec<Vec<u8>> = (0..40u8)
        .map(|i| {
            let len = i as usize * 3 % 17;
            (0..len).map(|k| i.wrapping_mul(7).wrapping_add(k as u8)).collect()
        })
        .collect();
    let mut ids: Vec<u16> = Vec::new();
    for (n, rec) in records.iter().enumerate() {
        let id = p.insert(rec).unwrap();
        assert_eq!(id as usize, n);
        assert_eq!(p.get(id).unwrap().unwrap(), rec.as_slice());
        ids.push(id);
        // every record inserted so far reads back, newest first and oldest first
        for k in (0..ids.len()).rev() {
            assert_eq!(p.get(ids[k]).unwrap().unwrap(), records[k].as_slice());
        }
        for k in 0..ids.len() {
            assert_eq!(p.get(ids[k]).unwrap().unwrap(), records[k].as_slice());
        }
    }
    p.validate_full().unwrap();
}

#[test]
fn test_space_accounting() {
    let mut buf = vec![0u8; PAGE_SIZE];
    let mut p = fresh(&mut buf);
    assert_eq!(p.free_space().unwrap(), 4080);

    // new slot: payload + 6
    p.insert(b"0123456789").unwrap();
    assert_eq!(p.free_space().unwrap(), 4080 - 10 - 6);
    p.insert(b"").unwrap();
    assert_eq!(p.free_space().unwrap(), 4080 - 10 - 6 - 6);

    // delete gives nothing back
    p.delete(0).unwrap();
    assert_eq!(p.free_space().unwrap(), 4080 - 10 - 6 - 6);

    // reuse of the tombstone: payload only
    assert_eq!(p.insert(b"wxyz").unwrap(), 0);
    assert_eq!(p.free_space().unwrap(), 4080 - 10 - 6 - 6 - 4);

    // update in place takes nothing, a move takes the payload
    assert_eq!(p.update(0, b"ab").unwrap(), false);
    assert_eq!(p.free_space().unwrap(), 4080 - 10 - 6 - 6 - 4);
    assert_eq!(p.update(0, b"abcde").unwrap(), true);
    assert_eq!(p.free_space().unwrap(), 4080 - 10 - 6 - 6 - 4 - 5);
}

#[test]
fn test_delete_then_reuse() {
    let mut buf = vec![0u8; PAGE_SIZE];
    let mut p = fresh(&mut buf);
    p.insert(b"first").unwrap();
    p.insert(b"second").unwrap();
    p.insert(b"third").unwrap();
    let sc = header::slot_count(p.buf).unwrap();

    p.delete(1).unwrap();
    assert!(p.get(1).unwrap().is_none());
    assert_eq!(header::slot_count(p.buf).unwrap(), sc);

    assert_eq!(p.insert(b"again").unwrap(), 1);
    assert_eq!(p.get(1).unwrap().unwrap(), b"again");
    assert_eq!(header::slot_count(p.buf).unwrap(), sc);
    assert_eq!(p.get(0).unwrap().unwrap(), b"first");
    assert_eq!(p.get(2).unwrap().unwrap(), b"third");

    // no tombstone is left: the next insert takes a new slot
    assert_eq!(p.insert(b"fourth").unwrap(), 3);
    assert_eq!(header::slot_count(p.buf).unwrap(), sc + 1);
    assert_eq!(header::flags(p.buf).unwrap() & FLAG_HAS_FREE_SLOTS, 0);
}

#[test]
fn test_lowest_tombstone_is_reused_first() {
    let mut buf = vec![0u8; PAGE_SIZE];
    let mut p = fresh(&mut buf);
    for _ in 0..5 {
        p.insert(b"x").unwrap();
    }
    p.delete(3).unwrap();
    p.delete(1).unwrap();
    assert_eq!(p.find_free_slot().unwrap(), Some(1));
    assert_eq!(p.insert(b"a").unwrap(), 1);
    assert_eq!(p.find_free_slot().unwrap(), Some(3));
    assert_eq!(p.insert(b"b").unwrap(), 3);
    assert_eq!(p.insert(b"c").unwrap(), 5);
}

#[test]
fn test_update_in_place_zeroes_the_tail() {
    let mut buf = vec![0xCCu8; PAGE_SIZE];
    {
        let mut p = fresh(&mut buf);
        p.insert(b"hello world").unwrap();
        let upper = header::upper(p.buf).unwrap();
        assert_eq!(p.update(0, b"hi").unwrap(), false);
        assert_eq!(header::upper(p.buf).unwrap(), upper);
        assert_eq!(p.get(0).unwrap().unwrap(), b"hi");
        let s = slot::read_slot(p.buf, 0).unwrap();
        assert_eq!(s, Slot::new(4085, 2, 0));
        // same length: in place as well
        assert_eq!(p.update(0, b"yo").unwrap(), false);
        assert_eq!(p.get(0).unwrap().unwrap(), b"yo");
    }
    assert_eq!(&buf[4085..], &[b'y', b'o', 0, 0, 0, 0, 0, 0, 0, 0, 0]);
    assert_eq!(buf[4084], 0xCC);
}

#[test]
fn test_update_move_keeps_flags_and_old_bytes() {
    let mut buf = vec![0u8; PAGE_SIZE];
    {
        let mut p = fresh(&mut buf);
        p.insert(b"abc").unwrap();
        p.insert(b"zz").unwrap();
        // mark slot 0 with a reserved flag by hand
        slot::write_slot(p.buf, 0, &Slot::new(4093, 3, 0x0004)).unwrap();
        assert_eq!(p.update(0, b"abcdef").unwrap(), true);
        assert_eq!(header::upper(p.buf).unwrap(), 4091 - 6);
        assert_eq!(slot::read_slot(p.buf, 0).unwrap(), Slot::new(4085, 6, 0x0004));
        assert_eq!(p.get(0).unwrap().unwrap(), b"abcdef");
        assert_eq!(p.get(1).unwrap().unwrap(), b"zz");
        assert_eq!(header::slot_count(p.buf).unwrap(), 2);
        assert_eq!(header::lower(p.buf).unwrap(), 28);
    }
    // the old tuple is garbage, left as it was
    assert_eq!(&buf[4093..], b"abc");
}

#[test]
fn test_update_errors() {
    let mut buf = vec![0u8; PAGE_SIZE];
    let mut p = fresh(&mut buf);
    p.insert(b"abc").unwrap();
    match p.update(1, b"x") {
        Err(DbError::InvalidArgument(reason)) => assert_eq!(reason, "invalid slot_id"),
        other => panic!("expected InvalidArgument, got: {:?}", other),
    }
    let free = p.free_space().unwrap() as usize;
    let before = p.buf.to_vec();
    match p.update(0, &vec![1u8; free + 1]) {
        Err(DbError::NoSpace(reason)) => assert_eq!(reason, "not enough space"),
        other => panic!("expected NoSpace, got: {:?}", other),
    }
    match p.update(0, &vec![1u8; 70_000]) {
        Err(DbError::NoSpace(_)) => {}
        other => panic!("expected NoSpace, got: {:?}", other),
    }
    assert_eq!(p.buf.to_vec(), before);
    // exactly the free space fits
    assert_eq!(p.update(0, &vec![1u8; free]).unwrap(), true);
    assert_eq!(p.free_space().unwrap(), 0);
    p.delete(0).unwrap();
    assert_eq!(corruption_reason(p.update(0, b"")), "slot is dead");
}

#[test]
fn test_update_in_place_checks_the_tuple_range() {
    let mut buf = vec![0u8; PAGE_SIZE];
    let mut p = fresh(&mut buf);
    p.insert(b"abcdef").unwrap();
    // a slot that points into the free space
    slot::write_slot(p.buf, 0, &Slot::new(100, 6, 0)).unwrap();
    let before = p.buf.to_vec();
    assert_eq!(corruption_reason(p.update(0, b"xy")), "tuple overlaps free space");
    assert_eq!(p.buf.to_vec(), before);
    // a slot that runs over the end of the page
    slot::write_slot(p.buf, 0, &Slot::new(4095, 6, 0)).unwrap();
    let before = p.buf.to_vec();
    assert_eq!(corruption_reason(p.update(0, b"xy")), "tuple end must be <= PAGE_SIZE");
    assert_eq!(p.buf.to_vec(), before);
    // a longer payload gives the slot a new tuple
    assert_eq!(p.update(0, b"0123456").unwrap(), true);
    assert_eq!(p.get(0).unwrap().unwrap(), b"0123456");
    p.validate_full().unwrap();
}

#[test]
fn test_no_space_boundary() {
    let mut buf = vec![0u8; PAGE_SIZE];
    let mut p = fresh(&mut buf);
    p.insert(b"abc").unwrap();
    let free = p.free_space().unwrap() as usize;
    assert_eq!(free, 4080 - 9);

    // one byte too many for a new slot
    let before = p.buf.to_vec();
    match p.insert(&vec![5u8; free - 6 + 1]) {
        Err(DbError::NoSpace(reason)) => assert_eq!(reason, "not enough space"),
        other => panic!("expected NoSpace, got: {:?}", other),
    }
    assert_eq!(p.buf.to_vec(), before);
    assert_eq!(p.free_space().unwrap() as usize, free);

    // a payload that no 16-bit length holds needs more than any page has
    match p.insert(&vec![5u8; 65_536]) {
        Err(DbError::NoSpace(_)) => {}
        other => panic!("expected NoSpace, got: {:?}", other),
    }
    assert_eq!(p.buf.to_vec(), before);

    // exactly what fits
    assert_eq!(p.insert(&vec![5u8; free - 6]).unwrap(), 1);
    assert_eq!(p.free_space().unwrap(), 0);
    assert_eq!(header::lower(p.buf).unwrap(), header::upper(p.buf).unwrap());
    p.validate_full().unwrap();

    // a full page takes not even an empty record in a new slot
    assert!(matches!(p.insert(b""), Err(DbError::NoSpace(_))));
    // but a tombstone takes one
    p.delete(0).unwrap();
    assert_eq!(p.insert(b"").unwrap(), 0);
    assert_eq!(p.get(0).unwrap().unwrap(), b"");
}

#[test]
fn test_no_space_with_a_stale_announcement_clears_only_the_flag() {
    let mut buf = vec![0u8; PAGE_SIZE];
    let mut p = fresh(&mut buf);
    p.insert(b"abc").unwrap();
    p.delete(0).unwrap();
    assert_eq!(p.insert(b"def").unwrap(), 0);
    // the flag still announces a tombstone, but there is none
    assert_eq!(header::flags(p.buf).unwrap() & FLAG_HAS_FREE_SLOTS, FLAG_HAS_FREE_SLOTS);
    let before = p.buf.to_vec();
    assert!(matches!(p.insert(&vec![0u8; 5000]), Err(DbError::NoSpace(_))));
    let after = p.buf.to_vec();
    assert_eq!(
        header::flags(&after).unwrap(),
        header::flags(&before).unwrap() & !FLAG_HAS_FREE_SLOTS
    );
    assert_eq!(&after[..6], &before[..6]);
    assert_eq!(&after[8..], &before[8..]);
}

#[test]
fn test_corrupt_header_is_detected() {
    let mut buf = vec![0u8; PAGE_SIZE];
    let mut p = fresh(&mut buf);
    p.insert(b"abc").unwrap();

    // lower inconsistent with slot_count
    header::set_lower(p.buf, 23).unwrap();
    assert_eq!(
        corruption_reason(p.validate_header()),
        "corrupt header: lower != header_size + slot_count*slot_size"
    );
    assert_eq!(
        corruption_reason(p.validate_full()),
        "corrupt header: lower != header_size + slot_count*slot_size"
    );
    let before = p.buf.to_vec();
    assert!(matches!(p.insert(b"x"), Err(DbError::Corruption(_))));
    assert!(matches!(p.update(0, b"x"), Err(DbError::Corruption(_))));
    assert!(matches!(p.delete(0), Err(DbError::Corruption(_))));
    assert!(matches!(p.get(0), Err(DbError::Corruption(_))));
    assert_eq!(p.buf.to_vec(), before);

    header::set_lower(p.buf, 15).unwrap();
    assert_eq!(corruption_reason(p.validate_header()), "corrupt header: lower < header size");

    header::set_lower(p.buf, 22).unwrap();
    header::set_upper(p.buf, 4097).unwrap();
    assert_eq!(corruption_reason(p.validate_header()), "corrupt header: upper > PAGE_SIZE");

    header::set_upper(p.buf, 21).unwrap();
    assert_eq!(corruption_reason(p.validate_header()), "corrupt header: lower > upper");
    assert_eq!(corruption_reason(p.free_space()), "corrupt header: lower > upper");

    header::set_upper(p.buf, 4093).unwrap();
    header::set_slot_count(p.buf, 681).unwrap();
    assert_eq!(
        corruption_reason(p.validate_header()),
        "corrupt header: slot directory out of page"
    );

    header::set_slot_count(p.buf, 1).unwrap();
    p.validate_header().unwrap();
    p.validate_full().unwrap();
}

#[test]
fn test_corrupt_slot_is_detected_by_the_full_scan() {
    let mut buf = vec![0u8; PAGE_SIZE];
    let mut p = fresh(&mut buf);
    p.insert(b"abc").unwrap();
    p.insert(b"defg").unwrap();
    p.validate_full().unwrap();

    // an offset that points below upper
    slot::write_slot(p.buf, 1, &Slot::new(1000, 4, 0)).unwrap();
    p.validate_header().unwrap();
    assert_eq!(
        corruption_reason(p.validate_full()),
        "corrupt slot: tuple overlaps free space"
    );
    assert_eq!(corruption_reason(p.get(1)), "tuple overlaps free space");
    assert_eq!(p.get(0).unwrap().unwrap(), b"abc");

    // a tuple that runs over the end of the page
    slot::write_slot(p.buf, 1, &Slot::new(4094, 4, 0)).unwrap();
    assert_eq!(corruption_reason(p.validate_full()), "corrupt slot: tuple out of bounds");
    assert_eq!(corruption_reason(p.get(1)), "tuple end must be <= PAGE_SIZE");

    // the lowest faulty slot is the one reported
    slot::write_slot(p.buf, 0, &Slot::new(0, 3, 0)).unwrap();
    assert_eq!(
        corruption_reason(p.validate_full()),
        "corrupt slot: tuple overlaps free space"
    );

    // a tombstone may point anywhere
    slot::write_slot(p.buf, 0, &Slot::new(0, 3, 1)).unwrap();
    slot::write_slot(p.buf, 1, &Slot::new(4094, 4, 1)).unwrap();
    p.validate_full().unwrap();
    assert!(p.get(0).unwrap().is_none());
}

#[test]
fn test_get_errors() {
    let mut buf = vec![0u8; PAGE_SIZE];
    let mut p = SlottedPage::new(&mut buf).unwrap().init(PAGE_TYPE_BTREE_LEAF).unwrap();
    match p.get(0) {
        Err(DbError::InvalidArgument(reason)) => assert_eq!(reason, "invalid slot_id"),
        other => panic!("expected InvalidArgument, got: {:?}", other),
    }
    p.insert(b"k").unwrap();
    assert_eq!(p.get(0).unwrap().unwrap(), b"k");
    assert!(matches!(p.get(1), Err(DbError::InvalidArgument(_))));
    assert!(matches!(p.get(u16::MAX), Err(DbError::InvalidArgument(_))));
}

#[test]
fn test_delete_is_idempotent_and_keeps_the_tuple_bytes() {
    let mut buf = vec![0u8; PAGE_SIZE];
    {
        let mut p = fresh(&mut buf);
        p.insert(b"abc").unwrap();
        p.delete(0).unwrap();
        let once = p.buf.to_vec();
        p.delete(0).unwrap();
        assert_eq!(p.buf.to_vec(), once);
        assert_eq!(slot::read_slot(p.buf, 0).unwrap(), Slot::new(4093, 3, 1));
        assert_eq!(header::flags(p.buf).unwrap(), FLAG_HAS_FREE_SLOTS);
        match p.delete(1) {
            Err(DbError::InvalidArgument(reason)) => assert_eq!(reason, "invalid slot_id"),
            other => panic!("expected InvalidArgument, got: {:?}", other),
        }
    }
    assert_eq!(&buf[4093..], b"abc");
}

#[test]
fn test_find_free_slot_on_a_broken_directory() {
    let mut buf = vec![0u8; PAGE_SIZE];
    let mut p = fresh(&mut buf);
    // a slot count beyond the page, an announcement, and no tombstone
    header::set_slot_count(p.buf, 1000).unwrap();
    header::set_flags(p.buf, FLAG_HAS_FREE_SLOTS).unwrap();
    let before = p.buf.to_vec();
    assert_eq!(corruption_reason(p.find_free_slot()), "slot entry out of bounds");
    assert_eq!(p.buf.to_vec(), before);
    // a tombstone among the entries that the page holds is still found
    slot::write_slot(p.buf, 679, &Slot::new(0, 0, 1)).unwrap();
    assert_eq!(p.find_free_slot().unwrap(), Some(679));
    // without the announcement nothing is scanned
    header::set_flags(p.buf, 0).unwrap();
    assert_eq!(p.find_free_slot().unwrap(), None);
}

#[test]
fn test_fill_a_page_with_empty_records() {
    let mut buf = vec![0u8; PAGE_SIZE];
    let mut p = fresh(&mut buf);
    for n in 0..680u16 {
        assert_eq!(p.insert(b"").unwrap(), n);
    }
    assert_eq!(p.free_space().unwrap(), 0);
    assert!(matches!(p.insert(b""), Err(DbError::NoSpace(_))));
    assert_eq!(header::slot_count(p.buf).unwrap(), 680);
    assert_eq!(p.get(679).unwrap().unwrap(), b"");
    p.validate_full().unwrap();
}

#[test]
fn test_the_view_writes_through_to_the_buffer() {
    let mut buf = vec![0u8; PAGE_SIZE];
    {
        let mut p = fresh(&mut buf);
        p.insert(b"persist me").unwrap();
    }
    let p = SlottedPage::new(&mut buf).unwrap();
    p.validate_full().unwrap();
    assert_eq!(p.get(0).unwrap().unwrap(), b"persist me");
}
