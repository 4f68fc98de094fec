use novadb_lite::constants::PAGE_SIZE;
use novadb_lite::error::DbError;
use novadb_lite::page::slot::{
    is_dead, is_overflow, is_redirected, read_slot, slot_off, write_slot, Slot,
};

#[test]
fn test_read_write_roundtrip() {
    let mut buf = vec![0u8; PAGE_SIZE];

    let slot = Slot {
        offset: 123,
        len: 45,
        flags: 0x0002,
    };

    write_slot(&mut buf, 0, &slot).unwrap();
    let got = read_slot(&buf, 0).unwrap();

    assert_eq!(got, slot);
}

#[test]
fn test_slot_out_of_bounds() {
    let mut buf = vec![0u8; PAGE_SIZE];
    let slot = Slot {
        offset: 1,
        len: 1,
        flags: 0,
    };

    assert!(write_slot(&mut buf, u16::MAX, &slot).is_err());
    assert!(read_slot(&buf, u16::MAX).is_err());
}

#[test]
fn test_is_dead() {
    assert!(is_dead(1 << 0));
    assert!(!is_dead(0));
}

#[test]
fn test_flags_helpers() {
    assert!(is_redirected(1 << 1));
    assert!(is_overflow(1 << 2));
    assert!(!is_redirected(0));
    assert!(!is_overflow(0));
}

#[test]
fn test_slot_off_formula() {
    assert_eq!(slot_off(0), 16);
    assert_eq!(slot_off(1), 22);
    assert_eq!(slot_off(679), 4090);
    assert_eq!(slot_off(u16::MAX), 16 + 65535 * 6);
}

#[test]
fn test_slot_byte_layout() {
    let mut buf = vec![0xFFu8; PAGE_SIZE];
    write_slot(&mut buf, 2, &Slot::new(0x0FF0, 0x0012, 0x0005)).unwrap();
    assert_eq!(&buf[28..34], &[0xF0, 0x0F, 0x12, 0x00, 0x05, 0x00]);
    assert!(buf[..28].iter().all(|b| *b == 0xFF));
    assert!(buf[34..].iter().all(|b| *b == 0xFF));
    let s = read_slot(&buf, 2).unwrap();
    assert_eq!((s.offset(), s.len(), s.flags()), (0x0FF0, 0x0012, 0x0005));
}

#[test]
fn test_last_slot_of_a_page() {
    let mut buf = vec![0u8; PAGE_SIZE];
    let slot = Slot::new(7, 8, 9);
    write_slot(&mut buf, 679, &slot).unwrap();
    assert_eq!(read_slot(&buf, 679).unwrap(), slot);
    match write_slot(&mut buf, 680, &slot) {
        Err(DbError::Corruption(reason)) => assert_eq!(reason, "slot entry out of bounds"),
        other => panic!("expected Corruption, got: {:?}", other),
    }
    match read_slot(&buf, 680) {
        Err(DbError::Corruption(reason)) => assert_eq!(reason, "slot entry out of bounds"),
        other => panic!("expected Corruption, got: {:?}", other),
    }
}

#[test]
fn test_slot_on_a_short_buffer() {
    let mut buf = vec![0u8; 27];
    assert!(write_slot(&mut buf, 0, &Slot::new(1, 2, 3)).is_ok());
    assert!(matches!(
        write_slot(&mut buf, 1, &Slot::new(1, 2, 3)),
        Err(DbError::Corruption(_))
    ));
    assert_eq!(&buf[16..], &[1, 0, 2, 0, 3, 0, 0, 0, 0, 0, 0]);
}

#[test]
fn test_mark_flags_dead() {
    let mut s = Slot::new(100, 20, 0x0006);
    s.mark_flags_dead();
    assert_eq!(s, Slot::new(100, 20, 0x0007));
    assert!(is_dead(s.flags()));
    s.mark_flags_dead();
    assert_eq!(s, Slot::new(100, 20, 0x0007));
}

#[test]
fn test_slot_flag_bits() {
    assert!(is_dead(0xFFFF));
    assert!(!is_dead(0xFFFE));
    assert!(is_redirected(0x0002));
    assert!(!is_redirected(0xFFFD));
    assert!(is_overflow(0x0004));
    assert!(!is_overflow(0xFFFB));
}
