use std::collections::HashSet;

use novadb_lite::constants::{DB_MAGIC, DB_VERSION, PAGE_SIZE};
use novadb_lite::error::DbError;
use novadb_lite::page::{SLOTTED_HEADER_SIZE, SLOTTED_SLOT_SIZE};
use novadb_lite::types::PageId;
use novadb_lite::{DbResult, PageId as RootPageId};

#[test]
fn test_constants() {
    assert_eq!(PAGE_SIZE, 4096);
    assert_eq!(&DB_MAGIC, b"NOVADBLITE\0\0");
    assert_eq!(DB_VERSION, 1);
    assert_eq!(SLOTTED_HEADER_SIZE, 16);
    assert_eq!(SLOTTED_SLOT_SIZE, 6);
}

#[test]
fn test_page_id_conversions() {
    let pid = PageId(0x1234_5678);
    assert_eq!(pid.as_u32(), 0x1234_5678u32);
    assert_eq!(pid.as_u64(), 0x1234_5678u64);
    assert_eq!(pid.as_usize(), 0x1234_5678usize);
    assert_eq!(PageId::invalid(), PageId(u32::MAX));
    assert_eq!(PageId::invalid().as_u32(), 0xFFFF_FFFF);
    let same: RootPageId = pid;
    assert_eq!(same, pid);
}

#[test]
fn test_page_id_is_ordered_by_its_number() {
    let ids = [0u32, 1, 2, 41, 4096, 0x8000_0000, u32::MAX];
    for a in ids {
        for b in ids {
            assert_eq!(PageId(a) == PageId(b), a == b);
            assert_eq!(PageId(a) < PageId(b), a < b);
            assert_eq!(PageId(a) <= PageId(b), a <= b);
            assert_eq!(PageId(a) > PageId(b), a > b);
            assert_eq!(PageId(a).partial_cmp(&PageId(b)), a.partial_cmp(&b));
            assert_eq!(PageId(a).cmp(&PageId(b)), a.cmp(&b));
        }
    }
    let mut sorted = vec![PageId(9), PageId(3), PageId::invalid(), PageId(0)];
    sorted.sort();
    assert_eq!(sorted, vec![PageId(0), PageId(3), PageId(9), PageId::invalid()]);
    let set: HashSet<PageId> = [PageId(1), PageId(1), PageId(2)].into_iter().collect();
    assert_eq!(set.len(), 2);
}

#[test]
fn test_error_messages() {
    assert_eq!(
        DbError::Corruption("slot is dead").message(),
        "corruption: slot is dead"
    );
    assert_eq!(
        DbError::NoSpace("not enough space").message(),
        "no space: not enough space"
    );
    assert_eq!(
        DbError::InvalidArgument("invalid slot_id").message(),
        "invalid args: invalid slot_id"
    );
    assert_eq!(
        DbError::OutOfBounds { off: 4, size: 8, len: 8 }.message(),
        "out of bounds: off=4 size=8 len=8"
    );
    assert_eq!(
        DbError::OutOfBounds { off: 0, size: 10, len: 4096 }.message(),
        "out of bounds: off=0 size=10 len=4096"
    );
    assert_eq!(
        DbError::OutOfBounds { off: usize::MAX, size: 1_000_000, len: 109 }.message(),
        format!("out of bounds: off={} size=1000000 len=109", usize::MAX)
    );
    assert_eq!(DbError::Corruption("").message(), "corruption: ");
}

#[test]
fn test_io_error_is_carried_through() {
    let io = std::io::Error::new(std::io::ErrorKind::UnexpectedEof, "short read");
    let said = io.to_string();
    let err = DbError::from(io);
    assert_eq!(err.message(), format!("io error: {}", said));
    match err {
        DbError::Io(inner) => {
            assert_eq!(inner.kind(), std::io::ErrorKind::UnexpectedEof);
            assert_eq!(inner.to_string(), "short read");
        }
        other => panic!("expected Io, got: {:?}", other),
    }
}

fn read_something(fail: bool) -> DbResult<u8> {
    if fail {
        Err(std::io::Error::new(std::io::ErrorKind::Other, "boom"))?;
    }
    Ok(1)
}

#[test]
fn test_question_mark_converts_io_errors() {
    assert_eq!(read_something(false).unwrap(), 1);
    assert!(matches!(read_something(true), Err(DbError::Io(_))));
}
