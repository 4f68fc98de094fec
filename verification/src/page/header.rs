//! The 16-byte header at the start of every page.
//!
//! The header is never cached in a struct of its own: each accessor decodes
//! or encodes one field against the page bytes, at the fixed offsets
//! 0, 2, 4, 6 and 8. `PageHeaderSnapshot` is a read-only copy for
//! validation and tests.

use vstd::prelude::*;

use crate::constants::PAGE_SIZE;
use crate::error::{DbError, DbResult};
use crate::page::raw::{
    access_outcome, le_u16, le_u64, lemma_u16_decode_encode, lemma_u64_decode_encode, overwrite,
    read_u16_le, read_u16_outcome, read_u64_le, read_u64_outcome, u16_le_bytes, u64_le_bytes,
    write_u16_le, write_u64_le, written,
};
use crate::page::SLOTTED_HEADER_SIZE;

verus! {

/// Offset of `lower`, the end of the slot directory.
pub const OFF_LOWER: usize = 0;

/// Offset of `upper`, the start of the tuple area.
pub const OFF_UPPER: usize = 2;

/// Offset of `slot_count`, the number of slots ever allocated.
pub const OFF_SLOT_COUNT: usize = 4;

/// Offset of the page flags.
pub const OFF_FLAGS: usize = 6;

/// Offset of the reserved 64-bit field.
pub const OFF_RESERVED: usize = 8;

/// Page type: a heap page of plain records.
pub const PAGE_TYPE_HEAP: u16 = 0;

/// Page type: a leaf of a B-tree.
pub const PAGE_TYPE_BTREE_LEAF: u16 = 1;

/// Page type: an inner node of a B-tree.
pub const PAGE_TYPE_BTREE_INTERNAL: u16 = 2;

/// Page type: an overflow page.
pub const PAGE_TYPE_BTREE_OVERFLOW: u16 = 3;

/// Number of the bit of `FLAG_HAS_FREE_SLOTS`.
pub const FLAG_HAS_FREE_SLOTS_BIT: u16 = 4;

/// Number of the bit of `FLAG_IS_COMPRESSED`.
pub const FLAG_IS_COMPRESSED_BIT: u16 = 5;

/// Number of the bit of `FLAG_IS_CHECKSUMMED`.
pub const FLAG_IS_CHECKSUMMED_BIT: u16 = 6;

/// Page flag: the page may hold a dead slot that an insert can reuse.
pub const FLAG_HAS_FREE_SLOTS: u16 = 0x0010;

/// Page flag reserved for compressed pages.
pub const FLAG_IS_COMPRESSED: u16 = 0x0020;

/// Page flag reserved for checksummed pages.
pub const FLAG_IS_CHECKSUMMED: u16 = 0x0040;

/// Mask of the bits of the page flags that hold the page type.
pub const PAGE_TYPE_MASK: u16 = 0x000F;

/// A decoded copy of the header fields of one page.
#[derive(Debug, Clone, Copy, PartialEq, Eq, Structural)]
pub struct PageHeaderSnapshot {
    /// End of the slot directory: `16 + 6 * slot_count` on a valid page.
    pub lower: u16,
    /// Start of the tuple area; the free space is `[lower, upper)`.
    pub upper: u16,
    /// Number of slots ever allocated; every slot id is below it.
    pub slot_count: u16,
    /// Bits 0..3 hold the page type, bit 4 is `FLAG_HAS_FREE_SLOTS`, the
    /// other bits are reserved.
    pub flags: u16,
    /// Reserved for a future sequence number or checksum.
    pub reserved: u64,
}

impl PageHeaderSnapshot {
    pub fn upper(&self) -> (v: u16)
        ensures
            v == self.upper,
    {
        self.upper
    }

    pub fn lower(&self) -> (v: u16)
        ensures
            v == self.lower,
    {
        self.lower
    }

    pub fn flags(&self) -> (v: u16)
        ensures
            v == self.flags,
    {
        self.flags
    }

    pub fn slot_count(&self) -> (v: u16)
        ensures
            v == self.slot_count,
    {
        self.slot_count
    }

    pub fn reserved(&self) -> (v: u64)
        ensures
            v == self.reserved,
    {
        self.reserved
    }
}

/// The header that the first 16 bytes of `page` encode.
pub open spec fn header_of(page: Seq<u8>) -> PageHeaderSnapshot {
    PageHeaderSnapshot {
        lower: le_u16(page, OFF_LOWER as int),
        upper: le_u16(page, OFF_UPPER as int),
        slot_count: le_u16(page, OFF_SLOT_COUNT as int),
        flags: le_u16(page, OFF_FLAGS as int),
        reserved: le_u64(page, OFF_RESERVED as int),
    }
}

/// The 16 bytes that encode `h`.
pub open spec fn header_bytes(h: PageHeaderSnapshot) -> Seq<u8> {
    u16_le_bytes(h.lower) + u16_le_bytes(h.upper) + u16_le_bytes(h.slot_count) + u16_le_bytes(
        h.flags,
    ) + u64_le_bytes(h.reserved)
}

/// The header of an empty page of the given type.
pub open spec fn empty_header(page_type: u16) -> PageHeaderSnapshot {
    PageHeaderSnapshot {
        lower: SLOTTED_HEADER_SIZE as u16,
        upper: PAGE_SIZE as u16,
        slot_count: 0,
        flags: page_type & PAGE_TYPE_MASK,
        reserved: 0,
    }
}

/// The error of a buffer that is not exactly one page long.
pub open spec fn wrong_page_size() -> DbError {
    DbError::Corruption("buffer length must equal PAGE_SIZE")
}

/// Decodes the header of a page into a snapshot.
///
/// The buffer must be exactly one page long; any other length is reported
/// as corruption.
pub fn decode(buf: &[u8]) -> (r: DbResult<PageHeaderSnapshot>)
    ensures
        buf@.len() == PAGE_SIZE ==> r == Ok::<PageHeaderSnapshot, DbError>(header_of(buf@)),
        buf@.len() != PAGE_SIZE ==> r == Err::<PageHeaderSnapshot, DbError>(wrong_page_size()),
{
    if buf.len() != PAGE_SIZE {
        return Err(DbError::Corruption("buffer length must equal PAGE_SIZE"));
    }
    Ok(
        PageHeaderSnapshot {
            lower: read_u16_le(buf, OFF_LOWER)?,
            upper: read_u16_le(buf, OFF_UPPER)?,
            slot_count: read_u16_le(buf, OFF_SLOT_COUNT)?,
            flags: read_u16_le(buf, OFF_FLAGS)?,
            reserved: read_u64_le(buf, OFF_RESERVED)?,
        },
    )
}

/// `page` with `lower` set to `v`.
pub open spec fn with_lower(page: Seq<u8>, v: u16) -> Seq<u8> {
    overwrite(page, OFF_LOWER as int, u16_le_bytes(v))
}

/// `page` with `upper` set to `v`.
pub open spec fn with_upper(page: Seq<u8>, v: u16) -> Seq<u8> {
    overwrite(page, OFF_UPPER as int, u16_le_bytes(v))
}

/// `page` with `slot_count` set to `v`.
pub open spec fn with_slot_count(page: Seq<u8>, v: u16) -> Seq<u8> {
    overwrite(page, OFF_SLOT_COUNT as int, u16_le_bytes(v))
}

/// `page` with the page flags set to `v`.
pub open spec fn with_flags(page: Seq<u8>, v: u16) -> Seq<u8> {
    overwrite(page, OFF_FLAGS as int, u16_le_bytes(v))
}

/// `page` with the reserved field set to `v`.
pub open spec fn with_reserved(page: Seq<u8>, v: u64) -> Seq<u8> {
    overwrite(page, OFF_RESERVED as int, u64_le_bytes(v))
}

/// `page` with its header reset to the empty page of the given type.
pub open spec fn initialized(page: Seq<u8>, page_type: u16) -> Seq<u8> {
    overwrite(page, 0, header_bytes(empty_header(page_type)))
}

/// Number of bytes of a header that get written, field by field, into a
/// buffer of `len` bytes: all 16 where the buffer holds a whole header, else
/// the fields that fit before the first one that does not.
pub open spec fn header_bytes_fitted(len: int) -> int {
    if len >= 16 {
        16
    } else if len >= 8 {
        8
    } else {
        len - len % 2
    }
}

/// What `init_empty` answers on a buffer of `len` bytes: the bounds
/// violation of the first header field that does not fit, if there is one.
pub open spec fn init_empty_outcome(len: int) -> Result<(), DbError> {
    if len >= 16 {
        Ok(())
    } else if len >= 8 {
        access_outcome(len, OFF_RESERVED, 8)
    } else {
        access_outcome(len, header_bytes_fitted(len) as usize, 2)
    }
}

/// Resets the header of a page to the empty page of the given type:
/// `lower = 16`, `upper = PAGE_SIZE`, no slots, `flags = page_type & 0x000F`
/// and a zero reserved field. Nothing behind the header is touched.
///
/// The fields are written in order, each behind its bounds check: on a
/// buffer too short for a header the first field that does not fit is
/// reported, and the fields before it stay written.
pub fn init_empty(buf: &mut [u8], page_type: u16) -> (r: DbResult<()>)
    ensures
        r == init_empty_outcome(old(buf)@.len() as int),
        final(buf)@ == overwrite(
            old(buf)@,
            0,
            header_bytes(empty_header(page_type)).subrange(
                0,
                header_bytes_fitted(old(buf)@.len() as int),
            ),
        ),
        final(buf)@.len() == old(buf)@.len(),
        old(buf)@.len() >= SLOTTED_HEADER_SIZE ==> r == Ok::<(), DbError>(()) && final(buf)@
            == initialized(old(buf)@, page_type),
{
    proof {
        reveal(overwrite);
    }
    let flags = page_type & 0x000F;
    set_lower(buf, SLOTTED_HEADER_SIZE as u16)?;
    set_upper(buf, PAGE_SIZE as u16)?;
    set_slot_count(buf, 0)?;
    set_flags(buf, flags)?;
    set_reserved(buf, 0)?;
    assert(header_bytes(empty_header(page_type)).subrange(0, 16) =~= header_bytes(
        empty_header(page_type),
    ));
    Ok(())
}

/// Reads `lower`, the end of the slot directory.
pub fn lower(buf: &[u8]) -> (r: DbResult<u16>)
    ensures
        r == read_u16_outcome(buf@, OFF_LOWER),
        buf@.len() >= SLOTTED_HEADER_SIZE ==> r == Ok::<u16, DbError>(header_of(buf@).lower),
{
    read_u16_le(buf, OFF_LOWER)
}

/// Writes `lower`, the end of the slot directory and touches no other byte.
pub fn set_lower(buf: &mut [u8], v: u16) -> (r: DbResult<()>)
    ensures
        r == access_outcome(old(buf)@.len() as int, OFF_LOWER, 2),
        final(buf)@ == written(old(buf)@, OFF_LOWER, u16_le_bytes(v)),
        final(buf)@.len() == old(buf)@.len(),
        old(buf)@.len() >= SLOTTED_HEADER_SIZE ==> r == Ok::<(), DbError>(()) && final(buf)@
            == with_lower(old(buf)@, v),
{
    write_u16_le(buf, OFF_LOWER, v)
}

/// Reads `upper`, the start of the tuple area.
pub fn upper(buf: &[u8]) -> (r: DbResult<u16>)
    ensures
        r == read_u16_outcome(buf@, OFF_UPPER),
        buf@.len() >= SLOTTED_HEADER_SIZE ==> r == Ok::<u16, DbError>(header_of(buf@).upper),
{
    read_u16_le(buf, OFF_UPPER)
}

/// Writes `upper`, the start of the tuple area and touches no other byte.
pub fn set_upper(buf: &mut [u8], v: u16) -> (r: DbResult<()>)
    ensures
        r == access_outcome(old(buf)@.len() as int, OFF_UPPER, 2),
        final(buf)@ == written(old(buf)@, OFF_UPPER, u16_le_bytes(v)),
        final(buf)@.len() == old(buf)@.len(),
        old(buf)@.len() >= SLOTTED_HEADER_SIZE ==> r == Ok::<(), DbError>(()) && final(buf)@
            == with_upper(old(buf)@, v),
{
    write_u16_le(buf, OFF_UPPER, v)
}

/// Reads `slot_count`, the number of slots ever allocated.
pub fn slot_count(buf: &[u8]) -> (r: DbResult<u16>)
    ensures
        r == read_u16_outcome(buf@, OFF_SLOT_COUNT),
        buf@.len() >= SLOTTED_HEADER_SIZE ==> r == Ok::<u16, DbError>(header_of(buf@).slot_count),
{
    read_u16_le(buf, OFF_SLOT_COUNT)
}

/// Writes `slot_count`, the number of slots ever allocated and touches no other byte.
pub fn set_slot_count(buf: &mut [u8], v: u16) -> (r: DbResult<()>)
    ensures
        r == access_outcome(old(buf)@.len() as int, OFF_SLOT_COUNT, 2),
        final(buf)@ == written(old(buf)@, OFF_SLOT_COUNT, u16_le_bytes(v)),
        final(buf)@.len() == old(buf)@.len(),
        old(buf)@.len() >= SLOTTED_HEADER_SIZE ==> r == Ok::<(), DbError>(()) && final(buf)@
            == with_slot_count(old(buf)@, v),
{
    write_u16_le(buf, OFF_SLOT_COUNT, v)
}

/// Reads the page flags.
pub fn flags(buf: &[u8]) -> (r: DbResult<u16>)
    ensures
        r == read_u16_outcome(buf@, OFF_FLAGS),
        buf@.len() >= SLOTTED_HEADER_SIZE ==> r == Ok::<u16, DbError>(header_of(buf@).flags),
{
    read_u16_le(buf, OFF_FLAGS)
}

/// Writes the page flags and touches no other byte.
pub fn set_flags(buf: &mut [u8], v: u16) -> (r: DbResult<()>)
    ensures
        r == access_outcome(old(buf)@.len() as int, OFF_FLAGS, 2),
        final(buf)@ == written(old(buf)@, OFF_FLAGS, u16_le_bytes(v)),
        final(buf)@.len() == old(buf)@.len(),
        old(buf)@.len() >= SLOTTED_HEADER_SIZE ==> r == Ok::<(), DbError>(()) && final(buf)@
            == with_flags(old(buf)@, v),
{
    write_u16_le(buf, OFF_FLAGS, v)
}

/// Reads the reserved 64-bit field.
pub fn reserved(buf: &[u8]) -> (r: DbResult<u64>)
    ensures
        r == read_u64_outcome(buf@, OFF_RESERVED),
        buf@.len() >= SLOTTED_HEADER_SIZE ==> r == Ok::<u64, DbError>(header_of(buf@).reserved),
{
    read_u64_le(buf, OFF_RESERVED)
}

/// Writes the reserved 64-bit field and touches no other byte.
pub fn set_reserved(buf: &mut [u8], v: u64) -> (r: DbResult<()>)
    ensures
        r == access_outcome(old(buf)@.len() as int, OFF_RESERVED, 8),
        final(buf)@ == written(old(buf)@, OFF_RESERVED, u64_le_bytes(v)),
        final(buf)@.len() == old(buf)@.len(),
        old(buf)@.len() >= SLOTTED_HEADER_SIZE ==> r == Ok::<(), DbError>(()) && final(buf)@
            == with_reserved(old(buf)@, v),
{
    write_u64_le(buf, OFF_RESERVED, v)
}

/// A buffer that has had the 16 bytes of `h` written over its start decodes
/// to `h`.
pub proof fn lemma_header_roundtrip(page: Seq<u8>, h: PageHeaderSnapshot)
    requires
        page.len() >= SLOTTED_HEADER_SIZE,
    ensures
        header_of(overwrite(page, 0, header_bytes(h))) == h,
{
    reveal(overwrite);
    let t = overwrite(page, 0, header_bytes(h));
    assert(header_bytes(h).len() == 16);
    assert(le_u16(t, 0) == h.lower) by {
        lemma_u16_decode_encode(page, 0, h.lower);
        let a = overwrite(page, 0, u16_le_bytes(h.lower));
        assert(forall|i: int| 0 <= i < 2 ==> t[i] == a[i]);
    }
    assert(le_u16(t, 2) == h.upper) by {
        lemma_u16_decode_encode(page, 2, h.upper);
        let a = overwrite(page, 2, u16_le_bytes(h.upper));
        assert(forall|i: int| 2 <= i < 4 ==> t[i] == a[i]);
    }
    assert(le_u16(t, 4) == h.slot_count) by {
        lemma_u16_decode_encode(page, 4, h.slot_count);
        let a = overwrite(page, 4, u16_le_bytes(h.slot_count));
        assert(forall|i: int| 4 <= i < 6 ==> t[i] == a[i]);
    }
    assert(le_u16(t, 6) == h.flags) by {
        lemma_u16_decode_encode(page, 6, h.flags);
        let a = overwrite(page, 6, u16_le_bytes(h.flags));
        assert(forall|i: int| 6 <= i < 8 ==> t[i] == a[i]);
    }
    assert(le_u64(t, 8) == h.reserved) by {
        lemma_u64_decode_encode(page, 8, h.reserved);
        let a = overwrite(page, 8, u64_le_bytes(h.reserved));
        assert(forall|i: int| 8 <= i < 16 ==> t[i] == a[i]);
    }
}

/// The page type that the low four bits of `flags` hold.
pub open spec fn page_type_of(flags: u16) -> u16 {
    flags & PAGE_TYPE_MASK
}

/// Whether the page type in `flags` is `t`; only bits 0..3 of either count.
pub fn is_page_type(flags: u16, t: u16) -> (b: bool)
    ensures
        b == (page_type_of(flags) == page_type_of(t)),
{
    (flags & 0x000F) == (t & 0x000F)
}

/// `flags` with the page type replaced by `t`; every other bit is kept.
pub fn set_page_type(flags: u16, t: u16) -> (r: u16)
    ensures
        r == (flags & !PAGE_TYPE_MASK) | (t & PAGE_TYPE_MASK),
        page_type_of(r) == page_type_of(t),
        r & !PAGE_TYPE_MASK == flags & !PAGE_TYPE_MASK,
{
    let r = (flags & !0x000F) | (t & 0x000F);
    assert(((flags & !0x000Fu16) | (t & 0x000Fu16)) & 0x000Fu16 == t & 0x000Fu16) by (bit_vector);
    assert(((flags & !0x000Fu16) | (t & 0x000Fu16)) & !0x000Fu16 == flags & !0x000Fu16)
        by (bit_vector);
    r
}

/// Whether `flags` says that the page may hold a reusable dead slot.
pub fn has_free_slots(flags: u16) -> (b: bool)
    ensures
        b == (flags & FLAG_HAS_FREE_SLOTS != 0),
{
    (flags & FLAG_HAS_FREE_SLOTS) != 0
}

/// `flags` with every bit of `mask` set.
pub fn set_flag(flags: u16, mask: u16) -> (r: u16)
    ensures
        r == flags | mask,
        r & mask == mask,
        r & !mask == flags & !mask,
{
    assert((flags | mask) & mask == mask) by (bit_vector);
    assert((flags | mask) & !mask == flags & !mask) by (bit_vector);
    flags | mask
}

/// `flags` with every bit of `mask` cleared.
pub fn clear_flag(flags: u16, mask: u16) -> (r: u16)
    ensures
        r == flags & !mask,
        r & mask == 0,
        r & !mask == flags & !mask,
{
    assert((flags & !mask) & mask == 0) by (bit_vector);
    assert((flags & !mask) & !mask == flags & !mask) by (bit_vector);
    flags & !mask
}

/// Whether `flags` has a bit of `mask` set.
pub fn has_flag(flags: u16, mask: u16) -> (b: bool)
    ensures
        b == (flags & mask != 0),
{
    (flags & mask) != 0
}

/// A page that was reset with one of the four page types decodes to
/// `lower = 16`, `upper = PAGE_SIZE`, no slots, that page type and a zero
/// reserved field.
pub proof fn lemma_init_then_decode(page: Seq<u8>, page_type: u16)
    requires
        page.len() == PAGE_SIZE,
        page_type <= PAGE_TYPE_BTREE_OVERFLOW,
    ensures
        header_of(initialized(page, page_type)).lower == SLOTTED_HEADER_SIZE,
        header_of(initialized(page, page_type)).upper == PAGE_SIZE,
        header_of(initialized(page, page_type)).slot_count == 0,
        header_of(initialized(page, page_type)).flags & PAGE_TYPE_MASK == page_type,
        header_of(initialized(page, page_type)).flags == page_type,
        header_of(initialized(page, page_type)).reserved == 0,
{
    lemma_header_roundtrip(page, empty_header(page_type));
    assert(page_type <= 3 ==> page_type & 0x000F == page_type) by (bit_vector);
}

} // verus!
