//! The slot directory: one 6-byte entry per allocated slot id, stored
//! contiguously behind the page header and growing upward.

use vstd::prelude::*;

use crate::error::{DbError, DbResult};
use crate::page::raw::{
    le_u16, lemma_u16_decode_encode, overwrite, read_u16_le, u16_le_bytes, write_u16_le,
};
use crate::page::{SLOTTED_HEADER_SIZE, SLOTTED_SLOT_SIZE};

verus! {

/// Slot flag: the slot is a tombstone; its tuple bytes are garbage.
pub const SLOT_DEAD: u16 = 0x0001;

/// Slot flag reserved for redirected tuples.
pub const SLOT_REDIRECTED: u16 = 0x0002;

/// Slot flag reserved for tuples that continue on an overflow page.
pub const SLOT_OVERFLOW: u16 = 0x0004;

/// Offset of the tuple offset inside a slot entry.
pub const OFF_SLOT_OFFSET: usize = 0;

/// Offset of the tuple length inside a slot entry.
pub const OFF_SLOT_LEN: usize = 2;

/// Offset of the slot flags inside a slot entry.
pub const OFF_SLOT_FLAGS: usize = 4;

/// One entry of the slot directory: where a tuple lies and how long it is.
#[derive(Debug, Clone, Copy, PartialEq, Eq, Structural)]
pub struct Slot {
    /// Offset of the first tuple byte from the start of the page.
    pub offset: u16,
    /// Number of tuple bytes.
    pub len: u16,
    /// Bit 0 is `SLOT_DEAD`, bit 1 `SLOT_REDIRECTED`, bit 2 `SLOT_OVERFLOW`.
    pub flags: u16,
}

impl Slot {
    /// A slot entry with the given fields.
    pub fn new(offset: u16, len: u16, flags: u16) -> (s: Slot)
        ensures
            s == (Slot { offset, len, flags }),
    {
        Slot { offset, len, flags }
    }

    pub fn offset(&self) -> (v: u16)
        ensures
            v == self.offset,
    {
        self.offset
    }

    pub fn len(&self) -> (v: u16)
        ensures
            v == self.len,
    {
        self.len
    }

    pub fn flags(&self) -> (v: u16)
        ensures
            v == self.flags,
    {
        self.flags
    }

    /// Turns the slot into a tombstone: sets `SLOT_DEAD` and keeps every
    /// other bit, the offset and the length.
    pub fn mark_flags_dead(&mut self)
        ensures
            *final(self) == old(self).marked_dead(),
    {
        self.flags = self.flags | SLOT_DEAD;
    }

    /// This slot as a tombstone.
    pub open spec fn marked_dead(self) -> Slot {
        Slot { offset: self.offset, len: self.len, flags: self.flags | SLOT_DEAD }
    }

    /// Offset one past the last tuple byte.
    pub open spec fn end(self) -> int {
        self.offset + self.len
    }
}

/// Position of the entry of `slot_id` in the page.
pub open spec fn slot_pos(slot_id: int) -> int {
    SLOTTED_HEADER_SIZE + slot_id * SLOTTED_SLOT_SIZE
}

/// Position of the entry of `slot_id` in the page.
pub fn slot_off(slot_id: u16) -> (pos: usize)
    ensures
        pos == slot_pos(slot_id as int),
{
    SLOTTED_HEADER_SIZE + slot_id as usize * SLOTTED_SLOT_SIZE
}

/// Whether the whole entry of `slot_id` lies inside a buffer of `len` bytes.
pub open spec fn slot_in_bounds(len: int, slot_id: int) -> bool {
    slot_pos(slot_id) + SLOTTED_SLOT_SIZE <= len
}

/// The slot entry that `page` holds for `slot_id`.
pub open spec fn slot_at(page: Seq<u8>, slot_id: int) -> Slot {
    Slot {
        offset: le_u16(page, slot_pos(slot_id) + OFF_SLOT_OFFSET),
        len: le_u16(page, slot_pos(slot_id) + OFF_SLOT_LEN),
        flags: le_u16(page, slot_pos(slot_id) + OFF_SLOT_FLAGS),
    }
}

/// The 6 bytes that encode `slot`.
pub open spec fn slot_bytes(slot: Slot) -> Seq<u8> {
    u16_le_bytes(slot.offset) + u16_le_bytes(slot.len) + u16_le_bytes(slot.flags)
}

/// `page` with the entry of `slot_id` replaced by `slot`.
pub open spec fn with_slot(page: Seq<u8>, slot_id: int, slot: Slot) -> Seq<u8> {
    overwrite(page, slot_pos(slot_id), slot_bytes(slot))
}

/// The error of a slot id whose entry would leave the buffer.
pub open spec fn slot_out_of_bounds() -> DbError {
    DbError::Corruption("slot entry out of bounds")
}

/// What a read of the entry of `slot_id` answers on the bytes `page`.
pub open spec fn read_slot_outcome(page: Seq<u8>, slot_id: u16) -> Result<Slot, DbError> {
    if slot_in_bounds(page.len() as int, slot_id as int) {
        Ok(slot_at(page, slot_id as int))
    } else {
        Err(slot_out_of_bounds())
    }
}

/// What a write of the entry of `slot_id` answers on a buffer of `len`
/// bytes.
pub open spec fn write_slot_outcome(len: int, slot_id: u16) -> Result<(), DbError> {
    if slot_in_bounds(len, slot_id as int) {
        Ok(())
    } else {
        Err(slot_out_of_bounds())
    }
}

/// Position of the entry of `slot_id`, checked against the buffer.
fn current_pos(buf: &[u8], slot_id: u16) -> (r: DbResult<usize>)
    ensures
        slot_in_bounds(buf@.len() as int, slot_id as int) ==> r == Ok::<usize, DbError>(
            slot_pos(slot_id as int) as usize,
        ),
        !slot_in_bounds(buf@.len() as int, slot_id as int) ==> r == Err::<usize, DbError>(
            slot_out_of_bounds(),
        ),
{
    let base = slot_off(slot_id);
    if base + SLOTTED_SLOT_SIZE > buf.len() {
        return Err(DbError::Corruption("slot entry out of bounds"));
    }
    Ok(base)
}

/// Reads the entry of `slot_id`.
///
/// A slot id whose entry does not lie inside the buffer is reported as
/// corruption, not as a plain bounds violation.
pub fn read_slot(buf: &[u8], slot_id: u16) -> (r: DbResult<Slot>)
    ensures
        r == read_slot_outcome(buf@, slot_id),
{
    let pos = current_pos(buf, slot_id)?;
    let offset = read_u16_le(buf, pos + OFF_SLOT_OFFSET)?;
    let len = read_u16_le(buf, pos + OFF_SLOT_LEN)?;
    let flags = read_u16_le(buf, pos + OFF_SLOT_FLAGS)?;
    Ok(Slot { offset, len, flags })
}

/// Writes `slot` as the entry of `slot_id` and touches no other byte.
///
/// A slot id whose entry does not lie inside the buffer is reported as
/// corruption, and the buffer stays as it was.
pub fn write_slot(buf: &mut [u8], slot_id: u16, slot: &Slot) -> (r: DbResult<()>)
    ensures
        r == write_slot_outcome(old(buf)@.len() as int, slot_id),
        r is Ok ==> final(buf)@ == with_slot(old(buf)@, slot_id as int, *slot),
        r is Err ==> final(buf)@ == old(buf)@,
        final(buf)@.len() == old(buf)@.len(),
{
    proof {
        reveal(overwrite);
    }
    let pos = current_pos(buf, slot_id)?;
    write_u16_le(buf, pos + OFF_SLOT_OFFSET, slot.offset)?;
    write_u16_le(buf, pos + OFF_SLOT_LEN, slot.len)?;
    write_u16_le(buf, pos + OFF_SLOT_FLAGS, slot.flags)?;
    Ok(())
}

/// Whether `flags` marks a tombstone.
pub open spec fn dead(flags: u16) -> bool {
    flags & SLOT_DEAD != 0
}

/// Whether `flags` marks a tombstone.
pub fn is_dead(flags: u16) -> (b: bool)
    ensures
        b == dead(flags),
{
    flags & SLOT_DEAD != 0
}

/// Whether `flags` marks a redirected tuple.
pub fn is_redirected(flags: u16) -> (b: bool)
    ensures
        b == (flags & SLOT_REDIRECTED != 0),
{
    flags & SLOT_REDIRECTED != 0
}

/// Whether `flags` marks a tuple that continues on an overflow page.
pub fn is_overflow(flags: u16) -> (b: bool)
    ensures
        b == (flags & SLOT_OVERFLOW != 0),
{
    flags & SLOT_OVERFLOW != 0
}

/// Reading the entry that was written for a slot id gives that entry back.
pub proof fn lemma_slot_roundtrip(page: Seq<u8>, slot_id: int, slot: Slot)
    requires
        0 <= slot_id,
        slot_in_bounds(page.len() as int, slot_id),
    ensures
        slot_at(with_slot(page, slot_id, slot), slot_id) == slot,
{
    reveal(overwrite);
    let pos = slot_pos(slot_id);
    let t = with_slot(page, slot_id, slot);
    assert(slot_bytes(slot).len() == 6);
    assert(le_u16(t, pos) == slot.offset) by {
        lemma_u16_decode_encode(page, pos, slot.offset);
        let a = overwrite(page, pos, u16_le_bytes(slot.offset));
        assert(forall|i: int| pos <= i < pos + 2 ==> t[i] == a[i]);
    }
    assert(le_u16(t, pos + 2) == slot.len) by {
        lemma_u16_decode_encode(page, pos + 2, slot.len);
        let a = overwrite(page, pos + 2, u16_le_bytes(slot.len));
        assert(forall|i: int| pos + 2 <= i < pos + 4 ==> t[i] == a[i]);
    }
    assert(le_u16(t, pos + 4) == slot.flags) by {
        lemma_u16_decode_encode(page, pos + 4, slot.flags);
        let a = overwrite(page, pos + 4, u16_le_bytes(slot.flags));
        assert(forall|i: int| pos + 4 <= i < pos + 6 ==> t[i] == a[i]);
    }
}

/// A tombstone is dead, whatever its flags were before.
pub proof fn lemma_marked_dead(slot: Slot)
    ensures
        dead(slot.marked_dead().flags),
        slot.marked_dead().flags & !SLOT_DEAD == slot.flags & !SLOT_DEAD,
        dead(slot.flags) ==> slot.marked_dead() == slot,
{
    let f = slot.flags;
    assert((f | 0x0001u16) & 0x0001u16 != 0) by (bit_vector);
    assert((f | 0x0001u16) & !0x0001u16 == f & !0x0001u16) by (bit_vector);
    assert(f & 0x0001u16 != 0 ==> f | 0x0001u16 == f) by (bit_vector);
}

} // verus!
