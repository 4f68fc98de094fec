//! What a write into a page leaves alone.
//!
//! The record operations change a page by a few writes: a payload, a slot
//! entry, a header field. The lemmas here say of each such write which
//! parts of the page read as before, and what reads back from the part
//! that was written.

use vstd::prelude::*;

use crate::constants::PAGE_SIZE;
use crate::page::header::{
    header_of, with_flags, with_lower, with_slot_count, with_upper, PageHeaderSnapshot,
};
use crate::page::raw::{lemma_overwrite, lemma_u16_decode_encode, overwrite};
use crate::page::slot::{lemma_slot_roundtrip, slot_at, slot_bytes, slot_pos, with_slot, Slot};
use crate::page::{SLOTTED_HEADER_SIZE, SLOTTED_SLOT_SIZE};

verus! {

/// A write that stays behind the header leaves the header as it is.
pub proof fn lemma_header_untouched(page: Seq<u8>, off: int, bytes: Seq<u8>)
    requires
        page.len() >= SLOTTED_HEADER_SIZE,
        off >= SLOTTED_HEADER_SIZE,
    ensures
        header_of(overwrite(page, off, bytes)) == header_of(page),
{
    reveal(overwrite);
}

/// A write that shares no byte with the entry of a slot leaves the entry as
/// it is.
pub proof fn lemma_slot_untouched(page: Seq<u8>, off: int, bytes: Seq<u8>, slot_id: int)
    requires
        0 <= slot_id,
        slot_pos(slot_id) + SLOTTED_SLOT_SIZE <= page.len(),
        off + bytes.len() <= slot_pos(slot_id) || slot_pos(slot_id) + SLOTTED_SLOT_SIZE <= off,
    ensures
        slot_at(overwrite(page, off, bytes), slot_id) == slot_at(page, slot_id),
{
    reveal(overwrite);
}

/// Setting `lower` changes that field and nothing else of the page: not
/// another header field, not a slot entry, not a byte behind the header.
pub proof fn lemma_set_lower(page: Seq<u8>, v: u16)
    requires
        page.len() >= SLOTTED_HEADER_SIZE,
    ensures
        with_lower(page, v).len() == page.len(),
        header_of(with_lower(page, v)) == (PageHeaderSnapshot { lower: v, ..header_of(page) }),
        forall|i: int|
            SLOTTED_HEADER_SIZE <= i < page.len() ==> #[trigger] with_lower(page, v)[i] == page[i],
        forall|j: int|
            0 <= j && slot_pos(j) + SLOTTED_SLOT_SIZE <= page.len() ==> #[trigger] slot_at(
                with_lower(page, v),
                j,
            ) == slot_at(page, j),
{
    reveal(overwrite);
    lemma_u16_decode_encode(page, 0, v);
}

/// Setting `upper` changes that field and nothing else of the page.
pub proof fn lemma_set_upper(page: Seq<u8>, v: u16)
    requires
        page.len() >= SLOTTED_HEADER_SIZE,
    ensures
        with_upper(page, v).len() == page.len(),
        header_of(with_upper(page, v)) == (PageHeaderSnapshot { upper: v, ..header_of(page) }),
        forall|i: int|
            SLOTTED_HEADER_SIZE <= i < page.len() ==> #[trigger] with_upper(page, v)[i] == page[i],
        forall|j: int|
            0 <= j && slot_pos(j) + SLOTTED_SLOT_SIZE <= page.len() ==> #[trigger] slot_at(
                with_upper(page, v),
                j,
            ) == slot_at(page, j),
{
    reveal(overwrite);
    lemma_u16_decode_encode(page, 2, v);
}

/// Setting `slot_count` changes that field and nothing else of the page.
pub proof fn lemma_set_slot_count(page: Seq<u8>, v: u16)
    requires
        page.len() >= SLOTTED_HEADER_SIZE,
    ensures
        with_slot_count(page, v).len() == page.len(),
        header_of(with_slot_count(page, v)) == (PageHeaderSnapshot {
            slot_count: v,
            ..header_of(page)
        }),
        forall|i: int|
            SLOTTED_HEADER_SIZE <= i < page.len() ==> #[trigger] with_slot_count(page, v)[i]
                == page[i],
        forall|j: int|
            0 <= j && slot_pos(j) + SLOTTED_SLOT_SIZE <= page.len() ==> #[trigger] slot_at(
                with_slot_count(page, v),
                j,
            ) == slot_at(page, j),
{
    reveal(overwrite);
    lemma_u16_decode_encode(page, 4, v);
}

/// Setting the page flags changes that field and nothing else of the page.
pub proof fn lemma_set_flags(page: Seq<u8>, v: u16)
    requires
        page.len() >= SLOTTED_HEADER_SIZE,
    ensures
        with_flags(page, v).len() == page.len(),
        header_of(with_flags(page, v)) == (PageHeaderSnapshot { flags: v, ..header_of(page) }),
        forall|i: int|
            SLOTTED_HEADER_SIZE <= i < page.len() ==> #[trigger] with_flags(page, v)[i] == page[i],
        forall|j: int|
            0 <= j && slot_pos(j) + SLOTTED_SLOT_SIZE <= page.len() ==> #[trigger] slot_at(
                with_flags(page, v),
                j,
            ) == slot_at(page, j),
{
    reveal(overwrite);
    lemma_u16_decode_encode(page, 6, v);
}

/// Placing a tuple: the payload is written at `at`, behind the entry of
/// the slot that is then pointed at it. The header stays, the slot reads
/// back, the payload reads back, and no other slot below the payload and
/// no byte behind it changes.
pub proof fn lemma_place_tuple(page: Seq<u8>, at: int, data: Seq<u8>, slot_id: int, slot: Slot)
    requires
        page.len() == PAGE_SIZE,
        0 <= slot_id,
        slot_pos(slot_id) + SLOTTED_SLOT_SIZE <= at,
        at + data.len() <= PAGE_SIZE,
    ensures
        with_slot(overwrite(page, at, data), slot_id, slot).len() == PAGE_SIZE,
        header_of(with_slot(overwrite(page, at, data), slot_id, slot)) == header_of(page),
        slot_at(with_slot(overwrite(page, at, data), slot_id, slot), slot_id) == slot,
        forall|j: int|
            0 <= j && j != slot_id && slot_pos(j) + SLOTTED_SLOT_SIZE <= at ==> #[trigger] slot_at(
                with_slot(overwrite(page, at, data), slot_id, slot),
                j,
            ) == slot_at(page, j),
        forall|i: int|
            at <= i < PAGE_SIZE ==> #[trigger] with_slot(overwrite(page, at, data), slot_id, slot)[i]
                == if i < at + data.len() {
                data[i - at]
            } else {
                page[i]
            },
{
    let p1 = overwrite(page, at, data);
    let p2 = with_slot(p1, slot_id, slot);
    lemma_overwrite(page, at, data);
    lemma_overwrite(p1, slot_pos(slot_id), slot_bytes(slot));
    lemma_header_untouched(page, at, data);
    lemma_header_untouched(p1, slot_pos(slot_id), slot_bytes(slot));
    lemma_slot_roundtrip(p1, slot_id, slot);
    assert forall|j: int|
        0 <= j && j != slot_id && slot_pos(j) + SLOTTED_SLOT_SIZE <= at implies slot_at(p2, j)
        == slot_at(page, j) by {
        lemma_slot_untouched(page, at, data, j);
        lemma_slot_untouched(p1, slot_pos(slot_id), slot_bytes(slot), j);
    }
}

} // verus!
