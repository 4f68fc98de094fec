//! The mathematical model of a slotted page.
//!
//! A page is a `Seq<u8>` of `PAGE_SIZE` bytes. This module says, over such
//! sequences alone, when a page is valid, what each record operation
//! answers and which page it leaves behind. The executable operations of
//! `SlottedPage` are proved to compute exactly these functions.

use vstd::prelude::*;

use crate::constants::PAGE_SIZE;
use crate::error::DbError;
use crate::page::header::{
    header_of, with_flags, with_lower, with_slot_count, with_upper, PageHeaderSnapshot,
    FLAG_HAS_FREE_SLOTS,
};
use crate::page::raw::{overwrite, zeros};
use crate::page::slot::{dead, slot_at, slot_out_of_bounds, with_slot, Slot};
use crate::page::{SLOTTED_HEADER_SIZE, SLOTTED_SLOT_SIZE};

verus! {

/// Number of slot entries that fit between the header and the end of a page.
pub const MAX_SLOTS: usize = 680;

/// The header invariant: the slot directory ends at `lower`, holds exactly
/// `slot_count` entries, and does not run into the tuple area, which ends
/// with the page.
pub open spec fn header_valid(h: PageHeaderSnapshot) -> bool {
    &&& SLOTTED_HEADER_SIZE <= h.lower
    &&& h.lower <= h.upper
    &&& h.upper <= PAGE_SIZE
    &&& h.lower == SLOTTED_HEADER_SIZE + h.slot_count * SLOTTED_SLOT_SIZE
}

/// The first violation of the header invariant, in the order in which the
/// conditions are tested; `None` for a valid header.
pub open spec fn header_fault(h: PageHeaderSnapshot) -> Option<&'static str> {
    if h.lower < SLOTTED_HEADER_SIZE {
        Some("corrupt header: lower < header size")
    } else if h.upper > PAGE_SIZE {
        Some("corrupt header: upper > PAGE_SIZE")
    } else if h.lower > h.upper {
        Some("corrupt header: lower > upper")
    } else if SLOTTED_HEADER_SIZE + h.slot_count * SLOTTED_SLOT_SIZE > PAGE_SIZE {
        Some("corrupt header: slot directory out of page")
    } else if h.lower != SLOTTED_HEADER_SIZE + h.slot_count * SLOTTED_SLOT_SIZE {
        Some("corrupt header: lower != header_size + slot_count*slot_size")
    } else {
        None
    }
}

/// The free bytes between the slot directory and the tuple area.
pub open spec fn free_bytes(page: Seq<u8>) -> int {
    header_of(page).upper - header_of(page).lower
}

/// Whether the slot `slot_id` of `page` is not a tombstone.
pub open spec fn live(page: Seq<u8>, slot_id: int) -> bool {
    !dead(slot_at(page, slot_id).flags)
}

/// Whether the tuple of slot `slot_id` lies inside the tuple area
/// `[upper, PAGE_SIZE)` of `page`.
pub open spec fn tuple_in_area(page: Seq<u8>, slot_id: int) -> bool {
    let s = slot_at(page, slot_id);
    header_of(page).upper <= s.offset && s.end() <= PAGE_SIZE
}

/// The bytes of the tuple that slot `slot_id` of `page` points to.
pub open spec fn tuple_bytes(page: Seq<u8>, slot_id: int) -> Seq<u8> {
    let s = slot_at(page, slot_id);
    page.subrange(s.offset as int, s.end())
}

/// What the full scan holds against slot `slot_id`: nothing against a
/// tombstone, else the first of the two conditions on its tuple that fails.
pub open spec fn slot_fault(page: Seq<u8>, slot_id: int) -> Option<&'static str> {
    let s = slot_at(page, slot_id);
    if dead(s.flags) {
        None
    } else if s.end() > PAGE_SIZE {
        Some("corrupt slot: tuple out of bounds")
    } else if s.offset < header_of(page).upper {
        Some("corrupt slot: tuple overlaps free space")
    } else {
        None
    }
}

/// The page invariant: a page-sized buffer with a valid header in which the
/// tuple of every live slot lies inside the tuple area.
pub open spec fn page_valid(page: Seq<u8>) -> bool {
    &&& page.len() == PAGE_SIZE
    &&& header_valid(header_of(page))
    &&& forall|i: int|
        0 <= i < header_of(page).slot_count && live(page, i) ==> tuple_in_area(page, i)
}

/// Whether the tuples of the two slots share no byte.
pub open spec fn tuples_apart(page: Seq<u8>, i: int, j: int) -> bool {
    let a = slot_at(page, i);
    let b = slot_at(page, j);
    a.end() <= b.offset || b.end() <= a.offset || a.len == 0 || b.len == 0
}

/// A valid page in which no two live tuples overlap.
pub open spec fn page_consistent(page: Seq<u8>) -> bool {
    &&& page_valid(page)
    &&& forall|i: int, j: int|
        0 <= i < j < header_of(page).slot_count && live(page, i) && live(page, j) ==> tuples_apart(
            page,
            i,
            j,
        )
}

/// What `validate_header` answers on `page`.
pub open spec fn validate_header_outcome(page: Seq<u8>) -> Result<(), DbError> {
    match header_fault(header_of(page)) {
        Some(reason) => Err(DbError::Corruption(reason)),
        None => Ok(()),
    }
}

/// Whether `slot_id` is the lowest slot that the full scan holds something
/// against.
pub open spec fn first_slot_fault(page: Seq<u8>, slot_id: int) -> bool {
    &&& 0 <= slot_id < header_of(page).slot_count
    &&& slot_fault(page, slot_id) is Some
    &&& forall|j: int| 0 <= j < slot_id ==> slot_fault(page, j) is None
}

/// What `validate_full` answers on `page`: the header fault if there is one,
/// else what the scan holds against the lowest faulty slot.
pub open spec fn validate_full_outcome(page: Seq<u8>) -> Result<(), DbError> {
    if let Some(reason) = header_fault(header_of(page)) {
        Err(DbError::Corruption(reason))
    } else if exists|i: int| first_slot_fault(page, i) {
        Err(DbError::Corruption(slot_fault(page, choose|i: int| first_slot_fault(page, i))->0))
    } else {
        Ok(())
    }
}

/// What `free_space` answers on `page`.
pub open spec fn free_space_outcome(page: Seq<u8>) -> Result<u16, DbError> {
    if header_of(page).lower <= header_of(page).upper {
        Ok((header_of(page).upper - header_of(page).lower) as u16)
    } else {
        Err(DbError::Corruption("corrupt header: lower > upper"))
    }
}

/// What `get` answers on `page` for `slot_id`: the tuple of a live slot,
/// `None` for a tombstone, or the first check that fails.
pub open spec fn get_outcome(page: Seq<u8>, slot_id: u16) -> Result<Option<Seq<u8>>, DbError> {
    let h = header_of(page);
    let s = slot_at(page, slot_id as int);
    if let Some(reason) = header_fault(h) {
        Err(DbError::Corruption(reason))
    } else if slot_id >= h.slot_count {
        Err(DbError::InvalidArgument("invalid slot_id"))
    } else if dead(s.flags) {
        Ok(None)
    } else if s.offset < h.upper {
        Err(DbError::Corruption("tuple overlaps free space"))
    } else if s.end() > PAGE_SIZE {
        Err(DbError::Corruption("tuple end must be <= PAGE_SIZE"))
    } else {
        Ok(Some(tuple_bytes(page, slot_id as int)))
    }
}

/// An answer of `get`, with the borrowed tuple taken by its bytes.
pub open spec fn tuple_answer(r: Result<Option<&[u8]>, DbError>) -> Result<
    Option<Seq<u8>>,
    DbError,
> {
    match r {
        Ok(Some(tuple)) => Ok(Some(tuple@)),
        Ok(None) => Ok(None),
        Err(e) => Err(e),
    }
}

/// Number of slot ids that a scan of the directory can read: those below
/// `slot_count` whose entry lies inside the page.
pub open spec fn scan_limit(page: Seq<u8>) -> int {
    if header_of(page).slot_count <= MAX_SLOTS {
        header_of(page).slot_count as int
    } else {
        MAX_SLOTS as int
    }
}

/// Whether `slot_id` is the lowest tombstone that a scan of `page` reads.
pub open spec fn first_dead(page: Seq<u8>, slot_id: int) -> bool {
    &&& 0 <= slot_id < scan_limit(page)
    &&& !live(page, slot_id)
    &&& forall|j: int| 0 <= j < slot_id ==> live(page, j)
}

/// Whether the page flags of `page` announce a reusable tombstone.
pub open spec fn announces_free_slot(page: Seq<u8>) -> bool {
    header_of(page).flags & FLAG_HAS_FREE_SLOTS != 0
}

/// The slot that an insert reuses: the lowest tombstone, looked for only
/// when the page flags announce one.
pub open spec fn reusable_slot(page: Seq<u8>) -> Option<u16> {
    if announces_free_slot(page) && exists|i: int| first_dead(page, i) {
        Some((choose|i: int| first_dead(page, i)) as u16)
    } else {
        None
    }
}

/// Whether a scan for a tombstone runs through the whole directory of `page`
/// and finds none: the flags announce one, but every slot is live.
pub open spec fn scan_finds_nothing(page: Seq<u8>) -> bool {
    &&& announces_free_slot(page)
    &&& reusable_slot(page) is None
    &&& header_of(page).slot_count <= MAX_SLOTS
}

/// What `find_free_slot` answers on `page`.
pub open spec fn find_free_slot_outcome(page: Seq<u8>) -> Result<Option<u16>, DbError> {
    if announces_free_slot(page) && reusable_slot(page) is None && header_of(page).slot_count
        > MAX_SLOTS {
        Err(slot_out_of_bounds())
    } else {
        Ok(reusable_slot(page))
    }
}

/// The page that `find_free_slot` leaves: a scan that finds nothing clears
/// `FLAG_HAS_FREE_SLOTS`, anything else changes nothing.
pub open spec fn after_find_free_slot(page: Seq<u8>) -> Seq<u8> {
    if scan_finds_nothing(page) {
        with_flags(page, header_of(page).flags & !FLAG_HAS_FREE_SLOTS)
    } else {
        page
    }
}

/// Bytes that an insert of `data_len` payload bytes takes from the free
/// space: the payload, and a new directory entry unless a tombstone is
/// reused.
pub open spec fn insert_need(page: Seq<u8>, data_len: int) -> int {
    if reusable_slot(page) is Some {
        data_len
    } else {
        data_len + SLOTTED_SLOT_SIZE
    }
}

/// The slot id that an insert into `page` uses: the reused tombstone, else
/// the next new id.
pub open spec fn insert_slot(page: Seq<u8>) -> u16 {
    match reusable_slot(page) {
        Some(i) => i,
        None => header_of(page).slot_count,
    }
}

/// What `insert` answers on `page` for `data`.
pub open spec fn insert_outcome(page: Seq<u8>, data: Seq<u8>) -> Result<u16, DbError> {
    if let Some(reason) = header_fault(header_of(page)) {
        Err(DbError::Corruption(reason))
    } else if insert_need(page, data.len() as int) > free_bytes(page) {
        Err(DbError::NoSpace("not enough space"))
    } else {
        Ok(insert_slot(page))
    }
}

/// The page that `insert` leaves.
///
/// A successful insert carves the payload out of the top of the free space,
/// points the slot at it and moves `upper` down; a new slot also grows the
/// directory by one entry. A failed insert changes nothing but what the
/// scan for a tombstone changed before space ran out.
pub open spec fn after_insert(page: Seq<u8>, data: Seq<u8>) -> Seq<u8> {
    let h = header_of(page);
    if header_fault(h) is Some {
        page
    } else if insert_outcome(page, data) is Err {
        after_find_free_slot(page)
    } else {
        let new_upper = (h.upper - data.len()) as u16;
        let slot = Slot { offset: new_upper, len: data.len() as u16, flags: 0 };
        let filled = with_slot(
            overwrite(after_find_free_slot(page), new_upper as int, data),
            insert_slot(page) as int,
            slot,
        );
        let grown = if reusable_slot(page) is Some {
            filled
        } else {
            with_lower(
                with_slot_count(filled, (h.slot_count + 1) as u16),
                (h.lower + SLOTTED_SLOT_SIZE) as u16,
            )
        };
        with_upper(grown, new_upper)
    }
}

/// The page that inserting `records` one after the other leaves; an insert
/// that fails is passed over.
pub open spec fn after_inserts(page: Seq<u8>, records: Seq<Seq<u8>>) -> Seq<u8>
    decreases records.len(),
{
    if records.len() == 0 {
        page
    } else {
        after_insert(after_inserts(page, records.drop_last()), records.last())
    }
}

/// What `update` answers on `page` for `slot_id` and `data`: `false` for an
/// update in place, `true` for a tuple that moved, or the first check that
/// fails.
pub open spec fn update_outcome(page: Seq<u8>, slot_id: u16, data: Seq<u8>) -> Result<
    bool,
    DbError,
> {
    let h = header_of(page);
    let s = slot_at(page, slot_id as int);
    if let Some(reason) = header_fault(h) {
        Err(DbError::Corruption(reason))
    } else if slot_id >= h.slot_count {
        Err(DbError::InvalidArgument("invalid slot_id"))
    } else if dead(s.flags) {
        Err(DbError::Corruption("slot is dead"))
    } else if data.len() <= s.len {
        if s.offset < h.upper {
            Err(DbError::Corruption("tuple overlaps free space"))
        } else if s.end() > PAGE_SIZE {
            Err(DbError::Corruption("tuple end must be <= PAGE_SIZE"))
        } else {
            Ok(false)
        }
    } else if data.len() > free_bytes(page) {
        Err(DbError::NoSpace("not enough space"))
    } else {
        Ok(true)
    }
}

/// The page that `update` leaves.
///
/// In place, the payload overwrites the start of the old tuple, the rest of
/// the old tuple is zeroed and the slot keeps its offset. A tuple that moves
/// is carved out of the top of the free space like an insert, under the
/// same slot id and flags. A failed update changes nothing.
pub open spec fn after_update(page: Seq<u8>, slot_id: u16, data: Seq<u8>) -> Seq<u8> {
    let h = header_of(page);
    let s = slot_at(page, slot_id as int);
    match update_outcome(page, slot_id, data) {
        Ok(false) => with_slot(
            overwrite(
                overwrite(page, s.offset as int, data),
                s.offset + data.len(),
                zeros(s.len - data.len()),
            ),
            slot_id as int,
            Slot { offset: s.offset, len: data.len() as u16, flags: s.flags },
        ),
        Ok(true) => {
            let new_upper = (h.upper - data.len()) as u16;
            with_upper(
                with_slot(
                    overwrite(page, new_upper as int, data),
                    slot_id as int,
                    Slot { offset: new_upper, len: data.len() as u16, flags: s.flags },
                ),
                new_upper,
            )
        },
        Err(_) => page,
    }
}

/// What `delete` answers on `page` for `slot_id`.
pub open spec fn delete_outcome(page: Seq<u8>, slot_id: u16) -> Result<(), DbError> {
    let h = header_of(page);
    if let Some(reason) = header_fault(h) {
        Err(DbError::Corruption(reason))
    } else if slot_id >= h.slot_count {
        Err(DbError::InvalidArgument("invalid slot_id"))
    } else {
        Ok(())
    }
}

/// The page that `delete` leaves: a live slot becomes a tombstone and the
/// page flags announce it; a tombstone, or a failed delete, changes nothing.
pub open spec fn after_delete(page: Seq<u8>, slot_id: u16) -> Seq<u8> {
    let s = slot_at(page, slot_id as int);
    if delete_outcome(page, slot_id) is Ok && !dead(s.flags) {
        let marked = with_slot(page, slot_id as int, s.marked_dead());
        with_flags(marked, header_of(page).flags | FLAG_HAS_FREE_SLOTS)
    } else {
        page
    }
}

/// A page with a valid header that announces no tombstone.
pub open spec fn unannounced(page: Seq<u8>) -> bool {
    &&& page.len() == PAGE_SIZE
    &&& header_valid(header_of(page))
    &&& !announces_free_slot(page)
}

/// At most one slot is the lowest tombstone of a page.
pub proof fn lemma_first_dead_unique(page: Seq<u8>, a: int, b: int)
    requires
        first_dead(page, a),
        first_dead(page, b),
    ensures
        a == b,
{
    if a < b {
        assert(live(page, a));
    } else if b < a {
        assert(live(page, b));
    }
}

/// A page whose flags announce a tombstone reuses its lowest tombstone.
pub proof fn lemma_reusable_is_first_dead(page: Seq<u8>, slot_id: int)
    requires
        announces_free_slot(page),
        first_dead(page, slot_id),
    ensures
        reusable_slot(page) == Some(slot_id as u16),
{
    let chosen = choose|i: int| first_dead(page, i);
    lemma_first_dead_unique(page, chosen, slot_id);
}

/// A page without a tombstone among the slots that a scan reads has no slot
/// to reuse.
pub proof fn lemma_reusable_none(page: Seq<u8>)
    requires
        forall|j: int| 0 <= j < scan_limit(page) ==> live(page, j),
    ensures
        reusable_slot(page) is None,
{
    assert forall|i: int| !first_dead(page, i) by {
        if 0 <= i < scan_limit(page) {
            assert(live(page, i));
        }
    }
}

/// At most one slot is the lowest faulty slot of a page.
pub proof fn lemma_first_slot_fault_unique(page: Seq<u8>, a: int, b: int)
    requires
        first_slot_fault(page, a),
        first_slot_fault(page, b),
    ensures
        a == b,
{
    if a < b {
        assert(slot_fault(page, a) is None);
    } else if b < a {
        assert(slot_fault(page, b) is None);
    }
}

/// The full scan of a page with a valid header reports what it holds
/// against the lowest faulty slot.
pub proof fn lemma_full_scan_fault(page: Seq<u8>, slot_id: int)
    requires
        header_fault(header_of(page)) is None,
        first_slot_fault(page, slot_id),
    ensures
        validate_full_outcome(page) == Err::<(), DbError>(
            DbError::Corruption(slot_fault(page, slot_id)->0),
        ),
{
    let chosen = choose|i: int| first_slot_fault(page, i);
    lemma_first_slot_fault_unique(page, chosen, slot_id);
}

/// The full scan accepts a page with a valid header and no faulty slot.
pub proof fn lemma_full_scan_clean(page: Seq<u8>)
    requires
        header_fault(header_of(page)) is None,
        forall|j: int| 0 <= j < header_of(page).slot_count ==> slot_fault(page, j) is None,
    ensures
        validate_full_outcome(page) == Ok::<(), DbError>(()),
{
    assert forall|i: int| !first_slot_fault(page, i) by {
        if 0 <= i < header_of(page).slot_count {
            assert(slot_fault(page, i) is None);
        }
    }
}

} // verus!
