//! What holds of the record operations, proved over the page model.
//!
//! Each law speaks of the spec functions that the contracts of `SlottedPage`
//! use, so it holds of every call of the executable operations.

use vstd::prelude::*;

use crate::constants::PAGE_SIZE;
use crate::error::DbError;
use crate::page::frame::{
    lemma_header_untouched, lemma_place_tuple, lemma_set_flags, lemma_set_lower,
    lemma_set_slot_count, lemma_set_upper, lemma_slot_untouched,
};
use crate::page::header::{
    empty_header, header_bytes, header_of, initialized, lemma_header_roundtrip, with_flags,
    with_lower, with_slot_count, with_upper, PageHeaderSnapshot, FLAG_HAS_FREE_SLOTS,
};
use crate::page::model::{
    after_delete, after_find_free_slot, after_insert, after_inserts, after_update,
    announces_free_slot, delete_outcome, first_dead, first_slot_fault, free_bytes, get_outcome,
    header_fault, header_valid, insert_need, insert_outcome, insert_slot,
    lemma_reusable_is_first_dead, live, page_consistent, page_valid, reusable_slot,
    scan_finds_nothing, slot_fault, tuple_bytes, tuple_in_area, tuples_apart, unannounced,
    update_outcome, validate_full_outcome, validate_header_outcome, MAX_SLOTS,
};
use crate::page::raw::{lemma_overwrite, overwrite, zeros};
use crate::page::slot::{
    dead, lemma_marked_dead, lemma_slot_roundtrip, slot_at, slot_bytes, slot_pos, with_slot, Slot,
};
use crate::page::{SLOTTED_HEADER_SIZE, SLOTTED_SLOT_SIZE};

verus! {

/// The header is valid exactly when no condition of the header check fails.
pub proof fn lemma_header_fault_iff_invalid(h: PageHeaderSnapshot)
    ensures
        header_fault(h) is None <==> header_valid(h),
{
}

/// `validate_header` accepts a page exactly when its header is valid, and
/// reports corruption otherwise.
pub proof fn lemma_validate_header_sound(page: Seq<u8>)
    ensures
        validate_header_outcome(page) is Ok <==> header_valid(header_of(page)),
        validate_header_outcome(page) is Err ==> validate_header_outcome(page)->Err_0
            is Corruption,
{
}

/// `validate_full` accepts a page-sized buffer exactly when it is a valid
/// page, and reports corruption otherwise.
pub proof fn lemma_validate_full_sound(page: Seq<u8>)
    requires
        page.len() == PAGE_SIZE,
    ensures
        validate_full_outcome(page) is Ok <==> page_valid(page),
        validate_full_outcome(page) is Err ==> validate_full_outcome(page)->Err_0 is Corruption,
{
    let h = header_of(page);
    if header_fault(h) is None {
        if exists|i: int| first_slot_fault(page, i) {
            let i = choose|i: int| first_slot_fault(page, i);
            assert(slot_fault(page, i) is Some);
            assert(live(page, i) && !tuple_in_area(page, i));
            assert(!page_valid(page));
        } else {
            assert forall|i: int| 0 <= i < h.slot_count && live(page, i) implies tuple_in_area(
                page,
                i,
            ) by {
                lemma_no_fault_below(page, i);
            }
        }
    }
}

/// In a page where no slot is the lowest faulty one, no slot is faulty.
proof fn lemma_no_fault_below(page: Seq<u8>, slot_id: int)
    requires
        forall|i: int| !first_slot_fault(page, i),
        0 <= slot_id < header_of(page).slot_count,
    ensures
        slot_fault(page, slot_id) is None,
    decreases slot_id,
{
    if slot_fault(page, slot_id) is Some {
        assert forall|j: int| 0 <= j < slot_id implies slot_fault(page, j) is None by {
            lemma_no_fault_below(page, j);
        }
        assert(first_slot_fault(page, slot_id));
    }
}

/// A page that was reset is a valid page without slots, without an
/// announced tombstone, and with everything behind the header free.
pub proof fn lemma_initialized_page(page: Seq<u8>, page_type: u16)
    requires
        page.len() == PAGE_SIZE,
    ensures
        page_consistent(initialized(page, page_type)),
        header_of(initialized(page, page_type)) == empty_header(page_type),
        !announces_free_slot(initialized(page, page_type)),
        free_bytes(initialized(page, page_type)) == PAGE_SIZE - SLOTTED_HEADER_SIZE,
{
    lemma_header_roundtrip(page, empty_header(page_type));
    lemma_overwrite(page, 0, header_bytes(empty_header(page_type)));
    assert((page_type & 0x000Fu16) & 0x0010u16 == 0) by (bit_vector);
}

/// The slot that an insert reuses is the lowest tombstone of the page, and
/// the page flags announce it.
pub proof fn lemma_reusable_slot_is_tombstone(page: Seq<u8>)
    ensures
        reusable_slot(page) matches Some(id) ==> announces_free_slot(page) && first_dead(
            page,
            id as int,
        ) && id < header_of(page).slot_count && id < MAX_SLOTS,
{
    if reusable_slot(page) is Some {
        let chosen = choose|i: int| first_dead(page, i);
        assert(first_dead(page, chosen));
    }
}

/// The scan for a tombstone changes at most the announcement in the page
/// flags: every other bit of the header, every slot and every byte behind
/// the header stays.
pub proof fn lemma_after_find_free_slot_shape(page: Seq<u8>)
    requires
        page.len() == PAGE_SIZE,
    ensures
        after_find_free_slot(page).len() == PAGE_SIZE,
        header_of(after_find_free_slot(page)) == (PageHeaderSnapshot {
            flags: header_of(after_find_free_slot(page)).flags,
            ..header_of(page)
        }),
        header_of(after_find_free_slot(page)).flags == if scan_finds_nothing(page) {
            header_of(page).flags & !FLAG_HAS_FREE_SLOTS
        } else {
            header_of(page).flags
        },
        forall|i: int|
            SLOTTED_HEADER_SIZE <= i < PAGE_SIZE ==> #[trigger] after_find_free_slot(page)[i]
                == page[i],
        forall|j: int|
            0 <= j < MAX_SLOTS ==> #[trigger] slot_at(after_find_free_slot(page), j) == slot_at(
                page,
                j,
            ),
        reusable_slot(page) is None ==> !announces_free_slot(after_find_free_slot(page))
            || header_of(page).slot_count > MAX_SLOTS,
{
    let flags = header_of(page).flags;
    let cleared = flags & !FLAG_HAS_FREE_SLOTS;
    lemma_set_flags(page, cleared);
    assert(cleared & FLAG_HAS_FREE_SLOTS == 0) by (bit_vector)
        requires
            cleared == flags & !FLAG_HAS_FREE_SLOTS,
    ;
}

/// The scan for a tombstone keeps a page valid, and keeps its live tuples
/// apart.
pub proof fn lemma_find_free_slot_preserves_valid(page: Seq<u8>)
    ensures
        page_valid(page) ==> page_valid(after_find_free_slot(page)),
        page_consistent(page) ==> page_consistent(after_find_free_slot(page)),
{
    if page_valid(page) {
        let q = after_find_free_slot(page);
        lemma_after_find_free_slot_shape(page);
        assert forall|i: int| 0 <= i < header_of(q).slot_count && live(q, i) implies tuple_in_area(
            q,
            i,
        ) by {
            assert(slot_at(q, i) == slot_at(page, i));
            assert(tuple_in_area(page, i));
        }
        if page_consistent(page) {
            assert forall|i: int, j: int|
                0 <= i < j < header_of(q).slot_count && live(q, i) && live(q, j) implies tuples_apart(
                q,
                i,
                j,
            ) by {
                assert(slot_at(q, i) == slot_at(page, i));
                assert(slot_at(q, j) == slot_at(page, j));
                assert(tuples_apart(page, i, j));
            }
        }
    }
}

/// What a successful insert leaves: the payload sits directly below the
/// old `upper`, the slot points at it and is live, a new slot grows the
/// directory by one entry, and no other slot and no byte of the old tuple
/// area changes.
pub proof fn lemma_after_insert_shape(page: Seq<u8>, data: Seq<u8>)
    requires
        page.len() == PAGE_SIZE,
        insert_outcome(page, data) is Ok,
    ensures
        after_insert(page, data).len() == PAGE_SIZE,
        header_of(after_insert(page, data)).upper == header_of(page).upper - data.len(),
        header_of(after_insert(page, data)).lower == header_of(page).lower + insert_need(
            page,
            data.len() as int,
        ) - data.len(),
        header_of(after_insert(page, data)).slot_count == if reusable_slot(page) is Some {
            header_of(page).slot_count as int
        } else {
            header_of(page).slot_count + 1
        },
        header_of(after_insert(page, data)).flags == header_of(after_find_free_slot(page)).flags,
        header_of(after_insert(page, data)).reserved == header_of(page).reserved,
        header_valid(header_of(after_insert(page, data))),
        insert_slot(page) < header_of(after_insert(page, data)).slot_count,
        slot_at(after_insert(page, data), insert_slot(page) as int) == (Slot {
            offset: (header_of(page).upper - data.len()) as u16,
            len: data.len() as u16,
            flags: 0,
        }),
        forall|j: int|
            0 <= j < header_of(page).slot_count && j != insert_slot(page) ==> #[trigger] slot_at(
                after_insert(page, data),
                j,
            ) == slot_at(page, j),
        forall|i: int|
            header_of(page).upper <= i < PAGE_SIZE ==> #[trigger] after_insert(page, data)[i]
                == page[i],
        after_insert(page, data).subrange(
            header_of(page).upper - data.len(),
            header_of(page).upper as int,
        ) == data,
{
    let h = header_of(page);
    let n = data.len() as int;
    let id = insert_slot(page) as int;
    let new_upper = (h.upper - n) as u16;
    let slot = Slot { offset: new_upper, len: n as u16, flags: 0 };
    lemma_reusable_slot_is_tombstone(page);
    lemma_after_find_free_slot_shape(page);
    let p0 = after_find_free_slot(page);
    let p2 = with_slot(overwrite(p0, new_upper as int, data), id, slot);
    lemma_place_tuple(p0, new_upper as int, data, id, slot);
    let grown_count = (h.slot_count + 1) as u16;
    let grown_lower = (h.lower + SLOTTED_SLOT_SIZE) as u16;
    let p3 = if reusable_slot(page) is Some {
        p2
    } else {
        with_lower(with_slot_count(p2, grown_count), grown_lower)
    };
    if reusable_slot(page) is None {
        let p2a = with_slot_count(p2, grown_count);
        lemma_set_slot_count(p2, grown_count);
        lemma_set_lower(p2a, grown_lower);
        assert forall|j: int| 0 <= j <= h.slot_count implies slot_at(p3, j) == slot_at(p2, j) by {
            assert(slot_at(p2a, j) == slot_at(p2, j));
            assert(slot_at(p3, j) == slot_at(p2a, j));
        }
        assert forall|i: int| new_upper <= i < PAGE_SIZE implies p3[i] == p2[i] by {
            assert(p2a[i] == p2[i]);
            assert(p3[i] == p2a[i]);
        }
    }
    let q = with_upper(p3, new_upper);
    lemma_set_upper(p3, new_upper);
    assert(q == after_insert(page, data));
    assert forall|j: int| 0 <= j < h.slot_count && j != id implies slot_at(q, j) == slot_at(
        page,
        j,
    ) by {
        assert(slot_at(q, j) == slot_at(p3, j));
        assert(slot_at(p3, j) == slot_at(p2, j));
        assert(slot_at(p2, j) == slot_at(p0, j));
        assert(slot_at(p0, j) == slot_at(page, j));
    }
    assert(slot_at(q, id) == slot) by {
        assert(slot_at(q, id) == slot_at(p3, id));
        assert(slot_at(p3, id) == slot_at(p2, id));
    }
    assert forall|i: int| new_upper <= i < PAGE_SIZE implies q[i] == if i < h.upper {
        data[i - new_upper]
    } else {
        page[i]
    } by {
        assert(q[i] == p3[i]);
        assert(p3[i] == p2[i]);
        assert(p0[i] == page[i]);
    }
    assert(q.subrange(new_upper as int, h.upper as int) =~= data);
}

/// Insert, then get: the tuple of the slot that an insert returns is the
/// inserted payload.
pub proof fn lemma_insert_then_get(page: Seq<u8>, data: Seq<u8>)
    requires
        page.len() == PAGE_SIZE,
        insert_outcome(page, data) is Ok,
    ensures
        get_outcome(after_insert(page, data), insert_outcome(page, data)->Ok_0) == Ok::<
            Option<Seq<u8>>,
            DbError,
        >(Some(data)),
{
    lemma_after_insert_shape(page, data);
    lemma_header_fault_iff_invalid(header_of(after_insert(page, data)));
    assert(!dead(0u16)) by (bit_vector);
}

/// An insert disturbs no other record: whatever `get` answered for another
/// slot before a successful insert, it answers after it.
pub proof fn lemma_insert_keeps_others(page: Seq<u8>, data: Seq<u8>, slot_id: u16)
    requires
        page.len() == PAGE_SIZE,
        insert_outcome(page, data) is Ok,
        slot_id != insert_outcome(page, data)->Ok_0,
        get_outcome(page, slot_id) is Ok,
    ensures
        get_outcome(after_insert(page, data), slot_id) == get_outcome(page, slot_id),
{
    let q = after_insert(page, data);
    lemma_after_insert_shape(page, data);
    lemma_header_fault_iff_invalid(header_of(q));
    assert(slot_at(q, slot_id as int) == slot_at(page, slot_id as int));
    if !dead(slot_at(page, slot_id as int).flags) {
        assert(tuple_bytes(q, slot_id as int) =~= tuple_bytes(page, slot_id as int));
    }
}

/// Space accounting of insert: a successful insert takes exactly the
/// payload from the free space, and 6 bytes more for a new slot; a failed
/// insert takes nothing.
pub proof fn lemma_insert_space(page: Seq<u8>, data: Seq<u8>)
    requires
        page.len() == PAGE_SIZE,
    ensures
        insert_outcome(page, data) is Ok ==> free_bytes(after_insert(page, data)) == free_bytes(
            page,
        ) - data.len() - if reusable_slot(page) is Some {
            0int
        } else {
            SLOTTED_SLOT_SIZE as int
        },
        insert_outcome(page, data) is Err ==> free_bytes(after_insert(page, data)) == free_bytes(
            page,
        ),
{
    if insert_outcome(page, data) is Ok {
        lemma_after_insert_shape(page, data);
    } else {
        lemma_after_find_free_slot_shape(page);
    }
}

/// The boundary of `NoSpace`: on a page with a valid header, an insert
/// fails with `NoSpace` exactly when it needs more bytes than are free, and
/// then no slot, no tuple and no header field but the announcement of a
/// tombstone changes. Unless the announcement was stale, the page is
/// untouched.
pub proof fn lemma_insert_no_space(page: Seq<u8>, data: Seq<u8>)
    requires
        page.len() == PAGE_SIZE,
        header_valid(header_of(page)),
    ensures
        insert_need(page, data.len() as int) > free_bytes(page) <==> insert_outcome(page, data)
            == Err::<u16, DbError>(DbError::NoSpace("not enough space")),
        insert_need(page, data.len() as int) > free_bytes(page) ==> {
            &&& after_insert(page, data) == after_find_free_slot(page)
            &&& !scan_finds_nothing(page) ==> after_insert(page, data) == page
            &&& header_of(after_insert(page, data)) == (PageHeaderSnapshot {
                flags: header_of(after_insert(page, data)).flags,
                ..header_of(page)
            })
            &&& header_of(after_insert(page, data)).flags & !FLAG_HAS_FREE_SLOTS == header_of(
                page,
            ).flags & !FLAG_HAS_FREE_SLOTS
            &&& forall|j: int|
                0 <= j < header_of(page).slot_count ==> #[trigger] slot_at(
                    after_insert(page, data),
                    j,
                ) == slot_at(page, j)
            &&& forall|i: int|
                SLOTTED_HEADER_SIZE <= i < PAGE_SIZE ==> #[trigger] after_insert(page, data)[i]
                    == page[i]
        },
{
    lemma_header_fault_iff_invalid(header_of(page));
    lemma_after_find_free_slot_shape(page);
    let f = header_of(page).flags;
    assert((f & !FLAG_HAS_FREE_SLOTS) & !FLAG_HAS_FREE_SLOTS == f & !FLAG_HAS_FREE_SLOTS)
        by (bit_vector);
}

/// Insert keeps a page valid, whether it succeeds or fails.
pub proof fn lemma_insert_preserves_valid(page: Seq<u8>, data: Seq<u8>)
    requires
        page_valid(page),
    ensures
        page_valid(after_insert(page, data)),
{
    let q = after_insert(page, data);
    lemma_header_fault_iff_invalid(header_of(page));
    lemma_after_find_free_slot_shape(page);
    if insert_outcome(page, data) is Ok {
        lemma_after_insert_shape(page, data);
        let id = insert_slot(page) as int;
        assert forall|i: int| 0 <= i < header_of(q).slot_count && live(q, i) implies tuple_in_area(
            q,
            i,
        ) by {
            if i != id {
                assert(slot_at(q, i) == slot_at(page, i));
                assert(tuple_in_area(page, i));
            }
        }
    } else {
        assert forall|i: int| 0 <= i < header_of(q).slot_count && live(q, i) implies tuple_in_area(
            q,
            i,
        ) by {
            assert(slot_at(q, i) == slot_at(page, i));
            assert(tuple_in_area(page, i));
        }
    }
}

/// Insert keeps the live tuples of a valid page apart.
pub proof fn lemma_insert_preserves_consistent(page: Seq<u8>, data: Seq<u8>)
    requires
        page_consistent(page),
    ensures
        page_consistent(after_insert(page, data)),
{
    let q = after_insert(page, data);
    lemma_insert_preserves_valid(page, data);
    lemma_header_fault_iff_invalid(header_of(page));
    lemma_after_find_free_slot_shape(page);
    if insert_outcome(page, data) is Ok {
        lemma_after_insert_shape(page, data);
        let id = insert_slot(page) as int;
        assert forall|i: int, j: int|
            0 <= i < j < header_of(q).slot_count && live(q, i) && live(q, j) implies tuples_apart(
            q,
            i,
            j,
        ) by {
            if i != id && j != id {
                assert(slot_at(q, i) == slot_at(page, i));
                assert(slot_at(q, j) == slot_at(page, j));
                assert(tuples_apart(page, i, j));
            } else if i != id {
                assert(slot_at(q, i) == slot_at(page, i));
                assert(tuple_in_area(page, i));
            } else {
                assert(slot_at(q, j) == slot_at(page, j));
                assert(tuple_in_area(page, j));
            }
        }
    } else {
        assert forall|i: int, j: int|
            0 <= i < j < header_of(q).slot_count && live(q, i) && live(q, j) implies tuples_apart(
            q,
            i,
            j,
        ) by {
            assert(slot_at(q, i) == slot_at(page, i));
            assert(slot_at(q, j) == slot_at(page, j));
            assert(tuples_apart(page, i, j));
        }
    }
}

/// On a page that announces no tombstone, an insert takes the next new
/// slot id and announces nothing either; a failed insert changes nothing.
pub proof fn lemma_insert_unannounced(page: Seq<u8>, data: Seq<u8>)
    requires
        unannounced(page),
    ensures
        unannounced(after_insert(page, data)),
        insert_outcome(page, data) is Ok ==> insert_outcome(page, data)->Ok_0 == header_of(
            page,
        ).slot_count && header_of(after_insert(page, data)).slot_count == header_of(
            page,
        ).slot_count + 1,
        insert_outcome(page, data) is Err ==> after_insert(page, data) == page,
{
    lemma_header_fault_iff_invalid(header_of(page));
    if insert_outcome(page, data) is Ok {
        lemma_after_insert_shape(page, data);
    }
}

/// Inserting one record more is one more insert.
pub proof fn lemma_after_inserts_step(page: Seq<u8>, records: Seq<Seq<u8>>, n: int)
    requires
        0 <= n < records.len(),
    ensures
        after_inserts(page, records.take(n + 1)) == after_insert(
            after_inserts(page, records.take(n)),
            records[n],
        ),
{
    assert(records.take(n + 1).drop_last() =~= records.take(n));
    assert(records.take(n + 1).last() == records[n]);
}

/// Any number of inserts into a page that announces no tombstone leaves
/// such a page, and never takes a slot away.
pub proof fn lemma_after_inserts_unannounced(page: Seq<u8>, records: Seq<Seq<u8>>, n: int)
    requires
        unannounced(page),
        0 <= n <= records.len(),
    ensures
        unannounced(after_inserts(page, records.take(n))),
        header_of(after_inserts(page, records.take(n))).slot_count >= header_of(page).slot_count,
    decreases n,
{
    if n == 0 {
        assert(records.take(0).len() == 0);
    } else {
        lemma_after_inserts_unannounced(page, records, n - 1);
        lemma_after_inserts_step(page, records, n - 1);
        lemma_insert_unannounced(after_inserts(page, records.take(n - 1)), records[n - 1]);
    }
}

/// Insert and get round trip: take a page that was just reset and insert
/// any records into it, one after the other. Then the slot that the insert
/// of record `k` returned holds exactly that record after any number `m` of
/// the inserts that follow, so a read finds it whenever it is made.
pub proof fn lemma_inserted_records_stay(
    page: Seq<u8>,
    page_type: u16,
    records: Seq<Seq<u8>>,
    k: int,
    m: int,
)
    requires
        page.len() == PAGE_SIZE,
        0 <= k < m <= records.len(),
        insert_outcome(after_inserts(initialized(page, page_type), records.take(k)), records[k])
            is Ok,
    ensures
        get_outcome(
            after_inserts(initialized(page, page_type), records.take(m)),
            insert_outcome(
                after_inserts(initialized(page, page_type), records.take(k)),
                records[k],
            )->Ok_0,
        ) == Ok::<Option<Seq<u8>>, DbError>(Some(records[k])),
        insert_outcome(
            after_inserts(initialized(page, page_type), records.take(k)),
            records[k],
        )->Ok_0 < header_of(
            after_inserts(initialized(page, page_type), records.take(m)),
        ).slot_count,
    decreases m,
{
    let fresh = initialized(page, page_type);
    lemma_initialized_page(page, page_type);
    let before = after_inserts(fresh, records.take(k));
    let id = insert_outcome(before, records[k])->Ok_0;
    lemma_after_inserts_unannounced(fresh, records, m - 1);
    lemma_after_inserts_step(fresh, records, m - 1);
    let prev = after_inserts(fresh, records.take(m - 1));
    lemma_insert_unannounced(prev, records[m - 1]);
    if m == k + 1 {
        lemma_insert_then_get(before, records[k]);
    } else {
        lemma_inserted_records_stay(page, page_type, records, k, m - 1);
        if insert_outcome(prev, records[m - 1]) is Ok {
            lemma_insert_keeps_others(prev, records[m - 1], id);
        }
    }
}

/// What a delete that is accepted leaves: the slot is a tombstone with
/// its offset and length kept, the page flags announce it if the slot was
/// live, and nothing else changes: no other header field, no other slot,
/// no byte behind the slot directory.
pub proof fn lemma_after_delete_shape(page: Seq<u8>, slot_id: u16)
    requires
        page.len() == PAGE_SIZE,
        delete_outcome(page, slot_id) is Ok,
    ensures
        after_delete(page, slot_id).len() == PAGE_SIZE,
        header_of(after_delete(page, slot_id)) == (PageHeaderSnapshot {
            flags: header_of(after_delete(page, slot_id)).flags,
            ..header_of(page)
        }),
        header_of(after_delete(page, slot_id)).flags == if live(page, slot_id as int) {
            header_of(page).flags | FLAG_HAS_FREE_SLOTS
        } else {
            header_of(page).flags
        },
        slot_at(after_delete(page, slot_id), slot_id as int) == slot_at(
            page,
            slot_id as int,
        ).marked_dead(),
        !live(after_delete(page, slot_id), slot_id as int),
        forall|j: int|
            0 <= j < header_of(page).slot_count && j != slot_id ==> #[trigger] slot_at(
                after_delete(page, slot_id),
                j,
            ) == slot_at(page, j),
        forall|i: int|
            header_of(page).lower <= i < PAGE_SIZE ==> #[trigger] after_delete(page, slot_id)[i]
                == page[i],
{
    let h = header_of(page);
    let id = slot_id as int;
    let s = slot_at(page, id);
    lemma_header_fault_iff_invalid(h);
    lemma_marked_dead(s);
    if !dead(s.flags) {
        let marked = with_slot(page, id, s.marked_dead());
        let flags = h.flags | FLAG_HAS_FREE_SLOTS;
        lemma_overwrite(page, slot_pos(id), slot_bytes(s.marked_dead()));
        lemma_header_untouched(page, slot_pos(id), slot_bytes(s.marked_dead()));
        lemma_slot_roundtrip(page, id, s.marked_dead());
        lemma_set_flags(marked, flags);
        let q = with_flags(marked, flags);
        assert(q == after_delete(page, slot_id));
        assert forall|j: int| 0 <= j < h.slot_count && j != id implies slot_at(q, j) == slot_at(
            page,
            j,
        ) by {
            lemma_slot_untouched(page, slot_pos(id), slot_bytes(s.marked_dead()), j);
            assert(slot_at(q, j) == slot_at(marked, j));
        }
        assert(slot_at(q, id) == slot_at(marked, id));
        assert forall|i: int| h.lower <= i < PAGE_SIZE implies q[i] == page[i] by {
            assert(q[i] == marked[i]);
        }
    }
}

/// Delete, then get: the slot of an accepted delete reads as `None`.
pub proof fn lemma_delete_then_get(page: Seq<u8>, slot_id: u16)
    requires
        page.len() == PAGE_SIZE,
        delete_outcome(page, slot_id) is Ok,
    ensures
        get_outcome(after_delete(page, slot_id), slot_id) == Ok::<Option<Seq<u8>>, DbError>(None),
{
    lemma_after_delete_shape(page, slot_id);
    lemma_header_fault_iff_invalid(header_of(page));
    lemma_header_fault_iff_invalid(header_of(after_delete(page, slot_id)));
}

/// Space accounting of delete: a tombstone gives no space back.
pub proof fn lemma_delete_space(page: Seq<u8>, slot_id: u16)
    requires
        page.len() == PAGE_SIZE,
    ensures
        free_bytes(after_delete(page, slot_id)) == free_bytes(page),
        header_of(after_delete(page, slot_id)).slot_count == header_of(page).slot_count,
{
    if delete_outcome(page, slot_id) is Ok {
        lemma_after_delete_shape(page, slot_id);
    }
}

/// A delete disturbs no other record.
pub proof fn lemma_delete_keeps_others(page: Seq<u8>, slot_id: u16, other: u16)
    requires
        page.len() == PAGE_SIZE,
        other != slot_id,
    ensures
        get_outcome(after_delete(page, slot_id), other) == get_outcome(page, other),
{
    if delete_outcome(page, slot_id) is Ok {
        let q = after_delete(page, slot_id);
        lemma_after_delete_shape(page, slot_id);
        lemma_header_fault_iff_invalid(header_of(page));
        lemma_header_fault_iff_invalid(header_of(q));
        if other < header_of(page).slot_count {
            assert(slot_at(q, other as int) == slot_at(page, other as int));
            let s = slot_at(page, other as int);
            if !dead(s.flags) && s.offset >= header_of(page).upper && s.end() <= PAGE_SIZE {
                assert(tuple_bytes(q, other as int) =~= tuple_bytes(page, other as int));
            }
        }
    }
}

/// Delete keeps a page valid, and keeps its live tuples apart.
pub proof fn lemma_delete_preserves_valid(page: Seq<u8>, slot_id: u16)
    ensures
        page_valid(page) ==> page_valid(after_delete(page, slot_id)),
        page_consistent(page) ==> page_consistent(after_delete(page, slot_id)),
{
    if page_valid(page) && delete_outcome(page, slot_id) is Ok {
        let q = after_delete(page, slot_id);
        lemma_after_delete_shape(page, slot_id);
        assert forall|i: int| 0 <= i < header_of(q).slot_count && live(q, i) implies tuple_in_area(
            q,
            i,
        ) by {
            assert(slot_at(q, i) == slot_at(page, i));
            assert(tuple_in_area(page, i));
        }
        if page_consistent(page) {
            assert forall|i: int, j: int|
                0 <= i < j < header_of(q).slot_count && live(q, i) && live(q, j) implies tuples_apart(
                q,
                i,
                j,
            ) by {
                assert(slot_at(q, i) == slot_at(page, i));
                assert(slot_at(q, j) == slot_at(page, j));
                assert(tuples_apart(page, i, j));
            }
        }
    }
}

/// Delete, then reuse: when the delete of a record leaves `slot_id` as the
/// lowest tombstone of the page, the next insert that succeeds returns
/// `slot_id` again, the slot then reads as the inserted payload,
/// `slot_count` is what it was before the delete, and the free space has
/// shrunk by the payload alone.
///
/// A delete of what was a tombstone already announces nothing; the law
/// then holds where the page had announced that tombstone before.
pub proof fn lemma_delete_then_insert_reuses(page: Seq<u8>, slot_id: u16, data: Seq<u8>)
    requires
        page.len() == PAGE_SIZE,
        delete_outcome(page, slot_id) is Ok,
        live(page, slot_id as int) || announces_free_slot(page),
        forall|j: int| 0 <= j < slot_id ==> live(page, j),
        insert_outcome(after_delete(page, slot_id), data) is Ok,
    ensures
        insert_outcome(after_delete(page, slot_id), data) == Ok::<u16, DbError>(slot_id),
        get_outcome(after_insert(after_delete(page, slot_id), data), slot_id) == Ok::<
            Option<Seq<u8>>,
            DbError,
        >(Some(data)),
        header_of(after_insert(after_delete(page, slot_id), data)).slot_count == header_of(
            page,
        ).slot_count,
        free_bytes(after_insert(after_delete(page, slot_id), data)) == free_bytes(page)
            - data.len(),
{
    let p1 = after_delete(page, slot_id);
    lemma_after_delete_shape(page, slot_id);
    lemma_header_fault_iff_invalid(header_of(page));
    lemma_marked_dead(slot_at(page, slot_id as int));
    let f = header_of(page).flags;
    assert((f | FLAG_HAS_FREE_SLOTS) & FLAG_HAS_FREE_SLOTS != 0) by (bit_vector);
    assert(announces_free_slot(p1));
    assert forall|j: int| 0 <= j < slot_id implies live(p1, j) by {
        assert(slot_at(p1, j) == slot_at(page, j));
        assert(live(page, j));
    }
    lemma_header_fault_iff_invalid(header_of(p1));
    assert(first_dead(p1, slot_id as int));
    lemma_reusable_is_first_dead(p1, slot_id as int);
    lemma_insert_then_get(p1, data);
    lemma_after_insert_shape(p1, data);
}

/// What an update in place leaves: the payload at the old offset, the
/// rest of the old tuple zeroed, the slot shortened to the payload with
/// its offset and flags kept, and nothing else changed: not the header,
/// not another slot, not a byte of the tuple area outside the old tuple.
pub proof fn lemma_after_update_in_place(page: Seq<u8>, slot_id: u16, data: Seq<u8>)
    requires
        page.len() == PAGE_SIZE,
        update_outcome(page, slot_id, data) == Ok::<bool, DbError>(false),
    ensures
        after_update(page, slot_id, data).len() == PAGE_SIZE,
        header_of(after_update(page, slot_id, data)) == header_of(page),
        slot_at(after_update(page, slot_id, data), slot_id as int) == (Slot {
            len: data.len() as u16,
            ..slot_at(page, slot_id as int)
        }),
        forall|j: int|
            0 <= j < header_of(page).slot_count && j != slot_id ==> #[trigger] slot_at(
                after_update(page, slot_id, data),
                j,
            ) == slot_at(page, j),
        forall|i: int|
            header_of(page).lower <= i < PAGE_SIZE ==> #[trigger] after_update(
                page,
                slot_id,
                data,
            )[i] == {
                let s = slot_at(page, slot_id as int);
                if s.offset <= i < s.offset + data.len() {
                    data[i - s.offset]
                } else if s.offset + data.len() <= i < s.end() {
                    0u8
                } else {
                    page[i]
                }
            },
{
    let h = header_of(page);
    let id = slot_id as int;
    let s = slot_at(page, id);
    let n = data.len() as int;
    let slot = Slot { offset: s.offset, len: n as u16, flags: s.flags };
    lemma_header_fault_iff_invalid(h);
    let p1 = overwrite(page, s.offset as int, data);
    let p2 = overwrite(p1, s.offset + n, zeros(s.len - n));
    let q = with_slot(p2, id, slot);
    assert(q == after_update(page, slot_id, data));
    lemma_overwrite(page, s.offset as int, data);
    lemma_overwrite(p1, s.offset + n, zeros(s.len - n));
    lemma_overwrite(p2, slot_pos(id), slot_bytes(slot));
    lemma_header_untouched(page, s.offset as int, data);
    lemma_header_untouched(p1, s.offset + n, zeros(s.len - n));
    lemma_header_untouched(p2, slot_pos(id), slot_bytes(slot));
    lemma_slot_roundtrip(p2, id, slot);
    assert forall|j: int| 0 <= j < h.slot_count && j != id implies slot_at(q, j) == slot_at(
        page,
        j,
    ) by {
        lemma_slot_untouched(page, s.offset as int, data, j);
        lemma_slot_untouched(p1, s.offset + n, zeros(s.len - n), j);
        lemma_slot_untouched(p2, slot_pos(id), slot_bytes(slot), j);
    }
}

/// What an update that moves the tuple leaves: the payload directly below
/// the old `upper`, the slot pointed at it with its flags kept, `upper`
/// moved down by the payload, and nothing else changed: not another header
/// field, not another slot, not a byte of the old tuple area.
pub proof fn lemma_after_update_moved(page: Seq<u8>, slot_id: u16, data: Seq<u8>)
    requires
        page.len() == PAGE_SIZE,
        update_outcome(page, slot_id, data) == Ok::<bool, DbError>(true),
    ensures
        after_update(page, slot_id, data).len() == PAGE_SIZE,
        header_of(after_update(page, slot_id, data)) == (PageHeaderSnapshot {
            upper: (header_of(page).upper - data.len()) as u16,
            ..header_of(page)
        }),
        header_of(page).upper - data.len() >= header_of(page).lower,
        slot_at(after_update(page, slot_id, data), slot_id as int) == (Slot {
            offset: (header_of(page).upper - data.len()) as u16,
            len: data.len() as u16,
            flags: slot_at(page, slot_id as int).flags,
        }),
        forall|j: int|
            0 <= j < header_of(page).slot_count && j != slot_id ==> #[trigger] slot_at(
                after_update(page, slot_id, data),
                j,
            ) == slot_at(page, j),
        forall|i: int|
            header_of(page).upper - data.len() <= i < PAGE_SIZE ==> #[trigger] after_update(
                page,
                slot_id,
                data,
            )[i] == if i < header_of(page).upper {
                data[i - (header_of(page).upper - data.len())]
            } else {
                page[i]
            },
{
    let h = header_of(page);
    let id = slot_id as int;
    let s = slot_at(page, id);
    let n = data.len() as int;
    let new_upper = (h.upper - n) as u16;
    let slot = Slot { offset: new_upper, len: n as u16, flags: s.flags };
    lemma_header_fault_iff_invalid(h);
    let p2 = with_slot(overwrite(page, new_upper as int, data), id, slot);
    lemma_place_tuple(page, new_upper as int, data, id, slot);
    let q = with_upper(p2, new_upper);
    assert(q == after_update(page, slot_id, data));
    lemma_set_upper(p2, new_upper);
    assert forall|j: int| 0 <= j < h.slot_count && j != id implies slot_at(q, j) == slot_at(
        page,
        j,
    ) by {
        assert(slot_at(q, j) == slot_at(p2, j));
        assert(slot_at(p2, j) == slot_at(page, j));
    }
    assert(slot_at(q, id) == slot_at(p2, id));
    assert forall|i: int| new_upper <= i < PAGE_SIZE implies q[i] == if i < h.upper {
        data[i - new_upper]
    } else {
        page[i]
    } by {
        assert(q[i] == p2[i]);
    }
}

/// Update in place or move: an update that succeeds answers `false`
/// exactly for a payload that is no longer than the old tuple, and then
/// leaves `upper` where it was; it answers `true` for a longer payload, and
/// then moves `upper` down by the payload. Either way the slot reads as the
/// new payload afterwards.
pub proof fn lemma_update_then_get(page: Seq<u8>, slot_id: u16, data: Seq<u8>)
    requires
        page.len() == PAGE_SIZE,
        update_outcome(page, slot_id, data) is Ok,
    ensures
        get_outcome(after_update(page, slot_id, data), slot_id) == Ok::<
            Option<Seq<u8>>,
            DbError,
        >(Some(data)),
        update_outcome(page, slot_id, data)->Ok_0 == (data.len() > slot_at(
            page,
            slot_id as int,
        ).len),
        !update_outcome(page, slot_id, data)->Ok_0 ==> header_of(
            after_update(page, slot_id, data),
        ).upper == header_of(page).upper,
        update_outcome(page, slot_id, data)->Ok_0 ==> header_of(
            after_update(page, slot_id, data),
        ).upper == header_of(page).upper - data.len() && header_of(
            after_update(page, slot_id, data),
        ).upper < header_of(page).upper,
{
    let q = after_update(page, slot_id, data);
    lemma_header_fault_iff_invalid(header_of(page));
    if update_outcome(page, slot_id, data)->Ok_0 {
        lemma_after_update_moved(page, slot_id, data);
    } else {
        lemma_after_update_in_place(page, slot_id, data);
    }
    lemma_header_fault_iff_invalid(header_of(q));
    assert(tuple_bytes(q, slot_id as int) =~= data);
}

/// Space accounting of update: in place it takes nothing from the free
/// space, a move takes the payload; the slot directory never changes.
pub proof fn lemma_update_space(page: Seq<u8>, slot_id: u16, data: Seq<u8>)
    requires
        page.len() == PAGE_SIZE,
    ensures
        free_bytes(after_update(page, slot_id, data)) == free_bytes(page) - if update_outcome(
            page,
            slot_id,
            data,
        ) == Ok::<bool, DbError>(true) {
            data.len() as int
        } else {
            0
        },
        header_of(after_update(page, slot_id, data)).slot_count == header_of(page).slot_count,
        header_of(after_update(page, slot_id, data)).lower == header_of(page).lower,
{
    if update_outcome(page, slot_id, data) is Ok {
        if update_outcome(page, slot_id, data)->Ok_0 {
            lemma_after_update_moved(page, slot_id, data);
        } else {
            lemma_after_update_in_place(page, slot_id, data);
        }
    }
}

/// An update disturbs no other record, as long as the tuple that it
/// overwrites in place shares no byte with the other record.
pub proof fn lemma_update_keeps_others(page: Seq<u8>, slot_id: u16, data: Seq<u8>, other: u16)
    requires
        page.len() == PAGE_SIZE,
        other != slot_id,
        get_outcome(page, other) is Ok,
        update_outcome(page, slot_id, data) == Ok::<bool, DbError>(false) ==> tuples_apart(
            page,
            slot_id as int,
            other as int,
        ),
    ensures
        get_outcome(after_update(page, slot_id, data), other) == get_outcome(page, other),
{
    let q = after_update(page, slot_id, data);
    lemma_header_fault_iff_invalid(header_of(page));
    if update_outcome(page, slot_id, data) is Ok {
        if update_outcome(page, slot_id, data)->Ok_0 {
            lemma_after_update_moved(page, slot_id, data);
        } else {
            lemma_after_update_in_place(page, slot_id, data);
        }
        lemma_header_fault_iff_invalid(header_of(q));
        assert(slot_at(q, other as int) == slot_at(page, other as int));
        if !dead(slot_at(page, other as int).flags) {
            assert(tuple_bytes(q, other as int) =~= tuple_bytes(page, other as int));
        }
    }
}

/// Update keeps a page valid, and keeps its live tuples apart.
pub proof fn lemma_update_preserves_valid(page: Seq<u8>, slot_id: u16, data: Seq<u8>)
    ensures
        page_valid(page) ==> page_valid(after_update(page, slot_id, data)),
        page_consistent(page) ==> page_consistent(after_update(page, slot_id, data)),
{
    if page_valid(page) && update_outcome(page, slot_id, data) is Ok {
        let q = after_update(page, slot_id, data);
        if update_outcome(page, slot_id, data)->Ok_0 {
            lemma_after_update_moved(page, slot_id, data);
        } else {
            lemma_after_update_in_place(page, slot_id, data);
        }
        assert forall|i: int| 0 <= i < header_of(q).slot_count && live(q, i) implies tuple_in_area(
            q,
            i,
        ) by {
            if i != slot_id {
                assert(slot_at(q, i) == slot_at(page, i));
                assert(tuple_in_area(page, i));
            } else {
                assert(tuple_in_area(page, i));
            }
        }
        if page_consistent(page) {
            assert forall|i: int, j: int|
                0 <= i < j < header_of(q).slot_count && live(q, i) && live(q, j) implies tuples_apart(
                q,
                i,
                j,
            ) by {
                assert(tuple_in_area(page, i));
                assert(tuple_in_area(page, j));
                assert(tuples_apart(page, i, j));
                if i != slot_id {
                    assert(slot_at(q, i) == slot_at(page, i));
                }
                if j != slot_id {
                    assert(slot_at(q, j) == slot_at(page, j));
                }
            }
        }
    }
}

/// No partial mutation: an operation that fails leaves the page as it
/// was. The one exception is an insert that runs out of space after its
/// scan for a tombstone has cleared a stale announcement; that it changes
/// nothing else is `lemma_insert_no_space`.
pub proof fn lemma_failure_changes_nothing(page: Seq<u8>, slot_id: u16, data: Seq<u8>)
    ensures
        header_fault(header_of(page)) is Some ==> after_insert(page, data) == page,
        insert_outcome(page, data) is Err && !scan_finds_nothing(page) ==> after_insert(
            page,
            data,
        ) == page,
        update_outcome(page, slot_id, data) is Err ==> after_update(page, slot_id, data) == page,
        delete_outcome(page, slot_id) is Err ==> after_delete(page, slot_id) == page,
{
}

/// No operation takes a slot away: `slot_count` grows by one when an
/// insert makes a new slot, and stays in every other case.
pub proof fn lemma_slot_count_never_decreases(page: Seq<u8>, slot_id: u16, data: Seq<u8>)
    requires
        page.len() == PAGE_SIZE,
    ensures
        header_of(after_find_free_slot(page)).slot_count == header_of(page).slot_count,
        header_of(after_insert(page, data)).slot_count == header_of(page).slot_count
            + if insert_outcome(page, data) is Ok && reusable_slot(page) is None {
            1int
        } else {
            0
        },
        header_of(after_update(page, slot_id, data)).slot_count == header_of(page).slot_count,
        header_of(after_delete(page, slot_id)).slot_count == header_of(page).slot_count,
{
    lemma_after_find_free_slot_shape(page);
    if insert_outcome(page, data) is Ok {
        lemma_after_insert_shape(page, data);
    }
    lemma_update_space(page, slot_id, data);
    lemma_delete_space(page, slot_id);
}

} // verus!
