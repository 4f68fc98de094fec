//! Record-level operations on one page laid out as a slotted page.
//!
//! The header sits at the start of the page, the slot directory grows
//! upward behind it and the tuples grow downward from the end of the page;
//! the bytes between `lower` and `upper` are free.

use vstd::prelude::*;

use crate::constants::PAGE_SIZE;
use crate::error::{DbError, DbResult};
use crate::page::header::{self, header_of, initialized, wrong_page_size};
use crate::page::model::{
    after_delete, after_find_free_slot, after_insert, after_update, announces_free_slot,
    delete_outcome, find_free_slot_outcome, free_space_outcome, get_outcome, header_fault,
    insert_outcome, lemma_full_scan_clean, lemma_full_scan_fault, lemma_reusable_is_first_dead,
    lemma_reusable_none, live, slot_fault, tuple_answer, update_outcome, validate_full_outcome,
    validate_header_outcome, MAX_SLOTS,
};
use crate::page::frame::lemma_header_untouched;
use crate::page::laws::{lemma_after_find_free_slot_shape, lemma_reusable_slot_is_tombstone};
use crate::page::raw::{copy_into, zero_range};
use crate::page::slot::{self, slot_bytes, slot_pos, Slot};
use crate::page::{SLOTTED_HEADER_SIZE, SLOTTED_SLOT_SIZE};

verus! {

/// A view of one page-sized buffer as a slotted page.
///
/// The view borrows the buffer for its lifetime and neither owns nor
/// allocates it. It caches nothing: every operation decodes what it needs
/// from the bytes and encodes what it changes back into them.
pub struct SlottedPage<'a> {
    /// The wrapped buffer: the page itself, not a copy of it.
    pub buf: &'a mut [u8],
}

impl<'a> View for SlottedPage<'a> {
    type V = Seq<u8>;

    /// The bytes of the page as they are now.
    open spec fn view(&self) -> Seq<u8> {
        self.buf@
    }
}

impl<'a> SlottedPage<'a> {
    /// Whether the view wraps exactly one page. `new` makes only such
    /// views, and every operation keeps them so.
    pub open spec fn wf(&self) -> bool {
        self@.len() == PAGE_SIZE
    }

    /// Wraps a buffer of exactly `PAGE_SIZE` bytes; a buffer of any other
    /// length is refused as corruption.
    ///
    /// The bytes are not touched: a buffer that holds no page yet may be
    /// wrapped, and is made a page by `init`.
    pub fn new(buf: &'a mut [u8]) -> (r: DbResult<Self>)
        ensures
            old(buf)@.len() == PAGE_SIZE ==> r is Ok && r->Ok_0.wf() && r->Ok_0@ == old(buf)@
                && final(r->Ok_0.buf)@ == final(buf)@,
            old(buf)@.len() != PAGE_SIZE ==> r is Err && r->Err_0 == wrong_page_size(),
            old(buf)@.len() != PAGE_SIZE ==> final(buf)@ == old(buf)@,
    {
        if buf.len() != PAGE_SIZE {
            return Err(DbError::Corruption("buffer length must equal PAGE_SIZE"));
        }
        Ok(SlottedPage { buf })
    }

    /// Resets the page to the empty page of the given type: `lower = 16`,
    /// `upper = PAGE_SIZE`, no slots, `flags = page_type & 0x000F`.
    pub fn init(self, page_type: u16) -> (r: DbResult<Self>)
        requires
            self.wf(),
        ensures
            r is Ok,
            r->Ok_0.wf(),
            r->Ok_0@ == initialized(self@, page_type),
            final(r->Ok_0.buf)@ == final(self.buf)@,
    {
        let mut this = self;
        header::init_empty(this.buf, page_type)?;
        Ok(this)
    }

    /// Checks the header invariant and reports the first condition that
    /// fails.
    pub fn validate_header(&self) -> (r: DbResult<()>)
        requires
            self.wf(),
        ensures
            r == validate_header_outcome(self@),
    {
        let lo = header::lower(self.buf)? as usize;
        let up = header::upper(self.buf)? as usize;
        let sc = header::slot_count(self.buf)? as usize;
        if lo < SLOTTED_HEADER_SIZE {
            return Err(DbError::Corruption("corrupt header: lower < header size"));
        }
        if up > PAGE_SIZE {
            return Err(DbError::Corruption("corrupt header: upper > PAGE_SIZE"));
        }
        if lo > up {
            return Err(DbError::Corruption("corrupt header: lower > upper"));
        }
        let expected_lo = SLOTTED_HEADER_SIZE + sc * SLOTTED_SLOT_SIZE;
        if expected_lo > PAGE_SIZE {
            return Err(DbError::Corruption("corrupt header: slot directory out of page"));
        }
        if lo != expected_lo {
            return Err(
                DbError::Corruption("corrupt header: lower != header_size + slot_count*slot_size"),
            );
        }
        Ok(())
    }

    /// The free bytes between the slot directory and the tuple area,
    /// `upper - lower`.
    pub fn free_space(&self) -> (r: DbResult<u16>)
        requires
            self.wf(),
        ensures
            r == free_space_outcome(self@),
    {
        let up = header::upper(self.buf)?;
        let lo = header::lower(self.buf)?;
        if lo > up {
            return Err(DbError::Corruption("corrupt header: lower > upper"));
        }
        Ok(up - lo)
    }

    /// The tuple of `slot_id`, borrowed from the page; `None` for a
    /// tombstone.
    pub fn get(&self, slot_id: u16) -> (r: DbResult<Option<&[u8]>>)
        requires
            self.wf(),
        ensures
            tuple_answer(r) == get_outcome(self@, slot_id),
    {
        self.validate_header()?;
        let sc = header::slot_count(self.buf)?;
        if slot_id >= sc {
            return Err(DbError::InvalidArgument("invalid slot_id"));
        }
        let slot = slot::read_slot(self.buf, slot_id)?;
        if slot::is_dead(slot.flags()) {
            return Ok(None);
        }
        let start = slot.offset() as usize;
        let up = header::upper(self.buf)? as usize;
        if start < up {
            return Err(DbError::Corruption("tuple overlaps free space"));
        }
        let len = slot.len() as usize;
        let end = start + len;
        if end > PAGE_SIZE {
            return Err(DbError::Corruption("tuple end must be <= PAGE_SIZE"));
        }
        Ok(Some(&self.buf[start..end]))
    }

    /// Checks the header invariant and then scans every slot: the tuple of
    /// each live slot must lie inside `[upper, PAGE_SIZE)`. The lowest slot
    /// that fails is reported.
    pub fn validate_full(&self) -> (r: DbResult<()>)
        requires
            self.wf(),
        ensures
            r == validate_full_outcome(self@),
    {
        self.validate_header()?;
        let up = header::upper(self.buf)? as usize;
        let sc = header::slot_count(self.buf)?;
        let mut slot_id: u16 = 0;
        while slot_id < sc
            invariant
                self.wf(),
                header_fault(header_of(self@)) is None,
                up == header_of(self@).upper,
                sc == header_of(self@).slot_count,
                slot_id <= sc,
                forall|j: int| 0 <= j < slot_id ==> slot_fault(self@, j) is None,
            decreases sc - slot_id,
        {
            let s = slot::read_slot(self.buf, slot_id)?;
            if !slot::is_dead(s.flags()) {
                let start = s.offset() as usize;
                let len = s.len() as usize;
                let end = start + len;
                if end > PAGE_SIZE {
                    proof {
                        lemma_full_scan_fault(self@, slot_id as int);
                    }
                    return Err(DbError::Corruption("corrupt slot: tuple out of bounds"));
                }
                if start < up {
                    proof {
                        lemma_full_scan_fault(self@, slot_id as int);
                    }
                    return Err(DbError::Corruption("corrupt slot: tuple overlaps free space"));
                }
            }
            slot_id += 1;
        }
        proof {
            lemma_full_scan_clean(self@);
        }
        Ok(())
    }

    /// Looks for a tombstone that an insert can reuse and returns the
    /// lowest one.
    ///
    /// The directory is scanned only when the page flags announce a
    /// tombstone. A scan that reads every slot and finds none clears the
    /// announcement, so that later inserts skip the scan.
    pub fn find_free_slot(&mut self) -> (r: DbResult<Option<u16>>)
        requires
            old(self).wf(),
        ensures
            final(self).wf(),
            r == find_free_slot_outcome(old(self)@),
            final(self)@ == after_find_free_slot(old(self)@),
            final(final(self).buf)@ == final(old(self).buf)@,
    {
        let page_flags = header::flags(self.buf)?;
        if (page_flags & header::FLAG_HAS_FREE_SLOTS) == 0 {
            return Ok(None);
        }
        let sc = header::slot_count(self.buf)?;
        let mut i: u16 = 0;
        while i < sc
            invariant
                self@ == old(self)@,
                self.wf(),
                final(self.buf)@ == final(old(self).buf)@,
                announces_free_slot(self@),
                sc == header_of(self@).slot_count,
                i <= sc,
                i <= MAX_SLOTS,
                forall|j: int| 0 <= j < i ==> live(self@, j),
            decreases sc - i,
        {
            if i as usize >= MAX_SLOTS {
                proof {
                    lemma_reusable_none(self@);
                }
            }
            let slot = slot::read_slot(self.buf, i)?;
            if slot::is_dead(slot.flags()) {
                proof {
                    lemma_reusable_is_first_dead(self@, i as int);
                }
                return Ok(Some(i));
            }
            i += 1;
        }
        proof {
            lemma_reusable_none(self@);
        }
        let new_flags = header::clear_flag(page_flags, header::FLAG_HAS_FREE_SLOTS);
        header::set_flags(self.buf, new_flags)?;
        Ok(None)
    }

    /// Inserts `data` as a new tuple and returns its slot id.
    ///
    /// A tombstone is reused where the page announces one and the scan
    /// finds it; otherwise the slot directory grows by one entry. The
    /// payload is carved out of the top of the free space, so neither the
    /// tuple nor the slot of any other record moves. Without enough free
    /// bytes for the payload, and for the new entry if there is one, the
    /// insert fails with `NoSpace`; so does a payload too long for the
    /// 16-bit length of a slot, which no page has room for.
    pub fn insert(&mut self, data: &[u8]) -> (r: DbResult<u16>)
        requires
            old(self).wf(),
        ensures
            final(self).wf(),
            r == insert_outcome(old(self)@, data@),
            final(self)@ == after_insert(old(self)@, data@),
            final(final(self).buf)@ == final(old(self).buf)@,
    {
        self.validate_header()?;
        let up = header::upper(self.buf)?;
        let slot_count = header::slot_count(self.buf)?;
        let reuse_id = self.find_free_slot()?;
        proof {
            lemma_reusable_slot_is_tombstone(old(self)@);
            lemma_after_find_free_slot_shape(old(self)@);
        }
        let slot_id = match reuse_id {
            Some(id) => id,
            None => slot_count,
        };
        let need_slot: usize = if reuse_id.is_some() {
            0
        } else {
            SLOTTED_SLOT_SIZE
        };
        let free = self.free_space()? as usize;
        if data.len() > free || need_slot > free - data.len() {
            return Err(DbError::NoSpace("not enough space"));
        }
        let need_data_len = data.len() as u16;
        let upper_new = up - need_data_len;
        copy_into(self.buf, upper_new as usize, data);
        slot::write_slot(self.buf, slot_id, &Slot::new(upper_new, need_data_len, 0))?;
        if reuse_id.is_none() {
            assert((slot_count + 1) * SLOTTED_SLOT_SIZE <= PAGE_SIZE - SLOTTED_HEADER_SIZE);
            header::set_slot_count(self.buf, slot_count + 1)?;
            let lower_new = SLOTTED_HEADER_SIZE as u16 + (slot_count + 1)
                * SLOTTED_SLOT_SIZE as u16;
            header::set_lower(self.buf, lower_new)?;
        }
        header::set_upper(self.buf, upper_new)?;
        Ok(slot_id)
    }

    /// Replaces the tuple of `slot_id` by `data` and tells whether the tuple
    /// moved.
    ///
    /// A payload no longer than the old one is written in place: the slot
    /// keeps its offset, the rest of the old tuple is zeroed, `upper` stays
    /// and the answer is `false`. A longer payload is carved out of the top
    /// of the free space under the same slot id, the old bytes become
    /// garbage and the answer is `true`.
    ///
    /// Before anything is written in place, the old tuple is held against
    /// the tuple area as `get` does, so that a slot that points elsewhere
    /// is reported as corruption and nothing outside the tuple area is
    /// overwritten.
    pub fn update(&mut self, slot_id: u16, data: &[u8]) -> (r: DbResult<bool>)
        requires
            old(self).wf(),
        ensures
            final(self).wf(),
            r == update_outcome(old(self)@, slot_id, data@),
            final(self)@ == after_update(old(self)@, slot_id, data@),
            final(final(self).buf)@ == final(old(self).buf)@,
    {
        self.validate_header()?;
        let sc = header::slot_count(self.buf)?;
        if slot_id >= sc {
            return Err(DbError::InvalidArgument("invalid slot_id"));
        }
        let s = slot::read_slot(self.buf, slot_id)?;
        if slot::is_dead(s.flags()) {
            return Err(DbError::Corruption("slot is dead"));
        }
        let old_len = s.len() as usize;
        if data.len() <= old_len {
            let start = s.offset() as usize;
            let up = header::upper(self.buf)? as usize;
            if start < up {
                return Err(DbError::Corruption("tuple overlaps free space"));
            }
            let end_old = start + old_len;
            if end_old > PAGE_SIZE {
                return Err(DbError::Corruption("tuple end must be <= PAGE_SIZE"));
            }
            let need = data.len() as u16;
            let end_new = start + data.len();
            copy_into(self.buf, start, data);
            zero_range(self.buf, end_new, end_old);
            slot::write_slot(self.buf, slot_id, &Slot::new(s.offset(), need, s.flags()))?;
            return Ok(false);
        }
        let free = self.free_space()? as usize;
        if data.len() > free {
            return Err(DbError::NoSpace("not enough space"));
        }
        let need = data.len() as u16;
        let up = header::upper(self.buf)?;
        let upper_new = up - need;
        copy_into(self.buf, upper_new as usize, data);
        slot::write_slot(self.buf, slot_id, &Slot::new(upper_new, need, s.flags()))?;
        header::set_upper(self.buf, upper_new)?;
        Ok(true)
    }

    /// Turns the slot `slot_id` into a tombstone and announces it in the
    /// page flags; deleting a tombstone again changes nothing.
    ///
    /// The tuple bytes and the free space stay as they are: the space comes
    /// back only when an insert reuses the slot.
    pub fn delete(&mut self, slot_id: u16) -> (r: DbResult<()>)
        requires
            old(self).wf(),
        ensures
            final(self).wf(),
            r == delete_outcome(old(self)@, slot_id),
            final(self)@ == after_delete(old(self)@, slot_id),
            final(final(self).buf)@ == final(old(self).buf)@,
    {
        self.validate_header()?;
        let sc = header::slot_count(self.buf)?;
        if slot_id >= sc {
            return Err(DbError::InvalidArgument("invalid slot_id"));
        }
        let mut s = slot::read_slot(self.buf, slot_id)?;
        if slot::is_dead(s.flags()) {
            return Ok(());
        }
        s.mark_flags_dead();
        slot::write_slot(self.buf, slot_id, &s)?;
        proof {
            lemma_header_untouched(old(self)@, slot_pos(slot_id as int), slot_bytes(s));
        }
        let page_flags = header::flags(self.buf)?;
        let new_flags = header::set_flag(page_flags, header::FLAG_HAS_FREE_SLOTS);
        header::set_flags(self.buf, new_flags)?;
        Ok(())
    }
}

} // verus!
