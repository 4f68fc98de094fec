//! A page store that lives in memory.
//!
//! It holds its pages in a vector and hands out page ids as a file-backed
//! store does, so it can stand in for one wherever no file is wanted.

use vstd::prelude::*;
use vstd::slice::slice_to_vec;

use crate::constants::PAGE_SIZE;
use crate::error::{DbError, DbResult};
use crate::page::raw::{copy_into, lemma_overwrite, zeros};
use crate::pager::file::{check_page_buffer, PageAllocator};
use crate::pager::pager::{page_access_outcome, Pager, META_PAGE};
use crate::types::{PageId, INVALID_PAGE};

verus! {

/// A page store in memory.
pub struct MemPager {
    store: Vec<Vec<u8>>,
    ids: PageAllocator,
}

impl MemPager {
    /// The pages of the store, by page id.
    pub closed spec fn pages(&self) -> Seq<Seq<u8>> {
        Seq::new(self.store@.len(), |i: int| self.store@[i]@)
    }

    /// The freed page ids that wait for reuse, the one freed last at the
    /// end.
    pub closed spec fn free_list(&self) -> Seq<PageId> {
        self.ids.free_list()
    }

    /// Whether page `pid` is handed out: a page of the store that is neither
    /// the meta page nor free.
    pub open spec fn in_use(&self, pid: PageId) -> bool {
        &&& META_PAGE < pid.0 < self.pages().len()
        &&& !self.free_list().contains(pid)
    }

    /// The invariant of the store: every page is one page long, and the
    /// bookkeeping of page ids agrees with the pages that are held.
    pub closed spec fn inv(&self) -> bool {
        &&& self.ids.wf()
        &&& self.ids.next().0 == self.store@.len()
        &&& self.store@.len() <= INVALID_PAGE
        &&& forall|i: int|
            0 <= i < self.store@.len() ==> (#[trigger] self.store@[i])@.len() == PAGE_SIZE
    }

    /// What holds of every usable store: it holds the meta page, every page
    /// is one page long, and every free id denotes a page of the store
    /// other than the meta page.
    pub proof fn lemma_inv(&self)
        requires
            self.inv(),
        ensures
            1 <= self.pages().len() <= INVALID_PAGE,
            forall|i: int| 0 <= i < self.pages().len() ==> (#[trigger] self.pages()[i]).len()
                == PAGE_SIZE,
            forall|i: int|
                0 <= i < self.free_list().len() ==> META_PAGE < (#[trigger] self.free_list()[i]).0
                    < self.pages().len(),
            forall|i: int, j: int|
                0 <= i < j < self.free_list().len() ==> self.free_list()[i] != self.free_list()[j],
    {
    }

    /// A new store: the zeroed meta page and nothing else.
    pub fn new() -> (p: MemPager)
        ensures
            p.inv(),
            p.pages() == seq![zeros(PAGE_SIZE as int)],
            p.free_list() == Seq::<PageId>::empty(),
    {
        let mut store: Vec<Vec<u8>> = Vec::new();
        store.push(zeroed_page());
        let p = MemPager { store, ids: PageAllocator::new(PageId(1)) };
        assert(p.pages() =~= seq![zeros(PAGE_SIZE as int)]);
        p
    }

    /// What `alloc_page` answers: an id from the free list while there is
    /// one, else the id of a new page, unless no page id is left.
    pub open spec fn alloc_outcome(&self) -> Result<PageId, DbError> {
        if self.free_list().len() > 0 {
            Ok(self.free_list().last())
        } else if self.pages().len() < INVALID_PAGE {
            Ok(PageId(self.pages().len() as u32))
        } else {
            Err(DbError::NoSpace("no page id left"))
        }
    }

    /// What `free_page` answers for `pid`.
    pub open spec fn free_outcome(&self, pid: PageId) -> Result<(), DbError> {
        if pid.0 == META_PAGE {
            Err(DbError::InvalidArgument("the meta page is never freed"))
        } else if pid.0 >= self.pages().len() {
            Err(DbError::InvalidArgument("page id past the end of the store"))
        } else if self.free_list().contains(pid) {
            Err(DbError::InvalidArgument("page is already free"))
        } else {
            Ok(())
        }
    }
}

/// One page of zero bytes.
fn zeroed_page() -> (page: Vec<u8>)
    ensures
        page@ == zeros(PAGE_SIZE as int),
{
    let mut page: Vec<u8> = Vec::new();
    let mut i: usize = 0;
    while i < PAGE_SIZE
        invariant
            i <= PAGE_SIZE,
            page@ == zeros(i as int),
        decreases PAGE_SIZE - i,
    {
        page.push(0u8);
        i += 1;
        assert(page@ =~= zeros(i as int));
    }
    page
}

impl Pager for MemPager {
    open spec fn wf(&self) -> bool {
        self.inv()
    }

    /// Copies page `pid` into `out`. Nothing is read into a buffer of the
    /// wrong length, or for a page that the store does not hold.
    fn read_page(&mut self, pid: PageId, out: &mut [u8]) -> (r: DbResult<()>)
        ensures
            final(self).pages() == old(self).pages(),
            final(self).free_list() == old(self).free_list(),
            r == page_access_outcome(old(self).pages().len() as int, pid, old(out)@.len() as int),
            r is Ok ==> final(out)@ == old(self).pages()[pid.0 as int],
            r is Err ==> final(out)@ == old(out)@,
    {
        check_page_buffer(out.len())?;
        let index = pid.as_usize();
        if index >= self.store.len() {
            return Err(DbError::Corruption("page id past the end of the store"));
        }
        proof {
            lemma_overwrite(old(out)@, 0, self.store@[index as int]@);
        }
        copy_into(out, 0, self.store[index].as_slice());
        assert(out@ =~= self.store@[index as int]@);
        Ok(())
    }

    /// Replaces page `pid` by a copy of `buf` and touches no other page.
    /// Nothing is written from a buffer of the wrong length, or to a page
    /// that the store does not hold.
    fn write_page(&mut self, pid: PageId, buf: &[u8]) -> (r: DbResult<()>)
        ensures
            final(self).free_list() == old(self).free_list(),
            r == page_access_outcome(old(self).pages().len() as int, pid, buf@.len() as int),
            r is Ok ==> final(self).pages() == old(self).pages().update(pid.0 as int, buf@),
            r is Err ==> final(self).pages() == old(self).pages(),
    {
        check_page_buffer(buf.len())?;
        let index = pid.as_usize();
        if index >= self.store.len() {
            return Err(DbError::Corruption("page id past the end of the store"));
        }
        self.store[index] = slice_to_vec(buf);
        assert(self.pages() =~= old(self).pages().update(pid.0 as int, buf@));
        Ok(())
    }

    /// Hands out the page that was freed last, where one is free, with the
    /// bytes that it held; else appends a zeroed page to the store and
    /// hands that out.
    fn alloc_page(&mut self) -> (r: DbResult<PageId>)
        ensures
            r == old(self).alloc_outcome(),
            r is Ok ==> final(self).in_use(r->Ok_0) && !old(self).in_use(r->Ok_0),
            final(self).free_list() == if old(self).free_list().len() > 0 {
                old(self).free_list().drop_last()
            } else {
                old(self).free_list()
            },
            final(self).pages() == if old(self).free_list().len() == 0 && r is Ok {
                old(self).pages().push(zeros(PAGE_SIZE as int))
            } else {
                old(self).pages()
            },
    {
        if let Some(pid) = self.ids.take_free() {
            return Ok(pid);
        }
        let pid = self.ids.peek_new()?;
        self.store.push(zeroed_page());
        let committed = self.ids.commit_new();
        assert(self.pages() =~= old(self).pages().push(zeros(PAGE_SIZE as int)));
        committed
    }

    /// Puts `pid` on the free list; its bytes stay as they are.
    ///
    /// Only a page that is handed out can be freed: not the meta page, not
    /// an id past the end of the store, not a page that is free already.
    fn free_page(&mut self, pid: PageId) -> (r: DbResult<()>)
        ensures
            final(self).pages() == old(self).pages(),
            r == old(self).free_outcome(pid),
            r is Ok <==> old(self).in_use(pid),
            r is Ok ==> final(self).free_list() == old(self).free_list().push(pid),
            r is Err ==> final(self).free_list() == old(self).free_list(),
    {
        self.ids.release(pid)
    }

    /// Nothing to do: memory is as durable as it gets.
    fn flush(&mut self) -> (r: DbResult<()>)
        ensures
            r == Ok::<(), DbError>(()),
            final(self).pages() == old(self).pages(),
            final(self).free_list() == old(self).free_list(),
    {
        Ok(())
    }

    /// Number of pages that the store holds, the meta page included.
    fn num_pages(&mut self) -> (r: DbResult<u64>)
        ensures
            r == Ok::<u64, DbError>(old(self).pages().len() as u64),
            final(self).pages() == old(self).pages(),
            final(self).free_list() == old(self).free_list(),
    {
        Ok(self.store.len() as u64)
    }
}

} // verus!
