//! What a file-backed page store decides and computes, apart from the I/O
//! itself: where a page lies in the file, what the length of the file says
//! when the store is opened, and which page id an allocation hands out.

use vstd::prelude::*;

use crate::constants::PAGE_SIZE;
use crate::error::{DbError, DbResult};
use crate::pager::pager::{page_access_outcome, META_PAGE};
use crate::types::{PageId, INVALID_PAGE};

verus! {

/// Byte offset of page `pid` in the file.
pub open spec fn offset_of(pid: PageId) -> int {
    pid.0 * PAGE_SIZE
}

/// Byte offset of page `pid` in the file. The multiplication is checked;
/// with 32-bit page ids and 64-bit offsets it never overflows.
pub fn page_offset(pid: PageId) -> (r: DbResult<u64>)
    ensures
        r == Ok::<u64, DbError>(offset_of(pid) as u64),
        offset_of(pid) <= u64::MAX,
{
    assert(pid.0 * PAGE_SIZE == pid.0 * 4096 && pid.0 * 4096 <= u64::MAX) by (nonlinear_arith)
        requires
            PAGE_SIZE == 4096,
            pid.0 <= u32::MAX,
    ;
    match pid.as_u64().checked_mul(PAGE_SIZE as u64) {
        Some(off) => Ok(off),
        None => Err(DbError::Corruption("page offset overflow")),
    }
}

/// Number of whole pages in a file of `len` bytes.
pub fn page_count(len: u64) -> (n: u64)
    ensures
        n == len / (PAGE_SIZE as u64),
{
    len / (PAGE_SIZE as u64)
}

/// Checks that a buffer handed to the store is exactly one page long.
pub fn check_page_buffer(buf_len: usize) -> (r: DbResult<()>)
    ensures
        buf_len == PAGE_SIZE ==> r == Ok::<(), DbError>(()),
        buf_len != PAGE_SIZE ==> r == Err::<(), DbError>(
            DbError::InvalidArgument("buffer length must equal PAGE_SIZE"),
        ),
{
    if buf_len != PAGE_SIZE {
        return Err(DbError::InvalidArgument("buffer length must equal PAGE_SIZE"));
    }
    Ok(())
}

/// What `locate_page` answers: the offset of the page, if a store of as
/// many pages as the file holds accepts the access.
pub open spec fn locate_outcome(pid: PageId, buf_len: usize, file_len: u64) -> Result<
    u64,
    DbError,
> {
    match page_access_outcome(file_len as int / PAGE_SIZE as int, pid, buf_len as int) {
        Ok(()) => Ok(offset_of(pid) as u64),
        Err(e) => Err(e),
    }
}

/// Where an access of page `pid` through a buffer of `buf_len` bytes goes
/// in a file of `file_len` bytes: the offset of the page, if the buffer is
/// one page long and the file holds the whole page.
pub fn locate_page(pid: PageId, buf_len: usize, file_len: u64) -> (r: DbResult<u64>)
    ensures
        r == locate_outcome(pid, buf_len, file_len),
        r is Ok ==> r->Ok_0 == offset_of(pid) && offset_of(pid) + PAGE_SIZE <= file_len,
{
    check_page_buffer(buf_len)?;
    if pid.as_u64() >= page_count(file_len) {
        return Err(DbError::Corruption("page id past the end of the store"));
    }
    page_offset(pid)
}

/// What opening a file of a given length comes to.
#[derive(Debug, Clone, Copy, PartialEq, Eq, Structural)]
pub struct OpenPlan {
    /// Whether the file is empty, so that the zeroed meta page has to be
    /// written before anything else.
    pub write_meta_page: bool,
    /// The page id that the first growth of the file hands out.
    pub next_pid: PageId,
}

/// What `plan_open` answers for a file of `len` bytes.
pub open spec fn open_outcome(len: u64) -> Result<OpenPlan, DbError> {
    if len % (PAGE_SIZE as u64) != 0 {
        Err(DbError::Corruption("db file length is not page-aligned"))
    } else if len / (PAGE_SIZE as u64) > INVALID_PAGE {
        Err(DbError::Corruption("db file holds more pages than there are page ids"))
    } else if len == 0 {
        Ok(OpenPlan { write_meta_page: true, next_pid: PageId(1) })
    } else {
        Ok(OpenPlan { write_meta_page: false, next_pid: PageId((len / (PAGE_SIZE as u64)) as u32) })
    }
}

/// Decides from the length of the file how the store is opened.
///
/// A length that is not a multiple of the page size is the mark of a write
/// that did not finish, and is refused as corruption. An empty file gets
/// its meta page, and the first page id to hand out is 1; otherwise it is
/// the number of pages that the file holds.
pub fn plan_open(len: u64) -> (r: DbResult<OpenPlan>)
    ensures
        r == open_outcome(len),
{
    if len % (PAGE_SIZE as u64) != 0 {
        return Err(DbError::Corruption("db file length is not page-aligned"));
    }
    let pages = len / (PAGE_SIZE as u64);
    if pages > INVALID_PAGE as u64 {
        return Err(DbError::Corruption("db file holds more pages than there are page ids"));
    }
    if pages == 0 {
        Ok(OpenPlan { write_meta_page: true, next_pid: PageId(1) })
    } else {
        Ok(OpenPlan { write_meta_page: false, next_pid: PageId(pages as u32) })
    }
}

/// The bookkeeping of page ids: which id the next growth of the store
/// takes, and which ids were freed and wait for reuse.
///
/// Freed ids are handed out again before the store grows, the one freed
/// last first.
pub struct PageAllocator {
    freelist: Vec<PageId>,
    next_pid: PageId,
}

impl PageAllocator {
    /// The freed page ids, the one freed last at the end.
    pub closed spec fn free_list(&self) -> Seq<PageId> {
        self.freelist@
    }

    /// The page id that the next growth of the store takes: the number of
    /// pages that the store holds.
    pub closed spec fn next(&self) -> PageId {
        self.next_pid
    }

    /// The invariant of the bookkeeping: the meta page exists, every freed
    /// id denotes a page of the store other than the meta page, and no id
    /// is free twice.
    pub open spec fn wf(&self) -> bool {
        &&& self.next().0 >= 1
        &&& forall|i: int|
            0 <= i < self.free_list().len() ==> META_PAGE < (#[trigger] self.free_list()[i]).0
                < self.next().0
        &&& forall|i: int, j: int|
            0 <= i < j < self.free_list().len() ==> self.free_list()[i] != self.free_list()[j]
    }

    /// Whether page `pid` is handed out: a page of the store that is neither
    /// the meta page nor free.
    pub open spec fn in_use(&self, pid: PageId) -> bool {
        &&& META_PAGE < pid.0 < self.next().0
        &&& !self.free_list().contains(pid)
    }

    /// The bookkeeping of a store that holds `next_pid` pages, none of
    /// them free. A store holds at least its meta page; for a count of 0
    /// the meta page is counted in.
    pub fn new(next_pid: PageId) -> (a: PageAllocator)
        ensures
            a.wf(),
            a.free_list() == Seq::<PageId>::empty(),
            a.next() == if next_pid.0 == 0 {
                PageId(1)
            } else {
                next_pid
            },
    {
        let first = if next_pid.0 == 0 {
            PageId(1)
        } else {
            next_pid
        };
        PageAllocator { freelist: Vec::new(), next_pid: first }
    }

    /// The page id that the next growth of the store takes.
    pub fn next_pid(&self) -> (pid: PageId)
        ensures
            pid == self.next(),
    {
        self.next_pid
    }

    /// Number of freed page ids that wait for reuse.
    pub fn free_count(&self) -> (n: usize)
        ensures
            n == self.free_list().len(),
    {
        self.freelist.len()
    }

    /// Takes the page id that was freed last off the free list, if there is
    /// one.
    pub fn take_free(&mut self) -> (r: Option<PageId>)
        requires
            old(self).wf(),
        ensures
            final(self).wf(),
            final(self).next() == old(self).next(),
            old(self).free_list().len() == 0 ==> r is None,
            old(self).free_list().len() > 0 ==> r == Some(old(self).free_list().last()),
            r is None ==> final(self).free_list() == old(self).free_list(),
            r is Some ==> final(self).free_list() == old(self).free_list().drop_last(),
            r is Some ==> final(self).in_use(r->0) && !old(self).in_use(r->0),
    {
        let r = self.freelist.pop();
        proof {
            if old(self).free_list().len() > 0 {
                let last = old(self).free_list().len() - 1;
                assert(old(self).free_list()[last] == old(self).free_list().last());
                assert forall|i: int| 0 <= i < self.free_list().len() implies self.free_list()[i]
                    != old(self).free_list().last() by {
                    assert(self.free_list()[i] == old(self).free_list()[i]);
                }
            }
        }
        r
    }

    /// The page id that a growth of the store by one page is to take, or
    /// `NoSpace` when every page id is taken. Nothing is changed: the store
    /// grows first, and then `commit_new` records it.
    pub fn peek_new(&self) -> (r: DbResult<PageId>)
        ensures
            self.next().0 != INVALID_PAGE ==> r == Ok::<PageId, DbError>(self.next()),
            self.next().0 == INVALID_PAGE ==> r == Err::<PageId, DbError>(
                DbError::NoSpace("no page id left"),
            ),
    {
        if self.next_pid.0 == INVALID_PAGE {
            return Err(DbError::NoSpace("no page id left"));
        }
        Ok(self.next_pid)
    }

    /// Records that the store has grown by one page, and returns the id of
    /// that page; `NoSpace` when every page id is taken.
    pub fn commit_new(&mut self) -> (r: DbResult<PageId>)
        requires
            old(self).wf(),
        ensures
            final(self).wf(),
            final(self).free_list() == old(self).free_list(),
            old(self).next().0 != INVALID_PAGE ==> r == Ok::<PageId, DbError>(old(self).next())
                && final(self).next().0 == old(self).next().0 + 1 && final(self).in_use(
                old(self).next(),
            ) && !old(self).in_use(old(self).next()),
            old(self).next().0 == INVALID_PAGE ==> r == Err::<PageId, DbError>(
                DbError::NoSpace("no page id left"),
            ) && final(self).next() == old(self).next(),
    {
        if self.next_pid.0 == INVALID_PAGE {
            return Err(DbError::NoSpace("no page id left"));
        }
        let pid = self.next_pid;
        self.next_pid = PageId(pid.0 + 1);
        assert(self.free_list() == old(self).free_list());
        assert forall|i: int| 0 <= i < self.free_list().len() implies META_PAGE < (
        #[trigger] self.free_list()[i]).0 < self.next().0 by {
            assert(self.free_list()[i] == old(self).free_list()[i]);
        }
        assert forall|i: int, j: int| 0 <= i < j < self.free_list().len() implies self.free_list()[i]
            != self.free_list()[j] by {
            assert(old(self).free_list()[i] != old(self).free_list()[j]);
        }
        Ok(pid)
    }

    /// What `release` answers for `pid`.
    pub open spec fn release_outcome(&self, pid: PageId) -> Result<(), DbError> {
        if pid.0 == META_PAGE {
            Err(DbError::InvalidArgument("the meta page is never freed"))
        } else if pid.0 >= self.next().0 {
            Err(DbError::InvalidArgument("page id past the end of the store"))
        } else if self.free_list().contains(pid) {
            Err(DbError::InvalidArgument("page is already free"))
        } else {
            Ok(())
        }
    }

    /// Puts `pid` on the free list.
    ///
    /// Only a page that is handed out can be freed: not the meta page, not
    /// an id past the end of the store, not a page that is free already.
    pub fn release(&mut self, pid: PageId) -> (r: DbResult<()>)
        requires
            old(self).wf(),
        ensures
            final(self).wf(),
            final(self).next() == old(self).next(),
            r == old(self).release_outcome(pid),
            r is Ok <==> old(self).in_use(pid),
            r is Ok ==> final(self).free_list() == old(self).free_list().push(pid),
            r is Err ==> final(self).free_list() == old(self).free_list(),
    {
        if pid.0 == 0 {
            return Err(DbError::InvalidArgument("the meta page is never freed"));
        }
        if pid.0 >= self.next_pid.0 {
            return Err(DbError::InvalidArgument("page id past the end of the store"));
        }
        let n = self.freelist.len();
        let mut i: usize = 0;
        while i < n
            invariant
                i <= n,
                n == self.freelist@.len(),
                *self == *old(self),
                self.wf(),
                META_PAGE < pid.0 < self.next_pid.0,
                forall|j: int| 0 <= j < i ==> self.freelist@[j] != pid,
            decreases n - i,
        {
            if self.freelist[i].0 == pid.0 {
                assert(self.free_list()[i as int] == pid);
                return Err(DbError::InvalidArgument("page is already free"));
            }
            i += 1;
        }
        assert(!old(self).free_list().contains(pid));
        self.freelist.push(pid);
        assert forall|a: int, b: int| 0 <= a < b < self.free_list().len() implies self.free_list()[a]
            != self.free_list()[b] by {
            if b < n {
                assert(self.free_list()[a] == old(self).free_list()[a]);
                assert(self.free_list()[b] == old(self).free_list()[b]);
            } else {
                assert(self.free_list()[a] == old(self).free_list()[a]);
            }
        }
        assert forall|a: int| 0 <= a < self.free_list().len() implies META_PAGE < (
        #[trigger] self.free_list()[a]).0 < self.next().0 by {
            if a < n {
                assert(self.free_list()[a] == old(self).free_list()[a]);
            }
        }
        Ok(())
    }
}

} // verus!
