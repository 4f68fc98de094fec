//! The capability set of a page store.

use vstd::prelude::*;

use crate::constants::PAGE_SIZE;
use crate::error::{DbError, DbResult};
use crate::types::{PageId, INVALID_PAGE};

verus! {

/// The page id of the meta page, which is never allocated and never freed.
pub const META_PAGE: u32 = 0;

/// What a store answers to an access of page `pid` through a buffer of
/// `buf_len` bytes when it holds `num_pages` pages: the buffer must be one
/// page long, and the page must exist.
pub open spec fn page_access_outcome(num_pages: int, pid: PageId, buf_len: int) -> Result<
    (),
    DbError,
> {
    if buf_len != PAGE_SIZE {
        Err(DbError::InvalidArgument("buffer length must equal PAGE_SIZE"))
    } else if pid.0 >= num_pages {
        Err(DbError::Corruption("page id past the end of the store"))
    } else {
        Ok(())
    }
}

/// A store of fixed-size pages, addressed by page id.
///
/// The store knows nothing of what a page holds. Page 0 is the meta page of
/// the engine. What a backend can promise beyond the clauses below, such as
/// what a read returns, it states on its own implementation; a backend that
/// does I/O may fail any call with `DbError::Io`.
pub trait Pager {
    /// Whether the store is in a state in which it may be used. A backend
    /// with an invariant of its own states it here.
    open spec fn wf(&self) -> bool {
        true
    }

    /// Reads page `pid` into `out`, which must be exactly one page long.
    fn read_page(&mut self, pid: PageId, out: &mut [u8]) -> (r: DbResult<()>)
        requires
            old(self).wf(),
        ensures
            final(self).wf(),
            final(out)@.len() == old(out)@.len(),
            r is Ok ==> old(out)@.len() == PAGE_SIZE,
    ;

    /// Writes `buf`, which must be exactly one page long, as page `pid`.
    fn write_page(&mut self, pid: PageId, buf: &[u8]) -> (r: DbResult<()>)
        requires
            old(self).wf(),
        ensures
            final(self).wf(),
            r is Ok ==> buf@.len() == PAGE_SIZE,
    ;

    /// Hands out a page: one that was freed, where there is one, else a new
    /// page at the end of the store. Never the meta page, and never the
    /// reserved id.
    fn alloc_page(&mut self) -> (r: DbResult<PageId>)
        requires
            old(self).wf(),
        ensures
            final(self).wf(),
            r is Ok ==> r->Ok_0.0 != META_PAGE && r->Ok_0.0 != INVALID_PAGE,
    ;

    /// Takes a page back for reuse. The meta page is never taken.
    fn free_page(&mut self, pid: PageId) -> (r: DbResult<()>)
        requires
            old(self).wf(),
        ensures
            final(self).wf(),
            r is Ok ==> pid.0 != META_PAGE && pid.0 != INVALID_PAGE,
    ;

    /// Makes what was written durable, as far as the backend can.
    fn flush(&mut self) -> (r: DbResult<()>)
        requires
            old(self).wf(),
        ensures
            final(self).wf(),
    ;

    /// Number of pages that the store holds, the meta page included.
    fn num_pages(&mut self) -> (r: DbResult<u64>)
        requires
            old(self).wf(),
        ensures
            final(self).wf(),
    ;
}

} // verus!
