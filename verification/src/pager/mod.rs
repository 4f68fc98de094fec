//! Page storage: the interface that maps page identifiers onto a backing
//! store, the arithmetic and the page-id bookkeeping that a file-backed
//! store needs, and a store that lives in memory.

pub mod file;
pub mod memory;
pub mod pager;
