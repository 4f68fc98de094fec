//! Storage core of a single-file database: a bounds-checked little-endian
//! byte codec, the slotted-page record layout that lives inside one
//! fixed-size page, and the page store that maps page identifiers onto a
//! backing store.
//!
//! The record operations are verified against a mathematical model of the
//! page, a `Seq<u8>` of exactly `PAGE_SIZE` bytes: the on-disk layout is
//! stated once, in spec functions, and the executable code is proved to
//! follow it bit for bit. What holds across operations, such as that a
//! record reads back as it was inserted, is proved over the same model in
//! `page::laws`.

pub mod constants;
pub mod error;
pub mod page;
pub mod pager;
pub mod types;

pub use error::{DbError, DbResult};
pub use types::PageId;
