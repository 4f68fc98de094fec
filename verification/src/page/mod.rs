//! The slotted-page format.
//!
//! `raw` is the byte codec, `header` and `slot` lay out the page header and
//! the slot directory, and `slotted_page` holds the record operations on
//! one page. `model` says over plain byte sequences what those operations
//! answer and leave behind, `frame` what a single write leaves alone, and
//! `laws` what holds across operations.

use vstd::prelude::*;

pub mod frame;
pub mod header;
pub mod laws;
pub mod model;
pub mod raw;
pub mod slot;
pub mod slotted_page;

verus! {

/// Size in bytes of the header at the start of every page.
pub const SLOTTED_HEADER_SIZE: usize = 16;

/// Size in bytes of one entry of the slot directory.
pub const SLOTTED_SLOT_SIZE: usize = 6;

} // verus!
