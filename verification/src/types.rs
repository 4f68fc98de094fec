//! Identifier types shared by the page and pager layers.

use std::cmp::Ordering;

use vstd::prelude::*;

verus! {

/// The number of the reserved page identifier, which never denotes a page.
pub const INVALID_PAGE: u32 = 0xFFFF_FFFF;

/// Page identifier inside a single database file.
///
/// Identifiers are compared by their numeric value.
#[derive(Debug, Copy, Clone, PartialEq, Eq, Structural, Ord, Hash)]
pub struct PageId(pub u32);

impl PageId {
    /// The reserved identifier that never denotes a page: all 32 bits set.
    #[inline]
    pub fn invalid() -> (id: PageId)
        ensures
            id == PageId(INVALID_PAGE),
    {
        PageId(INVALID_PAGE)
    }

    /// The identifier as a 32-bit number.
    #[inline]
    pub fn as_u32(self) -> (n: u32)
        ensures
            n == self.0,
    {
        self.0
    }

    /// The identifier widened to 64 bits.
    #[inline]
    pub fn as_u64(self) -> (n: u64)
        ensures
            n == self.0,
    {
        self.0 as u64
    }

    /// The identifier as a machine-sized index.
    #[inline]
    pub fn as_usize(self) -> (n: usize)
        ensures
            n == self.0,
    {
        self.0 as usize
    }
}

impl PartialOrd for PageId {
    /// Page ids are ordered as their numbers are.
    fn partial_cmp(&self, other: &Self) -> (r: Option<Ordering>) {
        if self.0 < other.0 {
            Some(Ordering::Less)
        } else if self.0 == other.0 {
            Some(Ordering::Equal)
        } else {
            Some(Ordering::Greater)
        }
    }
}

impl vstd::std_specs::cmp::PartialOrdSpecImpl for PageId {
    open spec fn obeys_partial_cmp_spec() -> bool {
        true
    }

    open spec fn partial_cmp_spec(&self, other: &Self) -> Option<Ordering> {
        if self.0 < other.0 {
            Some(Ordering::Less)
        } else if self.0 == other.0 {
            Some(Ordering::Equal)
        } else {
            Some(Ordering::Greater)
        }
    }
}

} // verus!
