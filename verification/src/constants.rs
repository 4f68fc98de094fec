//! Global constants of the storage engine.

use vstd::prelude::*;

verus! {

/// Size in bytes of every page of a database file.
pub const PAGE_SIZE: usize = 4096;

/// Magic bytes that identify a database file.
pub const DB_MAGIC: [u8; 12] = [78, 79, 86, 65, 68, 66, 76, 73, 84, 69, 0, 0];

/// Version of the file format.
pub const DB_VERSION: u16 = 1;

} // verus!
