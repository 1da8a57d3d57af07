//! # x86-64 Page Table (PT / L1)
//!
//! - [`L1Index`]: index type for VA bits `[20:12]`.
//! - [`PtEntry`]: a PT entry; every present entry maps a 4 KiB page.
//! - [`PageTable`]: a 512-entry table.
//! - [`PtEntry4k`]: the bit-field form of a 4 KiB leaf.

use vstd::prelude::*;

pub use crate::table2::pt::{L1Index, PageTable, PtEntry};

verus! {

/// The bit-field form of an L1 (4 KiB leaf) entry.
pub type PtEntry4k = crate::page_table::bits2::Pte4K;

} // verus!
