//! # Typed four-level page tables over [`PageEntryBits`]
//!
//! One module per level; each holds the index type for its bits of a
//! virtual address, the entry type and the 512-entry table.

pub mod pd;
pub mod pdpt;
pub mod pml4;
pub mod pt;

pub use crate::table2::pd::{L2Index, PageDirectory, PdEntry, PdEntryKind};
pub use crate::table2::pdpt::{L3Index, PageDirectoryPointerTable, PdptEntry, PdptEntryKind};
pub use crate::table2::pml4::{L4Index, PageMapLevel4, Pml4Entry};
pub use crate::table2::pt::{L1Index, PageTable, PtEntry};

use crate::addresses::{l1_index, l2_index, l3_index, l4_index, VirtualAddress};
use vstd::prelude::*;

verus! {

/// Splits a virtual address into its four table indices
/// (PML4, PDPT, PD, PT).
pub fn split_indices(va: VirtualAddress) -> (r: (L4Index, L3Index, L2Index, L1Index))
    ensures
        r.0.0 == l4_index(va.0),
        r.1.0 == l3_index(va.0),
        r.2.0 == l2_index(va.0),
        r.3.0 == l1_index(va.0),
        r.0.wf(),
        r.1.wf(),
        r.2.wf(),
        r.3.wf(),
{
    (L4Index::from(va), L3Index::from(va), L2Index::from(va), L1Index::from(va))
}

} // verus!
