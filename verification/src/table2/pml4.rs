//! # PML4 (L4) table: entries point at a PDPT; `PS` must be 0.

use crate::addresses::{
    align_down, index_bits, l4_index, PhysicalPage, Size4K, VirtualAddress
};
use crate::bitfield::{group_bitfield, set_field, set_flag};
use crate::page_entry_bits::{
    fits_phys, frame_address, lemma_frame_address_bounds, lemma_frame_address_roundtrip, PageEntryBits,
};
use vstd::prelude::*;

verus! {

broadcast use group_bitfield;
/// Index into a table level (derived from virtual-address bits `[47:39]`).
///
/// Always below 512.
#[derive(Copy, Clone, Debug, PartialEq, Eq, PartialOrd, Ord, Hash, Structural)]
pub struct L4Index(pub u16);

impl L4Index {
    /// Well-formed: the index is below 512.
    pub open spec fn wf(self) -> bool {
        self.0 < 512
    }

    /// Builds the index from a virtual address (bits `[47:39]`).
    pub fn from(va: VirtualAddress) -> (r: Self)
        ensures
            r.0 == l4_index(va.0),
            r.wf(),
    {
        L4Index(index_bits(va.0, 39))
    }

    /// Builds the index from a raw value below 512.
    pub fn new(v: u16) -> (r: Self)
        requires
            v < 512,
        ensures
            r.0 == v,
    {
        L4Index(v)
    }

    /// The index as `usize` for table access.
    pub fn as_usize(self) -> (r: usize)
        ensures
            r == self.0,
    {
        self.0 as usize
    }
}

/// A single PML4 entry: points to a next-level PDPT (`PS` must be 0).
#[derive(Copy, Clone, Debug, PartialEq, Eq, Structural)]
pub struct Pml4Entry(pub PageEntryBits);

impl Pml4Entry {
    /// A zero (non-present) entry.
    #[verifier::allow_in_spec]
    pub fn zero() -> Self
        returns
            Pml4Entry(PageEntryBits(0)),
    {
        Pml4Entry(PageEntryBits(0))
    }

    /// Whether the entry is marked present.
    pub fn is_present(self) -> (r: bool)
        ensures
            r == self.0.present(),
    {
        self.0.present()
    }

    /// The underlying bit field.
    pub fn flags(self) -> (r: PageEntryBits)
        ensures
            r == self.0,
    {
        self.0
    }

    /// The raw 64-bit value (flags + address).
    pub fn raw(self) -> (r: u64)
        ensures
            r == self.0.0,
    {
        self.0.into_bits()
    }

    /// Builds an entry from a raw 64-bit value (no validation).
    pub fn from_raw(v: u64) -> (r: Self)
        ensures
            r.0.0 == v,
    {
        Pml4Entry(PageEntryBits::from_bits(v))
    }

    /// If present, the 4 KiB page of the next-level PDPT.
    pub fn next_table(self) -> (r: Option<PhysicalPage<Size4K>>)
        ensures
            match r {
                None => !self.0.present(),
                Some(p) => self.0.present() && p.base.0 == frame_address(self.0.0),
            },
    {
        if !self.is_present() {
            return None;
        }
        proof {
            lemma_frame_address_bounds(self.0.0);
        }
        Some(PhysicalPage::from_addr(self.0.physical_address()))
    }

    /// Builds a present entry that points at the PDPT in `next_pdpt_page`,
    /// with the other flags from `flags` (which must have `PS=0`).
    pub fn make(next_pdpt_page: PhysicalPage<Size4K>, flags: PageEntryBits) -> (r: Self)
        requires
            !flags.large_page(),
            fits_phys(next_pdpt_page.base.0),
        ensures
            r.0.0 == set_field(set_flag(flags.0, 0, true), 12, 40, next_pdpt_page.base.0 >> 12),
            r.0.present(),
            !r.0.large_page(),
            next_pdpt_page.wf() ==> r.0.physical_address() == next_pdpt_page.base,
    {
        let mut f = flags;
        f.set_present(true);
        f.set_physical_address(next_pdpt_page.base());
        proof {
            if next_pdpt_page.wf() {
                lemma_frame_address_roundtrip(set_flag(flags.0, 0, true), next_pdpt_page.base.0);
            }
        }
        Pml4Entry(f)
    }
}

/// The top-level page map (PML4): 512 entries.
pub struct PageMapLevel4 {
    entries: [Pml4Entry; 512],
}

impl View for PageMapLevel4 {
    type V = Seq<Pml4Entry>;

    closed spec fn view(&self) -> Seq<Pml4Entry> {
        self.entries@
    }
}

impl PageMapLevel4 {
    /// The table always holds 512 entries.
    pub proof fn lemma_len(&self)
        ensures
            self@.len() == 512,
    {
    }

    /// A table whose entries are all zero (not present).
    pub fn zeroed() -> (r: Self)
        ensures
            r@.len() == 512,
            forall|i: int| 0 <= i < 512 ==> #[trigger] r@[i] == Pml4Entry::zero(),
    {
        PageMapLevel4 { entries: [Pml4Entry::zero(); 512] }
    }

    /// Reads the entry at `i`.
    pub fn get(&self, i: L4Index) -> (r: Pml4Entry)
        requires
            i.wf(),
        ensures
            r == self@[i.0 as int],
    {
        self.entries[i.as_usize()]
    }

    /// Writes the entry at `i`; all other entries stay as they were.
    pub fn set(&mut self, i: L4Index, e: Pml4Entry)
        requires
            i.wf(),
        ensures
            final(self)@ == old(self)@.update(i.0 as int, e),
    {
        self.entries[i.as_usize()] = e;
    }

    /// The index of `va` in a table of this level.
    pub fn index_of(va: VirtualAddress) -> (r: L4Index)
        ensures
            r.0 == l4_index(va.0),
            r.wf(),
    {
        L4Index::from(va)
    }
}

} // verus!
