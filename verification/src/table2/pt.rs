//! # PT (L1) table: every present entry maps a 4 KiB page.

use crate::addresses::{
    align_down, index_bits, l1_index, PhysicalPage, Size4K, VirtualAddress
};
use crate::bitfield::{group_bitfield, set_field, set_flag};
use crate::page_entry_bits::{
    fits_phys, frame_address, lemma_frame_address_bounds, lemma_frame_address_roundtrip, PageEntryBits,
};
use vstd::prelude::*;

verus! {

broadcast use group_bitfield;
/// Index into a table level (derived from virtual-address bits `[20:12]`).
///
/// Always below 512.
#[derive(Copy, Clone, Debug, PartialEq, Eq, PartialOrd, Ord, Hash, Structural)]
pub struct L1Index(pub u16);

impl L1Index {
    /// Well-formed: the index is below 512.
    pub open spec fn wf(self) -> bool {
        self.0 < 512
    }

    /// Builds the index from a virtual address (bits `[20:12]`).
    pub fn from(va: VirtualAddress) -> (r: Self)
        ensures
            r.0 == l1_index(va.0),
            r.wf(),
    {
        L1Index(index_bits(va.0, 12))
    }

    /// Builds the index from a raw value below 512.
    pub fn new(v: u16) -> (r: Self)
        requires
            v < 512,
        ensures
            r.0 == v,
    {
        L1Index(v)
    }

    /// The index as `usize` for table access.
    pub fn as_usize(self) -> (r: usize)
        ensures
            r == self.0,
    {
        self.0 as usize
    }
}

/// A single PT entry: a 4 KiB leaf (`PS` must be 0).
#[derive(Copy, Clone, Debug, PartialEq, Eq, Structural)]
pub struct PtEntry(pub PageEntryBits);

impl PtEntry {
    /// A zero (non-present) entry.
    #[verifier::allow_in_spec]
    pub fn zero() -> Self
        returns
            PtEntry(PageEntryBits(0)),
    {
        PtEntry(PageEntryBits(0))
    }

    /// Whether the entry is marked present.
    pub fn is_present(self) -> (r: bool)
        ensures
            r == self.0.present(),
    {
        self.0.present()
    }

    /// The underlying bit field.
    pub fn flags(self) -> (r: PageEntryBits)
        ensures
            r == self.0,
    {
        self.0
    }

    /// The raw 64-bit value (flags + address).
    pub fn raw(self) -> (r: u64)
        ensures
            r == self.0.0,
    {
        self.0.into_bits()
    }

    /// Builds an entry from a raw 64-bit value (no validation).
    pub fn from_raw(v: u64) -> (r: Self)
        ensures
            r.0.0 == v,
    {
        PtEntry(PageEntryBits::from_bits(v))
    }

    /// If present, the mapped 4 KiB page and the flags.
    ///
    /// A present entry must have `PS=0`.
    pub fn page_4k(self) -> (r: Option<(PhysicalPage<Size4K>, PageEntryBits)>)
        requires
            self.0.present() ==> !self.0.large_page(),
        ensures
            match r {
                None => !self.0.present(),
                Some((p, f)) => self.0.present() && f == self.0 && p.base.0 == frame_address(self.0.0),
            },
    {
        if !self.is_present() {
            return None;
        }
        proof {
            lemma_frame_address_bounds(self.0.0);
        }
        Some((PhysicalPage::from_addr(self.0.physical_address()), self.0))
    }

    /// Makes a present 4 KiB leaf (`PS=0`) for `page`, with the other flags
    /// from `flags`.
    pub fn make_4k(page: PhysicalPage<Size4K>, flags: PageEntryBits) -> (r: Self)
        requires
            fits_phys(page.base.0),
        ensures
            r.0.0 == set_field(set_flag(set_flag(flags.0, 7, false), 0, true), 12, 40, page.base.0 >> 12),
            r.0.present(),
            !r.0.large_page(),
            page.wf() ==> r.0.physical_address() == page.base,
    {
        let mut f = flags;
        f.set_large_page(false);
        f.set_present(true);
        f.set_physical_address(page.base());
        proof {
            if page.wf() {
                lemma_frame_address_roundtrip(set_flag(set_flag(flags.0, 7, false), 0, true), page.base.0);
            }
        }
        PtEntry(f)
    }
}

/// The Page Table (L1): 512 entries.
pub struct PageTable {
    entries: [PtEntry; 512],
}

impl View for PageTable {
    type V = Seq<PtEntry>;

    closed spec fn view(&self) -> Seq<PtEntry> {
        self.entries@
    }
}

impl PageTable {
    /// The table always holds 512 entries.
    pub proof fn lemma_len(&self)
        ensures
            self@.len() == 512,
    {
    }

    /// A table whose entries are all zero (not present).
    pub fn zeroed() -> (r: Self)
        ensures
            r@.len() == 512,
            forall|i: int| 0 <= i < 512 ==> #[trigger] r@[i] == PtEntry::zero(),
    {
        PageTable { entries: [PtEntry::zero(); 512] }
    }

    /// Reads the entry at `i`.
    pub fn get(&self, i: L1Index) -> (r: PtEntry)
        requires
            i.wf(),
        ensures
            r == self@[i.0 as int],
    {
        self.entries[i.as_usize()]
    }

    /// Writes the entry at `i`; all other entries stay as they were.
    pub fn set(&mut self, i: L1Index, e: PtEntry)
        requires
            i.wf(),
        ensures
            final(self)@ == old(self)@.update(i.0 as int, e),
    {
        self.entries[i.as_usize()] = e;
    }

    /// The index of `va` in a table of this level.
    pub fn index_of(va: VirtualAddress) -> (r: L1Index)
        ensures
            r.0 == l1_index(va.0),
            r.wf(),
    {
        L1Index::from(va)
    }
}

} // verus!
