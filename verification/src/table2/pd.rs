//! # PD (L2) table: entries point at a PT (`PS=0`) or map 2 MiB (`PS=1`).

use crate::addresses::{
    align_down, index_bits, l2_index, PhysicalPage, Size2M, Size4K, VirtualAddress, SIZE_2M,
};
use crate::bitfield::{group_bitfield, set_field, set_flag};
use crate::page_entry_bits::{
    fits_phys, frame_address, lemma_frame_address_bounds, lemma_frame_address_roundtrip, PageEntryBits,
};
use vstd::prelude::*;

verus! {

broadcast use group_bitfield;
/// Index into a table level (derived from virtual-address bits `[29:21]`).
///
/// Always below 512.
#[derive(Copy, Clone, Debug, PartialEq, Eq, PartialOrd, Ord, Hash, Structural)]
pub struct L2Index(pub u16);

impl L2Index {
    /// Well-formed: the index is below 512.
    pub open spec fn wf(self) -> bool {
        self.0 < 512
    }

    /// Builds the index from a virtual address (bits `[29:21]`).
    pub fn from(va: VirtualAddress) -> (r: Self)
        ensures
            r.0 == l2_index(va.0),
            r.wf(),
    {
        L2Index(index_bits(va.0, 21))
    }

    /// Builds the index from a raw value below 512.
    pub fn new(v: u16) -> (r: Self)
        requires
            v < 512,
        ensures
            r.0 == v,
    {
        L2Index(v)
    }

    /// The index as `usize` for table access.
    pub fn as_usize(self) -> (r: usize)
        ensures
            r == self.0,
    {
        self.0 as usize
    }
}

/// A decoded PD entry.
pub enum PdEntryKind {
    /// Non-leaf (`PS=0`): the 4 KiB-aligned base of the next Page Table.
    NextPageTable(PhysicalPage<Size4K>, PageEntryBits),
    /// Leaf (`PS=1`): the 2 MiB-aligned base of the mapped page.
    Leaf2MiB(PhysicalPage<Size2M>, PageEntryBits),
}

/// A single PD entry: a next-level pointer (`PS=0`) or a 2 MiB leaf (`PS=1`).
#[derive(Copy, Clone, Debug, PartialEq, Eq, Structural)]
pub struct PdEntry(pub PageEntryBits);

impl PdEntry {
    /// A zero (non-present) entry.
    #[verifier::allow_in_spec]
    pub fn zero() -> Self
        returns
            PdEntry(PageEntryBits(0)),
    {
        PdEntry(PageEntryBits(0))
    }

    /// Whether the entry is marked present.
    pub fn is_present(self) -> (r: bool)
        ensures
            r == self.0.present(),
    {
        self.0.present()
    }

    /// The underlying bit field.
    pub fn flags(self) -> (r: PageEntryBits)
        ensures
            r == self.0,
    {
        self.0
    }

    /// The raw 64-bit value (flags + address).
    pub fn raw(self) -> (r: u64)
        ensures
            r == self.0.0,
    {
        self.0.into_bits()
    }

    /// Builds an entry from a raw 64-bit value (no validation).
    pub fn from_raw(v: u64) -> (r: Self)
        ensures
            r.0.0 == v,
    {
        PdEntry(PageEntryBits::from_bits(v))
    }

    /// Decodes the entry: `None` if not present, otherwise the 2 MiB leaf
    /// (`PS=1`) or the next-level Page Table (`PS=0`), with the flags.
    pub fn kind(self) -> (r: Option<PdEntryKind>)
        ensures
            match r {
                None => !self.0.present(),
                Some(PdEntryKind::NextPageTable(p, f)) => self.0.present() && !self.0.large_page()
                    && f == self.0 && p.base.0 == frame_address(self.0.0),
                Some(PdEntryKind::Leaf2MiB(p, f)) => self.0.present() && self.0.large_page()
                    && f == self.0 && p.base.0 == align_down(frame_address(self.0.0), SIZE_2M),
            },
    {
        if !self.is_present() {
            return None;
        }
        let flags = self.0;
        let base = self.0.physical_address();
        proof {
            lemma_frame_address_bounds(self.0.0);
        }
        if flags.large_page() {
            Some(PdEntryKind::Leaf2MiB(PhysicalPage::<Size2M>::from_addr(base), flags))
        } else {
            Some(PdEntryKind::NextPageTable(PhysicalPage::<Size4K>::from_addr(base), flags))
        }
    }

    /// Makes a present non-leaf entry (`PS=0`) that points at `the Page Table in `pt_page``.
    ///
    /// The other flags are taken from `flags`.
    pub fn make_next(pt_page: PhysicalPage<Size4K>, flags: PageEntryBits) -> (r: Self)
        requires
            fits_phys(pt_page.base.0),
        ensures
            r.0.0 == set_field(set_flag(set_flag(flags.0, 7, false), 0, true), 12, 40, pt_page.base.0 >> 12),
            r.0.present(),
            !r.0.large_page(),
            pt_page.wf() ==> r.0.physical_address() == pt_page.base,
    {
        let mut f = flags;
        f.set_large_page(false);
        f.set_present(true);
        f.set_physical_address(pt_page.base());
        proof {
            if pt_page.wf() {
                lemma_frame_address_roundtrip(set_flag(set_flag(flags.0, 7, false), 0, true), pt_page.base.0);
            }
        }
        PdEntry(f)
    }

    /// Makes a present 2 MiB leaf entry (`PS=1`) for `page`.
    ///
    /// The other flags are taken from `flags`.
    pub fn make_2m(page: PhysicalPage<Size2M>, flags: PageEntryBits) -> (r: Self)
        requires
            fits_phys(page.base.0),
        ensures
            r.0.0 == set_field(set_flag(set_flag(flags.0, 7, true), 0, true), 12, 40, page.base.0 >> 12),
            r.0.present(),
            r.0.large_page(),
            page.wf() ==> r.0.physical_address() == page.base,
    {
        let mut f = flags;
        f.set_large_page(true);
        f.set_present(true);
        f.set_physical_address(page.base());
        proof {
            if page.wf() {
                lemma_frame_address_roundtrip(set_flag(set_flag(flags.0, 7, true), 0, true), page.base.0);
            }
        }
        PdEntry(f)
    }
}

/// The Page Directory (L2): 512 entries.
pub struct PageDirectory {
    entries: [PdEntry; 512],
}

impl View for PageDirectory {
    type V = Seq<PdEntry>;

    closed spec fn view(&self) -> Seq<PdEntry> {
        self.entries@
    }
}

impl PageDirectory {
    /// The table always holds 512 entries.
    pub proof fn lemma_len(&self)
        ensures
            self@.len() == 512,
    {
    }

    /// A table whose entries are all zero (not present).
    pub fn zeroed() -> (r: Self)
        ensures
            r@.len() == 512,
            forall|i: int| 0 <= i < 512 ==> #[trigger] r@[i] == PdEntry::zero(),
    {
        PageDirectory { entries: [PdEntry::zero(); 512] }
    }

    /// Reads the entry at `i`.
    pub fn get(&self, i: L2Index) -> (r: PdEntry)
        requires
            i.wf(),
        ensures
            r == self@[i.0 as int],
    {
        self.entries[i.as_usize()]
    }

    /// Writes the entry at `i`; all other entries stay as they were.
    pub fn set(&mut self, i: L2Index, e: PdEntry)
        requires
            i.wf(),
        ensures
            final(self)@ == old(self)@.update(i.0 as int, e),
    {
        self.entries[i.as_usize()] = e;
    }

    /// The index of `va` in a table of this level.
    pub fn index_of(va: VirtualAddress) -> (r: L2Index)
        ensures
            r.0 == l2_index(va.0),
            r.wf(),
    {
        L2Index::from(va)
    }
}

} // verus!
