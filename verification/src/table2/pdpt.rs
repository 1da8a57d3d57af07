//! # PDPT (L3) table: entries point at a PD (`PS=0`) or map 1 GiB (`PS=1`).

use crate::addresses::{
    align_down, index_bits, l3_index, PhysicalPage, Size1G, Size4K, VirtualAddress, SIZE_1G,
};
use crate::bitfield::{group_bitfield, set_field, set_flag};
use crate::page_entry_bits::{
    fits_phys, frame_address, lemma_frame_address_bounds, lemma_frame_address_roundtrip, PageEntryBits,
};
use vstd::prelude::*;

verus! {

broadcast use group_bitfield;
/// Index into a table level (derived from virtual-address bits `[38:30]`).
///
/// Always below 512.
#[derive(Copy, Clone, Debug, PartialEq, Eq, PartialOrd, Ord, Hash, Structural)]
pub struct L3Index(pub u16);

impl L3Index {
    /// Well-formed: the index is below 512.
    pub open spec fn wf(self) -> bool {
        self.0 < 512
    }

    /// Builds the index from a virtual address (bits `[38:30]`).
    pub fn from(va: VirtualAddress) -> (r: Self)
        ensures
            r.0 == l3_index(va.0),
            r.wf(),
    {
        L3Index(index_bits(va.0, 30))
    }

    /// Builds the index from a raw value below 512.
    pub fn new(v: u16) -> (r: Self)
        requires
            v < 512,
        ensures
            r.0 == v,
    {
        L3Index(v)
    }

    /// The index as `usize` for table access.
    pub fn as_usize(self) -> (r: usize)
        ensures
            r == self.0,
    {
        self.0 as usize
    }
}

/// A decoded PDPT entry.
pub enum PdptEntryKind {
    /// Non-leaf (`PS=0`): the 4 KiB-aligned base of the next Page Directory.
    NextPageDirectory(PhysicalPage<Size4K>, PageEntryBits),
    /// Leaf (`PS=1`): the 1 GiB-aligned base of the mapped page.
    Leaf1GiB(PhysicalPage<Size1G>, PageEntryBits),
}

/// A single PDPT entry: a next-level pointer (`PS=0`) or a 1 GiB leaf (`PS=1`).
#[derive(Copy, Clone, Debug, PartialEq, Eq, Structural)]
pub struct PdptEntry(pub PageEntryBits);

impl PdptEntry {
    /// A zero (non-present) entry.
    #[verifier::allow_in_spec]
    pub fn zero() -> Self
        returns
            PdptEntry(PageEntryBits(0)),
    {
        PdptEntry(PageEntryBits(0))
    }

    /// Whether the entry is marked present.
    pub fn is_present(self) -> (r: bool)
        ensures
            r == self.0.present(),
    {
        self.0.present()
    }

    /// The underlying bit field.
    pub fn flags(self) -> (r: PageEntryBits)
        ensures
            r == self.0,
    {
        self.0
    }

    /// The raw 64-bit value (flags + address).
    pub fn raw(self) -> (r: u64)
        ensures
            r == self.0.0,
    {
        self.0.into_bits()
    }

    /// Builds an entry from a raw 64-bit value (no validation).
    pub fn from_raw(v: u64) -> (r: Self)
        ensures
            r.0.0 == v,
    {
        PdptEntry(PageEntryBits::from_bits(v))
    }

    /// Decodes the entry: `None` if not present, otherwise the 1 GiB leaf
    /// (`PS=1`) or the next-level Page Directory (`PS=0`), with the flags.
    pub fn kind(self) -> (r: Option<PdptEntryKind>)
        ensures
            match r {
                None => !self.0.present(),
                Some(PdptEntryKind::NextPageDirectory(p, f)) => self.0.present() && !self.0.large_page()
                    && f == self.0 && p.base.0 == frame_address(self.0.0),
                Some(PdptEntryKind::Leaf1GiB(p, f)) => self.0.present() && self.0.large_page()
                    && f == self.0 && p.base.0 == align_down(frame_address(self.0.0), SIZE_1G),
            },
    {
        if !self.is_present() {
            return None;
        }
        let flags = self.0;
        let base = self.0.physical_address();
        proof {
            lemma_frame_address_bounds(self.0.0);
        }
        if flags.large_page() {
            Some(PdptEntryKind::Leaf1GiB(PhysicalPage::<Size1G>::from_addr(base), flags))
        } else {
            Some(PdptEntryKind::NextPageDirectory(PhysicalPage::<Size4K>::from_addr(base), flags))
        }
    }

    /// Makes a present non-leaf entry (`PS=0`) that points at `the Page Directory in `pd_page``.
    ///
    /// The other flags are taken from `flags`.
    pub fn make_next(pd_page: PhysicalPage<Size4K>, flags: PageEntryBits) -> (r: Self)
        requires
            fits_phys(pd_page.base.0),
        ensures
            r.0.0 == set_field(set_flag(set_flag(flags.0, 7, false), 0, true), 12, 40, pd_page.base.0 >> 12),
            r.0.present(),
            !r.0.large_page(),
            pd_page.wf() ==> r.0.physical_address() == pd_page.base,
    {
        let mut f = flags;
        f.set_large_page(false);
        f.set_present(true);
        f.set_physical_address(pd_page.base());
        proof {
            if pd_page.wf() {
                lemma_frame_address_roundtrip(set_flag(set_flag(flags.0, 7, false), 0, true), pd_page.base.0);
            }
        }
        PdptEntry(f)
    }

    /// Makes a present 1 GiB leaf entry (`PS=1`) for `page`.
    ///
    /// The other flags are taken from `flags`.
    pub fn make_1g(page: PhysicalPage<Size1G>, flags: PageEntryBits) -> (r: Self)
        requires
            fits_phys(page.base.0),
        ensures
            r.0.0 == set_field(set_flag(set_flag(flags.0, 7, true), 0, true), 12, 40, page.base.0 >> 12),
            r.0.present(),
            r.0.large_page(),
            page.wf() ==> r.0.physical_address() == page.base,
    {
        let mut f = flags;
        f.set_large_page(true);
        f.set_present(true);
        f.set_physical_address(page.base());
        proof {
            if page.wf() {
                lemma_frame_address_roundtrip(set_flag(set_flag(flags.0, 7, true), 0, true), page.base.0);
            }
        }
        PdptEntry(f)
    }
}

/// The Page Directory Pointer Table (L3): 512 entries.
pub struct PageDirectoryPointerTable {
    entries: [PdptEntry; 512],
}

impl View for PageDirectoryPointerTable {
    type V = Seq<PdptEntry>;

    closed spec fn view(&self) -> Seq<PdptEntry> {
        self.entries@
    }
}

impl PageDirectoryPointerTable {
    /// The table always holds 512 entries.
    pub proof fn lemma_len(&self)
        ensures
            self@.len() == 512,
    {
    }

    /// A table whose entries are all zero (not present).
    pub fn zeroed() -> (r: Self)
        ensures
            r@.len() == 512,
            forall|i: int| 0 <= i < 512 ==> #[trigger] r@[i] == PdptEntry::zero(),
    {
        PageDirectoryPointerTable { entries: [PdptEntry::zero(); 512] }
    }

    /// Reads the entry at `i`.
    pub fn get(&self, i: L3Index) -> (r: PdptEntry)
        requires
            i.wf(),
        ensures
            r == self@[i.0 as int],
    {
        self.entries[i.as_usize()]
    }

    /// Writes the entry at `i`; all other entries stay as they were.
    pub fn set(&mut self, i: L3Index, e: PdptEntry)
        requires
            i.wf(),
        ensures
            final(self)@ == old(self)@.update(i.0 as int, e),
    {
        self.entries[i.as_usize()] = e;
    }

    /// The index of `va` in a table of this level.
    pub fn index_of(va: VirtualAddress) -> (r: L3Index)
        ensures
            r.0 == l3_index(va.0),
            r.wf(),
    {
        L3Index::from(va)
    }
}

} // verus!
