//! # x86-64 Page Directory Pointer Table (PDPT / L3)
//!
//! - [`L3Index`]: index type for VA bits `[38:30]`.
//! - [`PdptEntry`]: a single PDPT entry; a next-level pointer or a 1 GiB leaf.
//! - [`PdptEntryKind`]: decoded view of an entry (next PD or 1 GiB leaf).
//! - [`PageDirectoryPointerTable`]: a 512-entry table.

use crate::addresses::{l3_index, PhysicalPage, Size1G, Size4K, VirtualAddress};
use crate::bitfield::{get_flag, group_bitfield, read_flag, set_field, set_flag, write_flag};
use crate::page_entry_bits::{fits_phys, frame_address, lemma_frame_address_bounds, PageEntryBits};
use crate::page_table::{leaf_1g_address, lemma_leaf_1g_bounds};
use vstd::prelude::*;

pub use crate::page_table::bits2::{L3View, Pdpte, Pdpte1G};
pub use crate::table2::pdpt::L3Index;

verus! {

broadcast use group_bitfield;

/// A single entry of this level: the non-leaf [`Pdpte`] (`PS=0`) and the leaf
/// [`Pdpte1G`] (`PS=1`) overlaid on the same 64 bits.
#[derive(Copy, Clone, Debug, PartialEq, Eq, Structural)]
pub struct PdptEntry(pub u64);

/// A decoded entry.
pub enum PdptEntryKind {
    /// Non-leaf (`PS=0`): the base of the next-level table and the entry.
    NextPageDirectory(PhysicalPage<Size4K>, Pdpte),
    /// Leaf (`PS=1`): the base of the mapped page and the entry.
    Leaf1GiB(PhysicalPage<Size1G>, Pdpte1G),
}

impl PdptEntry {
    /// The zero (non-present) entry.
    pub fn new() -> (r: Self)
        ensures
            r.0 == 0,
    {
        PdptEntry(0)
    }

    /// The non-leaf form `entry`.
    pub fn new_entry(entry: Pdpte) -> (r: Self)
        ensures
            r.0 == entry.0,
    {
        PdptEntry(entry.0)
    }

    /// The leaf form `leaf`.
    pub fn new_leaf(leaf: Pdpte1G) -> (r: Self)
        ensures
            r.0 == leaf.0,
    {
        PdptEntry(leaf.0)
    }

    /// Whether the present bit is set.
    pub fn present(self) -> (r: bool)
        ensures
            r == get_flag(self.0, 0),
    {
        read_flag(self.0, 0)
    }

    /// Wraps raw bits (no validation).
    pub fn from_bits(bits: u64) -> (r: Self)
        ensures
            r.0 == bits,
    {
        PdptEntry(bits)
    }

    /// The raw bits.
    pub fn into_bits(self) -> (r: u64)
        ensures
            r == self.0,
    {
        self.0
    }

    /// The form chosen by the `PS` bit (bit 7): leaf if set, non-leaf if clear.
    pub fn view(self) -> (r: L3View)
        ensures
            match r {
                L3View::Entry(e) => !get_flag(self.0, 7) && e.0 == self.0,
                L3View::Leaf1G(l) => get_flag(self.0, 7) && l.0 == self.0,
            },
    {
        if read_flag(self.0, 7) {
            L3View::Leaf1G(Pdpte1G(self.0))
        } else {
            L3View::Entry(Pdpte(self.0))
        }
    }

    /// A zero (non-present) entry.
    #[verifier::allow_in_spec]
    pub fn zero() -> Self
        returns
            PdptEntry(0),
    {
        PdptEntry(0)
    }

    /// Decodes the entry: `None` if not present; otherwise the leaf (`PS=1`)
    /// with the base of the mapped page, or the non-leaf form (`PS=0`) with
    /// the base of the next-level table.
    pub fn kind(self) -> (r: Option<PdptEntryKind>)
        ensures
            match r {
                None => !get_flag(self.0, 0),
                Some(PdptEntryKind::NextPageDirectory(p, e)) => get_flag(self.0, 0) && !get_flag(self.0, 7) && e.0
                    == self.0 && p.base.0 == frame_address(self.0) && p.wf(),
                Some(PdptEntryKind::Leaf1GiB(p, e)) => get_flag(self.0, 0) && get_flag(self.0, 7) && e.0
                    == self.0 && p.base.0 == leaf_1g_address(self.0) && p.wf(),
            },
    {
        if !self.present() {
            return None;
        }
        Some(
            match self.view() {
                L3View::Entry(entry) => {
                    proof {
                        lemma_frame_address_bounds(entry.0);
                    }
                    let base = PageEntryBits(entry.0).physical_address();
                    PdptEntryKind::NextPageDirectory(PhysicalPage::<Size4K>::from_addr(base), entry)
                },
                L3View::Leaf1G(entry) => {
                    proof {
                        lemma_leaf_1g_bounds(entry.0);
                    }
                    let base = entry.physical_address();
                    PdptEntryKind::Leaf1GiB(PhysicalPage::<Size1G>::from_addr(base), entry)
                },
            },
        )
    }
}

impl From<Pdpte> for PdptEntry {
    fn from(e: Pdpte) -> (r: Self) {
        Self::new_entry(e)
    }
}

impl vstd::std_specs::convert::FromSpecImpl<Pdpte> for PdptEntry {
    open spec fn obeys_from_spec() -> bool {
        true
    }

    open spec fn from_spec(v: Pdpte) -> Self {
        PdptEntry(v.0)
    }
}

impl From<Pdpte1G> for PdptEntry {
    fn from(e: Pdpte1G) -> (r: Self) {
        Self::new_leaf(e)
    }
}

impl vstd::std_specs::convert::FromSpecImpl<Pdpte1G> for PdptEntry {
    open spec fn obeys_from_spec() -> bool {
        true
    }

    open spec fn from_spec(v: Pdpte1G) -> Self {
        PdptEntry(v.0)
    }
}

impl PdptEntry {
    /// A present non-leaf entry (`PS=0`) that points at the Page Directory
    /// in `pd_page`, with the other bits of `flags`.
    pub fn make_next(pd_page: PhysicalPage<Size4K>, flags: Pdpte) -> (r: Self)
        requires
            pd_page.wf(),
            fits_phys(pd_page.base.0),
        ensures
            r.0 == set_flag(set_field(set_flag(flags.0, 0, true), 12, 40, pd_page.base.0 >> 12), 7, false),
            get_flag(r.0, 0),
            !get_flag(r.0, 7),
            frame_address(r.0) == pd_page.base.0,
    {
        let mut f = flags;
        f.set_present(true);
        f.set_physical_address(pd_page.base());
        let e = Self::new_entry(f);
        PdptEntry(write_flag(e.0, 7, false))
    }

    /// A present 1 GiB leaf (`PS=1`) for `page`, with the other bits of
    /// `flags`.
    pub fn make_1g(page: PhysicalPage<Size1G>, flags: Pdpte1G) -> (r: Self)
        requires
            page.wf(),
            fits_phys(page.base.0),
        ensures
            r.0 == set_flag(set_field(set_flag(flags.0, 0, true), 30, 22, page.base.0 >> 30), 7, true),
            get_flag(r.0, 0),
            get_flag(r.0, 7),
            leaf_1g_address(r.0) == page.base.0,
    {
        let mut f = flags;
        f.set_present(true);
        f.set_physical_address(page.base());
        Self::new_leaf(f)
    }
}

/// The PDPT (L3) table: 512 entries.
pub struct PageDirectoryPointerTable {
    entries: [PdptEntry; 512],
}

impl View for PageDirectoryPointerTable {
    type V = Seq<PdptEntry>;

    closed spec fn view(&self) -> Seq<PdptEntry> {
        self.entries@
    }
}

impl PageDirectoryPointerTable {
    /// The table always holds 512 entries.
    pub proof fn lemma_len(&self)
        ensures
            self@.len() == 512,
    {
    }

    /// A table whose entries are all zero (not present).
    pub fn zeroed() -> (r: Self)
        ensures
            r@.len() == 512,
            forall|i: int| 0 <= i < 512 ==> #[trigger] r@[i] == PdptEntry::zero(),
    {
        PageDirectoryPointerTable { entries: [PdptEntry::zero(); 512] }
    }

    /// Reads the entry at `i`.
    pub fn get(&self, i: L3Index) -> (r: PdptEntry)
        requires
            i.wf(),
        ensures
            r == self@[i.0 as int],
    {
        self.entries[i.as_usize()]
    }

    /// Writes the entry at `i`; all other entries stay as they were.
    pub fn set(&mut self, i: L3Index, e: PdptEntry)
        requires
            i.wf(),
        ensures
            final(self)@ == old(self)@.update(i.0 as int, e),
    {
        self.entries[i.as_usize()] = e;
    }

    /// The index of `va` in a table of this level.
    pub fn index_of(va: VirtualAddress) -> (r: L3Index)
        ensures
            r.0 == l3_index(va.0),
            r.wf(),
    {
        L3Index::from(va)
    }
}

impl PageDirectoryPointerTable {
    /// Sets the entry at `i` to [`PdptEntry::zero`].
    pub fn set_zero(&mut self, i: L3Index)
        requires
            i.wf(),
        ensures
            final(self)@ == old(self)@.update(i.0 as int, PdptEntry::zero()),
    {
        self.set(i, PdptEntry::zero());
    }
}

} // verus!
