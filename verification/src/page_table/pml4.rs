//! # x86-64 Page Map Level 4 (PML4)
//!
//! - [`L4Index`]: index type for bits 47..39 of a virtual address.
//! - [`Pml4Entry`]: a single PML4 entry (must not be a large page).
//! - [`PageMapLevel4`]: a 512-entry PML4 table.

use crate::addresses::{l4_index, PhysicalPage, Size4K, VirtualAddress};
use crate::bitfield::{
    get_field, get_flag, group_bitfield, lemma_field_bound, lemma_field_fits, lemma_masks, read_field, read_flag,
    set_field, set_flag, write_field, write_flag,
};
use crate::bits::VirtualMemoryPageBits;
use crate::page_entry_bits::{
    fits_phys, frame_address, lemma_frame_address_bounds, lemma_frame_address_roundtrip, PageEntryBits,
};
use vstd::prelude::*;

pub use crate::table2::pml4::L4Index;

verus! {

broadcast use group_bitfield;

/// L4 **PML4E**: pointer to a **PDPT** (non-leaf; PS **must be 0**).
#[derive(Copy, Clone, Debug, PartialEq, Eq, Structural)]
pub struct Pml4Entry(pub u64);

impl Pml4Entry {
    /// Creates a value with every field at its default.
    pub fn new() -> (r: Self)
        ensures
            r.0 == 0x0,
    {
        Pml4Entry(0x0)
    }

    /// Wraps raw bits (no validation).
    #[verifier::allow_in_spec]
    pub fn from_bits(bits: u64) -> Self
        returns
            Pml4Entry(bits),
    {
        Pml4Entry(bits)
    }

    /// The raw bits.
    #[verifier::allow_in_spec]
    pub fn into_bits(self) -> u64
        returns
            self.0,
    {
        self.0
    }

    /// Present (bit 0): valid entry if set.
    #[verifier::allow_in_spec]
    pub fn present(&self) -> bool
        returns
            get_flag(self.0, 0),
    {
        read_flag(self.0, 0)
    }

    /// Returns a copy with `present` set to `v`.
    #[verifier::allow_in_spec]
    pub fn with_present(self, v: bool) -> Self
        returns
            Pml4Entry(set_flag(self.0, 0, v)),
    {
        Pml4Entry(write_flag(self.0, 0, v))
    }

    /// Sets `present` to `v`.
    pub fn set_present(&mut self, v: bool)
        ensures
            final(self).0 == set_flag(old(self).0, 0, v),
    {
        self.0 = write_flag(self.0, 0, v);
    }

    /// Writable (bit 1): write permission.
    #[verifier::allow_in_spec]
    pub fn writable(&self) -> bool
        returns
            get_flag(self.0, 1),
    {
        read_flag(self.0, 1)
    }

    /// Returns a copy with `writable` set to `v`.
    #[verifier::allow_in_spec]
    pub fn with_writable(self, v: bool) -> Self
        returns
            Pml4Entry(set_flag(self.0, 1, v)),
    {
        Pml4Entry(write_flag(self.0, 1, v))
    }

    /// Sets `writable` to `v`.
    pub fn set_writable(&mut self, v: bool)
        ensures
            final(self).0 == set_flag(old(self).0, 1, v),
    {
        self.0 = write_flag(self.0, 1, v);
    }

    /// User (bit 2): user-mode access if set.
    #[verifier::allow_in_spec]
    pub fn user(&self) -> bool
        returns
            get_flag(self.0, 2),
    {
        read_flag(self.0, 2)
    }

    /// Returns a copy with `user` set to `v`.
    #[verifier::allow_in_spec]
    pub fn with_user(self, v: bool) -> Self
        returns
            Pml4Entry(set_flag(self.0, 2, v)),
    {
        Pml4Entry(write_flag(self.0, 2, v))
    }

    /// Sets `user` to `v`.
    pub fn set_user(&mut self, v: bool)
        ensures
            final(self).0 == set_flag(old(self).0, 2, v),
    {
        self.0 = write_flag(self.0, 2, v);
    }

    /// Page Write-Through (bit 3).
    #[verifier::allow_in_spec]
    pub fn write_through(&self) -> bool
        returns
            get_flag(self.0, 3),
    {
        read_flag(self.0, 3)
    }

    /// Returns a copy with `write_through` set to `v`.
    #[verifier::allow_in_spec]
    pub fn with_write_through(self, v: bool) -> Self
        returns
            Pml4Entry(set_flag(self.0, 3, v)),
    {
        Pml4Entry(write_flag(self.0, 3, v))
    }

    /// Sets `write_through` to `v`.
    pub fn set_write_through(&mut self, v: bool)
        ensures
            final(self).0 == set_flag(old(self).0, 3, v),
    {
        self.0 = write_flag(self.0, 3, v);
    }

    /// Page Cache Disable (bit 4).
    #[verifier::allow_in_spec]
    pub fn cache_disable(&self) -> bool
        returns
            get_flag(self.0, 4),
    {
        read_flag(self.0, 4)
    }

    /// Returns a copy with `cache_disable` set to `v`.
    #[verifier::allow_in_spec]
    pub fn with_cache_disable(self, v: bool) -> Self
        returns
            Pml4Entry(set_flag(self.0, 4, v)),
    {
        Pml4Entry(write_flag(self.0, 4, v))
    }

    /// Sets `cache_disable` to `v`.
    pub fn set_cache_disable(&mut self, v: bool)
        ensures
            final(self).0 == set_flag(old(self).0, 4, v),
    {
        self.0 = write_flag(self.0, 4, v);
    }

    /// Accessed (bit 5): set by the CPU on first access.
    #[verifier::allow_in_spec]
    pub fn accessed(&self) -> bool
        returns
            get_flag(self.0, 5),
    {
        read_flag(self.0, 5)
    }

    /// Returns a copy with `accessed` set to `v`.
    #[verifier::allow_in_spec]
    pub fn with_accessed(self, v: bool) -> Self
        returns
            Pml4Entry(set_flag(self.0, 5, v)),
    {
        Pml4Entry(write_flag(self.0, 5, v))
    }

    /// Sets `accessed` to `v`.
    pub fn set_accessed(&mut self, v: bool)
        ensures
            final(self).0 == set_flag(old(self).0, 5, v),
    {
        self.0 = write_flag(self.0, 5, v);
    }

    /// Dirty (bit 6): ignored in non-leaf entries.
    #[verifier::allow_in_spec]
    pub fn __d_ignored(&self) -> u8
        returns
            get_field(self.0, 6, 1) as u8,
    {
        proof {
            lemma_field_fits(self.0, 6, 1);
        }
        read_field(self.0, 6, 1) as u8
    }

    /// Page Size (bit 7): must be 0 in non-leaf entries.
    #[verifier::allow_in_spec]
    pub fn __ps_must_be_0(&self) -> u8
        returns
            get_field(self.0, 7, 1) as u8,
    {
        proof {
            lemma_field_fits(self.0, 7, 1);
        }
        read_field(self.0, 7, 1) as u8
    }

    /// Global (bit 8): ignored in non-leaf entries.
    #[verifier::allow_in_spec]
    pub fn __g_ignored(&self) -> u8
        returns
            get_field(self.0, 8, 1) as u8,
    {
        proof {
            lemma_field_fits(self.0, 8, 1);
        }
        read_field(self.0, 8, 1) as u8
    }

    /// OS-available low (bits 9..11).
    #[verifier::allow_in_spec]
    pub fn os_available_low(&self) -> u8
        returns
            get_field(self.0, 9, 3) as u8,
    {
        proof {
            lemma_field_fits(self.0, 9, 3);
        }
        read_field(self.0, 9, 3) as u8
    }

    /// Returns a copy with `os_available_low` set to `v` (which must fit in 3 bits).
    pub fn with_os_available_low(self, v: u8) -> (r: Self)
        requires
            v < 0x8,
        ensures
            r.0 == set_field(self.0, 9, 3, v as u64),
    {
        proof {
            lemma_masks();
        }
        Pml4Entry(write_field(self.0, 9, 3, v as u64))
    }

    /// Sets `os_available_low` to `v` (which must fit in 3 bits).
    pub fn set_os_available_low(&mut self, v: u8)
        requires
            v < 0x8,
        ensures
            final(self).0 == set_field(old(self).0, 9, 3, v as u64),
    {
        proof {
            lemma_masks();
        }
        self.0 = write_field(self.0, 9, 3, v as u64);
    }

    /// Next-level table physical address bits 51:12.
    #[verifier::allow_in_spec]
    pub fn phys_addr_51_12(&self) -> u64
        returns
            get_field(self.0, 12, 40) as u64,
    {
        proof {
            lemma_field_fits(self.0, 12, 40);
        }
        read_field(self.0, 12, 40) as u64
    }

    /// Returns a copy with `phys_addr_51_12` set to `v` (which must fit in 40 bits).
    fn with_phys_addr_51_12(self, v: u64) -> (r: Self)
        requires
            v < 0x10000000000,
        ensures
            r.0 == set_field(self.0, 12, 40, v as u64),
    {
        proof {
            lemma_masks();
        }
        Pml4Entry(write_field(self.0, 12, 40, v as u64))
    }

    /// Sets `phys_addr_51_12` to `v` (which must fit in 40 bits).
    fn set_phys_addr_51_12(&mut self, v: u64)
        requires
            v < 0x10000000000,
        ensures
            final(self).0 == set_field(old(self).0, 12, 40, v as u64),
    {
        proof {
            lemma_masks();
        }
        self.0 = write_field(self.0, 12, 40, v as u64);
    }

    /// OS-available high (bits 52..58).
    #[verifier::allow_in_spec]
    pub fn os_available_high(&self) -> u8
        returns
            get_field(self.0, 52, 7) as u8,
    {
        proof {
            lemma_field_fits(self.0, 52, 7);
        }
        read_field(self.0, 52, 7) as u8
    }

    /// Returns a copy with `os_available_high` set to `v` (which must fit in 7 bits).
    pub fn with_os_available_high(self, v: u8) -> (r: Self)
        requires
            v < 0x80,
        ensures
            r.0 == set_field(self.0, 52, 7, v as u64),
    {
        proof {
            lemma_masks();
        }
        Pml4Entry(write_field(self.0, 52, 7, v as u64))
    }

    /// Sets `os_available_high` to `v` (which must fit in 7 bits).
    pub fn set_os_available_high(&mut self, v: u8)
        requires
            v < 0x80,
        ensures
            final(self).0 == set_field(old(self).0, 52, 7, v as u64),
    {
        proof {
            lemma_masks();
        }
        self.0 = write_field(self.0, 52, 7, v as u64);
    }

    /// Protection Key / OS use (bits 59..62).
    #[verifier::allow_in_spec]
    pub fn protection_key(&self) -> u8
        returns
            get_field(self.0, 59, 4) as u8,
    {
        proof {
            lemma_field_fits(self.0, 59, 4);
        }
        read_field(self.0, 59, 4) as u8
    }

    /// Returns a copy with `protection_key` set to `v` (which must fit in 4 bits).
    pub fn with_protection_key(self, v: u8) -> (r: Self)
        requires
            v < 0x10,
        ensures
            r.0 == set_field(self.0, 59, 4, v as u64),
    {
        proof {
            lemma_masks();
        }
        Pml4Entry(write_field(self.0, 59, 4, v as u64))
    }

    /// Sets `protection_key` to `v` (which must fit in 4 bits).
    pub fn set_protection_key(&mut self, v: u8)
        requires
            v < 0x10,
        ensures
            final(self).0 == set_field(old(self).0, 59, 4, v as u64),
    {
        proof {
            lemma_masks();
        }
        self.0 = write_field(self.0, 59, 4, v as u64);
    }

    /// No-Execute (bit 63).
    #[verifier::allow_in_spec]
    pub fn no_execute(&self) -> bool
        returns
            get_flag(self.0, 63),
    {
        read_flag(self.0, 63)
    }

    /// Returns a copy with `no_execute` set to `v`.
    #[verifier::allow_in_spec]
    pub fn with_no_execute(self, v: bool) -> Self
        returns
            Pml4Entry(set_flag(self.0, 63, v)),
    {
        Pml4Entry(write_flag(self.0, 63, v))
    }

    /// Sets `no_execute` to `v`.
    pub fn set_no_execute(&mut self, v: bool)
        ensures
            final(self).0 == set_flag(old(self).0, 63, v),
    {
        self.0 = write_flag(self.0, 63, v);
    }

}


impl Pml4Entry {
    /// A zero (non-present) entry with all bits cleared.
    #[verifier::allow_in_spec]
    pub fn zero() -> Self
        returns
            Pml4Entry(0),
    {
        Pml4Entry(0)
    }
}

impl Pml4Entry {
    /// If present, the page of the next-level PDPT.
    pub fn next_table(self) -> (r: Option<PhysicalPage<Size4K>>)
        ensures
            match r {
                None => !get_flag(self.0, 0),
                Some(p) => get_flag(self.0, 0) && p.base.0 == frame_address(self.0) && p.wf(),
            },
    {
        if !self.present() {
            return None;
        }
        Some(self.physical_address())
    }

    /// A present entry that points at `next_pdpt_page`, with the other flags
    /// encoded from `flags`.
    pub fn present_with(flags: VirtualMemoryPageBits, next_pdpt_page: PhysicalPage<Size4K>) -> (r:
        Self)
        requires
            fits_phys(next_pdpt_page.base.0),
            next_pdpt_page.wf(),
        ensures
            (VirtualMemoryPageBits { present: true, ..flags }).nonleaf_in(r.0, next_pdpt_page.base.0),
    {
        flags.to_pml4e(next_pdpt_page).with_present(true).with_physical_address(next_pdpt_page)
    }

    /// Returns a copy that points at `phys`.
    pub fn with_physical_address(self, phys: PhysicalPage<Size4K>) -> (r: Self)
        requires
            fits_phys(phys.base.0),
        ensures
            r.0 == set_field(self.0, 12, 40, phys.base.0 >> 12),
            phys.wf() ==> frame_address(r.0) == phys.base.0,
    {
        let mut e = self;
        e.set_physical_address(phys);
        e
    }

    /// Points the entry at the PDPT in `phys`.
    pub fn set_physical_address(&mut self, phys: PhysicalPage<Size4K>)
        requires
            fits_phys(phys.base.0),
        ensures
            final(self).0 == set_field(old(self).0, 12, 40, phys.base.0 >> 12),
            phys.wf() ==> frame_address(final(self).0) == phys.base.0,
    {
        proof {
            lemma_masks();
            let a = phys.base.0;
            crate::bitfield::lemma_shift_facts(a, 0, 0);
            if phys.wf() {
                lemma_frame_address_roundtrip(self.0, phys.base.0);
            }
        }
        self.set_phys_addr_51_12(phys.base.0 >> 12);
    }

    /// The page of the next-level PDPT.
    pub fn physical_address(self) -> (r: PhysicalPage<Size4K>)
        ensures
            r.base.0 == frame_address(self.0),
            r.wf(),
    {
        proof {
            lemma_frame_address_bounds(self.0);
        }
        PhysicalPage::from_addr(PageEntryBits(self.0).physical_address())
    }
}

/// The top-level page map (PML4): 512 entries.
pub struct PageMapLevel4 {
    entries: [Pml4Entry; 512],
}

impl View for PageMapLevel4 {
    type V = Seq<Pml4Entry>;

    closed spec fn view(&self) -> Seq<Pml4Entry> {
        self.entries@
    }
}

impl PageMapLevel4 {
    /// The table always holds 512 entries.
    pub proof fn lemma_len(&self)
        ensures
            self@.len() == 512,
    {
    }

    /// A table whose entries are all zero (not present).
    pub fn zeroed() -> (r: Self)
        ensures
            r@.len() == 512,
            forall|i: int| 0 <= i < 512 ==> #[trigger] r@[i] == Pml4Entry::zero(),
    {
        PageMapLevel4 { entries: [Pml4Entry::zero(); 512] }
    }

    /// Reads the entry at `i`.
    pub fn get(&self, i: L4Index) -> (r: Pml4Entry)
        requires
            i.wf(),
        ensures
            r == self@[i.0 as int],
    {
        self.entries[i.as_usize()]
    }

    /// Writes the entry at `i`; all other entries stay as they were.
    pub fn set(&mut self, i: L4Index, e: Pml4Entry)
        requires
            i.wf(),
        ensures
            final(self)@ == old(self)@.update(i.0 as int, e),
    {
        self.entries[i.as_usize()] = e;
    }

    /// The index of `va` in a table of this level.
    pub fn index_of(va: VirtualAddress) -> (r: L4Index)
        ensures
            r.0 == l4_index(va.0),
            r.wf(),
    {
        L4Index::from(va)
    }
}

} // verus!
