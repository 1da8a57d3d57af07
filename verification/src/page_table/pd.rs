//! # x86-64 Page Directory (PD / L2)
//!
//! - [`L2Index`]: index type for virtual-address bits `[29:21]`.
//! - [`PdEntry`]: a PD entry that is either a pointer to a PT (`PS=0`) or a 2 MiB leaf (`PS=1`).
//! - [`PdEntryKind`]: decoded view of an entry (next PT vs 2 MiB leaf).
//! - [`PageDirectory`]: a 512-entry table.

use crate::addresses::{l2_index, PhysicalAddress, PhysicalPage, Size2M, Size4K, VirtualAddress};
use crate::bitfield::{
    get_field, get_flag, group_bitfield, lemma_field_bound, lemma_field_fits, lemma_masks, read_field, read_flag,
    set_field, set_flag, write_field, write_flag,
};
use crate::bits::VirtualMemoryPageBits;
use crate::page_entry_bits::{
    fits_phys, frame_address, lemma_frame_address_bounds, lemma_frame_address_roundtrip, PageEntryBits,
};
use crate::page_table::{
    leaf_2m_address, leaf_2m_address_shift, lemma_leaf_2m_bounds, lemma_leaf_2m_roundtrip,
};
use vstd::prelude::*;

pub use crate::table2::pd::L2Index;

verus! {

broadcast use group_bitfield;

/// A read-only typed view of a PD entry, chosen by its `PS` bit.
pub enum L2View {
    /// Non-leaf PDE view (PS=0).
    Entry(Pde),
    /// 2 MiB leaf PDE view (PS=1).
    Leaf2M(Pde2M),
}

/// L2 **PDE**: pointer to a **Page Table** (non-leaf; PS **= 0**).
#[derive(Copy, Clone, Debug, PartialEq, Eq, Structural)]
pub struct Pde(pub u64);

impl Pde {
    /// Creates a value with every field at its default.
    pub fn new() -> (r: Self)
        ensures
            r.0 == 0x0,
    {
        Pde(0x0)
    }

    /// Wraps raw bits (no validation).
    #[verifier::allow_in_spec]
    pub fn from_bits(bits: u64) -> Self
        returns
            Pde(bits),
    {
        Pde(bits)
    }

    /// The raw bits.
    #[verifier::allow_in_spec]
    pub fn into_bits(self) -> u64
        returns
            self.0,
    {
        self.0
    }

    /// Present (bit 0): valid entry if set.
    #[verifier::allow_in_spec]
    pub fn present(&self) -> bool
        returns
            get_flag(self.0, 0),
    {
        read_flag(self.0, 0)
    }

    /// Returns a copy with `present` set to `v`.
    #[verifier::allow_in_spec]
    pub fn with_present(self, v: bool) -> Self
        returns
            Pde(set_flag(self.0, 0, v)),
    {
        Pde(write_flag(self.0, 0, v))
    }

    /// Sets `present` to `v`.
    pub fn set_present(&mut self, v: bool)
        ensures
            final(self).0 == set_flag(old(self).0, 0, v),
    {
        self.0 = write_flag(self.0, 0, v);
    }

    /// Writable (bit 1): write permission.
    #[verifier::allow_in_spec]
    pub fn writable(&self) -> bool
        returns
            get_flag(self.0, 1),
    {
        read_flag(self.0, 1)
    }

    /// Returns a copy with `writable` set to `v`.
    #[verifier::allow_in_spec]
    pub fn with_writable(self, v: bool) -> Self
        returns
            Pde(set_flag(self.0, 1, v)),
    {
        Pde(write_flag(self.0, 1, v))
    }

    /// Sets `writable` to `v`.
    pub fn set_writable(&mut self, v: bool)
        ensures
            final(self).0 == set_flag(old(self).0, 1, v),
    {
        self.0 = write_flag(self.0, 1, v);
    }

    /// User (bit 2): user-mode access if set.
    #[verifier::allow_in_spec]
    pub fn user(&self) -> bool
        returns
            get_flag(self.0, 2),
    {
        read_flag(self.0, 2)
    }

    /// Returns a copy with `user` set to `v`.
    #[verifier::allow_in_spec]
    pub fn with_user(self, v: bool) -> Self
        returns
            Pde(set_flag(self.0, 2, v)),
    {
        Pde(write_flag(self.0, 2, v))
    }

    /// Sets `user` to `v`.
    pub fn set_user(&mut self, v: bool)
        ensures
            final(self).0 == set_flag(old(self).0, 2, v),
    {
        self.0 = write_flag(self.0, 2, v);
    }

    /// Page Write-Through (bit 3).
    #[verifier::allow_in_spec]
    pub fn write_through(&self) -> bool
        returns
            get_flag(self.0, 3),
    {
        read_flag(self.0, 3)
    }

    /// Returns a copy with `write_through` set to `v`.
    #[verifier::allow_in_spec]
    pub fn with_write_through(self, v: bool) -> Self
        returns
            Pde(set_flag(self.0, 3, v)),
    {
        Pde(write_flag(self.0, 3, v))
    }

    /// Sets `write_through` to `v`.
    pub fn set_write_through(&mut self, v: bool)
        ensures
            final(self).0 == set_flag(old(self).0, 3, v),
    {
        self.0 = write_flag(self.0, 3, v);
    }

    /// Page Cache Disable (bit 4).
    #[verifier::allow_in_spec]
    pub fn cache_disable(&self) -> bool
        returns
            get_flag(self.0, 4),
    {
        read_flag(self.0, 4)
    }

    /// Returns a copy with `cache_disable` set to `v`.
    #[verifier::allow_in_spec]
    pub fn with_cache_disable(self, v: bool) -> Self
        returns
            Pde(set_flag(self.0, 4, v)),
    {
        Pde(write_flag(self.0, 4, v))
    }

    /// Sets `cache_disable` to `v`.
    pub fn set_cache_disable(&mut self, v: bool)
        ensures
            final(self).0 == set_flag(old(self).0, 4, v),
    {
        self.0 = write_flag(self.0, 4, v);
    }

    /// Accessed (bit 5): set by the CPU on first access.
    #[verifier::allow_in_spec]
    pub fn accessed(&self) -> bool
        returns
            get_flag(self.0, 5),
    {
        read_flag(self.0, 5)
    }

    /// Returns a copy with `accessed` set to `v`.
    #[verifier::allow_in_spec]
    pub fn with_accessed(self, v: bool) -> Self
        returns
            Pde(set_flag(self.0, 5, v)),
    {
        Pde(write_flag(self.0, 5, v))
    }

    /// Sets `accessed` to `v`.
    pub fn set_accessed(&mut self, v: bool)
        ensures
            final(self).0 == set_flag(old(self).0, 5, v),
    {
        self.0 = write_flag(self.0, 5, v);
    }

    /// Dirty (bit 6): ignored in non-leaf entries.
    #[verifier::allow_in_spec]
    pub fn __d_ignored(&self) -> u8
        returns
            get_field(self.0, 6, 1) as u8,
    {
        proof {
            lemma_field_fits(self.0, 6, 1);
        }
        read_field(self.0, 6, 1) as u8
    }

    /// Page Size (bit 7): must be 0 in non-leaf entries.
    #[verifier::allow_in_spec]
    pub fn __ps_must_be_0(&self) -> u8
        returns
            get_field(self.0, 7, 1) as u8,
    {
        proof {
            lemma_field_fits(self.0, 7, 1);
        }
        read_field(self.0, 7, 1) as u8
    }

    /// Global (bit 8): ignored in non-leaf entries.
    #[verifier::allow_in_spec]
    pub fn __g_ignored(&self) -> u8
        returns
            get_field(self.0, 8, 1) as u8,
    {
        proof {
            lemma_field_fits(self.0, 8, 1);
        }
        read_field(self.0, 8, 1) as u8
    }

    /// OS-available low (bits 9..11).
    #[verifier::allow_in_spec]
    pub fn os_available_low(&self) -> u8
        returns
            get_field(self.0, 9, 3) as u8,
    {
        proof {
            lemma_field_fits(self.0, 9, 3);
        }
        read_field(self.0, 9, 3) as u8
    }

    /// Returns a copy with `os_available_low` set to `v` (which must fit in 3 bits).
    pub fn with_os_available_low(self, v: u8) -> (r: Self)
        requires
            v < 0x8,
        ensures
            r.0 == set_field(self.0, 9, 3, v as u64),
    {
        proof {
            lemma_masks();
        }
        Pde(write_field(self.0, 9, 3, v as u64))
    }

    /// Sets `os_available_low` to `v` (which must fit in 3 bits).
    pub fn set_os_available_low(&mut self, v: u8)
        requires
            v < 0x8,
        ensures
            final(self).0 == set_field(old(self).0, 9, 3, v as u64),
    {
        proof {
            lemma_masks();
        }
        self.0 = write_field(self.0, 9, 3, v as u64);
    }

    /// Next-level table physical address bits 51:12.
    #[verifier::allow_in_spec]
    pub fn phys_addr_51_12(&self) -> u64
        returns
            get_field(self.0, 12, 40) as u64,
    {
        proof {
            lemma_field_fits(self.0, 12, 40);
        }
        read_field(self.0, 12, 40) as u64
    }

    /// Returns a copy with `phys_addr_51_12` set to `v` (which must fit in 40 bits).
    fn with_phys_addr_51_12(self, v: u64) -> (r: Self)
        requires
            v < 0x10000000000,
        ensures
            r.0 == set_field(self.0, 12, 40, v as u64),
    {
        proof {
            lemma_masks();
        }
        Pde(write_field(self.0, 12, 40, v as u64))
    }

    /// Sets `phys_addr_51_12` to `v` (which must fit in 40 bits).
    fn set_phys_addr_51_12(&mut self, v: u64)
        requires
            v < 0x10000000000,
        ensures
            final(self).0 == set_field(old(self).0, 12, 40, v as u64),
    {
        proof {
            lemma_masks();
        }
        self.0 = write_field(self.0, 12, 40, v as u64);
    }

    /// OS-available high (bits 52..58).
    #[verifier::allow_in_spec]
    pub fn os_available_high(&self) -> u8
        returns
            get_field(self.0, 52, 7) as u8,
    {
        proof {
            lemma_field_fits(self.0, 52, 7);
        }
        read_field(self.0, 52, 7) as u8
    }

    /// Returns a copy with `os_available_high` set to `v` (which must fit in 7 bits).
    pub fn with_os_available_high(self, v: u8) -> (r: Self)
        requires
            v < 0x80,
        ensures
            r.0 == set_field(self.0, 52, 7, v as u64),
    {
        proof {
            lemma_masks();
        }
        Pde(write_field(self.0, 52, 7, v as u64))
    }

    /// Sets `os_available_high` to `v` (which must fit in 7 bits).
    pub fn set_os_available_high(&mut self, v: u8)
        requires
            v < 0x80,
        ensures
            final(self).0 == set_field(old(self).0, 52, 7, v as u64),
    {
        proof {
            lemma_masks();
        }
        self.0 = write_field(self.0, 52, 7, v as u64);
    }

    /// Protection Key / OS use (bits 59..62).
    #[verifier::allow_in_spec]
    pub fn protection_key(&self) -> u8
        returns
            get_field(self.0, 59, 4) as u8,
    {
        proof {
            lemma_field_fits(self.0, 59, 4);
        }
        read_field(self.0, 59, 4) as u8
    }

    /// Returns a copy with `protection_key` set to `v` (which must fit in 4 bits).
    pub fn with_protection_key(self, v: u8) -> (r: Self)
        requires
            v < 0x10,
        ensures
            r.0 == set_field(self.0, 59, 4, v as u64),
    {
        proof {
            lemma_masks();
        }
        Pde(write_field(self.0, 59, 4, v as u64))
    }

    /// Sets `protection_key` to `v` (which must fit in 4 bits).
    pub fn set_protection_key(&mut self, v: u8)
        requires
            v < 0x10,
        ensures
            final(self).0 == set_field(old(self).0, 59, 4, v as u64),
    {
        proof {
            lemma_masks();
        }
        self.0 = write_field(self.0, 59, 4, v as u64);
    }

    /// No-Execute (bit 63).
    #[verifier::allow_in_spec]
    pub fn no_execute(&self) -> bool
        returns
            get_flag(self.0, 63),
    {
        read_flag(self.0, 63)
    }

    /// Returns a copy with `no_execute` set to `v`.
    #[verifier::allow_in_spec]
    pub fn with_no_execute(self, v: bool) -> Self
        returns
            Pde(set_flag(self.0, 63, v)),
    {
        Pde(write_flag(self.0, 63, v))
    }

    /// Sets `no_execute` to `v`.
    pub fn set_no_execute(&mut self, v: bool)
        ensures
            final(self).0 == set_flag(old(self).0, 63, v),
    {
        self.0 = write_flag(self.0, 63, v);
    }

}


impl Pde {
    /// Returns a copy that points at the Page Table in `phys`.
    pub fn with_physical_page(self, phys: PhysicalPage<Size4K>) -> (r: Self)
        requires
            phys.wf(),
            fits_phys(phys.base.0),
        ensures
            r.0 == set_field(self.0, 12, 40, phys.base.0 >> 12),
            frame_address(r.0) == phys.base.0,
    {
        let mut e = self;
        e.set_physical_page(phys);
        e
    }

    /// Points the entry at the Page Table in `phys`.
    pub fn set_physical_page(&mut self, phys: PhysicalPage<Size4K>)
        requires
            phys.wf(),
            fits_phys(phys.base.0),
        ensures
            final(self).0 == set_field(old(self).0, 12, 40, phys.base.0 >> 12),
            frame_address(final(self).0) == phys.base.0,
    {
        proof {
            lemma_masks();
            lemma_frame_address_roundtrip(self.0, phys.base.0);
        }
        self.set_phys_addr_51_12(phys.base.0 >> 12);
    }

    /// The page of the next-level Page Table.
    pub fn physical_address(self) -> (r: PhysicalPage<Size4K>)
        ensures
            r.base.0 == frame_address(self.0),
            r.wf(),
    {
        proof {
            lemma_frame_address_bounds(self.0);
        }
        PhysicalPage::from_addr(PageEntryBits(self.0).physical_address())
    }
}

/// L2 **PDE (2 MiB leaf)**: maps a single 2 MiB page (`PS = 1`).
#[derive(Copy, Clone, Debug, PartialEq, Eq, Structural)]
pub struct Pde2M(pub u64);

impl Pde2M {
    /// Creates a value with every field at its default.
    pub fn new() -> (r: Self)
        ensures
            r.0 == 0x80,
    {
        Pde2M(0x80)
    }

    /// Wraps raw bits (no validation).
    #[verifier::allow_in_spec]
    pub fn from_bits(bits: u64) -> Self
        returns
            Pde2M(bits),
    {
        Pde2M(bits)
    }

    /// The raw bits.
    #[verifier::allow_in_spec]
    pub fn into_bits(self) -> u64
        returns
            self.0,
    {
        self.0
    }

    /// Present (bit 0): valid entry if set.
    #[verifier::allow_in_spec]
    pub fn present(&self) -> bool
        returns
            get_flag(self.0, 0),
    {
        read_flag(self.0, 0)
    }

    /// Returns a copy with `present` set to `v`.
    #[verifier::allow_in_spec]
    pub fn with_present(self, v: bool) -> Self
        returns
            Pde2M(set_flag(self.0, 0, v)),
    {
        Pde2M(write_flag(self.0, 0, v))
    }

    /// Sets `present` to `v`.
    pub fn set_present(&mut self, v: bool)
        ensures
            final(self).0 == set_flag(old(self).0, 0, v),
    {
        self.0 = write_flag(self.0, 0, v);
    }

    /// Writable (bit 1): write permission.
    #[verifier::allow_in_spec]
    pub fn writable(&self) -> bool
        returns
            get_flag(self.0, 1),
    {
        read_flag(self.0, 1)
    }

    /// Returns a copy with `writable` set to `v`.
    #[verifier::allow_in_spec]
    pub fn with_writable(self, v: bool) -> Self
        returns
            Pde2M(set_flag(self.0, 1, v)),
    {
        Pde2M(write_flag(self.0, 1, v))
    }

    /// Sets `writable` to `v`.
    pub fn set_writable(&mut self, v: bool)
        ensures
            final(self).0 == set_flag(old(self).0, 1, v),
    {
        self.0 = write_flag(self.0, 1, v);
    }

    /// User (bit 2): user-mode access if set.
    #[verifier::allow_in_spec]
    pub fn user(&self) -> bool
        returns
            get_flag(self.0, 2),
    {
        read_flag(self.0, 2)
    }

    /// Returns a copy with `user` set to `v`.
    #[verifier::allow_in_spec]
    pub fn with_user(self, v: bool) -> Self
        returns
            Pde2M(set_flag(self.0, 2, v)),
    {
        Pde2M(write_flag(self.0, 2, v))
    }

    /// Sets `user` to `v`.
    pub fn set_user(&mut self, v: bool)
        ensures
            final(self).0 == set_flag(old(self).0, 2, v),
    {
        self.0 = write_flag(self.0, 2, v);
    }

    /// Page Write-Through (bit 3).
    #[verifier::allow_in_spec]
    pub fn write_through(&self) -> bool
        returns
            get_flag(self.0, 3),
    {
        read_flag(self.0, 3)
    }

    /// Returns a copy with `write_through` set to `v`.
    #[verifier::allow_in_spec]
    pub fn with_write_through(self, v: bool) -> Self
        returns
            Pde2M(set_flag(self.0, 3, v)),
    {
        Pde2M(write_flag(self.0, 3, v))
    }

    /// Sets `write_through` to `v`.
    pub fn set_write_through(&mut self, v: bool)
        ensures
            final(self).0 == set_flag(old(self).0, 3, v),
    {
        self.0 = write_flag(self.0, 3, v);
    }

    /// Page Cache Disable (bit 4).
    #[verifier::allow_in_spec]
    pub fn cache_disable(&self) -> bool
        returns
            get_flag(self.0, 4),
    {
        read_flag(self.0, 4)
    }

    /// Returns a copy with `cache_disable` set to `v`.
    #[verifier::allow_in_spec]
    pub fn with_cache_disable(self, v: bool) -> Self
        returns
            Pde2M(set_flag(self.0, 4, v)),
    {
        Pde2M(write_flag(self.0, 4, v))
    }

    /// Sets `cache_disable` to `v`.
    pub fn set_cache_disable(&mut self, v: bool)
        ensures
            final(self).0 == set_flag(old(self).0, 4, v),
    {
        self.0 = write_flag(self.0, 4, v);
    }

    /// Accessed (bit 5): set by the CPU on first access.
    #[verifier::allow_in_spec]
    pub fn accessed(&self) -> bool
        returns
            get_flag(self.0, 5),
    {
        read_flag(self.0, 5)
    }

    /// Returns a copy with `accessed` set to `v`.
    #[verifier::allow_in_spec]
    pub fn with_accessed(self, v: bool) -> Self
        returns
            Pde2M(set_flag(self.0, 5, v)),
    {
        Pde2M(write_flag(self.0, 5, v))
    }

    /// Sets `accessed` to `v`.
    pub fn set_accessed(&mut self, v: bool)
        ensures
            final(self).0 == set_flag(old(self).0, 5, v),
    {
        self.0 = write_flag(self.0, 5, v);
    }

    /// Dirty (bit 6): set by the CPU on first write.
    #[verifier::allow_in_spec]
    pub fn dirty(&self) -> bool
        returns
            get_flag(self.0, 6),
    {
        read_flag(self.0, 6)
    }

    /// Returns a copy with `dirty` set to `v`.
    #[verifier::allow_in_spec]
    pub fn with_dirty(self, v: bool) -> Self
        returns
            Pde2M(set_flag(self.0, 6, v)),
    {
        Pde2M(write_flag(self.0, 6, v))
    }

    /// Sets `dirty` to `v`.
    pub fn set_dirty(&mut self, v: bool)
        ensures
            final(self).0 == set_flag(old(self).0, 6, v),
    {
        self.0 = write_flag(self.0, 6, v);
    }

    /// Page Size (bit 7): must be 1 for a 2 MiB leaf.
    #[verifier::allow_in_spec]
    pub fn page_size(&self) -> bool
        returns
            get_flag(self.0, 7),
    {
        read_flag(self.0, 7)
    }

    /// Returns a copy with `page_size` set to `v`.
    #[verifier::allow_in_spec]
    fn with_page_size(self, v: bool) -> Self
        returns
            Pde2M(set_flag(self.0, 7, v)),
    {
        Pde2M(write_flag(self.0, 7, v))
    }

    /// Sets `page_size` to `v`.
    fn set_page_size(&mut self, v: bool)
        ensures
            final(self).0 == set_flag(old(self).0, 7, v),
    {
        self.0 = write_flag(self.0, 7, v);
    }

    /// Global (bit 8): TLB entry kept across CR3 reloads.
    #[verifier::allow_in_spec]
    pub fn global(&self) -> bool
        returns
            get_flag(self.0, 8),
    {
        read_flag(self.0, 8)
    }

    /// Returns a copy with `global` set to `v`.
    #[verifier::allow_in_spec]
    pub fn with_global(self, v: bool) -> Self
        returns
            Pde2M(set_flag(self.0, 8, v)),
    {
        Pde2M(write_flag(self.0, 8, v))
    }

    /// Sets `global` to `v`.
    pub fn set_global(&mut self, v: bool)
        ensures
            final(self).0 == set_flag(old(self).0, 8, v),
    {
        self.0 = write_flag(self.0, 8, v);
    }

    /// OS-available low (bits 9..11).
    #[verifier::allow_in_spec]
    pub fn os_available_low(&self) -> u8
        returns
            get_field(self.0, 9, 3) as u8,
    {
        proof {
            lemma_field_fits(self.0, 9, 3);
        }
        read_field(self.0, 9, 3) as u8
    }

    /// Returns a copy with `os_available_low` set to `v` (which must fit in 3 bits).
    pub fn with_os_available_low(self, v: u8) -> (r: Self)
        requires
            v < 0x8,
        ensures
            r.0 == set_field(self.0, 9, 3, v as u64),
    {
        proof {
            lemma_masks();
        }
        Pde2M(write_field(self.0, 9, 3, v as u64))
    }

    /// Sets `os_available_low` to `v` (which must fit in 3 bits).
    pub fn set_os_available_low(&mut self, v: u8)
        requires
            v < 0x8,
        ensures
            final(self).0 == set_field(old(self).0, 9, 3, v as u64),
    {
        proof {
            lemma_masks();
        }
        self.0 = write_field(self.0, 9, 3, v as u64);
    }

    /// PAT selector for 2 MiB mappings (bit 12).
    #[verifier::allow_in_spec]
    pub fn pat_large(&self) -> bool
        returns
            get_flag(self.0, 12),
    {
        read_flag(self.0, 12)
    }

    /// Returns a copy with `pat_large` set to `v`.
    #[verifier::allow_in_spec]
    pub fn with_pat_large(self, v: bool) -> Self
        returns
            Pde2M(set_flag(self.0, 12, v)),
    {
        Pde2M(write_flag(self.0, 12, v))
    }

    /// Sets `pat_large` to `v`.
    pub fn set_pat_large(&mut self, v: bool)
        ensures
            final(self).0 == set_flag(old(self).0, 12, v),
    {
        self.0 = write_flag(self.0, 12, v);
    }

    /// Reserved (bits 13..20): must be 0.
    #[verifier::allow_in_spec]
    pub fn __res13_20(&self) -> u8
        returns
            get_field(self.0, 13, 8) as u8,
    {
        proof {
            lemma_field_fits(self.0, 13, 8);
        }
        read_field(self.0, 13, 8) as u8
    }

    /// Physical address bits 51:21.
    #[verifier::allow_in_spec]
    pub fn phys_addr_51_21(&self) -> u32
        returns
            get_field(self.0, 21, 31) as u32,
    {
        proof {
            lemma_field_fits(self.0, 21, 31);
        }
        read_field(self.0, 21, 31) as u32
    }

    /// Returns a copy with `phys_addr_51_21` set to `v` (which must fit in 31 bits).
    fn with_phys_addr_51_21(self, v: u32) -> (r: Self)
        requires
            v < 0x80000000,
        ensures
            r.0 == set_field(self.0, 21, 31, v as u64),
    {
        proof {
            lemma_masks();
        }
        Pde2M(write_field(self.0, 21, 31, v as u64))
    }

    /// Sets `phys_addr_51_21` to `v` (which must fit in 31 bits).
    fn set_phys_addr_51_21(&mut self, v: u32)
        requires
            v < 0x80000000,
        ensures
            final(self).0 == set_field(old(self).0, 21, 31, v as u64),
    {
        proof {
            lemma_masks();
        }
        self.0 = write_field(self.0, 21, 31, v as u64);
    }

    /// OS-available high (bits 52..58).
    #[verifier::allow_in_spec]
    pub fn os_available_high(&self) -> u8
        returns
            get_field(self.0, 52, 7) as u8,
    {
        proof {
            lemma_field_fits(self.0, 52, 7);
        }
        read_field(self.0, 52, 7) as u8
    }

    /// Returns a copy with `os_available_high` set to `v` (which must fit in 7 bits).
    pub fn with_os_available_high(self, v: u8) -> (r: Self)
        requires
            v < 0x80,
        ensures
            r.0 == set_field(self.0, 52, 7, v as u64),
    {
        proof {
            lemma_masks();
        }
        Pde2M(write_field(self.0, 52, 7, v as u64))
    }

    /// Sets `os_available_high` to `v` (which must fit in 7 bits).
    pub fn set_os_available_high(&mut self, v: u8)
        requires
            v < 0x80,
        ensures
            final(self).0 == set_field(old(self).0, 52, 7, v as u64),
    {
        proof {
            lemma_masks();
        }
        self.0 = write_field(self.0, 52, 7, v as u64);
    }

    /// Protection Key / OS use (bits 59..62).
    #[verifier::allow_in_spec]
    pub fn protection_key(&self) -> u8
        returns
            get_field(self.0, 59, 4) as u8,
    {
        proof {
            lemma_field_fits(self.0, 59, 4);
        }
        read_field(self.0, 59, 4) as u8
    }

    /// Returns a copy with `protection_key` set to `v` (which must fit in 4 bits).
    pub fn with_protection_key(self, v: u8) -> (r: Self)
        requires
            v < 0x10,
        ensures
            r.0 == set_field(self.0, 59, 4, v as u64),
    {
        proof {
            lemma_masks();
        }
        Pde2M(write_field(self.0, 59, 4, v as u64))
    }

    /// Sets `protection_key` to `v` (which must fit in 4 bits).
    pub fn set_protection_key(&mut self, v: u8)
        requires
            v < 0x10,
        ensures
            final(self).0 == set_field(old(self).0, 59, 4, v as u64),
    {
        proof {
            lemma_masks();
        }
        self.0 = write_field(self.0, 59, 4, v as u64);
    }

    /// No-Execute (bit 63).
    #[verifier::allow_in_spec]
    pub fn no_execute(&self) -> bool
        returns
            get_flag(self.0, 63),
    {
        read_flag(self.0, 63)
    }

    /// Returns a copy with `no_execute` set to `v`.
    #[verifier::allow_in_spec]
    pub fn with_no_execute(self, v: bool) -> Self
        returns
            Pde2M(set_flag(self.0, 63, v)),
    {
        Pde2M(write_flag(self.0, 63, v))
    }

    /// Sets `no_execute` to `v`.
    pub fn set_no_execute(&mut self, v: bool)
        ensures
            final(self).0 == set_flag(old(self).0, 63, v),
    {
        self.0 = write_flag(self.0, 63, v);
    }

}


impl Pde2M {
    /// Returns a copy that maps the 2 MiB page `phys` (and has `PS=1`).
    pub fn with_physical_page(self, phys: PhysicalPage<Size2M>) -> (r: Self)
        requires
            phys.wf(),
            fits_phys(phys.base.0),
        ensures
            r.0 == set_flag(set_field(self.0, 21, 31, phys.base.0 >> 21), 7, true),
            leaf_2m_address(r.0) == phys.base.0,
    {
        let mut e = self;
        e.set_physical_page(phys);
        e
    }

    /// Maps the 2 MiB page `phys` and sets `PS=1`.
    pub fn set_physical_page(&mut self, phys: PhysicalPage<Size2M>)
        requires
            phys.wf(),
            fits_phys(phys.base.0),
        ensures
            final(self).0 == set_flag(set_field(old(self).0, 21, 31, phys.base.0 >> 21), 7, true),
            leaf_2m_address(final(self).0) == phys.base.0,
    {
        proof {
            lemma_masks();
            lemma_leaf_2m_roundtrip(self.0, phys.base.0);
        }
        self.set_phys_addr_51_21((phys.base.0 >> 21) as u32);
        self.set_page_size(true);
    }

    /// The mapped 2 MiB page.
    pub fn physical_page(self) -> (r: PhysicalPage<Size2M>)
        ensures
            r.base.0 == leaf_2m_address(self.0),
            r.wf(),
    {
        let f = self.phys_addr_51_21() as u64;
        proof {
            lemma_masks();
            lemma_field_fits(self.0, 21, 31);
            lemma_field_bound(self.0, 21, 31);
            leaf_2m_address_shift(f);
            lemma_leaf_2m_bounds(self.0);
        }
        PhysicalPage::from_addr(PhysicalAddress::new(f << 21))
    }
}

impl Pde {
    /// An entry with common kernel RW flags: present, writable, supervisor-only, write-back,
    /// executable.
    pub fn new_common_rw() -> (r: Self)
        ensures
            r.present(),
            r.writable(),
            !r.user(),
            !r.write_through(),
            !r.cache_disable(),
            !r.no_execute(),
            !r.accessed(),
            r.__ps_must_be_0() == 0,
    {
        Self::new().with_present(true).with_writable(true).with_user(false).with_write_through(
            false,
        ).with_cache_disable(false).with_no_execute(false)
    }
}

impl Pde2M {
    /// An entry with common kernel RW flags: present, writable, supervisor-only, write-back,
    /// executable.
    pub fn new_common_rw() -> (r: Self)
        ensures
            r.present(),
            r.writable(),
            !r.user(),
            !r.write_through(),
            !r.cache_disable(),
            !r.no_execute(),
            !r.accessed(),
            r.page_size(),
    {
        Self::new().with_present(true).with_writable(true).with_user(false).with_write_through(
            false,
        ).with_cache_disable(false).with_no_execute(false).with_page_size(true)
    }
}

/// A single entry of this level: the non-leaf [`Pde`] (`PS=0`) and the leaf
/// [`Pde2M`] (`PS=1`) overlaid on the same 64 bits.
#[derive(Copy, Clone, Debug, PartialEq, Eq, Structural)]
pub struct PdEntry(pub u64);

/// A decoded entry.
pub enum PdEntryKind {
    /// Non-leaf (`PS=0`): the base of the next-level table and the entry.
    NextPageTable(PhysicalPage<Size4K>, Pde),
    /// Leaf (`PS=1`): the base of the mapped page and the entry.
    Leaf2MiB(PhysicalPage<Size2M>, Pde2M),
}

impl PdEntry {
    /// The zero (non-present) entry.
    pub fn new() -> (r: Self)
        ensures
            r.0 == 0,
    {
        PdEntry(0)
    }

    /// The non-leaf form `entry`.
    pub fn new_entry(entry: Pde) -> (r: Self)
        ensures
            r.0 == entry.0,
    {
        PdEntry(entry.0)
    }

    /// The leaf form `leaf`.
    pub fn new_leaf(leaf: Pde2M) -> (r: Self)
        ensures
            r.0 == leaf.0,
    {
        PdEntry(leaf.0)
    }

    /// Whether the present bit is set.
    pub fn present(self) -> (r: bool)
        ensures
            r == get_flag(self.0, 0),
    {
        read_flag(self.0, 0)
    }

    /// Wraps raw bits (no validation).
    pub fn from_bits(bits: u64) -> (r: Self)
        ensures
            r.0 == bits,
    {
        PdEntry(bits)
    }

    /// The raw bits.
    pub fn into_bits(self) -> (r: u64)
        ensures
            r == self.0,
    {
        self.0
    }

    /// The form chosen by the `PS` bit (bit 7): leaf if set, non-leaf if clear.
    pub fn view(self) -> (r: L2View)
        ensures
            match r {
                L2View::Entry(e) => !get_flag(self.0, 7) && e.0 == self.0,
                L2View::Leaf2M(l) => get_flag(self.0, 7) && l.0 == self.0,
            },
    {
        if read_flag(self.0, 7) {
            L2View::Leaf2M(Pde2M(self.0))
        } else {
            L2View::Entry(Pde(self.0))
        }
    }

    /// A zero (non-present) entry.
    #[verifier::allow_in_spec]
    pub fn zero() -> Self
        returns
            PdEntry(0),
    {
        PdEntry(0)
    }

    /// Decodes the entry: `None` if not present; otherwise the leaf (`PS=1`)
    /// with the base of the mapped page, or the non-leaf form (`PS=0`) with
    /// the base of the next-level table.
    pub fn kind(self) -> (r: Option<PdEntryKind>)
        ensures
            match r {
                None => !get_flag(self.0, 0),
                Some(PdEntryKind::NextPageTable(p, e)) => get_flag(self.0, 0) && !get_flag(self.0, 7) && e.0
                    == self.0 && p.base.0 == frame_address(self.0) && p.wf(),
                Some(PdEntryKind::Leaf2MiB(p, e)) => get_flag(self.0, 0) && get_flag(self.0, 7) && e.0
                    == self.0 && p.base.0 == leaf_2m_address(self.0) && p.wf(),
            },
    {
        if !self.present() {
            return None;
        }
        Some(
            match self.view() {
                L2View::Entry(entry) => {
                    proof {
                        lemma_frame_address_bounds(entry.0);
                    }
                    let base = PageEntryBits(entry.0).physical_address();
                    PdEntryKind::NextPageTable(PhysicalPage::<Size4K>::from_addr(base), entry)
                },
                L2View::Leaf2M(entry) => {
                    proof {
                        lemma_leaf_2m_bounds(entry.0);
                    }
                    let base = entry.physical_page();
                    PdEntryKind::Leaf2MiB(PhysicalPage::<Size2M>::from_addr(base.base()), entry)
                },
            },
        )
    }
}

impl From<Pde> for PdEntry {
    fn from(e: Pde) -> (r: Self) {
        Self::new_entry(e)
    }
}

impl vstd::std_specs::convert::FromSpecImpl<Pde> for PdEntry {
    open spec fn obeys_from_spec() -> bool {
        true
    }

    open spec fn from_spec(v: Pde) -> Self {
        PdEntry(v.0)
    }
}

impl From<Pde2M> for PdEntry {
    fn from(e: Pde2M) -> (r: Self) {
        Self::new_leaf(e)
    }
}

impl vstd::std_specs::convert::FromSpecImpl<Pde2M> for PdEntry {
    open spec fn obeys_from_spec() -> bool {
        true
    }

    open spec fn from_spec(v: Pde2M) -> Self {
        PdEntry(v.0)
    }
}

impl PdEntry {
    /// A present non-leaf entry (`PS=0`) that points at the Page Table in
    /// `page`, with the other flags encoded from `leaf_flags`.
    pub fn present_next_with(leaf_flags: VirtualMemoryPageBits, page: PhysicalPage<Size4K>) -> (r:
        Self)
        requires
            page.wf(),
            fits_phys(page.base.0),
        ensures
            (VirtualMemoryPageBits { present: true, ..leaf_flags }).nonleaf_in(r.0, page.base.0),
    {
        Self::new_entry(leaf_flags.to_pde(page).with_present(true).with_physical_page(page))
    }

    /// A present 2 MiB leaf (`PS=1`) for `page`, with the other flags encoded
    /// from `leaf_flags`.
    pub fn present_leaf_with(leaf_flags: VirtualMemoryPageBits, page: PhysicalPage<Size2M>) -> (r:
        Self)
        requires
            page.wf(),
            fits_phys(page.base.0),
        ensures
            (VirtualMemoryPageBits { present: true, ..leaf_flags }).leaf_2m_in(r.0, page.base.0),
    {
        Self::new_leaf(
            leaf_flags.to_pde_2m(page).with_present(true).with_page_size(true).with_physical_page(
                page,
            ),
        )
    }
}

impl Default for PdEntry {
    fn default() -> (r: Self)
        ensures
            r.0 == 0,
    {
        Self::new()
    }
}

/// The Page Directory (L2): 512 entries.
pub struct PageDirectory {
    entries: [PdEntry; 512],
}

impl View for PageDirectory {
    type V = Seq<PdEntry>;

    closed spec fn view(&self) -> Seq<PdEntry> {
        self.entries@
    }
}

impl PageDirectory {
    /// The table always holds 512 entries.
    pub proof fn lemma_len(&self)
        ensures
            self@.len() == 512,
    {
    }

    /// A table whose entries are all zero (not present).
    pub fn zeroed() -> (r: Self)
        ensures
            r@.len() == 512,
            forall|i: int| 0 <= i < 512 ==> #[trigger] r@[i] == PdEntry::zero(),
    {
        PageDirectory { entries: [PdEntry::zero(); 512] }
    }

    /// Reads the entry at `i`.
    pub fn get(&self, i: L2Index) -> (r: PdEntry)
        requires
            i.wf(),
        ensures
            r == self@[i.0 as int],
    {
        self.entries[i.as_usize()]
    }

    /// Writes the entry at `i`; all other entries stay as they were.
    pub fn set(&mut self, i: L2Index, e: PdEntry)
        requires
            i.wf(),
        ensures
            final(self)@ == old(self)@.update(i.0 as int, e),
    {
        self.entries[i.as_usize()] = e;
    }

    /// The index of `va` in a table of this level.
    pub fn index_of(va: VirtualAddress) -> (r: L2Index)
        ensures
            r.0 == l2_index(va.0),
            r.wf(),
    {
        L2Index::from(va)
    }
}

impl PageDirectory {
    /// Sets the entry at `i` to [`PdEntry::zero`].
    pub fn set_zero(&mut self, i: L2Index)
        requires
            i.wf(),
        ensures
            final(self)@ == old(self)@.update(i.0 as int, PdEntry::zero()),
    {
        self.set(i, PdEntry::zero());
    }
}

} // verus!
