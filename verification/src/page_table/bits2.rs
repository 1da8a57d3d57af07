//! # Bit-field forms of the paging entries of each level
//!
//! One type per entry form (non-leaf and leaf) and two overlays that pick
//! the form of a PDPT or PD entry by its `PS` bit.

use crate::addresses::PhysicalAddress;
use crate::bitfield::{
    get_field, get_flag, group_bitfield, lemma_field_bound, lemma_field_fits, lemma_masks, read_field, read_flag,
    set_field, set_flag, write_field, write_flag,
};
use crate::page_entry_bits::{fits_phys, frame_address, lemma_frame_address_roundtrip, PageEntryBits};
use crate::page_table::{
    leaf_1g_address, leaf_1g_address_shift, leaf_2m_address, leaf_2m_address_shift,
    lemma_leaf_1g_roundtrip, lemma_leaf_2m_roundtrip,
};
use vstd::prelude::*;

verus! {

broadcast use group_bitfield;

/// L4 **PML4E**: pointer to a **PDPT** (non-leaf; PS **must be 0**).
#[derive(Copy, Clone, Debug, PartialEq, Eq, Structural)]
pub struct Pml4e(pub u64);

impl Pml4e {
    /// Creates a value with every field at its default.
    pub fn new() -> (r: Self)
        ensures
            r.0 == 0x0,
    {
        Pml4e(0x0)
    }

    /// Wraps raw bits (no validation).
    #[verifier::allow_in_spec]
    pub fn from_bits(bits: u64) -> Self
        returns
            Pml4e(bits),
    {
        Pml4e(bits)
    }

    /// The raw bits.
    #[verifier::allow_in_spec]
    pub fn into_bits(self) -> u64
        returns
            self.0,
    {
        self.0
    }

    /// Present (bit 0): valid entry if set.
    #[verifier::allow_in_spec]
    pub fn present(&self) -> bool
        returns
            get_flag(self.0, 0),
    {
        read_flag(self.0, 0)
    }

    /// Returns a copy with `present` set to `v`.
    #[verifier::allow_in_spec]
    pub fn with_present(self, v: bool) -> Self
        returns
            Pml4e(set_flag(self.0, 0, v)),
    {
        Pml4e(write_flag(self.0, 0, v))
    }

    /// Sets `present` to `v`.
    pub fn set_present(&mut self, v: bool)
        ensures
            final(self).0 == set_flag(old(self).0, 0, v),
    {
        self.0 = write_flag(self.0, 0, v);
    }

    /// Writable (bit 1): write permission.
    #[verifier::allow_in_spec]
    pub fn writable(&self) -> bool
        returns
            get_flag(self.0, 1),
    {
        read_flag(self.0, 1)
    }

    /// Returns a copy with `writable` set to `v`.
    #[verifier::allow_in_spec]
    pub fn with_writable(self, v: bool) -> Self
        returns
            Pml4e(set_flag(self.0, 1, v)),
    {
        Pml4e(write_flag(self.0, 1, v))
    }

    /// Sets `writable` to `v`.
    pub fn set_writable(&mut self, v: bool)
        ensures
            final(self).0 == set_flag(old(self).0, 1, v),
    {
        self.0 = write_flag(self.0, 1, v);
    }

    /// User (bit 2): user-mode access if set.
    #[verifier::allow_in_spec]
    pub fn user(&self) -> bool
        returns
            get_flag(self.0, 2),
    {
        read_flag(self.0, 2)
    }

    /// Returns a copy with `user` set to `v`.
    #[verifier::allow_in_spec]
    pub fn with_user(self, v: bool) -> Self
        returns
            Pml4e(set_flag(self.0, 2, v)),
    {
        Pml4e(write_flag(self.0, 2, v))
    }

    /// Sets `user` to `v`.
    pub fn set_user(&mut self, v: bool)
        ensures
            final(self).0 == set_flag(old(self).0, 2, v),
    {
        self.0 = write_flag(self.0, 2, v);
    }

    /// Page Write-Through (bit 3).
    #[verifier::allow_in_spec]
    pub fn write_through(&self) -> bool
        returns
            get_flag(self.0, 3),
    {
        read_flag(self.0, 3)
    }

    /// Returns a copy with `write_through` set to `v`.
    #[verifier::allow_in_spec]
    pub fn with_write_through(self, v: bool) -> Self
        returns
            Pml4e(set_flag(self.0, 3, v)),
    {
        Pml4e(write_flag(self.0, 3, v))
    }

    /// Sets `write_through` to `v`.
    pub fn set_write_through(&mut self, v: bool)
        ensures
            final(self).0 == set_flag(old(self).0, 3, v),
    {
        self.0 = write_flag(self.0, 3, v);
    }

    /// Page Cache Disable (bit 4).
    #[verifier::allow_in_spec]
    pub fn cache_disable(&self) -> bool
        returns
            get_flag(self.0, 4),
    {
        read_flag(self.0, 4)
    }

    /// Returns a copy with `cache_disable` set to `v`.
    #[verifier::allow_in_spec]
    pub fn with_cache_disable(self, v: bool) -> Self
        returns
            Pml4e(set_flag(self.0, 4, v)),
    {
        Pml4e(write_flag(self.0, 4, v))
    }

    /// Sets `cache_disable` to `v`.
    pub fn set_cache_disable(&mut self, v: bool)
        ensures
            final(self).0 == set_flag(old(self).0, 4, v),
    {
        self.0 = write_flag(self.0, 4, v);
    }

    /// Accessed (bit 5): set by the CPU on first access.
    #[verifier::allow_in_spec]
    pub fn accessed(&self) -> bool
        returns
            get_flag(self.0, 5),
    {
        read_flag(self.0, 5)
    }

    /// Returns a copy with `accessed` set to `v`.
    #[verifier::allow_in_spec]
    pub fn with_accessed(self, v: bool) -> Self
        returns
            Pml4e(set_flag(self.0, 5, v)),
    {
        Pml4e(write_flag(self.0, 5, v))
    }

    /// Sets `accessed` to `v`.
    pub fn set_accessed(&mut self, v: bool)
        ensures
            final(self).0 == set_flag(old(self).0, 5, v),
    {
        self.0 = write_flag(self.0, 5, v);
    }

    /// Dirty (bit 6): ignored in non-leaf entries.
    #[verifier::allow_in_spec]
    pub fn __d_ignored(&self) -> u8
        returns
            get_field(self.0, 6, 1) as u8,
    {
        proof {
            lemma_field_fits(self.0, 6, 1);
        }
        read_field(self.0, 6, 1) as u8
    }

    /// Page Size (bit 7): must be 0 in non-leaf entries.
    #[verifier::allow_in_spec]
    pub fn __ps_must_be_0(&self) -> u8
        returns
            get_field(self.0, 7, 1) as u8,
    {
        proof {
            lemma_field_fits(self.0, 7, 1);
        }
        read_field(self.0, 7, 1) as u8
    }

    /// Global (bit 8): ignored in non-leaf entries.
    #[verifier::allow_in_spec]
    pub fn __g_ignored(&self) -> u8
        returns
            get_field(self.0, 8, 1) as u8,
    {
        proof {
            lemma_field_fits(self.0, 8, 1);
        }
        read_field(self.0, 8, 1) as u8
    }

    /// OS-available low (bits 9..11).
    #[verifier::allow_in_spec]
    pub fn os_available_low(&self) -> u8
        returns
            get_field(self.0, 9, 3) as u8,
    {
        proof {
            lemma_field_fits(self.0, 9, 3);
        }
        read_field(self.0, 9, 3) as u8
    }

    /// Returns a copy with `os_available_low` set to `v` (which must fit in 3 bits).
    pub fn with_os_available_low(self, v: u8) -> (r: Self)
        requires
            v < 0x8,
        ensures
            r.0 == set_field(self.0, 9, 3, v as u64),
    {
        proof {
            lemma_masks();
        }
        Pml4e(write_field(self.0, 9, 3, v as u64))
    }

    /// Sets `os_available_low` to `v` (which must fit in 3 bits).
    pub fn set_os_available_low(&mut self, v: u8)
        requires
            v < 0x8,
        ensures
            final(self).0 == set_field(old(self).0, 9, 3, v as u64),
    {
        proof {
            lemma_masks();
        }
        self.0 = write_field(self.0, 9, 3, v as u64);
    }

    /// Next-level table physical address bits 51:12.
    #[verifier::allow_in_spec]
    pub fn phys_addr_51_12(&self) -> u64
        returns
            get_field(self.0, 12, 40) as u64,
    {
        proof {
            lemma_field_fits(self.0, 12, 40);
        }
        read_field(self.0, 12, 40) as u64
    }

    /// Returns a copy with `phys_addr_51_12` set to `v` (which must fit in 40 bits).
    fn with_phys_addr_51_12(self, v: u64) -> (r: Self)
        requires
            v < 0x10000000000,
        ensures
            r.0 == set_field(self.0, 12, 40, v as u64),
    {
        proof {
            lemma_masks();
        }
        Pml4e(write_field(self.0, 12, 40, v as u64))
    }

    /// Sets `phys_addr_51_12` to `v` (which must fit in 40 bits).
    fn set_phys_addr_51_12(&mut self, v: u64)
        requires
            v < 0x10000000000,
        ensures
            final(self).0 == set_field(old(self).0, 12, 40, v as u64),
    {
        proof {
            lemma_masks();
        }
        self.0 = write_field(self.0, 12, 40, v as u64);
    }

    /// OS-available high (bits 52..58).
    #[verifier::allow_in_spec]
    pub fn os_available_high(&self) -> u8
        returns
            get_field(self.0, 52, 7) as u8,
    {
        proof {
            lemma_field_fits(self.0, 52, 7);
        }
        read_field(self.0, 52, 7) as u8
    }

    /// Returns a copy with `os_available_high` set to `v` (which must fit in 7 bits).
    pub fn with_os_available_high(self, v: u8) -> (r: Self)
        requires
            v < 0x80,
        ensures
            r.0 == set_field(self.0, 52, 7, v as u64),
    {
        proof {
            lemma_masks();
        }
        Pml4e(write_field(self.0, 52, 7, v as u64))
    }

    /// Sets `os_available_high` to `v` (which must fit in 7 bits).
    pub fn set_os_available_high(&mut self, v: u8)
        requires
            v < 0x80,
        ensures
            final(self).0 == set_field(old(self).0, 52, 7, v as u64),
    {
        proof {
            lemma_masks();
        }
        self.0 = write_field(self.0, 52, 7, v as u64);
    }

    /// Protection Key / OS use (bits 59..62).
    #[verifier::allow_in_spec]
    pub fn protection_key(&self) -> u8
        returns
            get_field(self.0, 59, 4) as u8,
    {
        proof {
            lemma_field_fits(self.0, 59, 4);
        }
        read_field(self.0, 59, 4) as u8
    }

    /// Returns a copy with `protection_key` set to `v` (which must fit in 4 bits).
    pub fn with_protection_key(self, v: u8) -> (r: Self)
        requires
            v < 0x10,
        ensures
            r.0 == set_field(self.0, 59, 4, v as u64),
    {
        proof {
            lemma_masks();
        }
        Pml4e(write_field(self.0, 59, 4, v as u64))
    }

    /// Sets `protection_key` to `v` (which must fit in 4 bits).
    pub fn set_protection_key(&mut self, v: u8)
        requires
            v < 0x10,
        ensures
            final(self).0 == set_field(old(self).0, 59, 4, v as u64),
    {
        proof {
            lemma_masks();
        }
        self.0 = write_field(self.0, 59, 4, v as u64);
    }

    /// No-Execute (bit 63).
    #[verifier::allow_in_spec]
    pub fn no_execute(&self) -> bool
        returns
            get_flag(self.0, 63),
    {
        read_flag(self.0, 63)
    }

    /// Returns a copy with `no_execute` set to `v`.
    #[verifier::allow_in_spec]
    pub fn with_no_execute(self, v: bool) -> Self
        returns
            Pml4e(set_flag(self.0, 63, v)),
    {
        Pml4e(write_flag(self.0, 63, v))
    }

    /// Sets `no_execute` to `v`.
    pub fn set_no_execute(&mut self, v: bool)
        ensures
            final(self).0 == set_flag(old(self).0, 63, v),
    {
        self.0 = write_flag(self.0, 63, v);
    }

}


impl Pml4e {
    /// Stores the 4 KiB-aligned base of the PDPT (bits 51:12).
    pub fn set_physical_address(&mut self, phys: PhysicalAddress)
        requires
            phys.0 % 0x1000 == 0,
            fits_phys(phys.0),
        ensures
            final(self).0 == set_field(old(self).0, 12, 40, phys.0 >> 12),
            final(self).physical_address() == phys,
    {
        proof {
            lemma_frame_address_roundtrip(self.0, phys.0);
            lemma_masks();
        }
        self.set_phys_addr_51_12(phys.0 >> 12);
    }

    /// The 4 KiB-aligned base of the PDPT (bits 51:12).
    #[verifier::allow_in_spec]
    pub fn physical_address(self) -> PhysicalAddress
        returns
            PhysicalAddress(frame_address(self.0)),
    {
        PageEntryBits(self.0).physical_address()
    }
}

/// L3 **PDPTE**: pointer to a **Page Directory** (non-leaf; PS **= 0**).
#[derive(Copy, Clone, Debug, PartialEq, Eq, Structural)]
pub struct Pdpte(pub u64);

impl Pdpte {
    /// Creates a value with every field at its default.
    pub fn new() -> (r: Self)
        ensures
            r.0 == 0x0,
    {
        Pdpte(0x0)
    }

    /// Wraps raw bits (no validation).
    #[verifier::allow_in_spec]
    pub fn from_bits(bits: u64) -> Self
        returns
            Pdpte(bits),
    {
        Pdpte(bits)
    }

    /// The raw bits.
    #[verifier::allow_in_spec]
    pub fn into_bits(self) -> u64
        returns
            self.0,
    {
        self.0
    }

    /// Present (bit 0): valid entry if set.
    #[verifier::allow_in_spec]
    pub fn present(&self) -> bool
        returns
            get_flag(self.0, 0),
    {
        read_flag(self.0, 0)
    }

    /// Returns a copy with `present` set to `v`.
    #[verifier::allow_in_spec]
    pub fn with_present(self, v: bool) -> Self
        returns
            Pdpte(set_flag(self.0, 0, v)),
    {
        Pdpte(write_flag(self.0, 0, v))
    }

    /// Sets `present` to `v`.
    pub fn set_present(&mut self, v: bool)
        ensures
            final(self).0 == set_flag(old(self).0, 0, v),
    {
        self.0 = write_flag(self.0, 0, v);
    }

    /// Writable (bit 1): write permission.
    #[verifier::allow_in_spec]
    pub fn writable(&self) -> bool
        returns
            get_flag(self.0, 1),
    {
        read_flag(self.0, 1)
    }

    /// Returns a copy with `writable` set to `v`.
    #[verifier::allow_in_spec]
    pub fn with_writable(self, v: bool) -> Self
        returns
            Pdpte(set_flag(self.0, 1, v)),
    {
        Pdpte(write_flag(self.0, 1, v))
    }

    /// Sets `writable` to `v`.
    pub fn set_writable(&mut self, v: bool)
        ensures
            final(self).0 == set_flag(old(self).0, 1, v),
    {
        self.0 = write_flag(self.0, 1, v);
    }

    /// User (bit 2): user-mode access if set.
    #[verifier::allow_in_spec]
    pub fn user(&self) -> bool
        returns
            get_flag(self.0, 2),
    {
        read_flag(self.0, 2)
    }

    /// Returns a copy with `user` set to `v`.
    #[verifier::allow_in_spec]
    pub fn with_user(self, v: bool) -> Self
        returns
            Pdpte(set_flag(self.0, 2, v)),
    {
        Pdpte(write_flag(self.0, 2, v))
    }

    /// Sets `user` to `v`.
    pub fn set_user(&mut self, v: bool)
        ensures
            final(self).0 == set_flag(old(self).0, 2, v),
    {
        self.0 = write_flag(self.0, 2, v);
    }

    /// Page Write-Through (bit 3).
    #[verifier::allow_in_spec]
    pub fn write_through(&self) -> bool
        returns
            get_flag(self.0, 3),
    {
        read_flag(self.0, 3)
    }

    /// Returns a copy with `write_through` set to `v`.
    #[verifier::allow_in_spec]
    pub fn with_write_through(self, v: bool) -> Self
        returns
            Pdpte(set_flag(self.0, 3, v)),
    {
        Pdpte(write_flag(self.0, 3, v))
    }

    /// Sets `write_through` to `v`.
    pub fn set_write_through(&mut self, v: bool)
        ensures
            final(self).0 == set_flag(old(self).0, 3, v),
    {
        self.0 = write_flag(self.0, 3, v);
    }

    /// Page Cache Disable (bit 4).
    #[verifier::allow_in_spec]
    pub fn cache_disable(&self) -> bool
        returns
            get_flag(self.0, 4),
    {
        read_flag(self.0, 4)
    }

    /// Returns a copy with `cache_disable` set to `v`.
    #[verifier::allow_in_spec]
    pub fn with_cache_disable(self, v: bool) -> Self
        returns
            Pdpte(set_flag(self.0, 4, v)),
    {
        Pdpte(write_flag(self.0, 4, v))
    }

    /// Sets `cache_disable` to `v`.
    pub fn set_cache_disable(&mut self, v: bool)
        ensures
            final(self).0 == set_flag(old(self).0, 4, v),
    {
        self.0 = write_flag(self.0, 4, v);
    }

    /// Accessed (bit 5): set by the CPU on first access.
    #[verifier::allow_in_spec]
    pub fn accessed(&self) -> bool
        returns
            get_flag(self.0, 5),
    {
        read_flag(self.0, 5)
    }

    /// Returns a copy with `accessed` set to `v`.
    #[verifier::allow_in_spec]
    pub fn with_accessed(self, v: bool) -> Self
        returns
            Pdpte(set_flag(self.0, 5, v)),
    {
        Pdpte(write_flag(self.0, 5, v))
    }

    /// Sets `accessed` to `v`.
    pub fn set_accessed(&mut self, v: bool)
        ensures
            final(self).0 == set_flag(old(self).0, 5, v),
    {
        self.0 = write_flag(self.0, 5, v);
    }

    /// Dirty (bit 6): ignored in non-leaf entries.
    #[verifier::allow_in_spec]
    pub fn __d_ignored(&self) -> u8
        returns
            get_field(self.0, 6, 1) as u8,
    {
        proof {
            lemma_field_fits(self.0, 6, 1);
        }
        read_field(self.0, 6, 1) as u8
    }

    /// Page Size (bit 7): must be 0 in non-leaf entries.
    #[verifier::allow_in_spec]
    pub fn __ps_must_be_0(&self) -> u8
        returns
            get_field(self.0, 7, 1) as u8,
    {
        proof {
            lemma_field_fits(self.0, 7, 1);
        }
        read_field(self.0, 7, 1) as u8
    }

    /// Global (bit 8): ignored in non-leaf entries.
    #[verifier::allow_in_spec]
    pub fn __g_ignored(&self) -> u8
        returns
            get_field(self.0, 8, 1) as u8,
    {
        proof {
            lemma_field_fits(self.0, 8, 1);
        }
        read_field(self.0, 8, 1) as u8
    }

    /// OS-available low (bits 9..11).
    #[verifier::allow_in_spec]
    pub fn os_available_low(&self) -> u8
        returns
            get_field(self.0, 9, 3) as u8,
    {
        proof {
            lemma_field_fits(self.0, 9, 3);
        }
        read_field(self.0, 9, 3) as u8
    }

    /// Returns a copy with `os_available_low` set to `v` (which must fit in 3 bits).
    pub fn with_os_available_low(self, v: u8) -> (r: Self)
        requires
            v < 0x8,
        ensures
            r.0 == set_field(self.0, 9, 3, v as u64),
    {
        proof {
            lemma_masks();
        }
        Pdpte(write_field(self.0, 9, 3, v as u64))
    }

    /// Sets `os_available_low` to `v` (which must fit in 3 bits).
    pub fn set_os_available_low(&mut self, v: u8)
        requires
            v < 0x8,
        ensures
            final(self).0 == set_field(old(self).0, 9, 3, v as u64),
    {
        proof {
            lemma_masks();
        }
        self.0 = write_field(self.0, 9, 3, v as u64);
    }

    /// Next-level table physical address bits 51:12.
    #[verifier::allow_in_spec]
    pub fn phys_addr_51_12(&self) -> u64
        returns
            get_field(self.0, 12, 40) as u64,
    {
        proof {
            lemma_field_fits(self.0, 12, 40);
        }
        read_field(self.0, 12, 40) as u64
    }

    /// Returns a copy with `phys_addr_51_12` set to `v` (which must fit in 40 bits).
    fn with_phys_addr_51_12(self, v: u64) -> (r: Self)
        requires
            v < 0x10000000000,
        ensures
            r.0 == set_field(self.0, 12, 40, v as u64),
    {
        proof {
            lemma_masks();
        }
        Pdpte(write_field(self.0, 12, 40, v as u64))
    }

    /// Sets `phys_addr_51_12` to `v` (which must fit in 40 bits).
    fn set_phys_addr_51_12(&mut self, v: u64)
        requires
            v < 0x10000000000,
        ensures
            final(self).0 == set_field(old(self).0, 12, 40, v as u64),
    {
        proof {
            lemma_masks();
        }
        self.0 = write_field(self.0, 12, 40, v as u64);
    }

    /// OS-available high (bits 52..58).
    #[verifier::allow_in_spec]
    pub fn os_available_high(&self) -> u8
        returns
            get_field(self.0, 52, 7) as u8,
    {
        proof {
            lemma_field_fits(self.0, 52, 7);
        }
        read_field(self.0, 52, 7) as u8
    }

    /// Returns a copy with `os_available_high` set to `v` (which must fit in 7 bits).
    pub fn with_os_available_high(self, v: u8) -> (r: Self)
        requires
            v < 0x80,
        ensures
            r.0 == set_field(self.0, 52, 7, v as u64),
    {
        proof {
            lemma_masks();
        }
        Pdpte(write_field(self.0, 52, 7, v as u64))
    }

    /// Sets `os_available_high` to `v` (which must fit in 7 bits).
    pub fn set_os_available_high(&mut self, v: u8)
        requires
            v < 0x80,
        ensures
            final(self).0 == set_field(old(self).0, 52, 7, v as u64),
    {
        proof {
            lemma_masks();
        }
        self.0 = write_field(self.0, 52, 7, v as u64);
    }

    /// Protection Key / OS use (bits 59..62).
    #[verifier::allow_in_spec]
    pub fn protection_key(&self) -> u8
        returns
            get_field(self.0, 59, 4) as u8,
    {
        proof {
            lemma_field_fits(self.0, 59, 4);
        }
        read_field(self.0, 59, 4) as u8
    }

    /// Returns a copy with `protection_key` set to `v` (which must fit in 4 bits).
    pub fn with_protection_key(self, v: u8) -> (r: Self)
        requires
            v < 0x10,
        ensures
            r.0 == set_field(self.0, 59, 4, v as u64),
    {
        proof {
            lemma_masks();
        }
        Pdpte(write_field(self.0, 59, 4, v as u64))
    }

    /// Sets `protection_key` to `v` (which must fit in 4 bits).
    pub fn set_protection_key(&mut self, v: u8)
        requires
            v < 0x10,
        ensures
            final(self).0 == set_field(old(self).0, 59, 4, v as u64),
    {
        proof {
            lemma_masks();
        }
        self.0 = write_field(self.0, 59, 4, v as u64);
    }

    /// No-Execute (bit 63).
    #[verifier::allow_in_spec]
    pub fn no_execute(&self) -> bool
        returns
            get_flag(self.0, 63),
    {
        read_flag(self.0, 63)
    }

    /// Returns a copy with `no_execute` set to `v`.
    #[verifier::allow_in_spec]
    pub fn with_no_execute(self, v: bool) -> Self
        returns
            Pdpte(set_flag(self.0, 63, v)),
    {
        Pdpte(write_flag(self.0, 63, v))
    }

    /// Sets `no_execute` to `v`.
    pub fn set_no_execute(&mut self, v: bool)
        ensures
            final(self).0 == set_flag(old(self).0, 63, v),
    {
        self.0 = write_flag(self.0, 63, v);
    }

}


impl Pdpte {
    /// Stores the 4 KiB-aligned base of the Page Directory (bits 51:12).
    pub fn set_physical_address(&mut self, phys: PhysicalAddress)
        requires
            phys.0 % 0x1000 == 0,
            fits_phys(phys.0),
        ensures
            final(self).0 == set_field(old(self).0, 12, 40, phys.0 >> 12),
            final(self).physical_address() == phys,
    {
        proof {
            lemma_frame_address_roundtrip(self.0, phys.0);
            lemma_masks();
        }
        self.set_phys_addr_51_12(phys.0 >> 12);
    }

    /// The 4 KiB-aligned base of the Page Directory (bits 51:12).
    #[verifier::allow_in_spec]
    pub fn physical_address(self) -> PhysicalAddress
        returns
            PhysicalAddress(frame_address(self.0)),
    {
        PageEntryBits(self.0).physical_address()
    }
}

/// L3 **PDPTE (1 GiB leaf)**: maps a single 1 GiB page (`PS = 1`).
#[derive(Copy, Clone, Debug, PartialEq, Eq, Structural)]
pub struct Pdpte1G(pub u64);

impl Pdpte1G {
    /// Creates a value with every field at its default.
    pub fn new() -> (r: Self)
        ensures
            r.0 == 0x80,
    {
        Pdpte1G(0x80)
    }

    /// Wraps raw bits (no validation).
    #[verifier::allow_in_spec]
    pub fn from_bits(bits: u64) -> Self
        returns
            Pdpte1G(bits),
    {
        Pdpte1G(bits)
    }

    /// The raw bits.
    #[verifier::allow_in_spec]
    pub fn into_bits(self) -> u64
        returns
            self.0,
    {
        self.0
    }

    /// Present (bit 0): valid entry if set.
    #[verifier::allow_in_spec]
    pub fn present(&self) -> bool
        returns
            get_flag(self.0, 0),
    {
        read_flag(self.0, 0)
    }

    /// Returns a copy with `present` set to `v`.
    #[verifier::allow_in_spec]
    pub fn with_present(self, v: bool) -> Self
        returns
            Pdpte1G(set_flag(self.0, 0, v)),
    {
        Pdpte1G(write_flag(self.0, 0, v))
    }

    /// Sets `present` to `v`.
    pub fn set_present(&mut self, v: bool)
        ensures
            final(self).0 == set_flag(old(self).0, 0, v),
    {
        self.0 = write_flag(self.0, 0, v);
    }

    /// Writable (bit 1): write permission.
    #[verifier::allow_in_spec]
    pub fn writable(&self) -> bool
        returns
            get_flag(self.0, 1),
    {
        read_flag(self.0, 1)
    }

    /// Returns a copy with `writable` set to `v`.
    #[verifier::allow_in_spec]
    pub fn with_writable(self, v: bool) -> Self
        returns
            Pdpte1G(set_flag(self.0, 1, v)),
    {
        Pdpte1G(write_flag(self.0, 1, v))
    }

    /// Sets `writable` to `v`.
    pub fn set_writable(&mut self, v: bool)
        ensures
            final(self).0 == set_flag(old(self).0, 1, v),
    {
        self.0 = write_flag(self.0, 1, v);
    }

    /// User (bit 2): user-mode access if set.
    #[verifier::allow_in_spec]
    pub fn user(&self) -> bool
        returns
            get_flag(self.0, 2),
    {
        read_flag(self.0, 2)
    }

    /// Returns a copy with `user` set to `v`.
    #[verifier::allow_in_spec]
    pub fn with_user(self, v: bool) -> Self
        returns
            Pdpte1G(set_flag(self.0, 2, v)),
    {
        Pdpte1G(write_flag(self.0, 2, v))
    }

    /// Sets `user` to `v`.
    pub fn set_user(&mut self, v: bool)
        ensures
            final(self).0 == set_flag(old(self).0, 2, v),
    {
        self.0 = write_flag(self.0, 2, v);
    }

    /// Page Write-Through (bit 3).
    #[verifier::allow_in_spec]
    pub fn write_through(&self) -> bool
        returns
            get_flag(self.0, 3),
    {
        read_flag(self.0, 3)
    }

    /// Returns a copy with `write_through` set to `v`.
    #[verifier::allow_in_spec]
    pub fn with_write_through(self, v: bool) -> Self
        returns
            Pdpte1G(set_flag(self.0, 3, v)),
    {
        Pdpte1G(write_flag(self.0, 3, v))
    }

    /// Sets `write_through` to `v`.
    pub fn set_write_through(&mut self, v: bool)
        ensures
            final(self).0 == set_flag(old(self).0, 3, v),
    {
        self.0 = write_flag(self.0, 3, v);
    }

    /// Page Cache Disable (bit 4).
    #[verifier::allow_in_spec]
    pub fn cache_disable(&self) -> bool
        returns
            get_flag(self.0, 4),
    {
        read_flag(self.0, 4)
    }

    /// Returns a copy with `cache_disable` set to `v`.
    #[verifier::allow_in_spec]
    pub fn with_cache_disable(self, v: bool) -> Self
        returns
            Pdpte1G(set_flag(self.0, 4, v)),
    {
        Pdpte1G(write_flag(self.0, 4, v))
    }

    /// Sets `cache_disable` to `v`.
    pub fn set_cache_disable(&mut self, v: bool)
        ensures
            final(self).0 == set_flag(old(self).0, 4, v),
    {
        self.0 = write_flag(self.0, 4, v);
    }

    /// Accessed (bit 5): set by the CPU on first access.
    #[verifier::allow_in_spec]
    pub fn accessed(&self) -> bool
        returns
            get_flag(self.0, 5),
    {
        read_flag(self.0, 5)
    }

    /// Returns a copy with `accessed` set to `v`.
    #[verifier::allow_in_spec]
    pub fn with_accessed(self, v: bool) -> Self
        returns
            Pdpte1G(set_flag(self.0, 5, v)),
    {
        Pdpte1G(write_flag(self.0, 5, v))
    }

    /// Sets `accessed` to `v`.
    pub fn set_accessed(&mut self, v: bool)
        ensures
            final(self).0 == set_flag(old(self).0, 5, v),
    {
        self.0 = write_flag(self.0, 5, v);
    }

    /// Dirty (bit 6): set by the CPU on first write.
    #[verifier::allow_in_spec]
    pub fn dirty(&self) -> bool
        returns
            get_flag(self.0, 6),
    {
        read_flag(self.0, 6)
    }

    /// Returns a copy with `dirty` set to `v`.
    #[verifier::allow_in_spec]
    pub fn with_dirty(self, v: bool) -> Self
        returns
            Pdpte1G(set_flag(self.0, 6, v)),
    {
        Pdpte1G(write_flag(self.0, 6, v))
    }

    /// Sets `dirty` to `v`.
    pub fn set_dirty(&mut self, v: bool)
        ensures
            final(self).0 == set_flag(old(self).0, 6, v),
    {
        self.0 = write_flag(self.0, 6, v);
    }

    /// Page Size (bit 7): must be 1 for a 1 GiB leaf.
    #[verifier::allow_in_spec]
    pub fn page_size(&self) -> bool
        returns
            get_flag(self.0, 7),
    {
        read_flag(self.0, 7)
    }

    /// Returns a copy with `page_size` set to `v`.
    #[verifier::allow_in_spec]
    fn with_page_size(self, v: bool) -> Self
        returns
            Pdpte1G(set_flag(self.0, 7, v)),
    {
        Pdpte1G(write_flag(self.0, 7, v))
    }

    /// Sets `page_size` to `v`.
    fn set_page_size(&mut self, v: bool)
        ensures
            final(self).0 == set_flag(old(self).0, 7, v),
    {
        self.0 = write_flag(self.0, 7, v);
    }

    /// Global (bit 8): TLB entry kept across CR3 reloads.
    #[verifier::allow_in_spec]
    pub fn global(&self) -> bool
        returns
            get_flag(self.0, 8),
    {
        read_flag(self.0, 8)
    }

    /// Returns a copy with `global` set to `v`.
    #[verifier::allow_in_spec]
    pub fn with_global(self, v: bool) -> Self
        returns
            Pdpte1G(set_flag(self.0, 8, v)),
    {
        Pdpte1G(write_flag(self.0, 8, v))
    }

    /// Sets `global` to `v`.
    pub fn set_global(&mut self, v: bool)
        ensures
            final(self).0 == set_flag(old(self).0, 8, v),
    {
        self.0 = write_flag(self.0, 8, v);
    }

    /// OS-available low (bits 9..11).
    #[verifier::allow_in_spec]
    pub fn os_available_low(&self) -> u8
        returns
            get_field(self.0, 9, 3) as u8,
    {
        proof {
            lemma_field_fits(self.0, 9, 3);
        }
        read_field(self.0, 9, 3) as u8
    }

    /// Returns a copy with `os_available_low` set to `v` (which must fit in 3 bits).
    pub fn with_os_available_low(self, v: u8) -> (r: Self)
        requires
            v < 0x8,
        ensures
            r.0 == set_field(self.0, 9, 3, v as u64),
    {
        proof {
            lemma_masks();
        }
        Pdpte1G(write_field(self.0, 9, 3, v as u64))
    }

    /// Sets `os_available_low` to `v` (which must fit in 3 bits).
    pub fn set_os_available_low(&mut self, v: u8)
        requires
            v < 0x8,
        ensures
            final(self).0 == set_field(old(self).0, 9, 3, v as u64),
    {
        proof {
            lemma_masks();
        }
        self.0 = write_field(self.0, 9, 3, v as u64);
    }

    /// PAT selector for 1 GiB mappings (bit 12).
    #[verifier::allow_in_spec]
    pub fn pat_large(&self) -> bool
        returns
            get_flag(self.0, 12),
    {
        read_flag(self.0, 12)
    }

    /// Returns a copy with `pat_large` set to `v`.
    #[verifier::allow_in_spec]
    pub fn with_pat_large(self, v: bool) -> Self
        returns
            Pdpte1G(set_flag(self.0, 12, v)),
    {
        Pdpte1G(write_flag(self.0, 12, v))
    }

    /// Sets `pat_large` to `v`.
    pub fn set_pat_large(&mut self, v: bool)
        ensures
            final(self).0 == set_flag(old(self).0, 12, v),
    {
        self.0 = write_flag(self.0, 12, v);
    }

    /// Reserved (bits 13..29): must be 0.
    #[verifier::allow_in_spec]
    pub fn __res_13_29(&self) -> u32
        returns
            get_field(self.0, 13, 17) as u32,
    {
        proof {
            lemma_field_fits(self.0, 13, 17);
        }
        read_field(self.0, 13, 17) as u32
    }

    /// Physical address bits 51:30.
    #[verifier::allow_in_spec]
    pub fn phys_addr_51_30(&self) -> u32
        returns
            get_field(self.0, 30, 22) as u32,
    {
        proof {
            lemma_field_fits(self.0, 30, 22);
        }
        read_field(self.0, 30, 22) as u32
    }

    /// Returns a copy with `phys_addr_51_30` set to `v` (which must fit in 22 bits).
    fn with_phys_addr_51_30(self, v: u32) -> (r: Self)
        requires
            v < 0x400000,
        ensures
            r.0 == set_field(self.0, 30, 22, v as u64),
    {
        proof {
            lemma_masks();
        }
        Pdpte1G(write_field(self.0, 30, 22, v as u64))
    }

    /// Sets `phys_addr_51_30` to `v` (which must fit in 22 bits).
    fn set_phys_addr_51_30(&mut self, v: u32)
        requires
            v < 0x400000,
        ensures
            final(self).0 == set_field(old(self).0, 30, 22, v as u64),
    {
        proof {
            lemma_masks();
        }
        self.0 = write_field(self.0, 30, 22, v as u64);
    }

    /// OS-available high (bits 52..58).
    #[verifier::allow_in_spec]
    pub fn os_available_high(&self) -> u8
        returns
            get_field(self.0, 52, 7) as u8,
    {
        proof {
            lemma_field_fits(self.0, 52, 7);
        }
        read_field(self.0, 52, 7) as u8
    }

    /// Returns a copy with `os_available_high` set to `v` (which must fit in 7 bits).
    pub fn with_os_available_high(self, v: u8) -> (r: Self)
        requires
            v < 0x80,
        ensures
            r.0 == set_field(self.0, 52, 7, v as u64),
    {
        proof {
            lemma_masks();
        }
        Pdpte1G(write_field(self.0, 52, 7, v as u64))
    }

    /// Sets `os_available_high` to `v` (which must fit in 7 bits).
    pub fn set_os_available_high(&mut self, v: u8)
        requires
            v < 0x80,
        ensures
            final(self).0 == set_field(old(self).0, 52, 7, v as u64),
    {
        proof {
            lemma_masks();
        }
        self.0 = write_field(self.0, 52, 7, v as u64);
    }

    /// Protection Key / OS use (bits 59..62).
    #[verifier::allow_in_spec]
    pub fn protection_key(&self) -> u8
        returns
            get_field(self.0, 59, 4) as u8,
    {
        proof {
            lemma_field_fits(self.0, 59, 4);
        }
        read_field(self.0, 59, 4) as u8
    }

    /// Returns a copy with `protection_key` set to `v` (which must fit in 4 bits).
    pub fn with_protection_key(self, v: u8) -> (r: Self)
        requires
            v < 0x10,
        ensures
            r.0 == set_field(self.0, 59, 4, v as u64),
    {
        proof {
            lemma_masks();
        }
        Pdpte1G(write_field(self.0, 59, 4, v as u64))
    }

    /// Sets `protection_key` to `v` (which must fit in 4 bits).
    pub fn set_protection_key(&mut self, v: u8)
        requires
            v < 0x10,
        ensures
            final(self).0 == set_field(old(self).0, 59, 4, v as u64),
    {
        proof {
            lemma_masks();
        }
        self.0 = write_field(self.0, 59, 4, v as u64);
    }

    /// No-Execute (bit 63).
    #[verifier::allow_in_spec]
    pub fn no_execute(&self) -> bool
        returns
            get_flag(self.0, 63),
    {
        read_flag(self.0, 63)
    }

    /// Returns a copy with `no_execute` set to `v`.
    #[verifier::allow_in_spec]
    pub fn with_no_execute(self, v: bool) -> Self
        returns
            Pdpte1G(set_flag(self.0, 63, v)),
    {
        Pdpte1G(write_flag(self.0, 63, v))
    }

    /// Sets `no_execute` to `v`.
    pub fn set_no_execute(&mut self, v: bool)
        ensures
            final(self).0 == set_flag(old(self).0, 63, v),
    {
        self.0 = write_flag(self.0, 63, v);
    }

}


impl Pdpte1G {
    /// Stores the 1 GiB-aligned base of the mapped page and sets `PS=1`.
    pub fn set_physical_address(&mut self, phys: PhysicalAddress)
        requires
            phys.0 % 0x40000000 == 0,
            fits_phys(phys.0),
        ensures
            final(self).0 == set_flag(set_field(old(self).0, 30, 22, phys.0 >> 30), 7, true),
            final(self).physical_address() == phys,
            final(self).page_size(),
    {
        proof {
            lemma_leaf_1g_roundtrip(self.0, phys.0);
            lemma_masks();
        }
        self.set_phys_addr_51_30((phys.0 >> 30) as u32);
        self.set_page_size(true);
    }

    /// The base of the mapped 1 GiB page.
    #[verifier::allow_in_spec]
    pub fn physical_address(self) -> PhysicalAddress
        returns
            PhysicalAddress(leaf_1g_address(self.0)),
    {
        let f = self.phys_addr_51_30() as u64;
        proof {
            lemma_masks();
            lemma_field_fits(self.0, 30, 22);
            lemma_field_bound(self.0, 30, 22);
            leaf_1g_address_shift(f);
        }
        PhysicalAddress::new(f << 30)
    }
}

/// L2 **PDE**: pointer to a **Page Table** (non-leaf; PS **= 0**).
#[derive(Copy, Clone, Debug, PartialEq, Eq, Structural)]
pub struct Pde(pub u64);

impl Pde {
    /// Creates a value with every field at its default.
    pub fn new() -> (r: Self)
        ensures
            r.0 == 0x0,
    {
        Pde(0x0)
    }

    /// Wraps raw bits (no validation).
    #[verifier::allow_in_spec]
    pub fn from_bits(bits: u64) -> Self
        returns
            Pde(bits),
    {
        Pde(bits)
    }

    /// The raw bits.
    #[verifier::allow_in_spec]
    pub fn into_bits(self) -> u64
        returns
            self.0,
    {
        self.0
    }

    /// Present (bit 0): valid entry if set.
    #[verifier::allow_in_spec]
    pub fn present(&self) -> bool
        returns
            get_flag(self.0, 0),
    {
        read_flag(self.0, 0)
    }

    /// Returns a copy with `present` set to `v`.
    #[verifier::allow_in_spec]
    pub fn with_present(self, v: bool) -> Self
        returns
            Pde(set_flag(self.0, 0, v)),
    {
        Pde(write_flag(self.0, 0, v))
    }

    /// Sets `present` to `v`.
    pub fn set_present(&mut self, v: bool)
        ensures
            final(self).0 == set_flag(old(self).0, 0, v),
    {
        self.0 = write_flag(self.0, 0, v);
    }

    /// Writable (bit 1): write permission.
    #[verifier::allow_in_spec]
    pub fn writable(&self) -> bool
        returns
            get_flag(self.0, 1),
    {
        read_flag(self.0, 1)
    }

    /// Returns a copy with `writable` set to `v`.
    #[verifier::allow_in_spec]
    pub fn with_writable(self, v: bool) -> Self
        returns
            Pde(set_flag(self.0, 1, v)),
    {
        Pde(write_flag(self.0, 1, v))
    }

    /// Sets `writable` to `v`.
    pub fn set_writable(&mut self, v: bool)
        ensures
            final(self).0 == set_flag(old(self).0, 1, v),
    {
        self.0 = write_flag(self.0, 1, v);
    }

    /// User (bit 2): user-mode access if set.
    #[verifier::allow_in_spec]
    pub fn user(&self) -> bool
        returns
            get_flag(self.0, 2),
    {
        read_flag(self.0, 2)
    }

    /// Returns a copy with `user` set to `v`.
    #[verifier::allow_in_spec]
    pub fn with_user(self, v: bool) -> Self
        returns
            Pde(set_flag(self.0, 2, v)),
    {
        Pde(write_flag(self.0, 2, v))
    }

    /// Sets `user` to `v`.
    pub fn set_user(&mut self, v: bool)
        ensures
            final(self).0 == set_flag(old(self).0, 2, v),
    {
        self.0 = write_flag(self.0, 2, v);
    }

    /// Page Write-Through (bit 3).
    #[verifier::allow_in_spec]
    pub fn write_through(&self) -> bool
        returns
            get_flag(self.0, 3),
    {
        read_flag(self.0, 3)
    }

    /// Returns a copy with `write_through` set to `v`.
    #[verifier::allow_in_spec]
    pub fn with_write_through(self, v: bool) -> Self
        returns
            Pde(set_flag(self.0, 3, v)),
    {
        Pde(write_flag(self.0, 3, v))
    }

    /// Sets `write_through` to `v`.
    pub fn set_write_through(&mut self, v: bool)
        ensures
            final(self).0 == set_flag(old(self).0, 3, v),
    {
        self.0 = write_flag(self.0, 3, v);
    }

    /// Page Cache Disable (bit 4).
    #[verifier::allow_in_spec]
    pub fn cache_disable(&self) -> bool
        returns
            get_flag(self.0, 4),
    {
        read_flag(self.0, 4)
    }

    /// Returns a copy with `cache_disable` set to `v`.
    #[verifier::allow_in_spec]
    pub fn with_cache_disable(self, v: bool) -> Self
        returns
            Pde(set_flag(self.0, 4, v)),
    {
        Pde(write_flag(self.0, 4, v))
    }

    /// Sets `cache_disable` to `v`.
    pub fn set_cache_disable(&mut self, v: bool)
        ensures
            final(self).0 == set_flag(old(self).0, 4, v),
    {
        self.0 = write_flag(self.0, 4, v);
    }

    /// Accessed (bit 5): set by the CPU on first access.
    #[verifier::allow_in_spec]
    pub fn accessed(&self) -> bool
        returns
            get_flag(self.0, 5),
    {
        read_flag(self.0, 5)
    }

    /// Returns a copy with `accessed` set to `v`.
    #[verifier::allow_in_spec]
    pub fn with_accessed(self, v: bool) -> Self
        returns
            Pde(set_flag(self.0, 5, v)),
    {
        Pde(write_flag(self.0, 5, v))
    }

    /// Sets `accessed` to `v`.
    pub fn set_accessed(&mut self, v: bool)
        ensures
            final(self).0 == set_flag(old(self).0, 5, v),
    {
        self.0 = write_flag(self.0, 5, v);
    }

    /// Dirty (bit 6): ignored in non-leaf entries.
    #[verifier::allow_in_spec]
    pub fn __d_ignored(&self) -> u8
        returns
            get_field(self.0, 6, 1) as u8,
    {
        proof {
            lemma_field_fits(self.0, 6, 1);
        }
        read_field(self.0, 6, 1) as u8
    }

    /// Page Size (bit 7): must be 0 in non-leaf entries.
    #[verifier::allow_in_spec]
    pub fn __ps_must_be_0(&self) -> u8
        returns
            get_field(self.0, 7, 1) as u8,
    {
        proof {
            lemma_field_fits(self.0, 7, 1);
        }
        read_field(self.0, 7, 1) as u8
    }

    /// Global (bit 8): ignored in non-leaf entries.
    #[verifier::allow_in_spec]
    pub fn __g_ignored(&self) -> u8
        returns
            get_field(self.0, 8, 1) as u8,
    {
        proof {
            lemma_field_fits(self.0, 8, 1);
        }
        read_field(self.0, 8, 1) as u8
    }

    /// OS-available low (bits 9..11).
    #[verifier::allow_in_spec]
    pub fn os_available_low(&self) -> u8
        returns
            get_field(self.0, 9, 3) as u8,
    {
        proof {
            lemma_field_fits(self.0, 9, 3);
        }
        read_field(self.0, 9, 3) as u8
    }

    /// Returns a copy with `os_available_low` set to `v` (which must fit in 3 bits).
    pub fn with_os_available_low(self, v: u8) -> (r: Self)
        requires
            v < 0x8,
        ensures
            r.0 == set_field(self.0, 9, 3, v as u64),
    {
        proof {
            lemma_masks();
        }
        Pde(write_field(self.0, 9, 3, v as u64))
    }

    /// Sets `os_available_low` to `v` (which must fit in 3 bits).
    pub fn set_os_available_low(&mut self, v: u8)
        requires
            v < 0x8,
        ensures
            final(self).0 == set_field(old(self).0, 9, 3, v as u64),
    {
        proof {
            lemma_masks();
        }
        self.0 = write_field(self.0, 9, 3, v as u64);
    }

    /// Next-level table physical address bits 51:12.
    #[verifier::allow_in_spec]
    pub fn phys_addr_51_12(&self) -> u64
        returns
            get_field(self.0, 12, 40) as u64,
    {
        proof {
            lemma_field_fits(self.0, 12, 40);
        }
        read_field(self.0, 12, 40) as u64
    }

    /// Returns a copy with `phys_addr_51_12` set to `v` (which must fit in 40 bits).
    fn with_phys_addr_51_12(self, v: u64) -> (r: Self)
        requires
            v < 0x10000000000,
        ensures
            r.0 == set_field(self.0, 12, 40, v as u64),
    {
        proof {
            lemma_masks();
        }
        Pde(write_field(self.0, 12, 40, v as u64))
    }

    /// Sets `phys_addr_51_12` to `v` (which must fit in 40 bits).
    fn set_phys_addr_51_12(&mut self, v: u64)
        requires
            v < 0x10000000000,
        ensures
            final(self).0 == set_field(old(self).0, 12, 40, v as u64),
    {
        proof {
            lemma_masks();
        }
        self.0 = write_field(self.0, 12, 40, v as u64);
    }

    /// OS-available high (bits 52..58).
    #[verifier::allow_in_spec]
    pub fn os_available_high(&self) -> u8
        returns
            get_field(self.0, 52, 7) as u8,
    {
        proof {
            lemma_field_fits(self.0, 52, 7);
        }
        read_field(self.0, 52, 7) as u8
    }

    /// Returns a copy with `os_available_high` set to `v` (which must fit in 7 bits).
    pub fn with_os_available_high(self, v: u8) -> (r: Self)
        requires
            v < 0x80,
        ensures
            r.0 == set_field(self.0, 52, 7, v as u64),
    {
        proof {
            lemma_masks();
        }
        Pde(write_field(self.0, 52, 7, v as u64))
    }

    /// Sets `os_available_high` to `v` (which must fit in 7 bits).
    pub fn set_os_available_high(&mut self, v: u8)
        requires
            v < 0x80,
        ensures
            final(self).0 == set_field(old(self).0, 52, 7, v as u64),
    {
        proof {
            lemma_masks();
        }
        self.0 = write_field(self.0, 52, 7, v as u64);
    }

    /// Protection Key / OS use (bits 59..62).
    #[verifier::allow_in_spec]
    pub fn protection_key(&self) -> u8
        returns
            get_field(self.0, 59, 4) as u8,
    {
        proof {
            lemma_field_fits(self.0, 59, 4);
        }
        read_field(self.0, 59, 4) as u8
    }

    /// Returns a copy with `protection_key` set to `v` (which must fit in 4 bits).
    pub fn with_protection_key(self, v: u8) -> (r: Self)
        requires
            v < 0x10,
        ensures
            r.0 == set_field(self.0, 59, 4, v as u64),
    {
        proof {
            lemma_masks();
        }
        Pde(write_field(self.0, 59, 4, v as u64))
    }

    /// Sets `protection_key` to `v` (which must fit in 4 bits).
    pub fn set_protection_key(&mut self, v: u8)
        requires
            v < 0x10,
        ensures
            final(self).0 == set_field(old(self).0, 59, 4, v as u64),
    {
        proof {
            lemma_masks();
        }
        self.0 = write_field(self.0, 59, 4, v as u64);
    }

    /// No-Execute (bit 63).
    #[verifier::allow_in_spec]
    pub fn no_execute(&self) -> bool
        returns
            get_flag(self.0, 63),
    {
        read_flag(self.0, 63)
    }

    /// Returns a copy with `no_execute` set to `v`.
    #[verifier::allow_in_spec]
    pub fn with_no_execute(self, v: bool) -> Self
        returns
            Pde(set_flag(self.0, 63, v)),
    {
        Pde(write_flag(self.0, 63, v))
    }

    /// Sets `no_execute` to `v`.
    pub fn set_no_execute(&mut self, v: bool)
        ensures
            final(self).0 == set_flag(old(self).0, 63, v),
    {
        self.0 = write_flag(self.0, 63, v);
    }

}


impl Pde {
    /// Stores the 4 KiB-aligned base of the Page Table (bits 51:12).
    pub fn set_physical_address(&mut self, phys: PhysicalAddress)
        requires
            phys.0 % 0x1000 == 0,
            fits_phys(phys.0),
        ensures
            final(self).0 == set_field(old(self).0, 12, 40, phys.0 >> 12),
            final(self).physical_address() == phys,
    {
        proof {
            lemma_frame_address_roundtrip(self.0, phys.0);
            lemma_masks();
        }
        self.set_phys_addr_51_12(phys.0 >> 12);
    }

    /// The 4 KiB-aligned base of the Page Table (bits 51:12).
    #[verifier::allow_in_spec]
    pub fn physical_address(self) -> PhysicalAddress
        returns
            PhysicalAddress(frame_address(self.0)),
    {
        PageEntryBits(self.0).physical_address()
    }
}

/// L2 **PDE (2 MiB leaf)**: maps a single 2 MiB page (`PS = 1`).
#[derive(Copy, Clone, Debug, PartialEq, Eq, Structural)]
pub struct Pde2M(pub u64);

impl Pde2M {
    /// Creates a value with every field at its default.
    pub fn new() -> (r: Self)
        ensures
            r.0 == 0x80,
    {
        Pde2M(0x80)
    }

    /// Wraps raw bits (no validation).
    #[verifier::allow_in_spec]
    pub fn from_bits(bits: u64) -> Self
        returns
            Pde2M(bits),
    {
        Pde2M(bits)
    }

    /// The raw bits.
    #[verifier::allow_in_spec]
    pub fn into_bits(self) -> u64
        returns
            self.0,
    {
        self.0
    }

    /// Present (bit 0): valid entry if set.
    #[verifier::allow_in_spec]
    pub fn present(&self) -> bool
        returns
            get_flag(self.0, 0),
    {
        read_flag(self.0, 0)
    }

    /// Returns a copy with `present` set to `v`.
    #[verifier::allow_in_spec]
    pub fn with_present(self, v: bool) -> Self
        returns
            Pde2M(set_flag(self.0, 0, v)),
    {
        Pde2M(write_flag(self.0, 0, v))
    }

    /// Sets `present` to `v`.
    pub fn set_present(&mut self, v: bool)
        ensures
            final(self).0 == set_flag(old(self).0, 0, v),
    {
        self.0 = write_flag(self.0, 0, v);
    }

    /// Writable (bit 1): write permission.
    #[verifier::allow_in_spec]
    pub fn writable(&self) -> bool
        returns
            get_flag(self.0, 1),
    {
        read_flag(self.0, 1)
    }

    /// Returns a copy with `writable` set to `v`.
    #[verifier::allow_in_spec]
    pub fn with_writable(self, v: bool) -> Self
        returns
            Pde2M(set_flag(self.0, 1, v)),
    {
        Pde2M(write_flag(self.0, 1, v))
    }

    /// Sets `writable` to `v`.
    pub fn set_writable(&mut self, v: bool)
        ensures
            final(self).0 == set_flag(old(self).0, 1, v),
    {
        self.0 = write_flag(self.0, 1, v);
    }

    /// User (bit 2): user-mode access if set.
    #[verifier::allow_in_spec]
    pub fn user(&self) -> bool
        returns
            get_flag(self.0, 2),
    {
        read_flag(self.0, 2)
    }

    /// Returns a copy with `user` set to `v`.
    #[verifier::allow_in_spec]
    pub fn with_user(self, v: bool) -> Self
        returns
            Pde2M(set_flag(self.0, 2, v)),
    {
        Pde2M(write_flag(self.0, 2, v))
    }

    /// Sets `user` to `v`.
    pub fn set_user(&mut self, v: bool)
        ensures
            final(self).0 == set_flag(old(self).0, 2, v),
    {
        self.0 = write_flag(self.0, 2, v);
    }

    /// Page Write-Through (bit 3).
    #[verifier::allow_in_spec]
    pub fn write_through(&self) -> bool
        returns
            get_flag(self.0, 3),
    {
        read_flag(self.0, 3)
    }

    /// Returns a copy with `write_through` set to `v`.
    #[verifier::allow_in_spec]
    pub fn with_write_through(self, v: bool) -> Self
        returns
            Pde2M(set_flag(self.0, 3, v)),
    {
        Pde2M(write_flag(self.0, 3, v))
    }

    /// Sets `write_through` to `v`.
    pub fn set_write_through(&mut self, v: bool)
        ensures
            final(self).0 == set_flag(old(self).0, 3, v),
    {
        self.0 = write_flag(self.0, 3, v);
    }

    /// Page Cache Disable (bit 4).
    #[verifier::allow_in_spec]
    pub fn cache_disable(&self) -> bool
        returns
            get_flag(self.0, 4),
    {
        read_flag(self.0, 4)
    }

    /// Returns a copy with `cache_disable` set to `v`.
    #[verifier::allow_in_spec]
    pub fn with_cache_disable(self, v: bool) -> Self
        returns
            Pde2M(set_flag(self.0, 4, v)),
    {
        Pde2M(write_flag(self.0, 4, v))
    }

    /// Sets `cache_disable` to `v`.
    pub fn set_cache_disable(&mut self, v: bool)
        ensures
            final(self).0 == set_flag(old(self).0, 4, v),
    {
        self.0 = write_flag(self.0, 4, v);
    }

    /// Accessed (bit 5): set by the CPU on first access.
    #[verifier::allow_in_spec]
    pub fn accessed(&self) -> bool
        returns
            get_flag(self.0, 5),
    {
        read_flag(self.0, 5)
    }

    /// Returns a copy with `accessed` set to `v`.
    #[verifier::allow_in_spec]
    pub fn with_accessed(self, v: bool) -> Self
        returns
            Pde2M(set_flag(self.0, 5, v)),
    {
        Pde2M(write_flag(self.0, 5, v))
    }

    /// Sets `accessed` to `v`.
    pub fn set_accessed(&mut self, v: bool)
        ensures
            final(self).0 == set_flag(old(self).0, 5, v),
    {
        self.0 = write_flag(self.0, 5, v);
    }

    /// Dirty (bit 6): set by the CPU on first write.
    #[verifier::allow_in_spec]
    pub fn dirty(&self) -> bool
        returns
            get_flag(self.0, 6),
    {
        read_flag(self.0, 6)
    }

    /// Returns a copy with `dirty` set to `v`.
    #[verifier::allow_in_spec]
    pub fn with_dirty(self, v: bool) -> Self
        returns
            Pde2M(set_flag(self.0, 6, v)),
    {
        Pde2M(write_flag(self.0, 6, v))
    }

    /// Sets `dirty` to `v`.
    pub fn set_dirty(&mut self, v: bool)
        ensures
            final(self).0 == set_flag(old(self).0, 6, v),
    {
        self.0 = write_flag(self.0, 6, v);
    }

    /// Page Size (bit 7): must be 1 for a 2 MiB leaf.
    #[verifier::allow_in_spec]
    pub fn page_size(&self) -> bool
        returns
            get_flag(self.0, 7),
    {
        read_flag(self.0, 7)
    }

    /// Returns a copy with `page_size` set to `v`.
    #[verifier::allow_in_spec]
    fn with_page_size(self, v: bool) -> Self
        returns
            Pde2M(set_flag(self.0, 7, v)),
    {
        Pde2M(write_flag(self.0, 7, v))
    }

    /// Sets `page_size` to `v`.
    fn set_page_size(&mut self, v: bool)
        ensures
            final(self).0 == set_flag(old(self).0, 7, v),
    {
        self.0 = write_flag(self.0, 7, v);
    }

    /// Global (bit 8): TLB entry kept across CR3 reloads.
    #[verifier::allow_in_spec]
    pub fn global(&self) -> bool
        returns
            get_flag(self.0, 8),
    {
        read_flag(self.0, 8)
    }

    /// Returns a copy with `global` set to `v`.
    #[verifier::allow_in_spec]
    pub fn with_global(self, v: bool) -> Self
        returns
            Pde2M(set_flag(self.0, 8, v)),
    {
        Pde2M(write_flag(self.0, 8, v))
    }

    /// Sets `global` to `v`.
    pub fn set_global(&mut self, v: bool)
        ensures
            final(self).0 == set_flag(old(self).0, 8, v),
    {
        self.0 = write_flag(self.0, 8, v);
    }

    /// OS-available low (bits 9..11).
    #[verifier::allow_in_spec]
    pub fn os_available_low(&self) -> u8
        returns
            get_field(self.0, 9, 3) as u8,
    {
        proof {
            lemma_field_fits(self.0, 9, 3);
        }
        read_field(self.0, 9, 3) as u8
    }

    /// Returns a copy with `os_available_low` set to `v` (which must fit in 3 bits).
    pub fn with_os_available_low(self, v: u8) -> (r: Self)
        requires
            v < 0x8,
        ensures
            r.0 == set_field(self.0, 9, 3, v as u64),
    {
        proof {
            lemma_masks();
        }
        Pde2M(write_field(self.0, 9, 3, v as u64))
    }

    /// Sets `os_available_low` to `v` (which must fit in 3 bits).
    pub fn set_os_available_low(&mut self, v: u8)
        requires
            v < 0x8,
        ensures
            final(self).0 == set_field(old(self).0, 9, 3, v as u64),
    {
        proof {
            lemma_masks();
        }
        self.0 = write_field(self.0, 9, 3, v as u64);
    }

    /// PAT selector for 2 MiB mappings (bit 12).
    #[verifier::allow_in_spec]
    pub fn pat_large(&self) -> bool
        returns
            get_flag(self.0, 12),
    {
        read_flag(self.0, 12)
    }

    /// Returns a copy with `pat_large` set to `v`.
    #[verifier::allow_in_spec]
    pub fn with_pat_large(self, v: bool) -> Self
        returns
            Pde2M(set_flag(self.0, 12, v)),
    {
        Pde2M(write_flag(self.0, 12, v))
    }

    /// Sets `pat_large` to `v`.
    pub fn set_pat_large(&mut self, v: bool)
        ensures
            final(self).0 == set_flag(old(self).0, 12, v),
    {
        self.0 = write_flag(self.0, 12, v);
    }

    /// Reserved (bits 13..20): must be 0.
    #[verifier::allow_in_spec]
    pub fn __res13_20(&self) -> u8
        returns
            get_field(self.0, 13, 8) as u8,
    {
        proof {
            lemma_field_fits(self.0, 13, 8);
        }
        read_field(self.0, 13, 8) as u8
    }

    /// Physical address bits 51:21.
    #[verifier::allow_in_spec]
    pub fn phys_addr_51_21(&self) -> u32
        returns
            get_field(self.0, 21, 31) as u32,
    {
        proof {
            lemma_field_fits(self.0, 21, 31);
        }
        read_field(self.0, 21, 31) as u32
    }

    /// Returns a copy with `phys_addr_51_21` set to `v` (which must fit in 31 bits).
    fn with_phys_addr_51_21(self, v: u32) -> (r: Self)
        requires
            v < 0x80000000,
        ensures
            r.0 == set_field(self.0, 21, 31, v as u64),
    {
        proof {
            lemma_masks();
        }
        Pde2M(write_field(self.0, 21, 31, v as u64))
    }

    /// Sets `phys_addr_51_21` to `v` (which must fit in 31 bits).
    fn set_phys_addr_51_21(&mut self, v: u32)
        requires
            v < 0x80000000,
        ensures
            final(self).0 == set_field(old(self).0, 21, 31, v as u64),
    {
        proof {
            lemma_masks();
        }
        self.0 = write_field(self.0, 21, 31, v as u64);
    }

    /// OS-available high (bits 52..58).
    #[verifier::allow_in_spec]
    pub fn os_available_high(&self) -> u8
        returns
            get_field(self.0, 52, 7) as u8,
    {
        proof {
            lemma_field_fits(self.0, 52, 7);
        }
        read_field(self.0, 52, 7) as u8
    }

    /// Returns a copy with `os_available_high` set to `v` (which must fit in 7 bits).
    pub fn with_os_available_high(self, v: u8) -> (r: Self)
        requires
            v < 0x80,
        ensures
            r.0 == set_field(self.0, 52, 7, v as u64),
    {
        proof {
            lemma_masks();
        }
        Pde2M(write_field(self.0, 52, 7, v as u64))
    }

    /// Sets `os_available_high` to `v` (which must fit in 7 bits).
    pub fn set_os_available_high(&mut self, v: u8)
        requires
            v < 0x80,
        ensures
            final(self).0 == set_field(old(self).0, 52, 7, v as u64),
    {
        proof {
            lemma_masks();
        }
        self.0 = write_field(self.0, 52, 7, v as u64);
    }

    /// Protection Key / OS use (bits 59..62).
    #[verifier::allow_in_spec]
    pub fn protection_key(&self) -> u8
        returns
            get_field(self.0, 59, 4) as u8,
    {
        proof {
            lemma_field_fits(self.0, 59, 4);
        }
        read_field(self.0, 59, 4) as u8
    }

    /// Returns a copy with `protection_key` set to `v` (which must fit in 4 bits).
    pub fn with_protection_key(self, v: u8) -> (r: Self)
        requires
            v < 0x10,
        ensures
            r.0 == set_field(self.0, 59, 4, v as u64),
    {
        proof {
            lemma_masks();
        }
        Pde2M(write_field(self.0, 59, 4, v as u64))
    }

    /// Sets `protection_key` to `v` (which must fit in 4 bits).
    pub fn set_protection_key(&mut self, v: u8)
        requires
            v < 0x10,
        ensures
            final(self).0 == set_field(old(self).0, 59, 4, v as u64),
    {
        proof {
            lemma_masks();
        }
        self.0 = write_field(self.0, 59, 4, v as u64);
    }

    /// No-Execute (bit 63).
    #[verifier::allow_in_spec]
    pub fn no_execute(&self) -> bool
        returns
            get_flag(self.0, 63),
    {
        read_flag(self.0, 63)
    }

    /// Returns a copy with `no_execute` set to `v`.
    #[verifier::allow_in_spec]
    pub fn with_no_execute(self, v: bool) -> Self
        returns
            Pde2M(set_flag(self.0, 63, v)),
    {
        Pde2M(write_flag(self.0, 63, v))
    }

    /// Sets `no_execute` to `v`.
    pub fn set_no_execute(&mut self, v: bool)
        ensures
            final(self).0 == set_flag(old(self).0, 63, v),
    {
        self.0 = write_flag(self.0, 63, v);
    }

}


impl Pde2M {
    /// Stores the 2 MiB-aligned base of the mapped page and sets `PS=1`.
    pub fn set_physical_address(&mut self, phys: PhysicalAddress)
        requires
            phys.0 % 0x200000 == 0,
            fits_phys(phys.0),
        ensures
            final(self).0 == set_flag(set_field(old(self).0, 21, 31, phys.0 >> 21), 7, true),
            final(self).physical_address() == phys,
            final(self).page_size(),
    {
        proof {
            lemma_leaf_2m_roundtrip(self.0, phys.0);
            lemma_masks();
        }
        self.set_phys_addr_51_21((phys.0 >> 21) as u32);
        self.set_page_size(true);
    }

    /// The base of the mapped 2 MiB page.
    #[verifier::allow_in_spec]
    pub fn physical_address(self) -> PhysicalAddress
        returns
            PhysicalAddress(leaf_2m_address(self.0)),
    {
        let f = self.phys_addr_51_21() as u64;
        proof {
            lemma_masks();
            lemma_field_fits(self.0, 21, 31);
            lemma_field_bound(self.0, 21, 31);
            leaf_2m_address_shift(f);
        }
        PhysicalAddress::new(f << 21)
    }
}

/// L1 **PTE (4 KiB leaf)**: maps a single 4 KiB page (bit 7 is **PAT**).
#[derive(Copy, Clone, Debug, PartialEq, Eq, Structural)]
pub struct Pte4K(pub u64);

impl Pte4K {
    /// Creates a value with every field at its default.
    pub fn new() -> (r: Self)
        ensures
            r.0 == 0x0,
    {
        Pte4K(0x0)
    }

    /// Wraps raw bits (no validation).
    #[verifier::allow_in_spec]
    pub fn from_bits(bits: u64) -> Self
        returns
            Pte4K(bits),
    {
        Pte4K(bits)
    }

    /// The raw bits.
    #[verifier::allow_in_spec]
    pub fn into_bits(self) -> u64
        returns
            self.0,
    {
        self.0
    }

    /// Present (bit 0): valid entry if set.
    #[verifier::allow_in_spec]
    pub fn present(&self) -> bool
        returns
            get_flag(self.0, 0),
    {
        read_flag(self.0, 0)
    }

    /// Returns a copy with `present` set to `v`.
    #[verifier::allow_in_spec]
    pub fn with_present(self, v: bool) -> Self
        returns
            Pte4K(set_flag(self.0, 0, v)),
    {
        Pte4K(write_flag(self.0, 0, v))
    }

    /// Sets `present` to `v`.
    pub fn set_present(&mut self, v: bool)
        ensures
            final(self).0 == set_flag(old(self).0, 0, v),
    {
        self.0 = write_flag(self.0, 0, v);
    }

    /// Writable (bit 1): write permission.
    #[verifier::allow_in_spec]
    pub fn writable(&self) -> bool
        returns
            get_flag(self.0, 1),
    {
        read_flag(self.0, 1)
    }

    /// Returns a copy with `writable` set to `v`.
    #[verifier::allow_in_spec]
    pub fn with_writable(self, v: bool) -> Self
        returns
            Pte4K(set_flag(self.0, 1, v)),
    {
        Pte4K(write_flag(self.0, 1, v))
    }

    /// Sets `writable` to `v`.
    pub fn set_writable(&mut self, v: bool)
        ensures
            final(self).0 == set_flag(old(self).0, 1, v),
    {
        self.0 = write_flag(self.0, 1, v);
    }

    /// User (bit 2): user-mode access if set.
    #[verifier::allow_in_spec]
    pub fn user(&self) -> bool
        returns
            get_flag(self.0, 2),
    {
        read_flag(self.0, 2)
    }

    /// Returns a copy with `user` set to `v`.
    #[verifier::allow_in_spec]
    pub fn with_user(self, v: bool) -> Self
        returns
            Pte4K(set_flag(self.0, 2, v)),
    {
        Pte4K(write_flag(self.0, 2, v))
    }

    /// Sets `user` to `v`.
    pub fn set_user(&mut self, v: bool)
        ensures
            final(self).0 == set_flag(old(self).0, 2, v),
    {
        self.0 = write_flag(self.0, 2, v);
    }

    /// Page Write-Through (bit 3).
    #[verifier::allow_in_spec]
    pub fn write_through(&self) -> bool
        returns
            get_flag(self.0, 3),
    {
        read_flag(self.0, 3)
    }

    /// Returns a copy with `write_through` set to `v`.
    #[verifier::allow_in_spec]
    pub fn with_write_through(self, v: bool) -> Self
        returns
            Pte4K(set_flag(self.0, 3, v)),
    {
        Pte4K(write_flag(self.0, 3, v))
    }

    /// Sets `write_through` to `v`.
    pub fn set_write_through(&mut self, v: bool)
        ensures
            final(self).0 == set_flag(old(self).0, 3, v),
    {
        self.0 = write_flag(self.0, 3, v);
    }

    /// Page Cache Disable (bit 4).
    #[verifier::allow_in_spec]
    pub fn cache_disable(&self) -> bool
        returns
            get_flag(self.0, 4),
    {
        read_flag(self.0, 4)
    }

    /// Returns a copy with `cache_disable` set to `v`.
    #[verifier::allow_in_spec]
    pub fn with_cache_disable(self, v: bool) -> Self
        returns
            Pte4K(set_flag(self.0, 4, v)),
    {
        Pte4K(write_flag(self.0, 4, v))
    }

    /// Sets `cache_disable` to `v`.
    pub fn set_cache_disable(&mut self, v: bool)
        ensures
            final(self).0 == set_flag(old(self).0, 4, v),
    {
        self.0 = write_flag(self.0, 4, v);
    }

    /// Accessed (bit 5): set by the CPU on first access.
    #[verifier::allow_in_spec]
    pub fn accessed(&self) -> bool
        returns
            get_flag(self.0, 5),
    {
        read_flag(self.0, 5)
    }

    /// Returns a copy with `accessed` set to `v`.
    #[verifier::allow_in_spec]
    pub fn with_accessed(self, v: bool) -> Self
        returns
            Pte4K(set_flag(self.0, 5, v)),
    {
        Pte4K(write_flag(self.0, 5, v))
    }

    /// Sets `accessed` to `v`.
    pub fn set_accessed(&mut self, v: bool)
        ensures
            final(self).0 == set_flag(old(self).0, 5, v),
    {
        self.0 = write_flag(self.0, 5, v);
    }

    /// Dirty (bit 6): set by the CPU on first write.
    #[verifier::allow_in_spec]
    pub fn dirty(&self) -> bool
        returns
            get_flag(self.0, 6),
    {
        read_flag(self.0, 6)
    }

    /// Returns a copy with `dirty` set to `v`.
    #[verifier::allow_in_spec]
    pub fn with_dirty(self, v: bool) -> Self
        returns
            Pte4K(set_flag(self.0, 6, v)),
    {
        Pte4K(write_flag(self.0, 6, v))
    }

    /// Sets `dirty` to `v`.
    pub fn set_dirty(&mut self, v: bool)
        ensures
            final(self).0 == set_flag(old(self).0, 6, v),
    {
        self.0 = write_flag(self.0, 6, v);
    }

    /// PAT selector bit 2 for 4 KiB mappings (bit 7).
    #[verifier::allow_in_spec]
    pub fn pat_small(&self) -> bool
        returns
            get_flag(self.0, 7),
    {
        read_flag(self.0, 7)
    }

    /// Returns a copy with `pat_small` set to `v`.
    #[verifier::allow_in_spec]
    pub fn with_pat_small(self, v: bool) -> Self
        returns
            Pte4K(set_flag(self.0, 7, v)),
    {
        Pte4K(write_flag(self.0, 7, v))
    }

    /// Sets `pat_small` to `v`.
    pub fn set_pat_small(&mut self, v: bool)
        ensures
            final(self).0 == set_flag(old(self).0, 7, v),
    {
        self.0 = write_flag(self.0, 7, v);
    }

    /// Global (bit 8): TLB entry kept across CR3 reloads.
    #[verifier::allow_in_spec]
    pub fn global(&self) -> bool
        returns
            get_flag(self.0, 8),
    {
        read_flag(self.0, 8)
    }

    /// Returns a copy with `global` set to `v`.
    #[verifier::allow_in_spec]
    pub fn with_global(self, v: bool) -> Self
        returns
            Pte4K(set_flag(self.0, 8, v)),
    {
        Pte4K(write_flag(self.0, 8, v))
    }

    /// Sets `global` to `v`.
    pub fn set_global(&mut self, v: bool)
        ensures
            final(self).0 == set_flag(old(self).0, 8, v),
    {
        self.0 = write_flag(self.0, 8, v);
    }

    /// OS-available low (bits 9..11).
    #[verifier::allow_in_spec]
    pub fn os_available_low(&self) -> u8
        returns
            get_field(self.0, 9, 3) as u8,
    {
        proof {
            lemma_field_fits(self.0, 9, 3);
        }
        read_field(self.0, 9, 3) as u8
    }

    /// Returns a copy with `os_available_low` set to `v` (which must fit in 3 bits).
    pub fn with_os_available_low(self, v: u8) -> (r: Self)
        requires
            v < 0x8,
        ensures
            r.0 == set_field(self.0, 9, 3, v as u64),
    {
        proof {
            lemma_masks();
        }
        Pte4K(write_field(self.0, 9, 3, v as u64))
    }

    /// Sets `os_available_low` to `v` (which must fit in 3 bits).
    pub fn set_os_available_low(&mut self, v: u8)
        requires
            v < 0x8,
        ensures
            final(self).0 == set_field(old(self).0, 9, 3, v as u64),
    {
        proof {
            lemma_masks();
        }
        self.0 = write_field(self.0, 9, 3, v as u64);
    }

    /// Physical address bits 51:12.
    #[verifier::allow_in_spec]
    pub fn phys_addr_51_12(&self) -> u64
        returns
            get_field(self.0, 12, 40) as u64,
    {
        proof {
            lemma_field_fits(self.0, 12, 40);
        }
        read_field(self.0, 12, 40) as u64
    }

    /// Returns a copy with `phys_addr_51_12` set to `v` (which must fit in 40 bits).
    fn with_phys_addr_51_12(self, v: u64) -> (r: Self)
        requires
            v < 0x10000000000,
        ensures
            r.0 == set_field(self.0, 12, 40, v as u64),
    {
        proof {
            lemma_masks();
        }
        Pte4K(write_field(self.0, 12, 40, v as u64))
    }

    /// Sets `phys_addr_51_12` to `v` (which must fit in 40 bits).
    fn set_phys_addr_51_12(&mut self, v: u64)
        requires
            v < 0x10000000000,
        ensures
            final(self).0 == set_field(old(self).0, 12, 40, v as u64),
    {
        proof {
            lemma_masks();
        }
        self.0 = write_field(self.0, 12, 40, v as u64);
    }

    /// OS-available high (bits 52..58).
    #[verifier::allow_in_spec]
    pub fn os_available_high(&self) -> u8
        returns
            get_field(self.0, 52, 7) as u8,
    {
        proof {
            lemma_field_fits(self.0, 52, 7);
        }
        read_field(self.0, 52, 7) as u8
    }

    /// Returns a copy with `os_available_high` set to `v` (which must fit in 7 bits).
    pub fn with_os_available_high(self, v: u8) -> (r: Self)
        requires
            v < 0x80,
        ensures
            r.0 == set_field(self.0, 52, 7, v as u64),
    {
        proof {
            lemma_masks();
        }
        Pte4K(write_field(self.0, 52, 7, v as u64))
    }

    /// Sets `os_available_high` to `v` (which must fit in 7 bits).
    pub fn set_os_available_high(&mut self, v: u8)
        requires
            v < 0x80,
        ensures
            final(self).0 == set_field(old(self).0, 52, 7, v as u64),
    {
        proof {
            lemma_masks();
        }
        self.0 = write_field(self.0, 52, 7, v as u64);
    }

    /// Protection Key / OS use (bits 59..62).
    #[verifier::allow_in_spec]
    pub fn protection_key(&self) -> u8
        returns
            get_field(self.0, 59, 4) as u8,
    {
        proof {
            lemma_field_fits(self.0, 59, 4);
        }
        read_field(self.0, 59, 4) as u8
    }

    /// Returns a copy with `protection_key` set to `v` (which must fit in 4 bits).
    pub fn with_protection_key(self, v: u8) -> (r: Self)
        requires
            v < 0x10,
        ensures
            r.0 == set_field(self.0, 59, 4, v as u64),
    {
        proof {
            lemma_masks();
        }
        Pte4K(write_field(self.0, 59, 4, v as u64))
    }

    /// Sets `protection_key` to `v` (which must fit in 4 bits).
    pub fn set_protection_key(&mut self, v: u8)
        requires
            v < 0x10,
        ensures
            final(self).0 == set_field(old(self).0, 59, 4, v as u64),
    {
        proof {
            lemma_masks();
        }
        self.0 = write_field(self.0, 59, 4, v as u64);
    }

    /// No-Execute (bit 63).
    #[verifier::allow_in_spec]
    pub fn no_execute(&self) -> bool
        returns
            get_flag(self.0, 63),
    {
        read_flag(self.0, 63)
    }

    /// Returns a copy with `no_execute` set to `v`.
    #[verifier::allow_in_spec]
    pub fn with_no_execute(self, v: bool) -> Self
        returns
            Pte4K(set_flag(self.0, 63, v)),
    {
        Pte4K(write_flag(self.0, 63, v))
    }

    /// Sets `no_execute` to `v`.
    pub fn set_no_execute(&mut self, v: bool)
        ensures
            final(self).0 == set_flag(old(self).0, 63, v),
    {
        self.0 = write_flag(self.0, 63, v);
    }

}


impl Pte4K {
    /// Stores the 4 KiB-aligned base of the mapped page (bits 51:12).
    pub fn set_physical_address(&mut self, phys: PhysicalAddress)
        requires
            phys.0 % 0x1000 == 0,
            fits_phys(phys.0),
        ensures
            final(self).0 == set_field(old(self).0, 12, 40, phys.0 >> 12),
            final(self).physical_address() == phys,
    {
        proof {
            lemma_frame_address_roundtrip(self.0, phys.0);
            lemma_masks();
        }
        self.set_phys_addr_51_12(phys.0 >> 12);
    }

    /// The 4 KiB-aligned base of the mapped page (bits 51:12).
    #[verifier::allow_in_spec]
    pub fn physical_address(self) -> PhysicalAddress
        returns
            PhysicalAddress(frame_address(self.0)),
    {
        PageEntryBits(self.0).physical_address()
    }
}

/// A read-only typed view of an entry, chosen by its `PS` bit.
pub enum L3View {
    /// Non-leaf view (PS=0).
    Entry(Pdpte),
    /// 1 GiB leaf view (PS=1).
    Leaf1G(Pdpte1G),
}

/// Overlay of the non-leaf [`Pdpte`] and the leaf [`Pdpte1G`] on the same 64 bits.
#[derive(Copy, Clone, Debug, PartialEq, Eq, Structural)]
pub struct PdpteUnion(pub u64);

impl PdpteUnion {
    /// The zero (non-present) entry.
    pub fn new() -> (r: Self)
        ensures
            r.0 == 0,
    {
        PdpteUnion(0)
    }

    /// The non-leaf form `entry`.
    pub fn new_entry(entry: Pdpte) -> (r: Self)
        ensures
            r.0 == entry.0,
    {
        PdpteUnion(entry.0)
    }

    /// The leaf form `leaf`.
    pub fn new_leaf(leaf: Pdpte1G) -> (r: Self)
        ensures
            r.0 == leaf.0,
    {
        PdpteUnion(leaf.0)
    }

    /// Whether the present bit is set.
    pub fn present(self) -> (r: bool)
        ensures
            r == get_flag(self.0, 0),
    {
        read_flag(self.0, 0)
    }

    /// Wraps raw bits (no validation).
    pub fn from_bits(bits: u64) -> (r: Self)
        ensures
            r.0 == bits,
    {
        PdpteUnion(bits)
    }

    /// The raw bits.
    pub fn into_bits(self) -> (r: u64)
        ensures
            r == self.0,
    {
        self.0
    }

    /// The form chosen by the `PS` bit (bit 7): leaf if set, non-leaf if clear.
    pub fn view(&self) -> (r: L3View)
        ensures
            match r {
                L3View::Entry(e) => !get_flag(self.0, 7) && e.0 == self.0,
                L3View::Leaf1G(l) => get_flag(self.0, 7) && l.0 == self.0,
            },
    {
        if read_flag(self.0, 7) {
            L3View::Leaf1G(Pdpte1G(self.0))
        } else {
            L3View::Entry(Pdpte(self.0))
        }
    }
}

/// A read-only typed view of an entry, chosen by its `PS` bit.
pub enum L2View {
    /// Non-leaf view (PS=0).
    Entry(Pde),
    /// 2 MiB leaf view (PS=1).
    Leaf2M(Pde2M),
}

/// Overlay of the non-leaf [`Pde`] and the leaf [`Pde2M`] on the same 64 bits.
#[derive(Copy, Clone, Debug, PartialEq, Eq, Structural)]
pub struct PdeUnion(pub u64);

impl PdeUnion {
    /// The zero (non-present) entry.
    pub fn new() -> (r: Self)
        ensures
            r.0 == 0,
    {
        PdeUnion(0)
    }

    /// The non-leaf form `entry`.
    pub fn new_entry(entry: Pde) -> (r: Self)
        ensures
            r.0 == entry.0,
    {
        PdeUnion(entry.0)
    }

    /// The leaf form `leaf`.
    pub fn new_leaf(leaf: Pde2M) -> (r: Self)
        ensures
            r.0 == leaf.0,
    {
        PdeUnion(leaf.0)
    }

    /// Whether the present bit is set.
    pub fn present(self) -> (r: bool)
        ensures
            r == get_flag(self.0, 0),
    {
        read_flag(self.0, 0)
    }

    /// Wraps raw bits (no validation).
    pub fn from_bits(bits: u64) -> (r: Self)
        ensures
            r.0 == bits,
    {
        PdeUnion(bits)
    }

    /// The raw bits.
    pub fn into_bits(self) -> (r: u64)
        ensures
            r == self.0,
    {
        self.0
    }

    /// The form chosen by the `PS` bit (bit 7): leaf if set, non-leaf if clear.
    pub fn view(&self) -> (r: L2View)
        ensures
            match r {
                L2View::Entry(e) => !get_flag(self.0, 7) && e.0 == self.0,
                L2View::Leaf2M(l) => get_flag(self.0, 7) && l.0 == self.0,
            },
    {
        if read_flag(self.0, 7) {
            L2View::Leaf2M(Pde2M(self.0))
        } else {
            L2View::Entry(Pde(self.0))
        }
    }
}

impl Pml4e {
    /// An entry with common kernel RW flags: present, writable, supervisor-only, write-back,
    /// executable.
    pub fn new_common_rw() -> (r: Self)
        ensures
            r.present(),
            r.writable(),
            !r.user(),
            !r.write_through(),
            !r.cache_disable(),
            !r.no_execute(),
            !r.accessed(),
            r.__ps_must_be_0() == 0,
            r.physical_address().0 == 0,
    {
        Self::new().with_present(true).with_writable(true).with_user(false).with_write_through(
            false,
        ).with_cache_disable(false).with_no_execute(false)
    }
}

impl Pdpte {
    /// An entry with common kernel RW flags: present, writable, supervisor-only, write-back,
    /// executable.
    pub fn new_common_rw() -> (r: Self)
        ensures
            r.present(),
            r.writable(),
            !r.user(),
            !r.write_through(),
            !r.cache_disable(),
            !r.no_execute(),
            !r.accessed(),
            r.__ps_must_be_0() == 0,
            r.physical_address().0 == 0,
    {
        Self::new().with_present(true).with_writable(true).with_user(false).with_write_through(
            false,
        ).with_cache_disable(false).with_no_execute(false)
    }
}

impl Pdpte1G {
    /// An entry with common kernel RW flags: present, writable, supervisor-only, write-back,
    /// executable.
    pub fn new_common_rw() -> (r: Self)
        ensures
            r.present(),
            r.writable(),
            !r.user(),
            !r.write_through(),
            !r.cache_disable(),
            !r.no_execute(),
            !r.accessed(),
            r.page_size(),
            !r.dirty(),
            !r.global(),
            r.physical_address().0 == 0,
    {
        Self::new().with_present(true).with_writable(true).with_user(false).with_write_through(
            false,
        ).with_cache_disable(false).with_no_execute(false).with_page_size(true)
    }
}

impl Pde {
    /// An entry with common kernel RW flags: present, writable, supervisor-only, write-back,
    /// executable.
    pub fn new_common_rw() -> (r: Self)
        ensures
            r.present(),
            r.writable(),
            !r.user(),
            !r.write_through(),
            !r.cache_disable(),
            !r.no_execute(),
            !r.accessed(),
            r.__ps_must_be_0() == 0,
            r.physical_address().0 == 0,
    {
        Self::new().with_present(true).with_writable(true).with_user(false).with_write_through(
            false,
        ).with_cache_disable(false).with_no_execute(false)
    }
}

impl Pde2M {
    /// An entry with common kernel RW flags: present, writable, supervisor-only, write-back,
    /// executable.
    pub fn new_common_rw() -> (r: Self)
        ensures
            r.present(),
            r.writable(),
            !r.user(),
            !r.write_through(),
            !r.cache_disable(),
            !r.no_execute(),
            !r.accessed(),
            r.page_size(),
            !r.dirty(),
            !r.global(),
            r.physical_address().0 == 0,
    {
        Self::new().with_present(true).with_writable(true).with_user(false).with_write_through(
            false,
        ).with_cache_disable(false).with_no_execute(false).with_page_size(true)
    }
}

impl Pte4K {
    /// A 4 KiB **user RX** mapping: present, read-only, user, executable.
    pub fn new_user_rx() -> (r: Self)
        ensures
            r.present(),
            !r.writable(),
            r.user(),
            !r.write_through(),
            !r.cache_disable(),
            !r.no_execute(),
            !r.pat_small(),
            r.physical_address().0 == 0,
    {
        Self::new().with_present(true).with_writable(false).with_user(true).with_write_through(
            false,
        ).with_cache_disable(false).with_no_execute(false)
    }

    /// A 4 KiB **user RO+NX** mapping: present, read-only, user, no execute.
    pub fn new_user_ro_nx() -> (r: Self)
        ensures
            r.present(),
            !r.writable(),
            r.user(),
            r.no_execute(),
            !r.pat_small(),
            r.physical_address().0 == 0,
    {
        Self::new().with_present(true).with_writable(false).with_user(true).with_no_execute(true)
    }
}

} // verus!
