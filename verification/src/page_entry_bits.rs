//! # Unified page-table entry bits
//!
//! [`PageEntryBits`] is the raw 64-bit form shared by all paging levels.

use crate::addresses::PhysicalAddress;
use crate::bitfield::{
    get_field, get_flag, group_bitfield, lemma_field_bound, lemma_field_fits, lemma_get_set_same,
    lemma_masks, lemma_shift_facts, mask, read_field, read_flag, set_field, set_flag, write_field, write_flag,
};
use vstd::prelude::*;

verus! {

broadcast use group_bitfield;

/// A single 64-bit x86-64 page table entry in its raw bit-field form.
///
/// Models the **common superset** of the fields of all four paging levels
/// (PML4E, PDPTE, PDE, PTE):
///
/// | Bits  | Field                                   |
/// |-------|-----------------------------------------|
/// | 0..8  | P, RW, US, PWT, PCD, A, D, PS, G        |
/// | 9–11  | OS-available (low)                      |
/// | 12–51 | physical frame bits [51:12]             |
/// | 52–58 | OS-available (high)                     |
/// | 59–62 | protection key / OS use                 |
/// | 63    | NX                                      |
#[derive(Copy, Clone, Debug, PartialEq, Eq, Structural)]
pub struct PageEntryBits(pub u64);

impl PageEntryBits {
    /// Creates a value with every field at its default.
    pub fn new() -> (r: Self)
        ensures
            r.0 == 0x0,
    {
        PageEntryBits(0x0)
    }

    /// Wraps raw bits (no validation).
    #[verifier::allow_in_spec]
    pub fn from_bits(bits: u64) -> Self
        returns
            PageEntryBits(bits),
    {
        PageEntryBits(bits)
    }

    /// The raw bits.
    #[verifier::allow_in_spec]
    pub fn into_bits(self) -> u64
        returns
            self.0,
    {
        self.0
    }

    /// Present (P, bit 0): valid entry if set.
    #[verifier::allow_in_spec]
    pub fn present(&self) -> bool
        returns
            get_flag(self.0, 0),
    {
        read_flag(self.0, 0)
    }

    /// Returns a copy with `present` set to `v`.
    #[verifier::allow_in_spec]
    pub fn with_present(self, v: bool) -> Self
        returns
            PageEntryBits(set_flag(self.0, 0, v)),
    {
        PageEntryBits(write_flag(self.0, 0, v))
    }

    /// Sets `present` to `v`.
    pub fn set_present(&mut self, v: bool)
        ensures
            final(self).0 == set_flag(old(self).0, 0, v),
    {
        self.0 = write_flag(self.0, 0, v);
    }

    /// Writable (RW, bit 1): writes allowed if set.
    #[verifier::allow_in_spec]
    pub fn writable(&self) -> bool
        returns
            get_flag(self.0, 1),
    {
        read_flag(self.0, 1)
    }

    /// Returns a copy with `writable` set to `v`.
    #[verifier::allow_in_spec]
    pub fn with_writable(self, v: bool) -> Self
        returns
            PageEntryBits(set_flag(self.0, 1, v)),
    {
        PageEntryBits(write_flag(self.0, 1, v))
    }

    /// Sets `writable` to `v`.
    pub fn set_writable(&mut self, v: bool)
        ensures
            final(self).0 == set_flag(old(self).0, 1, v),
    {
        self.0 = write_flag(self.0, 1, v);
    }

    /// User/Supervisor (US, bit 2): user-mode access if set.
    #[verifier::allow_in_spec]
    pub fn user_access(&self) -> bool
        returns
            get_flag(self.0, 2),
    {
        read_flag(self.0, 2)
    }

    /// Returns a copy with `user_access` set to `v`.
    #[verifier::allow_in_spec]
    pub fn with_user_access(self, v: bool) -> Self
        returns
            PageEntryBits(set_flag(self.0, 2, v)),
    {
        PageEntryBits(write_flag(self.0, 2, v))
    }

    /// Sets `user_access` to `v`.
    pub fn set_user_access(&mut self, v: bool)
        ensures
            final(self).0 == set_flag(old(self).0, 2, v),
    {
        self.0 = write_flag(self.0, 2, v);
    }

    /// Page Write-Through (PWT, bit 3).
    #[verifier::allow_in_spec]
    pub fn write_through(&self) -> bool
        returns
            get_flag(self.0, 3),
    {
        read_flag(self.0, 3)
    }

    /// Returns a copy with `write_through` set to `v`.
    #[verifier::allow_in_spec]
    pub fn with_write_through(self, v: bool) -> Self
        returns
            PageEntryBits(set_flag(self.0, 3, v)),
    {
        PageEntryBits(write_flag(self.0, 3, v))
    }

    /// Sets `write_through` to `v`.
    pub fn set_write_through(&mut self, v: bool)
        ensures
            final(self).0 == set_flag(old(self).0, 3, v),
    {
        self.0 = write_flag(self.0, 3, v);
    }

    /// Page Cache Disable (PCD, bit 4).
    #[verifier::allow_in_spec]
    pub fn cache_disabled(&self) -> bool
        returns
            get_flag(self.0, 4),
    {
        read_flag(self.0, 4)
    }

    /// Returns a copy with `cache_disabled` set to `v`.
    #[verifier::allow_in_spec]
    pub fn with_cache_disabled(self, v: bool) -> Self
        returns
            PageEntryBits(set_flag(self.0, 4, v)),
    {
        PageEntryBits(write_flag(self.0, 4, v))
    }

    /// Sets `cache_disabled` to `v`.
    pub fn set_cache_disabled(&mut self, v: bool)
        ensures
            final(self).0 == set_flag(old(self).0, 4, v),
    {
        self.0 = write_flag(self.0, 4, v);
    }

    /// Accessed (A, bit 5): set by the CPU on first access.
    #[verifier::allow_in_spec]
    pub fn accessed(&self) -> bool
        returns
            get_flag(self.0, 5),
    {
        read_flag(self.0, 5)
    }

    /// Returns a copy with `accessed` set to `v`.
    #[verifier::allow_in_spec]
    pub fn with_accessed(self, v: bool) -> Self
        returns
            PageEntryBits(set_flag(self.0, 5, v)),
    {
        PageEntryBits(write_flag(self.0, 5, v))
    }

    /// Sets `accessed` to `v`.
    pub fn set_accessed(&mut self, v: bool)
        ensures
            final(self).0 == set_flag(old(self).0, 5, v),
    {
        self.0 = write_flag(self.0, 5, v);
    }

    /// Dirty (D, bit 6), leaf only: set by the CPU on first write.
    #[verifier::allow_in_spec]
    pub fn dirty(&self) -> bool
        returns
            get_flag(self.0, 6),
    {
        read_flag(self.0, 6)
    }

    /// Returns a copy with `dirty` set to `v`.
    #[verifier::allow_in_spec]
    pub fn with_dirty(self, v: bool) -> Self
        returns
            PageEntryBits(set_flag(self.0, 6, v)),
    {
        PageEntryBits(write_flag(self.0, 6, v))
    }

    /// Sets `dirty` to `v`.
    pub fn set_dirty(&mut self, v: bool)
        ensures
            final(self).0 == set_flag(old(self).0, 6, v),
    {
        self.0 = write_flag(self.0, 6, v);
    }

    /// Large Page / Page Size (PS, bit 7).
    #[verifier::allow_in_spec]
    pub fn large_page(&self) -> bool
        returns
            get_flag(self.0, 7),
    {
        read_flag(self.0, 7)
    }

    /// Returns a copy with `large_page` set to `v`.
    #[verifier::allow_in_spec]
    pub fn with_large_page(self, v: bool) -> Self
        returns
            PageEntryBits(set_flag(self.0, 7, v)),
    {
        PageEntryBits(write_flag(self.0, 7, v))
    }

    /// Sets `large_page` to `v`.
    pub fn set_large_page(&mut self, v: bool)
        ensures
            final(self).0 == set_flag(old(self).0, 7, v),
    {
        self.0 = write_flag(self.0, 7, v);
    }

    /// Global (G, bit 8), leaf only.
    #[verifier::allow_in_spec]
    pub fn global_translation(&self) -> bool
        returns
            get_flag(self.0, 8),
    {
        read_flag(self.0, 8)
    }

    /// Returns a copy with `global_translation` set to `v`.
    #[verifier::allow_in_spec]
    pub fn with_global_translation(self, v: bool) -> Self
        returns
            PageEntryBits(set_flag(self.0, 8, v)),
    {
        PageEntryBits(write_flag(self.0, 8, v))
    }

    /// Sets `global_translation` to `v`.
    pub fn set_global_translation(&mut self, v: bool)
        ensures
            final(self).0 == set_flag(old(self).0, 8, v),
    {
        self.0 = write_flag(self.0, 8, v);
    }

    /// OS-available (bits 9..=11).
    #[verifier::allow_in_spec]
    pub fn os_available_low(&self) -> u8
        returns
            get_field(self.0, 9, 3) as u8,
    {
        proof {
            lemma_field_fits(self.0, 9, 3);
        }
        read_field(self.0, 9, 3) as u8
    }

    /// Returns a copy with `os_available_low` set to `v` (which must fit in 3 bits).
    pub fn with_os_available_low(self, v: u8) -> (r: Self)
        requires
            v < 0x8,
        ensures
            r.0 == set_field(self.0, 9, 3, v as u64),
    {
        proof {
            lemma_masks();
        }
        PageEntryBits(write_field(self.0, 9, 3, v as u64))
    }

    /// Sets `os_available_low` to `v` (which must fit in 3 bits).
    pub fn set_os_available_low(&mut self, v: u8)
        requires
            v < 0x8,
        ensures
            final(self).0 == set_field(old(self).0, 9, 3, v as u64),
    {
        proof {
            lemma_masks();
        }
        self.0 = write_field(self.0, 9, 3, v as u64);
    }

    /// Physical address bits [51:12] (bits 12..=51).
    #[verifier::allow_in_spec]
    fn phys_addr_bits_51_12(&self) -> u64
        returns
            get_field(self.0, 12, 40) as u64,
    {
        proof {
            lemma_field_fits(self.0, 12, 40);
        }
        read_field(self.0, 12, 40) as u64
    }

    /// Returns a copy with `phys_addr_bits_51_12` set to `v` (which must fit in 40 bits).
    fn with_phys_addr_bits_51_12(self, v: u64) -> (r: Self)
        requires
            v < 0x10000000000,
        ensures
            r.0 == set_field(self.0, 12, 40, v as u64),
    {
        proof {
            lemma_masks();
        }
        PageEntryBits(write_field(self.0, 12, 40, v as u64))
    }

    /// Sets `phys_addr_bits_51_12` to `v` (which must fit in 40 bits).
    fn set_phys_addr_bits_51_12(&mut self, v: u64)
        requires
            v < 0x10000000000,
        ensures
            final(self).0 == set_field(old(self).0, 12, 40, v as u64),
    {
        proof {
            lemma_masks();
        }
        self.0 = write_field(self.0, 12, 40, v as u64);
    }

    /// OS-available (bits 52..=58).
    #[verifier::allow_in_spec]
    pub fn os_available_high(&self) -> u8
        returns
            get_field(self.0, 52, 7) as u8,
    {
        proof {
            lemma_field_fits(self.0, 52, 7);
        }
        read_field(self.0, 52, 7) as u8
    }

    /// Returns a copy with `os_available_high` set to `v` (which must fit in 7 bits).
    pub fn with_os_available_high(self, v: u8) -> (r: Self)
        requires
            v < 0x80,
        ensures
            r.0 == set_field(self.0, 52, 7, v as u64),
    {
        proof {
            lemma_masks();
        }
        PageEntryBits(write_field(self.0, 52, 7, v as u64))
    }

    /// Sets `os_available_high` to `v` (which must fit in 7 bits).
    pub fn set_os_available_high(&mut self, v: u8)
        requires
            v < 0x80,
        ensures
            final(self).0 == set_field(old(self).0, 52, 7, v as u64),
    {
        proof {
            lemma_masks();
        }
        self.0 = write_field(self.0, 52, 7, v as u64);
    }

    /// Protection Key (PKU, bits 59..=62) or OS use.
    #[verifier::allow_in_spec]
    pub fn protection_key(&self) -> u8
        returns
            get_field(self.0, 59, 4) as u8,
    {
        proof {
            lemma_field_fits(self.0, 59, 4);
        }
        read_field(self.0, 59, 4) as u8
    }

    /// Returns a copy with `protection_key` set to `v` (which must fit in 4 bits).
    pub fn with_protection_key(self, v: u8) -> (r: Self)
        requires
            v < 0x10,
        ensures
            r.0 == set_field(self.0, 59, 4, v as u64),
    {
        proof {
            lemma_masks();
        }
        PageEntryBits(write_field(self.0, 59, 4, v as u64))
    }

    /// Sets `protection_key` to `v` (which must fit in 4 bits).
    pub fn set_protection_key(&mut self, v: u8)
        requires
            v < 0x10,
        ensures
            final(self).0 == set_field(old(self).0, 59, 4, v as u64),
    {
        proof {
            lemma_masks();
        }
        self.0 = write_field(self.0, 59, 4, v as u64);
    }

    /// No-Execute (NX, bit 63).
    #[verifier::allow_in_spec]
    pub fn no_execute(&self) -> bool
        returns
            get_flag(self.0, 63),
    {
        read_flag(self.0, 63)
    }

    /// Returns a copy with `no_execute` set to `v`.
    #[verifier::allow_in_spec]
    pub fn with_no_execute(self, v: bool) -> Self
        returns
            PageEntryBits(set_flag(self.0, 63, v)),
    {
        PageEntryBits(write_flag(self.0, 63, v))
    }

    /// Sets `no_execute` to `v`.
    pub fn set_no_execute(&mut self, v: bool)
        ensures
            final(self).0 == set_flag(old(self).0, 63, v),
    {
        self.0 = write_flag(self.0, 63, v);
    }

}


/// The physical address stored in the bits 12..=51 of an entry.
pub open spec fn frame_address(bits: u64) -> u64 {
    (get_field(bits, 12, 40) * 0x1000) as u64
}

/// An address that fits the 52-bit physical address width.
pub open spec fn fits_phys(a: u64) -> bool {
    a < 0x10_0000_0000_0000
}

/// Storing a 4 KiB-aligned 52-bit address in bits 12..=51 and reading it back
/// gives the address.
pub proof fn lemma_frame_address_roundtrip(bits: u64, a: u64)
    requires
        a % 0x1000 == 0,
        fits_phys(a),
    ensures
        frame_address(set_field(bits, 12, 40, a >> 12)) == a,
        a >> 12 <= mask(40),
{
    lemma_masks();
    lemma_get_set_same(bits, 12, 40, a >> 12);
    lemma_shift_facts(a, 0, 0);
}

/// The frame address is 4 KiB aligned and fits 52 bits.
pub proof fn lemma_frame_address_bounds(bits: u64)
    ensures
        frame_address(bits) % 0x1000 == 0,
        fits_phys(frame_address(bits)),
{
    lemma_masks();
    lemma_field_bound(bits, 12, 40);
    let f = get_field(bits, 12, 40);
    assert(f * 0x1000 < 0x10_0000_0000_0000 && (f * 0x1000) % 0x1000 == 0) by (nonlinear_arith)
        requires
            f <= 0xff_ffff_ffff,
    ;
}

/// Shifting a 40-bit frame number left by 12 multiplies it by 4096.
pub proof fn lemma_shl12(x: u64)
    requires
        x <= 0xff_ffff_ffff,
    ensures
        x << 12 == x * 0x1000,
{
    lemma_shift_facts(0, x, 0);
}

impl PageEntryBits {
    /// Stores the physical address `phys` (bits [51:12]).
    ///
    /// The address must fit 52 bits; its low 12 bits are dropped.
    pub fn set_physical_address(&mut self, phys: PhysicalAddress)
        requires
            fits_phys(phys.0),
        ensures
            final(self).0 == set_field(old(self).0, 12, 40, phys.0 >> 12),
    {
        proof {
            lemma_masks();
            let a = phys.0;
            lemma_shift_facts(a, 0, 0);
        }
        self.set_phys_addr_bits_51_12(phys.0 >> 12);
    }

    /// The physical address stored in bits [51:12].
    #[verifier::allow_in_spec]
    pub fn physical_address(&self) -> PhysicalAddress
        returns
            PhysicalAddress(frame_address(self.0)),
    {
        let f = self.phys_addr_bits_51_12();
        proof {
            lemma_masks();
            lemma_field_bound(self.0, 12, 40);
            lemma_shl12(f);
        }
        PhysicalAddress::new(f << 12)
    }

    /// A present, writable, supervisor-only entry with write-back caching
    /// that allows execution.
    pub fn new_common_rw() -> (r: Self)
        ensures
            r.present(),
            r.writable(),
            !r.user_access(),
            !r.write_through(),
            !r.cache_disabled(),
            !r.no_execute(),
            !r.accessed(),
            !r.dirty(),
            !r.large_page(),
            !r.global_translation(),
            r.os_available_low() == 0,
            r.os_available_high() == 0,
            r.protection_key() == 0,
            r.physical_address().0 == 0,
    {
        Self::new().with_present(true).with_writable(true).with_user_access(false).with_write_through(
            false,
        ).with_cache_disabled(false).with_no_execute(false)
    }

    /// A present, read-only, user-accessible entry that allows execution.
    pub fn flags_user_rx() -> (r: Self)
        ensures
            r.present(),
            !r.writable(),
            r.user_access(),
            !r.write_through(),
            !r.cache_disabled(),
            !r.no_execute(),
            !r.accessed(),
            !r.dirty(),
            !r.large_page(),
            !r.global_translation(),
            r.os_available_low() == 0,
            r.os_available_high() == 0,
            r.protection_key() == 0,
            r.physical_address().0 == 0,
    {
        Self::new().with_present(true).with_writable(false).with_user_access(true).with_write_through(
            false,
        ).with_cache_disabled(false).with_no_execute(false)
    }

    /// A present, read-only, user-accessible entry that forbids execution.
    pub fn new_user_ro_nx() -> (r: Self)
        ensures
            r.present(),
            !r.writable(),
            r.user_access(),
            !r.write_through(),
            !r.cache_disabled(),
            r.no_execute(),
            !r.accessed(),
            !r.dirty(),
            !r.large_page(),
            !r.global_translation(),
            r.os_available_low() == 0,
            r.os_available_high() == 0,
            r.protection_key() == 0,
            r.physical_address().0 == 0,
    {
        Self::new().with_present(true).with_writable(false).with_user_access(true).with_no_execute(
            true,
        )
    }
}

} // verus!
