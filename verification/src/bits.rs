//! # Unified view of the x86-64 paging entry flags
//!
//! [`VirtualMemoryPageBits`] holds the semantic superset of the flags of all
//! entry forms, without bit packing, and converts from and to each form.

use crate::addresses::{PhysicalPage, Size1G, Size2M, Size4K};
use crate::bitfield::{
    get_field, get_flag, group_bitfield, lemma_field_bound, lemma_masks, lemma_small_masks, set_field,
    set_flag,
};
use crate::page_entry_bits::{fits_phys, frame_address, lemma_frame_address_roundtrip};
use crate::page_table::pt::PtEntry4k;
use crate::page_table::pd::{Pde, Pde2M};
use crate::page_table::pdpt::{Pdpte, Pdpte1G};
use crate::page_table::pml4::Pml4Entry;
use crate::page_table::{leaf_1g_address, leaf_2m_address, lemma_leaf_1g_roundtrip};
use vstd::prelude::*;

verus! {

broadcast use group_bitfield;

/// Unified, ergonomic view over x86-64 paging entries (all levels and forms).
///
/// Models the semantic superset of the fields of the L4 non-leaf, L3
/// non-leaf/1 GiB leaf, L2 non-leaf/2 MiB leaf and L1 4 KiB leaf forms.
#[derive(Clone, Copy, Debug, PartialEq, Eq, Structural)]
pub struct VirtualMemoryPageBits {
    /// **Present** (P): valid entry if `true`.
    pub present: bool,

    /// **Writable** (RW): allows writes if `true`.
    pub writable: bool,

    /// **User/Supervisor** (US): user-mode access if `true`.
    pub user: bool,

    /// **Page Write-Through** (PWT): write-through policy (PAT bit0).
    pub write_through: bool,

    /// **Page Cache Disable** (PCD): disable caching (PAT bit1).
    pub cache_disable: bool,

    /// **Accessed** (A): set by CPU on first access. Not a permission bit.
    pub accessed: bool,

    /// **Dirty** (D): set by CPU on first write; meaningful for leaf entries only.
    pub dirty: bool,

    /// **Global** (G): TLB not flushed on CR3 reload (leaf only).
    pub global: bool,

    /// **Execute Disable** / NX: disallow instruction fetch if `true`.
    pub no_execute: bool,

    /// **Protection key** (PKU) or OS-use (bits 59..62); masked to 4 bits when encoded.
    pub protection_key: u8,

    /// **OS-available (low)**: bits 9..11 (masked to 3 bits when encoded).
    pub os_available_low: u8,

    /// **OS-available (high)**: bits 52..58 (masked to 7 bits when encoded).
    pub os_available_high: u8,

    /// PAT selector **bit #2** (leaf only; bit 7 in a 4 KiB PTE, bit 12 in large leaves).
    pub pat_bit2: bool,

}


impl VirtualMemoryPageBits {
    /// All flags clear and all OS/key fields zero.
    pub fn new() -> (r: Self)
        ensures
            r == Self::empty(),
    {
        VirtualMemoryPageBits {
            present: false,
            writable: false,
            user: false,
            write_through: false,
            cache_disable: false,
            accessed: false,
            dirty: false,
            global: false,
            no_execute: false,
            protection_key: 0,
            os_available_low: 0,
            os_available_high: 0,
            pat_bit2: false,
        }
    }

    /// All flags clear and all OS/key fields zero.
    pub open spec fn empty() -> Self {
        VirtualMemoryPageBits {
            present: false,
            writable: false,
            user: false,
            write_through: false,
            cache_disable: false,
            accessed: false,
            dirty: false,
            global: false,
            no_execute: false,
            protection_key: 0,
            os_available_low: 0,
            os_available_high: 0,
            pat_bit2: false,
        }
    }

    /// Returns a copy with `present` set to `v`.
    pub fn with_present(self, v: bool) -> (r: Self)
        ensures
            r == (Self { present: v, ..self }),
    {
        Self { present: v, ..self }
    }

    /// Returns a copy with `writable` set to `v`.
    pub fn with_writable(self, v: bool) -> (r: Self)
        ensures
            r == (Self { writable: v, ..self }),
    {
        Self { writable: v, ..self }
    }

    /// Returns a copy with `user` set to `v`.
    pub fn with_user(self, v: bool) -> (r: Self)
        ensures
            r == (Self { user: v, ..self }),
    {
        Self { user: v, ..self }
    }

    /// Returns a copy with `write_through` set to `v`.
    pub fn with_write_through(self, v: bool) -> (r: Self)
        ensures
            r == (Self { write_through: v, ..self }),
    {
        Self { write_through: v, ..self }
    }

    /// Returns a copy with `cache_disable` set to `v`.
    pub fn with_cache_disable(self, v: bool) -> (r: Self)
        ensures
            r == (Self { cache_disable: v, ..self }),
    {
        Self { cache_disable: v, ..self }
    }

    /// Returns a copy with `accessed` set to `v`.
    pub fn with_accessed(self, v: bool) -> (r: Self)
        ensures
            r == (Self { accessed: v, ..self }),
    {
        Self { accessed: v, ..self }
    }

    /// Returns a copy with `dirty` set to `v`.
    pub fn with_dirty(self, v: bool) -> (r: Self)
        ensures
            r == (Self { dirty: v, ..self }),
    {
        Self { dirty: v, ..self }
    }

    /// Returns a copy with `global` set to `v`.
    pub fn with_global(self, v: bool) -> (r: Self)
        ensures
            r == (Self { global: v, ..self }),
    {
        Self { global: v, ..self }
    }

    /// Returns a copy with `no_execute` set to `v`.
    pub fn with_no_execute(self, v: bool) -> (r: Self)
        ensures
            r == (Self { no_execute: v, ..self }),
    {
        Self { no_execute: v, ..self }
    }

    /// Returns a copy with `protection_key` set to `v`.
    pub fn with_protection_key(self, v: u8) -> (r: Self)
        ensures
            r == (Self { protection_key: v, ..self }),
    {
        Self { protection_key: v, ..self }
    }

    /// Returns a copy with `os_available_low` set to `v`.
    pub fn with_os_available_low(self, v: u8) -> (r: Self)
        ensures
            r == (Self { os_available_low: v, ..self }),
    {
        Self { os_available_low: v, ..self }
    }

    /// Returns a copy with `os_available_high` set to `v`.
    pub fn with_os_available_high(self, v: u8) -> (r: Self)
        ensures
            r == (Self { os_available_high: v, ..self }),
    {
        Self { os_available_high: v, ..self }
    }

    /// Returns a copy with `pat_bit2` set to `v`.
    pub fn with_pat_bit2(self, v: bool) -> (r: Self)
        ensures
            r == (Self { pat_bit2: v, ..self }),
    {
        Self { pat_bit2: v, ..self }
    }

    /// Enables write-combining (WC) through the PAT: `PWT=0`, `PCD=1`, PAT bit 2 set.
    pub fn with_write_combining(self) -> (r: Self)
        ensures
            r == (Self { write_through: false, cache_disable: true, pat_bit2: true, ..self }),
    {
        self.with_write_through(false).with_cache_disable(true).with_pat_bit2(true)
    }

    /// The permission, cache and OS/key fields that every entry form shares
    /// (all but present, dirty, global, PS/PAT) are those of `self` in `bits`;
    /// the OS and key fields are masked to their widths.
    pub open spec fn common_in(self, bits: u64) -> bool {
        &&& get_flag(bits, 1) == self.writable
        &&& get_flag(bits, 2) == self.user
        &&& get_flag(bits, 3) == self.write_through
        &&& get_flag(bits, 4) == self.cache_disable
        &&& get_flag(bits, 5) == self.accessed
        &&& get_flag(bits, 63) == self.no_execute
        &&& get_field(bits, 9, 3) == (self.os_available_low & 7) as u64
        &&& get_field(bits, 52, 7) == (self.os_available_high & 0x7f) as u64
        &&& get_field(bits, 59, 4) == (self.protection_key & 0xf) as u64
    }

    /// `bits` is the non-leaf encoding of `self` pointing at `base`: the
    /// shared fields, the present bit, bits 6..=8 clear, and the address.
    pub open spec fn nonleaf_in(self, bits: u64, base: u64) -> bool {
        &&& self.common_in(bits)
        &&& get_flag(bits, 0) == self.present
        &&& !get_flag(bits, 6)
        &&& !get_flag(bits, 7)
        &&& !get_flag(bits, 8)
        &&& frame_address(bits) == base
    }

    /// `bits` is the 1 GiB leaf encoding of `self` mapping `base`.
    pub open spec fn leaf_1g_in(self, bits: u64, base: u64) -> bool {
        &&& self.common_in(bits)
        &&& get_flag(bits, 0) == self.present
        &&& get_flag(bits, 6) == self.dirty
        &&& get_flag(bits, 7)
        &&& get_flag(bits, 8) == self.global
        &&& get_flag(bits, 12) == self.pat_bit2
        &&& get_field(bits, 13, 17) == 0
        &&& leaf_1g_address(bits) == base
    }

    /// `bits` is the 2 MiB leaf encoding of `self` mapping `base`.
    pub open spec fn leaf_2m_in(self, bits: u64, base: u64) -> bool {
        &&& self.common_in(bits)
        &&& get_flag(bits, 0) == self.present
        &&& get_flag(bits, 6) == self.dirty
        &&& get_flag(bits, 7)
        &&& get_flag(bits, 8) == self.global
        &&& get_flag(bits, 12) == self.pat_bit2
        &&& get_field(bits, 13, 8) == 0
        &&& leaf_2m_address(bits) == base
    }

    /// `bits` is the 4 KiB leaf encoding of `self` mapping `base`.
    pub open spec fn leaf_4k_in(self, bits: u64, base: u64) -> bool {
        &&& self.common_in(bits)
        &&& get_flag(bits, 0) == self.present
        &&& get_flag(bits, 6) == self.dirty
        &&& get_flag(bits, 7) == self.pat_bit2
        &&& get_flag(bits, 8) == self.global
        &&& frame_address(bits) == base
    }

    /// A 4 KiB leaf encoding of `self` for `base`, made present with bit 7
    /// cleared and `base` stored again, is the encoding of `self` made
    /// present with a clear PAT bit.
    pub proof fn lemma_leaf_4k_forced(self, bits: u64, base: u64)
        requires
            self.leaf_4k_in(bits, base),
            base % 0x1000 == 0,
            fits_phys(base),
        ensures
            (VirtualMemoryPageBits { present: true, pat_bit2: false, ..self }).leaf_4k_in(
                set_field(set_flag(set_flag(bits, 7, false), 0, true), 12, 40, base >> 12),
                base,
            ),
    {
        lemma_frame_address_roundtrip(set_flag(set_flag(bits, 7, false), 0, true), base);
    }

    /// A 1 GiB leaf encoding of `self` for `base`, made present with `base`
    /// stored again and bit 7 set, is the encoding of `self` made present.
    pub proof fn lemma_leaf_1g_forced(self, bits: u64, base: u64)
        requires
            self.leaf_1g_in(bits, base),
            base % 0x4000_0000 == 0,
            fits_phys(base),
        ensures
            (VirtualMemoryPageBits { present: true, ..self }).leaf_1g_in(
                set_flag(set_field(set_flag(bits, 0, true), 30, 22, base >> 30), 7, true),
                base,
            ),
    {
        let b1 = set_field(set_flag(bits, 0, true), 30, 22, base >> 30);
        lemma_leaf_1g_roundtrip(set_flag(bits, 0, true), base);
        assert(get_field(set_flag(b1, 7, true), 30, 22) == get_field(b1, 30, 22));
    }

    /// The flags that a non-leaf entry `bits` holds (the leaf-only fields
    /// read as `false`).
    pub open spec fn decode_nonleaf(bits: u64) -> Self {
        VirtualMemoryPageBits {
            present: get_flag(bits, 0),
            writable: get_flag(bits, 1),
            user: get_flag(bits, 2),
            write_through: get_flag(bits, 3),
            cache_disable: get_flag(bits, 4),
            accessed: get_flag(bits, 5),
            dirty: false,
            global: false,
            no_execute: get_flag(bits, 63),
            protection_key: get_field(bits, 59, 4) as u8,
            os_available_low: get_field(bits, 9, 3) as u8,
            os_available_high: get_field(bits, 52, 7) as u8,
            pat_bit2: false,
        }
    }

    /// The flags that a leaf entry `bits` holds, with PAT bit 2 at bit `pat`.
    pub open spec fn decode_leaf(bits: u64, pat: u64) -> Self {
        VirtualMemoryPageBits {
            present: get_flag(bits, 0),
            writable: get_flag(bits, 1),
            user: get_flag(bits, 2),
            write_through: get_flag(bits, 3),
            cache_disable: get_flag(bits, 4),
            accessed: get_flag(bits, 5),
            dirty: get_flag(bits, 6),
            global: get_flag(bits, 8),
            no_execute: get_flag(bits, 63),
            protection_key: get_field(bits, 59, 4) as u8,
            os_available_low: get_field(bits, 9, 3) as u8,
            os_available_high: get_field(bits, 52, 7) as u8,
            pat_bit2: get_flag(bits, pat),
        }
    }

    /// The flags as a non-leaf entry holds them: the leaf-only fields
    /// cleared and the OS and key fields masked to their widths.
    pub open spec fn nonleaf_view(self) -> Self {
        VirtualMemoryPageBits {
            dirty: false,
            global: false,
            pat_bit2: false,
            ..self.leaf_view()
        }
    }

    /// The flags as a leaf entry holds them: the OS and key fields masked to
    /// their widths.
    pub open spec fn leaf_view(self) -> Self {
        VirtualMemoryPageBits {
            protection_key: self.protection_key & 0xf,
            os_available_low: self.os_available_low & 7,
            os_available_high: self.os_available_high & 0x7f,
            ..self
        }
    }

    /// Populates from an L4 [`Pml4Entry`] (non-leaf).
    pub fn from_pml4e(e: &Pml4Entry) -> (r: Self)
        ensures
            r == Self::decode_nonleaf(e.0),
    {
        let lo = e.os_available_low();
        let hi = e.os_available_high();
        proof {
            lemma_masks();
            lemma_field_bound(e.0, 9, 3);
            lemma_field_bound(e.0, 52, 7);
            lemma_small_masks(lo, hi, 0);
        }
        Self {
            present: e.present(),
            writable: e.writable(),
            user: e.user(),
            write_through: e.write_through(),
            cache_disable: e.cache_disable(),
            accessed: e.accessed(),
            dirty: false,
            global: false,
            no_execute: e.no_execute(),
            protection_key: e.protection_key(),
            os_available_low: lo & 0b111,
            os_available_high: hi & 0x7F,
            pat_bit2: false,
        }
    }

    /// Populates from an L3 [`Pdpte`] (non-leaf).
    pub fn from_pdpte(e: &Pdpte) -> (r: Self)
        ensures
            r == Self::decode_nonleaf(e.0),
    {
        let lo = e.os_available_low();
        let hi = e.os_available_high();
        proof {
            lemma_masks();
            lemma_field_bound(e.0, 9, 3);
            lemma_field_bound(e.0, 52, 7);
            lemma_small_masks(lo, hi, 0);
        }
        Self {
            present: e.present(),
            writable: e.writable(),
            user: e.user(),
            write_through: e.write_through(),
            cache_disable: e.cache_disable(),
            accessed: e.accessed(),
            dirty: false,
            global: false,
            no_execute: e.no_execute(),
            protection_key: e.protection_key(),
            os_available_low: lo & 0b111,
            os_available_high: hi & 0x7F,
            pat_bit2: false,
        }
    }

    /// Populates from an L3 [`Pdpte1G`] (1 GiB leaf).
    pub fn from_pdpte_1g(e: &Pdpte1G) -> (r: Self)
        ensures
            r == Self::decode_leaf(e.0, 12),
    {
        let lo = e.os_available_low();
        let hi = e.os_available_high();
        proof {
            lemma_masks();
            lemma_field_bound(e.0, 9, 3);
            lemma_field_bound(e.0, 52, 7);
            lemma_small_masks(lo, hi, 0);
        }
        Self {
            present: e.present(),
            writable: e.writable(),
            user: e.user(),
            write_through: e.write_through(),
            cache_disable: e.cache_disable(),
            accessed: e.accessed(),
            dirty: e.dirty(),
            global: e.global(),
            no_execute: e.no_execute(),
            protection_key: e.protection_key(),
            os_available_low: lo & 0b111,
            os_available_high: hi & 0x7F,
            pat_bit2: e.pat_large(),
        }
    }

    /// Populates from an L2 [`Pde`] (non-leaf).
    pub fn from_pde(e: &Pde) -> (r: Self)
        ensures
            r == Self::decode_nonleaf(e.0),
    {
        let lo = e.os_available_low();
        let hi = e.os_available_high();
        proof {
            lemma_masks();
            lemma_field_bound(e.0, 9, 3);
            lemma_field_bound(e.0, 52, 7);
            lemma_small_masks(lo, hi, 0);
        }
        Self {
            present: e.present(),
            writable: e.writable(),
            user: e.user(),
            write_through: e.write_through(),
            cache_disable: e.cache_disable(),
            accessed: e.accessed(),
            dirty: false,
            global: false,
            no_execute: e.no_execute(),
            protection_key: e.protection_key(),
            os_available_low: lo & 0b111,
            os_available_high: hi & 0x7F,
            pat_bit2: false,
        }
    }

    /// Populates from an L2 [`Pde2M`] (2 MiB leaf).
    pub fn from_pde_2m(e: &Pde2M) -> (r: Self)
        ensures
            r == Self::decode_leaf(e.0, 12),
    {
        let lo = e.os_available_low();
        let hi = e.os_available_high();
        proof {
            lemma_masks();
            lemma_field_bound(e.0, 9, 3);
            lemma_field_bound(e.0, 52, 7);
            lemma_small_masks(lo, hi, 0);
        }
        Self {
            present: e.present(),
            writable: e.writable(),
            user: e.user(),
            write_through: e.write_through(),
            cache_disable: e.cache_disable(),
            accessed: e.accessed(),
            dirty: e.dirty(),
            global: e.global(),
            no_execute: e.no_execute(),
            protection_key: e.protection_key(),
            os_available_low: lo & 0b111,
            os_available_high: hi & 0x7F,
            pat_bit2: e.pat_large(),
        }
    }

    /// Populates from an L1 [`PtEntry4k`] (4 KiB leaf).
    pub fn from_pte_4k(e: &PtEntry4k) -> (r: Self)
        ensures
            r == Self::decode_leaf(e.0, 7),
    {
        let lo = e.os_available_low();
        let hi = e.os_available_high();
        proof {
            lemma_masks();
            lemma_field_bound(e.0, 9, 3);
            lemma_field_bound(e.0, 52, 7);
            lemma_small_masks(lo, hi, 0);
        }
        Self {
            present: e.present(),
            writable: e.writable(),
            user: e.user(),
            write_through: e.write_through(),
            cache_disable: e.cache_disable(),
            accessed: e.accessed(),
            dirty: e.dirty(),
            global: e.global(),
            no_execute: e.no_execute(),
            protection_key: e.protection_key(),
            os_available_low: lo & 0b111,
            os_available_high: hi & 0x7F,
            pat_bit2: e.pat_small(),
        }
    }

}

impl VirtualMemoryPageBits {

    /// Encodes into [`Pml4Entry`] (non-leaf); the leaf-only fields are not encoded.
    pub fn to_pml4e(&self, page: PhysicalPage<Size4K>) -> (r: Pml4Entry)
        requires
            page.wf(),
            fits_phys(page.base.0),
        ensures
            self.nonleaf_in(r.0, page.base.0),
    {
        proof {
            lemma_masks();
            let lo = self.os_available_low;
            let hi = self.os_available_high;
            let pk = self.protection_key;
            lemma_small_masks(lo, hi, pk);
        }
        let mut e = Pml4Entry::new();
        e.set_present(self.present);
        e.set_writable(self.writable);
        e.set_user(self.user);
        e.set_write_through(self.write_through);
        e.set_cache_disable(self.cache_disable);
        e.set_accessed(self.accessed);
        e.set_no_execute(self.no_execute);
        e.set_os_available_low(self.os_available_low & 0b111);
        e.set_os_available_high(self.os_available_high & 0x7F);
        e.set_protection_key(self.protection_key & 0x0F);
        e.set_physical_address(page);
        e
    }

    /// Encodes into [`Pdpte`] (non-leaf); the leaf-only fields are not encoded.
    pub fn to_pdpte(&self, page: PhysicalPage<Size4K>) -> (r: Pdpte)
        requires
            page.wf(),
            fits_phys(page.base.0),
        ensures
            self.nonleaf_in(r.0, page.base.0),
    {
        proof {
            lemma_masks();
            let lo = self.os_available_low;
            let hi = self.os_available_high;
            let pk = self.protection_key;
            lemma_small_masks(lo, hi, pk);
        }
        let mut e = Pdpte::new();
        e.set_present(self.present);
        e.set_writable(self.writable);
        e.set_user(self.user);
        e.set_write_through(self.write_through);
        e.set_cache_disable(self.cache_disable);
        e.set_accessed(self.accessed);
        e.set_no_execute(self.no_execute);
        e.set_os_available_low(self.os_available_low & 0b111);
        e.set_os_available_high(self.os_available_high & 0x7F);
        e.set_protection_key(self.protection_key & 0x0F);
        e.set_physical_address(page.base());
        e
    }

    /// Encodes into [`Pdpte1G`] (1 GiB leaf); sets `PS=1`.
    #[verifier::rlimit(60)]
    pub fn to_pdpte_1g(&self, page: PhysicalPage<Size1G>) -> (r: Pdpte1G)
        requires
            page.wf(),
            fits_phys(page.base.0),
        ensures
            self.leaf_1g_in(r.0, page.base.0),
    {
        proof {
            lemma_masks();
            let lo = self.os_available_low;
            let hi = self.os_available_high;
            let pk = self.protection_key;
            lemma_small_masks(lo, hi, pk);
        }
        let mut e = Pdpte1G::new();
        e.set_present(self.present);
        e.set_writable(self.writable);
        e.set_user(self.user);
        e.set_write_through(self.write_through);
        e.set_cache_disable(self.cache_disable);
        e.set_accessed(self.accessed);
        e.set_dirty(self.dirty);
        e.set_global(self.global);
        e.set_no_execute(self.no_execute);
        e.set_os_available_low(self.os_available_low & 0b111);
        e.set_os_available_high(self.os_available_high & 0x7F);
        e.set_protection_key(self.protection_key & 0x0F);
        e.set_pat_large(self.pat_bit2);
        e.set_physical_address(page.base());
        e
    }

    /// Encodes into [`Pde`] (non-leaf); the leaf-only fields are not encoded.
    pub fn to_pde(&self, page: PhysicalPage<Size4K>) -> (r: Pde)
        requires
            page.wf(),
            fits_phys(page.base.0),
        ensures
            self.nonleaf_in(r.0, page.base.0),
    {
        proof {
            lemma_masks();
            let lo = self.os_available_low;
            let hi = self.os_available_high;
            let pk = self.protection_key;
            lemma_small_masks(lo, hi, pk);
        }
        let mut e = Pde::new();
        e.set_present(self.present);
        e.set_writable(self.writable);
        e.set_user(self.user);
        e.set_write_through(self.write_through);
        e.set_cache_disable(self.cache_disable);
        e.set_accessed(self.accessed);
        e.set_no_execute(self.no_execute);
        e.set_os_available_low(self.os_available_low & 0b111);
        e.set_os_available_high(self.os_available_high & 0x7F);
        e.set_protection_key(self.protection_key & 0x0F);
        e.set_physical_page(page);
        e
    }

    /// Encodes into [`Pde2M`] (2 MiB leaf); sets `PS=1`.
    #[verifier::rlimit(60)]
    pub fn to_pde_2m(&self, page: PhysicalPage<Size2M>) -> (r: Pde2M)
        requires
            page.wf(),
            fits_phys(page.base.0),
        ensures
            self.leaf_2m_in(r.0, page.base.0),
    {
        proof {
            lemma_masks();
            let lo = self.os_available_low;
            let hi = self.os_available_high;
            let pk = self.protection_key;
            lemma_small_masks(lo, hi, pk);
        }
        let mut e = Pde2M::new();
        e.set_present(self.present);
        e.set_writable(self.writable);
        e.set_user(self.user);
        e.set_write_through(self.write_through);
        e.set_cache_disable(self.cache_disable);
        e.set_accessed(self.accessed);
        e.set_dirty(self.dirty);
        e.set_global(self.global);
        e.set_no_execute(self.no_execute);
        e.set_os_available_low(self.os_available_low & 0b111);
        e.set_os_available_high(self.os_available_high & 0x7F);
        e.set_protection_key(self.protection_key & 0x0F);
        e.set_pat_large(self.pat_bit2);
        e.set_physical_page(page);
        e
    }

    /// Encodes into [`PtEntry4k`] (4 KiB leaf).
    #[verifier::rlimit(60)]
    pub fn to_pte_4k(&self, page: PhysicalPage<Size4K>) -> (r: PtEntry4k)
        requires
            page.wf(),
            fits_phys(page.base.0),
        ensures
            self.leaf_4k_in(r.0, page.base.0),
    {
        proof {
            lemma_masks();
            let lo = self.os_available_low;
            let hi = self.os_available_high;
            let pk = self.protection_key;
            lemma_small_masks(lo, hi, pk);
        }
        let mut e = PtEntry4k::new();
        e.set_present(self.present);
        e.set_writable(self.writable);
        e.set_user(self.user);
        e.set_write_through(self.write_through);
        e.set_cache_disable(self.cache_disable);
        e.set_accessed(self.accessed);
        e.set_dirty(self.dirty);
        e.set_global(self.global);
        e.set_no_execute(self.no_execute);
        e.set_os_available_low(self.os_available_low & 0b111);
        e.set_os_available_high(self.os_available_high & 0x7F);
        e.set_protection_key(self.protection_key & 0x0F);
        e.set_pat_small(self.pat_bit2);
        e.set_physical_address(page.base());
        e
    }

}


impl From<Pml4Entry> for VirtualMemoryPageBits {
    fn from(e: Pml4Entry) -> (r: Self) {
        Self::from_pml4e(&e)
    }
}

impl vstd::std_specs::convert::FromSpecImpl<Pml4Entry> for VirtualMemoryPageBits {
    open spec fn obeys_from_spec() -> bool {
        true
    }

    open spec fn from_spec(v: Pml4Entry) -> Self {
        Self::decode_nonleaf(v.0)
    }
}

impl From<Pdpte> for VirtualMemoryPageBits {
    fn from(e: Pdpte) -> (r: Self) {
        Self::from_pdpte(&e)
    }
}

impl vstd::std_specs::convert::FromSpecImpl<Pdpte> for VirtualMemoryPageBits {
    open spec fn obeys_from_spec() -> bool {
        true
    }

    open spec fn from_spec(v: Pdpte) -> Self {
        Self::decode_nonleaf(v.0)
    }
}

impl From<Pdpte1G> for VirtualMemoryPageBits {
    fn from(e: Pdpte1G) -> (r: Self) {
        Self::from_pdpte_1g(&e)
    }
}

impl vstd::std_specs::convert::FromSpecImpl<Pdpte1G> for VirtualMemoryPageBits {
    open spec fn obeys_from_spec() -> bool {
        true
    }

    open spec fn from_spec(v: Pdpte1G) -> Self {
        Self::decode_leaf(v.0, 12)
    }
}

impl From<Pde> for VirtualMemoryPageBits {
    fn from(e: Pde) -> (r: Self) {
        Self::from_pde(&e)
    }
}

impl vstd::std_specs::convert::FromSpecImpl<Pde> for VirtualMemoryPageBits {
    open spec fn obeys_from_spec() -> bool {
        true
    }

    open spec fn from_spec(v: Pde) -> Self {
        Self::decode_nonleaf(v.0)
    }
}

impl From<Pde2M> for VirtualMemoryPageBits {
    fn from(e: Pde2M) -> (r: Self) {
        Self::from_pde_2m(&e)
    }
}

impl vstd::std_specs::convert::FromSpecImpl<Pde2M> for VirtualMemoryPageBits {
    open spec fn obeys_from_spec() -> bool {
        true
    }

    open spec fn from_spec(v: Pde2M) -> Self {
        Self::decode_leaf(v.0, 12)
    }
}

impl From<PtEntry4k> for VirtualMemoryPageBits {
    fn from(e: PtEntry4k) -> (r: Self) {
        Self::from_pte_4k(&e)
    }
}

impl vstd::std_specs::convert::FromSpecImpl<PtEntry4k> for VirtualMemoryPageBits {
    open spec fn obeys_from_spec() -> bool {
        true
    }

    open spec fn from_spec(v: PtEntry4k) -> Self {
        Self::decode_leaf(v.0, 7)
    }
}

/// Encoding flags into an entry and decoding the entry again gives the
/// flags back, as far as the entry's form holds them.
pub proof fn lemma_flags_roundtrip(f: VirtualMemoryPageBits, bits: u64, base: u64)
    ensures
        f.nonleaf_in(bits, base) ==> VirtualMemoryPageBits::decode_nonleaf(bits) == f.nonleaf_view(),
        f.leaf_1g_in(bits, base) ==> VirtualMemoryPageBits::decode_leaf(bits, 12) == f.leaf_view(),
        f.leaf_2m_in(bits, base) ==> VirtualMemoryPageBits::decode_leaf(bits, 12) == f.leaf_view(),
        f.leaf_4k_in(bits, base) ==> VirtualMemoryPageBits::decode_leaf(bits, 7) == f.leaf_view(),
{
}

/// Flags whose OS and key fields fit their widths come back whole from the
/// 4 KiB PTE they were encoded in: `from_pte_4k(&f.to_pte_4k(page)) == f`.
pub proof fn lemma_pte_4k_roundtrip(f: VirtualMemoryPageBits, bits: u64, base: u64)
    requires
        f.leaf_4k_in(bits, base),
        f.protection_key < 16,
        f.os_available_low < 8,
        f.os_available_high < 128,
    ensures
        VirtualMemoryPageBits::decode_leaf(bits, 7) == f,
{
    lemma_flags_roundtrip(f, bits, base);
    lemma_small_masks(f.os_available_low, f.os_available_high, 0);
    let k = f.protection_key;
    assert(k < 16 ==> k & 0xfu8 == k) by (bit_vector);
    assert(f.leaf_view() == f);
}

} // verus!
