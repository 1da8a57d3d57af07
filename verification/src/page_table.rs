//! # Memory Page Table
//!
//! Bit-field typed entries for each x86-64 paging level, with the
//! non-leaf and leaf forms of the PDPT and PD levels, and the tables.

pub mod bits2;
pub mod pd;
pub mod pdpt;
pub mod pml4;
pub mod pt;

use crate::addresses::{l1_index, l2_index, l3_index, l4_index, VirtualAddress};
use crate::bitfield::{get_field, lemma_field_bound, lemma_get_set_same, lemma_masks, lemma_shift_facts, mask, set_field};
use crate::page_entry_bits::fits_phys;
use crate::page_table::pd::L2Index;
use crate::page_table::pdpt::L3Index;
use crate::page_table::pml4::L4Index;
use crate::page_table::pt::L1Index;
use vstd::prelude::*;

verus! {

/// Hardware **Present** bit shared across levels (bit 0).
pub const PRESENT_BIT: u64 = 1;

/// Hardware **Page Size** (PS) bit shared across levels (bit 7).
///
/// - In non-leaf entries: PS **must be 0**.
/// - In large leaf entries (L3 1 GiB / L2 2 MiB): PS **must be 1**.
/// - In L1 4 KiB PTEs: bit 7 is **PAT** (not PS).
pub const PS_BIT: u64 = 0x80;

/// Splits a virtual address into its four table indices.
pub fn split_indices(va: VirtualAddress) -> (r: (L4Index, L3Index, L2Index, L1Index))
    ensures
        r.0.0 == l4_index(va.0),
        r.1.0 == l3_index(va.0),
        r.2.0 == l2_index(va.0),
        r.3.0 == l1_index(va.0),
        r.0.wf(),
        r.1.wf(),
        r.2.wf(),
        r.3.wf(),
{
    (L4Index::from(va), L3Index::from(va), L2Index::from(va), L1Index::from(va))
}

/// The base of a 1 GiB page stored in bits 30..=51.
pub open spec fn leaf_1g_address(bits: u64) -> u64 {
    (get_field(bits, 30, 22) * 0x4000_0000) as u64
}

/// The base of a 2 MiB page stored in bits 21..=51.
pub open spec fn leaf_2m_address(bits: u64) -> u64 {
    (get_field(bits, 21, 31) * 0x20_0000) as u64
}

/// Shifting a 22-bit frame number left by 30 multiplies it by 1 GiB.
pub proof fn leaf_1g_address_shift(x: u64)
    requires
        x <= 0x3f_ffff,
    ensures
        x << 30 == x * 0x4000_0000,
{
    lemma_shift_facts(0, x, 0);
}

/// Shifting a 31-bit frame number left by 21 multiplies it by 2 MiB.
pub proof fn leaf_2m_address_shift(x: u64)
    requires
        x <= 0x7fff_ffff,
    ensures
        x << 21 == x * 0x20_0000,
{
    lemma_shift_facts(0, x, 0);
}

/// Storing a 1 GiB-aligned 52-bit address in bits 30..=51 and reading it back
/// gives the address.
pub proof fn lemma_leaf_1g_roundtrip(bits: u64, a: u64)
    requires
        a % 0x4000_0000 == 0,
        fits_phys(a),
    ensures
        leaf_1g_address(set_field(bits, 30, 22, a >> 30)) == a,
        a >> 30 <= mask(22),
{
    lemma_masks();
    lemma_get_set_same(bits, 30, 22, a >> 30);
    lemma_shift_facts(a, 0, 0);
}

/// Storing a 2 MiB-aligned 52-bit address in bits 21..=51 and reading it back
/// gives the address.
pub proof fn lemma_leaf_2m_roundtrip(bits: u64, a: u64)
    requires
        a % 0x20_0000 == 0,
        fits_phys(a),
    ensures
        leaf_2m_address(set_field(bits, 21, 31, a >> 21)) == a,
        a >> 21 <= mask(31),
{
    lemma_masks();
    lemma_get_set_same(bits, 21, 31, a >> 21);
    lemma_shift_facts(a, 0, 0);
}

/// A 1 GiB leaf address is 1 GiB aligned and fits 52 bits.
pub proof fn lemma_leaf_1g_bounds(bits: u64)
    ensures
        leaf_1g_address(bits) % 0x4000_0000 == 0,
        fits_phys(leaf_1g_address(bits)),
{
    lemma_masks();
    lemma_field_bound(bits, 30, 22);
    let f = get_field(bits, 30, 22);
    assert(f * 0x4000_0000 < 0x10_0000_0000_0000 && (f * 0x4000_0000) % 0x4000_0000 == 0)
        by (nonlinear_arith)
        requires
            f <= 0x3f_ffff,
    ;
}

/// A 2 MiB leaf address is 2 MiB aligned and fits 52 bits.
pub proof fn lemma_leaf_2m_bounds(bits: u64)
    ensures
        leaf_2m_address(bits) % 0x20_0000 == 0,
        fits_phys(leaf_2m_address(bits)),
{
    lemma_masks();
    lemma_field_bound(bits, 21, 31);
    let f = get_field(bits, 21, 31);
    assert(f * 0x20_0000 < 0x10_0000_0000_0000 && (f * 0x20_0000) % 0x20_0000 == 0)
        by (nonlinear_arith)
        requires
            f <= 0x7fff_ffff,
    ;
}

} // verus!
