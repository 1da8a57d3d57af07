//! # Model-specific register values
//!
//! A GS base loaded into `IA32_GS_BASE` or `IA32_KERNEL_GS_BASE` must be a
//! canonical address: bits 63..48 copy bit 47.

use vstd::prelude::*;

verus! {

/// Bits 63..48 of `addr` copy bit 47.
pub open spec fn canonical(addr: u64) -> bool {
    (addr >> 48u64) == if (addr >> 47u64) & 1 == 0 {
        0u64
    } else {
        0xFFFFu64
    }
}

/// Whether `addr` is canonical: in the lower half (below `2^47`) or the
/// upper half (from `0xFFFF_8000_0000_0000`).
pub fn is_canonical(addr: u64) -> (r: bool)
    ensures
        r == canonical(addr),
        r == (addr < 0x8000_0000_0000 || addr >= 0xFFFF_8000_0000_0000),
{
    proof {
        assert(((addr >> 48u64) == if (addr >> 47u64) & 1 == 0 {
            0u64
        } else {
            0xFFFFu64
        }) == (addr < 0x8000_0000_0000u64 || addr >= 0xFFFF_8000_0000_0000u64)) by (bit_vector);
    }
    let sign = (addr >> 47u64) & 1;
    (addr >> 48u64) == if sign == 0 {
        0
    } else {
        0xFFFF
    }
}

} // verus!
