//! # IST stack windows
//!
//! CPU `n` owns the 1 MiB window at `IST_BASE + n * IST_CPU_STRIDE`; IST slot
//! `k` (1..=7) of that CPU owns the 128 KiB window `k - 1` in it, whose first
//! page is a guard.

use crate::addresses::{align_down, PageSize, Size4K, VirtualAddress, VirtualPage, SIZE_4K};
use crate::kernel::interrupts::ist::{ist_bits, Ist};
use vstd::prelude::*;

verus! {

/// IST slots per CPU.
pub const IST_SLOTS_PER_CPU: u64 = 7;

/// The guard page below each IST stack.
pub const IST_GUARD: u64 = 0x1000;

/// The start of the IST region.
pub const IST_BASE: u64 = 0xffff_ff10_0000_0000;

/// The window of one CPU (1 MiB).
pub const IST_CPU_STRIDE: u64 = 0x10_0000;

/// The window of one IST slot (128 KiB).
pub const IST_SLOT_STRIDE: u64 = 0x02_0000;

/// The size of the IST1 stack.
pub const IST1_SIZE: u64 = 16 * 1024;

/// The layout constants fit together: seven slot windows fit in a CPU
/// window, and both strides are whole pages.
pub proof fn lemma_ist_layout()
    ensures
        IST_SLOTS_PER_CPU * IST_SLOT_STRIDE <= IST_CPU_STRIDE,
        IST_CPU_STRIDE % SIZE_4K == 0,
        IST_SLOT_STRIDE % SIZE_4K == 0,
{
}

/// The windows of two different IST slots, of one CPU or of two, do not
/// overlap, and each lies inside its CPU's window.
pub proof fn lemma_ist_windows_disjoint(c1: u64, i1: Ist, c2: u64, i2: Ist)
    requires
        1 <= ist_bits(i1),
        1 <= ist_bits(i2),
        c1 != c2 || i1 != i2,
    ensures
        IST_BASE + c1 * IST_CPU_STRIDE <= ist_slot_base(c1, i1),
        ist_slot_base(c1, i1) + IST_SLOT_STRIDE <= IST_BASE + c1 * IST_CPU_STRIDE + IST_CPU_STRIDE,
        ist_slot_base(c1, i1) + IST_SLOT_STRIDE <= ist_slot_base(c2, i2) || ist_slot_base(c2, i2)
            + IST_SLOT_STRIDE <= ist_slot_base(c1, i1),
{
    crate::kernel::interrupts::ist::lemma_ist_roundtrip(i1, i2);
    crate::kernel::interrupts::ist::lemma_ist_roundtrip(i2, i1);
    let k1 = ist_bits(i1) - 1;
    let k2 = ist_bits(i2) - 1;
    if c1 < c2 {
        assert(c1 * IST_CPU_STRIDE + IST_CPU_STRIDE <= c2 * IST_CPU_STRIDE) by (nonlinear_arith)
            requires
                c1 < c2,
        ;
    } else if c2 < c1 {
        assert(c2 * IST_CPU_STRIDE + IST_CPU_STRIDE <= c1 * IST_CPU_STRIDE) by (nonlinear_arith)
            requires
                c2 < c1,
        ;
    }
}

/// The largest stack a slot window holds below its guard page.
pub fn max_ist_bytes() -> (r: u64)
    ensures
        r == IST_SLOT_STRIDE - IST_GUARD,
{
    IST_SLOT_STRIDE - IST_GUARD
}

/// The start of the window of IST slot `ist` of CPU `cpu_id`.
pub open spec fn ist_slot_base(cpu_id: u64, ist: Ist) -> int {
    IST_BASE + cpu_id * IST_CPU_STRIDE + (ist_bits(ist) - 1) * IST_SLOT_STRIDE
}

/// The page that starts the window of IST slot `ist_idx` (1..=7) of CPU
/// `cpu_id`.
pub fn ist_slot_for_cpu(cpu_id: u64, ist_idx: Ist) -> (r: VirtualPage<Size4K>)
    requires
        1 <= ist_bits(ist_idx) <= IST_SLOTS_PER_CPU,
        ist_slot_base(cpu_id, ist_idx) < u64::MAX,
    ensures
        r.base.0 == ist_slot_base(cpu_id, ist_idx),
        r.wf(),
{
    let g = ist_idx.gate_index();
    proof {
        assert(cpu_id * IST_CPU_STRIDE <= u64::MAX) by (nonlinear_arith)
            requires
                IST_BASE + cpu_id * IST_CPU_STRIDE + (g - 1) * IST_SLOT_STRIDE < u64::MAX,
                g >= 1,
        ;
    }
    let cpu_off = cpu_id * IST_CPU_STRIDE;
    let ist_off = (g as u64 - 1) * IST_SLOT_STRIDE;
    let addr = VirtualAddress::new(IST_BASE + cpu_off + ist_off);
    proof {
        assert((IST_BASE + cpu_off + ist_off) % 0x1000 == 0) by (nonlinear_arith)
            requires
                cpu_off == cpu_id * 0x10_0000,
                ist_off == (g - 1) * 0x02_0000,
                g >= 1,
        ;
    }
    let page = addr.page::<Size4K>();
    proof {
        assert(align_down(addr.0, SIZE_4K) == addr.0);
    }
    page
}

/// The top of an IST stack of `len_bytes_mapped` bytes above the guard page
/// at `guard_base`, aligned down to 16 bytes.
pub fn ist_top_for(len_bytes_mapped: u64, guard_base: VirtualAddress) -> (r: VirtualAddress)
    requires
        guard_base.0 + IST_GUARD + len_bytes_mapped <= u64::MAX,
    ensures
        r.0 == ((guard_base.0 + IST_GUARD + len_bytes_mapped) as u64) & !0xFu64,
{
    let base = VirtualAddress::new(guard_base.as_u64() + IST_GUARD);
    VirtualAddress::new((base.as_u64() + len_bytes_mapped) & !0xFu64)
}

} // verus!
