//! # Kernel stack windows
//!
//! CPU `n` owns the 1 MiB window at `KSTACK_BASE + n * KSTACK_CPU_STRIDE`,
//! whose first page is a guard.

use crate::addresses::{align_down, PageSize, Size4K, VirtualAddress, VirtualPage, SIZE_4K};
use vstd::prelude::*;

verus! {

/// The guard page below each kernel stack.
pub const KSTACK_GUARD: u64 = 0x1000;

/// The start of the kernel-stack region.
pub const KSTACK_BASE: u64 = 0xffff_ff00_0000_0000;

/// The window of one CPU (1 MiB).
pub const KSTACK_CPU_STRIDE: u64 = 0x10_0000;

/// The kernel-stack windows of two CPUs do not overlap, and for fewer than
/// 65536 CPUs they all lie below the IST region.
pub proof fn lemma_kstack_windows_disjoint(c1: u64, c2: u64)
    requires
        c1 != c2,
    ensures
        KSTACK_BASE + c1 * KSTACK_CPU_STRIDE + KSTACK_CPU_STRIDE <= KSTACK_BASE + c2
            * KSTACK_CPU_STRIDE || KSTACK_BASE + c2 * KSTACK_CPU_STRIDE + KSTACK_CPU_STRIDE
            <= KSTACK_BASE + c1 * KSTACK_CPU_STRIDE,
        c1 < 0x1_0000 ==> KSTACK_BASE + c1 * KSTACK_CPU_STRIDE + KSTACK_CPU_STRIDE
            <= crate::kernel::per_cpu::ist_stacks::IST_BASE,
{
    if c1 < c2 {
        assert(c1 * KSTACK_CPU_STRIDE + KSTACK_CPU_STRIDE <= c2 * KSTACK_CPU_STRIDE)
            by (nonlinear_arith)
            requires
                c1 < c2,
        ;
    } else {
        assert(c2 * KSTACK_CPU_STRIDE + KSTACK_CPU_STRIDE <= c1 * KSTACK_CPU_STRIDE)
            by (nonlinear_arith)
            requires
                c2 < c1,
        ;
    }
    if c1 < 0x1_0000 {
        assert(c1 * KSTACK_CPU_STRIDE + KSTACK_CPU_STRIDE <= 0x1_0000 * KSTACK_CPU_STRIDE)
            by (nonlinear_arith)
            requires
                c1 < 0x1_0000,
        ;
    }
}

/// The largest stack a window holds below its guard page.
pub fn max_kstack_bytes() -> (r: u64)
    ensures
        r == KSTACK_CPU_STRIDE - KSTACK_GUARD,
{
    KSTACK_CPU_STRIDE - KSTACK_GUARD
}

/// The page that starts the kernel-stack window of CPU `cpu_id`.
pub fn kstack_slot_for_cpu(cpu_id: u64) -> (r: VirtualPage<Size4K>)
    requires
        KSTACK_BASE + cpu_id * KSTACK_CPU_STRIDE <= u64::MAX,
    ensures
        r.base.0 == KSTACK_BASE + cpu_id * KSTACK_CPU_STRIDE,
        r.wf(),
{
    proof {
        assert(cpu_id * KSTACK_CPU_STRIDE <= u64::MAX) by (nonlinear_arith)
            requires
                KSTACK_BASE + cpu_id * KSTACK_CPU_STRIDE <= u64::MAX,
        ;
        assert((KSTACK_BASE + cpu_id * KSTACK_CPU_STRIDE) % 0x1000 == 0) by (nonlinear_arith);
    }
    let addr = VirtualAddress::new(KSTACK_BASE + cpu_id * KSTACK_CPU_STRIDE);
    let page = addr.page::<Size4K>();
    proof {
        assert(align_down(addr.0, SIZE_4K) == addr.0);
    }
    page
}

} // verus!
