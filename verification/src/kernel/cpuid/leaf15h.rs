//! # CPUID leaf 0x15: TSC and core crystal clock

use crate::kernel::cpuid::CpuidResult;
use vstd::prelude::*;

verus! {

/// The leaf number.
pub const LEAF_15H: u32 = 0x15;

/// The TSC-to-crystal ratio and the crystal frequency.
#[derive(Copy, Clone, Debug)]
pub struct Leaf15h {
    /// EAX: the denominator of the TSC/crystal ratio.
    pub denom: u32,
    /// EBX: the numerator of the TSC/crystal ratio.
    pub numer: u32,
    /// ECX: the crystal frequency in Hz (0 if not given).
    pub crystal_hz: u32,
}

impl Leaf15h {
    /// The leaf read from the result registers.
    pub fn from(r: CpuidResult) -> (l: Self)
        ensures
            l.denom == r.eax && l.numer == r.ebx && l.crystal_hz == r.ecx,
    {
        Leaf15h { denom: r.eax, numer: r.ebx, crystal_hz: r.ecx }
    }

    /// The TSC frequency in Hz, `crystal_hz * numer / denom`, when all three
    /// are given.
    pub fn tsc_hz(&self) -> (r: Option<u64>)
        ensures
            r == if self.denom != 0 && self.numer != 0 && self.crystal_hz != 0 {
                Some(((self.crystal_hz * self.numer) / (self.denom as int)) as u64)
            } else {
                None
            },
    {
        if self.denom != 0 && self.numer != 0 && self.crystal_hz != 0 {
            let c = self.crystal_hz as u64;
            let n = self.numer as u64;
            proof {
                assert(c * n <= 0xFFFF_FFFFu64 * 0xFFFF_FFFFu64) by (nonlinear_arith)
                    requires
                        c <= 0xFFFF_FFFF,
                        n <= 0xFFFF_FFFF,
                ;
            }
            Some(c * n / (self.denom as u64))
        } else {
            None
        }
    }
}

} // verus!
