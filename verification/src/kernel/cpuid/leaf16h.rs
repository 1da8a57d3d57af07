//! # CPUID leaf 0x16: processor frequency information

use crate::kernel::cpuid::CpuidResult;
use vstd::prelude::*;

verus! {

/// The leaf number.
pub const LEAF_16H: u32 = 0x16;

/// The base, maximum and bus frequencies in MHz (0 if not given).
#[derive(Copy, Clone, Debug)]
pub struct Leaf16 {
    pub base_mhz: u32,
    pub max_mhz: u32,
    pub bus_mhz: u32,
}

/// A frequency in MHz as Hz, or `None` when not given (0).
pub open spec fn mhz_to_hz(mhz: u32) -> Option<u64> {
    if mhz != 0 {
        Some((mhz * 1_000_000) as u64)
    } else {
        None
    }
}

fn hz(mhz: u32) -> (r: Option<u64>)
    ensures
        r == mhz_to_hz(mhz),
{
    if mhz != 0 {
        Some(mhz as u64 * 1_000_000)
    } else {
        None
    }
}

impl Leaf16 {
    /// The leaf read from the result registers.
    pub fn from(r: CpuidResult) -> (l: Self)
        ensures
            l.base_mhz == r.eax && l.max_mhz == r.ebx && l.bus_mhz == r.ecx,
    {
        Leaf16 { base_mhz: r.eax, max_mhz: r.ebx, bus_mhz: r.ecx }
    }

    /// The base frequency in Hz.
    pub fn base_hz(&self) -> (r: Option<u64>)
        ensures
            r == mhz_to_hz(self.base_mhz),
    {
        hz(self.base_mhz)
    }

    /// The maximum frequency in Hz.
    pub fn max_hz(&self) -> (r: Option<u64>)
        ensures
            r == mhz_to_hz(self.max_mhz),
    {
        hz(self.max_mhz)
    }

    /// The bus (reference) frequency in Hz.
    pub fn bus_hz(&self) -> (r: Option<u64>)
        ensures
            r == mhz_to_hz(self.bus_mhz),
    {
        hz(self.bus_mhz)
    }

    /// The TSC frequency as the bus frequency times `numer / denom`, when
    /// both and the bus frequency are given.
    pub fn tsc_hz_from_ratio(&self, denom: u32, numer: u32) -> (r: Option<u64>)
        requires
            denom != 0 ==> self.bus_mhz * 1_000_000 * numer <= u64::MAX,
        ensures
            r == if denom == 0 || numer == 0 || self.bus_mhz == 0 {
                None
            } else {
                Some(((self.bus_mhz * 1_000_000 * numer) / (denom as int)) as u64)
            },
    {
        if denom == 0 || numer == 0 {
            return None;
        }
        let bus = match self.bus_hz() {
            Some(b) => b,
            None => {
                return None;
            },
        };
        Some(bus * (numer as u64) / (denom as u64))
    }
}

} // verus!
