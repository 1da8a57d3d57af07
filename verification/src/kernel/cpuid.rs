//! # CPUID decoding
//!
//! The `cpuid` instruction itself is executed by the caller; these types
//! read its four result registers: the supported leaf ranges and vendor,
//! the version and feature flags of leaf 1, and the clock information of
//! leaves 0x15 and 0x16.

pub mod leaf01h;
pub mod leaf15h;
pub mod leaf16h;
pub mod ranges;

pub use crate::kernel::cpuid::leaf01h::Leaf01h;
pub use crate::kernel::cpuid::leaf15h::Leaf15h;
pub use crate::kernel::cpuid::leaf16h::Leaf16;
pub use crate::kernel::cpuid::ranges::CpuidRanges;

use vstd::prelude::*;

verus! {

/// The four registers that `cpuid` returns.
#[derive(Debug, Copy, Clone, PartialEq, Eq, Structural)]
pub struct CpuidResult {
    pub eax: u32,
    pub ebx: u32,
    pub ecx: u32,
    pub edx: u32,
}

} // verus!
