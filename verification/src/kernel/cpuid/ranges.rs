//! # CPUID ranges and vendor

use crate::kernel::cpuid::CpuidResult;
use vstd::prelude::*;

verus! {

/// The basic leaf that reports the highest basic leaf and the vendor.
pub const LEAF_00H: u32 = 0;

/// The extended leaf that reports the highest extended leaf.
pub const LEAF_MAX_EXTENDED: u32 = 0x8000_0000;

/// The CPU vendor.
#[derive(Copy, Clone, Debug, Eq, PartialEq, Structural)]
pub enum CpuVendor {
    Intel,
    Amd,
    Other,
}

impl CpuVendor {
    /// The vendor's name.
    pub fn as_str(&self) -> (r: &'static str)
        ensures
            r@ == match self {
                CpuVendor::Intel => "Intel"@,
                CpuVendor::Amd => "AMD"@,
                CpuVendor::Other => "Other"@,
            },
    {
        match self {
            CpuVendor::Intel => "Intel",
            CpuVendor::Amd => "AMD",
            CpuVendor::Other => "Other",
        }
    }

    /// The vendor whose 12-byte id string is held, little endian, in EBX,
    /// EDX, ECX of leaf 0: `GenuineIntel`, `AuthenticAMD`, or another.
    #[verifier::allow_in_spec]
    pub fn from_id_regs(ebx: u32, edx: u32, ecx: u32) -> Self
        returns
            if ebx == 0x756e_6547 && edx == 0x4965_6e69 && ecx == 0x6c65_746e {
                CpuVendor::Intel
            } else if ebx == 0x6874_7541 && edx == 0x6974_6e65 && ecx == 0x444d_4163 {
                CpuVendor::Amd
            } else {
                CpuVendor::Other
            },
    {
        if ebx == 0x756e_6547 && edx == 0x4965_6e69 && ecx == 0x6c65_746e {
            CpuVendor::Intel
        } else if ebx == 0x6874_7541 && edx == 0x6974_6e65 && ecx == 0x444d_4163 {
            CpuVendor::Amd
        } else {
            CpuVendor::Other
        }
    }
}

/// The little-endian 32-bit word made of the four characters of `s` from
/// `k` on.
pub open spec fn le_word(s: Seq<char>, k: int) -> int {
    s[k] as int + s[k + 1] as int * 0x100 + s[k + 2] as int * 0x1_0000 + s[k + 3] as int
        * 0x100_0000
}

/// The register values that [`CpuVendor::from_id_regs`] tests spell the
/// vendors' id strings, four characters per register in the order EBX,
/// EDX, ECX.
pub proof fn lemma_vendor_id_strings()
    ensures
        "GenuineIntel"@.len() == 12,
        le_word("GenuineIntel"@, 0) == 0x756e_6547,
        le_word("GenuineIntel"@, 4) == 0x4965_6e69,
        le_word("GenuineIntel"@, 8) == 0x6c65_746e,
        "AuthenticAMD"@.len() == 12,
        le_word("AuthenticAMD"@, 0) == 0x6874_7541,
        le_word("AuthenticAMD"@, 4) == 0x6974_6e65,
        le_word("AuthenticAMD"@, 8) == 0x444d_4163,
{
    reveal_strlit("GenuineIntel");
    reveal_strlit("AuthenticAMD");
}

/// The highest basic and extended leaves, and the vendor.
#[derive(Copy, Clone)]
pub struct CpuidRanges {
    pub max_basic: u32,
    pub max_extended: u32,
    pub vendor: CpuVendor,
}

impl CpuidRanges {
    /// The ranges from the results of leaf 0 (`b0`) and leaf `0x8000_0000`
    /// (`e0`).
    pub fn from_results(b0: CpuidResult, e0: CpuidResult) -> (r: Self)
        ensures
            r.max_basic == b0.eax,
            r.max_extended == e0.eax,
            r.vendor == CpuVendor::from_id_regs(b0.ebx, b0.edx, b0.ecx),
    {
        CpuidRanges {
            max_basic: b0.eax,
            max_extended: e0.eax,
            vendor: CpuVendor::from_id_regs(b0.ebx, b0.edx, b0.ecx),
        }
    }

    /// Whether basic leaf `leaf` is available.
    pub fn has_basic(&self, leaf: u32) -> (r: bool)
        ensures
            r == (leaf <= self.max_basic),
    {
        leaf <= self.max_basic
    }

    /// Whether extended leaf `leaf` is available.
    pub fn has_ext(&self, leaf: u32) -> (r: bool)
        ensures
            r == (leaf >= 0x8000_0000 && leaf <= self.max_extended),
    {
        leaf >= 0x8000_0000 && leaf <= self.max_extended
    }
}

} // verus!
