//! # CPUID leaf 1: version and feature information

use crate::bitfield::{get_field, get_flag, lemma_field_fits, read_field, read_flag};
use crate::kernel::cpuid::CpuidResult;
use vstd::prelude::*;

verus! {

/// The leaf number.
pub const LEAF_01H: u32 = 0x01;

/// The decoded registers of leaf 1.
#[derive(Copy, Clone, Debug)]
pub struct Leaf01h {
    pub eax: Leaf1Eax,
    pub ebx: Leaf1Ebx,
    pub ecx: Leaf1Ecx,
    pub edx: Leaf1Edx,
}

impl Leaf01h {
    /// The leaf read from the result registers.
    pub fn from(r: CpuidResult) -> (l: Self)
        ensures
            l.eax.0 == r.eax && l.ebx.0 == r.ebx && l.ecx.0 == r.ecx && l.edx.0 == r.edx,
    {
        Leaf01h {
            eax: Leaf1Eax::from_bits(r.eax),
            ebx: Leaf1Ebx::from_bits(r.ebx),
            ecx: Leaf1Ecx::from_bits(r.ecx),
            edx: Leaf1Edx::from_bits(r.edx),
        }
    }

    /// x2APIC supported (ECX bit 21).
    pub fn has_x2apic(&self) -> (r: bool)
        ensures
            r == self.ecx.x2apic(),
    {
        self.ecx.x2apic()
    }

    /// AVX can be used: AVX, `XSAVE` and OS-enabled `XSAVE` (ECX bits 28,
    /// 26, 27).
    pub fn avx_usable(&self) -> (r: bool)
        ensures
            r == (self.ecx.avx() && self.ecx.xsave() && self.ecx.osxsave()),
    {
        self.ecx.avx() && self.ecx.xsave() && self.ecx.osxsave()
    }

    /// The initial APIC id (EBX bits 31..24).
    pub fn initial_apic_id(&self) -> (r: u8)
        ensures
            r == self.ebx.initial_apic_id(),
    {
        self.ebx.initial_apic_id()
    }

    /// The legacy logical-processor count (EBX bits 23..16).
    pub fn logical_cpus_legacy(&self) -> (r: u8)
        ensures
            r == self.ebx.logical_processor_count(),
    {
        self.ebx.logical_processor_count()
    }

    /// The effective family.
    pub fn family(&self) -> (r: u16)
        ensures
            r == effective_family_spec(self.eax),
    {
        self.eax.effective_family()
    }

    /// The effective model.
    pub fn model(&self) -> (r: u8)
        ensures
            r == effective_model_spec(self.eax),
    {
        self.eax.effective_model()
    }

    /// The stepping.
    pub fn stepping(&self) -> (r: u8)
        ensures
            r == self.eax.stepping(),
    {
        self.eax.stepping()
    }
}

/// CPUID leaf 1, EAX: version information.
#[derive(Copy, Clone, Debug, PartialEq, Eq)]
pub struct Leaf1Eax(pub u32);

impl Leaf1Eax {
    /// Creates a value with every field at its default.
    pub fn new() -> (r: Self)
        ensures
            r.0 == 0x0,
    {
        Leaf1Eax(0x0)
    }

    /// Wraps raw bits (no validation).
    #[verifier::allow_in_spec]
    pub fn from_bits(bits: u32) -> Self
        returns
            Leaf1Eax(bits),
    {
        Leaf1Eax(bits)
    }

    /// The raw bits.
    #[verifier::allow_in_spec]
    pub fn into_bits(self) -> u32
        returns
            self.0,
    {
        self.0
    }

    /// Stepping.
    #[verifier::allow_in_spec]
    pub fn stepping(&self) -> u8
        returns
            get_field(self.0 as u64, 0, 4) as u8,
    {
        proof {
            lemma_field_fits(self.0 as u64, 0, 4);
        }
        read_field(self.0 as u64, 0, 4) as u8
    }

    /// Model.
    #[verifier::allow_in_spec]
    pub fn model(&self) -> u8
        returns
            get_field(self.0 as u64, 4, 4) as u8,
    {
        proof {
            lemma_field_fits(self.0 as u64, 4, 4);
        }
        read_field(self.0 as u64, 4, 4) as u8
    }

    /// Family.
    #[verifier::allow_in_spec]
    pub fn family(&self) -> u8
        returns
            get_field(self.0 as u64, 8, 4) as u8,
    {
        proof {
            lemma_field_fits(self.0 as u64, 8, 4);
        }
        read_field(self.0 as u64, 8, 4) as u8
    }

    /// Processor type.
    #[verifier::allow_in_spec]
    pub fn cpu_type(&self) -> u8
        returns
            get_field(self.0 as u64, 12, 2) as u8,
    {
        proof {
            lemma_field_fits(self.0 as u64, 12, 2);
        }
        read_field(self.0 as u64, 12, 2) as u8
    }

    /// Extended model.
    #[verifier::allow_in_spec]
    pub fn ext_model(&self) -> u8
        returns
            get_field(self.0 as u64, 16, 4) as u8,
    {
        proof {
            lemma_field_fits(self.0 as u64, 16, 4);
        }
        read_field(self.0 as u64, 16, 4) as u8
    }

    /// Extended family.
    #[verifier::allow_in_spec]
    pub fn ext_family(&self) -> u16
        returns
            get_field(self.0 as u64, 20, 8) as u16,
    {
        proof {
            lemma_field_fits(self.0 as u64, 20, 8);
        }
        read_field(self.0 as u64, 20, 8) as u16
    }

}


/// CPUID leaf 1, EBX: brand, cache line, processor count, APIC id.
#[derive(Copy, Clone, Debug, PartialEq, Eq)]
pub struct Leaf1Ebx(pub u32);

impl Leaf1Ebx {
    /// Creates a value with every field at its default.
    pub fn new() -> (r: Self)
        ensures
            r.0 == 0x0,
    {
        Leaf1Ebx(0x0)
    }

    /// Wraps raw bits (no validation).
    #[verifier::allow_in_spec]
    pub fn from_bits(bits: u32) -> Self
        returns
            Leaf1Ebx(bits),
    {
        Leaf1Ebx(bits)
    }

    /// The raw bits.
    #[verifier::allow_in_spec]
    pub fn into_bits(self) -> u32
        returns
            self.0,
    {
        self.0
    }

    /// Brand index.
    #[verifier::allow_in_spec]
    pub fn brand_index(&self) -> u8
        returns
            get_field(self.0 as u64, 0, 8) as u8,
    {
        proof {
            lemma_field_fits(self.0 as u64, 0, 8);
        }
        read_field(self.0 as u64, 0, 8) as u8
    }

    /// `CLFLUSH` line size in 8-byte units.
    #[verifier::allow_in_spec]
    pub fn clflush_line_size_8b(&self) -> u8
        returns
            get_field(self.0 as u64, 8, 8) as u8,
    {
        proof {
            lemma_field_fits(self.0 as u64, 8, 8);
        }
        read_field(self.0 as u64, 8, 8) as u8
    }

    /// Maximum number of logical processors (legacy).
    #[verifier::allow_in_spec]
    pub fn logical_processor_count(&self) -> u8
        returns
            get_field(self.0 as u64, 16, 8) as u8,
    {
        proof {
            lemma_field_fits(self.0 as u64, 16, 8);
        }
        read_field(self.0 as u64, 16, 8) as u8
    }

    /// Initial APIC id.
    #[verifier::allow_in_spec]
    pub fn initial_apic_id(&self) -> u8
        returns
            get_field(self.0 as u64, 24, 8) as u8,
    {
        proof {
            lemma_field_fits(self.0 as u64, 24, 8);
        }
        read_field(self.0 as u64, 24, 8) as u8
    }

}


/// CPUID leaf 1, ECX: feature flags.
#[derive(Copy, Clone, Debug, PartialEq, Eq)]
pub struct Leaf1Ecx(pub u32);

impl Leaf1Ecx {
    /// Creates a value with every field at its default.
    pub fn new() -> (r: Self)
        ensures
            r.0 == 0x0,
    {
        Leaf1Ecx(0x0)
    }

    /// Wraps raw bits (no validation).
    #[verifier::allow_in_spec]
    pub fn from_bits(bits: u32) -> Self
        returns
            Leaf1Ecx(bits),
    {
        Leaf1Ecx(bits)
    }

    /// The raw bits.
    #[verifier::allow_in_spec]
    pub fn into_bits(self) -> u32
        returns
            self.0,
    {
        self.0
    }

    /// x2APIC supported.
    #[verifier::allow_in_spec]
    pub fn x2apic(&self) -> bool
        returns
            get_flag(self.0 as u64, 21),
    {
        read_flag(self.0 as u64, 21)
    }

    /// `XSAVE` supported.
    #[verifier::allow_in_spec]
    pub fn xsave(&self) -> bool
        returns
            get_flag(self.0 as u64, 26),
    {
        read_flag(self.0 as u64, 26)
    }

    /// `XSAVE` enabled by the OS.
    #[verifier::allow_in_spec]
    pub fn osxsave(&self) -> bool
        returns
            get_flag(self.0 as u64, 27),
    {
        read_flag(self.0 as u64, 27)
    }

    /// AVX supported.
    #[verifier::allow_in_spec]
    pub fn avx(&self) -> bool
        returns
            get_flag(self.0 as u64, 28),
    {
        read_flag(self.0 as u64, 28)
    }

}


/// CPUID leaf 1, EDX: feature flags.
#[derive(Copy, Clone, Debug, PartialEq, Eq)]
pub struct Leaf1Edx(pub u32);

impl Leaf1Edx {
    /// Creates a value with every field at its default.
    pub fn new() -> (r: Self)
        ensures
            r.0 == 0x0,
    {
        Leaf1Edx(0x0)
    }

    /// Wraps raw bits (no validation).
    #[verifier::allow_in_spec]
    pub fn from_bits(bits: u32) -> Self
        returns
            Leaf1Edx(bits),
    {
        Leaf1Edx(bits)
    }

    /// The raw bits.
    #[verifier::allow_in_spec]
    pub fn into_bits(self) -> u32
        returns
            self.0,
    {
        self.0
    }

    /// On-chip APIC.
    #[verifier::allow_in_spec]
    pub fn apic(&self) -> bool
        returns
            get_flag(self.0 as u64, 9),
    {
        read_flag(self.0 as u64, 9)
    }

    /// Max logical processor count field valid.
    #[verifier::allow_in_spec]
    pub fn htt(&self) -> bool
        returns
            get_flag(self.0 as u64, 28),
    {
        read_flag(self.0 as u64, 28)
    }

}


/// The family: the base family, plus the extended family when the base is
/// `0xF`.
pub open spec fn effective_family_spec(a: Leaf1Eax) -> u16 {
    if a.family() == 0x0F {
        (a.family() + a.ext_family()) as u16
    } else {
        a.family() as u16
    }
}

/// The model: the base model, with the extended model as its high nibble
/// for families `0x6` and `0xF`.
pub open spec fn effective_model_spec(a: Leaf1Eax) -> u8 {
    if a.family() == 0x06 || a.family() == 0x0F {
        (a.model() | (a.ext_model() << 4u8)) as u8
    } else {
        a.model()
    }
}

/// The version fields of CPUID.01H:EAX as digits of the register: the
/// model in bits 7..4, the family in 11..8, the extended model in 19..16
/// and the extended family in 27..20; a model below 16 with an extended
/// model below 16 as its high nibble is `model + 16 * ext`.
proof fn lemma_version_digits(x: u64, m: u8, e: u8)
    by (bit_vector)
    requires
        x < 0x1_0000_0000,
    ensures
        get_field(x, 4, 4) == (x / 0x10) % 0x10,
        get_field(x, 8, 4) == (x / 0x100) % 0x10,
        get_field(x, 16, 4) == (x / 0x1_0000) % 0x10,
        get_field(x, 20, 8) == (x / 0x10_0000) % 0x100,
        m < 16 && e < 16 ==> (m | (e << 4u8)) == m + 16 * e,
{
}

/// The effective model and family of CPUID.01H:EAX as the Intel SDM
/// defines them on the register's bits: for a base family of 6 or 15 the
/// model is the base model (bits 7..4) with the extended model (bits
/// 19..16) as its high nibble, otherwise the base model; the family is the
/// base family (bits 11..8), plus the extended family (bits 27..20) when
/// the base family is 15.
pub proof fn lemma_effective_version(eax: u32)
    ensures
        effective_model_spec(Leaf1Eax(eax)) == if (eax / 0x100) % 0x10 == 6 || (eax / 0x100) % 0x10
            == 15 {
            (eax / 0x10) % 0x10 + 16 * ((eax / 0x1_0000) % 0x10)
        } else {
            ((eax / 0x10) % 0x10) as int
        },
        effective_family_spec(Leaf1Eax(eax)) == if (eax / 0x100) % 0x10 == 15 {
            15 + (eax / 0x10_0000) % 0x100
        } else {
            ((eax / 0x100) % 0x10) as int
        },
{
    let a = Leaf1Eax(eax);
    let x = eax as u64;
    lemma_version_digits(x, a.model(), a.ext_model());
    assert(a.model() == (eax / 0x10) % 0x10);
    assert(a.ext_model() == (eax / 0x1_0000) % 0x10);
    assert(a.family() == (eax / 0x100) % 0x10);
    assert(a.ext_family() == (eax / 0x10_0000) % 0x100);
}

impl Leaf1Eax {
    /// The effective family.
    pub fn effective_family(self) -> (r: u16)
        ensures
            r == effective_family_spec(self),
    {
        let fam = self.family() as u16;
        if fam == 0x0F {
            proof {
                lemma_field_fits(self.0 as u64, 20, 8);
            }
            fam + self.ext_family()
        } else {
            fam
        }
    }

    /// The effective model.
    pub fn effective_model(self) -> (r: u8)
        ensures
            r == effective_model_spec(self),
    {
        let fam = self.family();
        let base = self.model();
        if fam == 0x06 || fam == 0x0F {
            base | (self.ext_model() << 4u8)
        } else {
            base
        }
    }
}

impl Leaf1Ebx {
    /// The `CLFLUSH` line size in bytes.
    pub fn clflush_line_bytes(self) -> (r: u16)
        ensures
            r == self.clflush_line_size_8b() * 8,
    {
        self.clflush_line_size_8b() as u16 * 8
    }
}

} // verus!
