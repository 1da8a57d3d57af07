//! # 64-bit TSS descriptor (16 bytes, two GDT slots)

use crate::bitfield::{
    get_field, get_flag, lemma_field_fits, lemma_masks, read_field, read_flag, set_field, set_flag,
    write_field, write_flag,
};
use crate::addresses::VirtualAddress;
use vstd::prelude::*;

verus! {

/// The low eight bytes of a 64-bit TSS descriptor.
#[derive(Copy, Clone, Debug, PartialEq, Eq)]
pub struct TssDescLow(pub u64);

impl TssDescLow {
    /// Creates a value with every field at its default.
    pub fn new() -> (r: Self)
        ensures
            r.0 == 0x0,
    {
        TssDescLow(0x0)
    }

    /// Wraps raw bits (no validation).
    #[verifier::allow_in_spec]
    pub fn from_bits(bits: u64) -> Self
        returns
            TssDescLow(bits),
    {
        TssDescLow(bits)
    }

    /// The raw bits.
    #[verifier::allow_in_spec]
    pub fn into_bits(self) -> u64
        returns
            self.0,
    {
        self.0
    }

    /// Limit bits 15..0.
    #[verifier::allow_in_spec]
    pub fn limit_lo(&self) -> u16
        returns
            get_field(self.0, 0, 16) as u16,
    {
        proof {
            lemma_field_fits(self.0, 0, 16);
        }
        read_field(self.0, 0, 16) as u16
    }

    /// Returns a copy with `limit_lo` set to `v` (which must fit in 16 bits).
    pub fn with_limit_lo(self, v: u16) -> (r: Self)
        requires
            v < 0x10000,
        ensures
            r.0 == set_field(self.0, 0, 16, v as u64),
    {
        proof {
            lemma_masks();
        }
        TssDescLow(write_field(self.0, 0, 16, v as u64))
    }

    /// Sets `limit_lo` to `v` (which must fit in 16 bits).
    pub fn set_limit_lo(&mut self, v: u16)
        requires
            v < 0x10000,
        ensures
            final(self).0 == set_field(old(self).0, 0, 16, v as u64),
    {
        proof {
            lemma_masks();
        }
        self.0 = write_field(self.0, 0, 16, v as u64);
    }

    /// Base bits 15..0.
    #[verifier::allow_in_spec]
    pub fn base_lo(&self) -> u16
        returns
            get_field(self.0, 16, 16) as u16,
    {
        proof {
            lemma_field_fits(self.0, 16, 16);
        }
        read_field(self.0, 16, 16) as u16
    }

    /// Returns a copy with `base_lo` set to `v` (which must fit in 16 bits).
    pub fn with_base_lo(self, v: u16) -> (r: Self)
        requires
            v < 0x10000,
        ensures
            r.0 == set_field(self.0, 16, 16, v as u64),
    {
        proof {
            lemma_masks();
        }
        TssDescLow(write_field(self.0, 16, 16, v as u64))
    }

    /// Sets `base_lo` to `v` (which must fit in 16 bits).
    pub fn set_base_lo(&mut self, v: u16)
        requires
            v < 0x10000,
        ensures
            final(self).0 == set_field(old(self).0, 16, 16, v as u64),
    {
        proof {
            lemma_masks();
        }
        self.0 = write_field(self.0, 16, 16, v as u64);
    }

    /// Base bits 23..16.
    #[verifier::allow_in_spec]
    pub fn base_mid(&self) -> u8
        returns
            get_field(self.0, 32, 8) as u8,
    {
        proof {
            lemma_field_fits(self.0, 32, 8);
        }
        read_field(self.0, 32, 8) as u8
    }

    /// Returns a copy with `base_mid` set to `v` (which must fit in 8 bits).
    pub fn with_base_mid(self, v: u8) -> (r: Self)
        requires
            v < 0x100,
        ensures
            r.0 == set_field(self.0, 32, 8, v as u64),
    {
        proof {
            lemma_masks();
        }
        TssDescLow(write_field(self.0, 32, 8, v as u64))
    }

    /// Sets `base_mid` to `v` (which must fit in 8 bits).
    pub fn set_base_mid(&mut self, v: u8)
        requires
            v < 0x100,
        ensures
            final(self).0 == set_field(old(self).0, 32, 8, v as u64),
    {
        proof {
            lemma_masks();
        }
        self.0 = write_field(self.0, 32, 8, v as u64);
    }

    /// System type (0x9: available 64-bit TSS).
    #[verifier::allow_in_spec]
    pub fn typ(&self) -> u8
        returns
            get_field(self.0, 40, 4) as u8,
    {
        proof {
            lemma_field_fits(self.0, 40, 4);
        }
        read_field(self.0, 40, 4) as u8
    }

    /// Returns a copy with `typ` set to `v` (which must fit in 4 bits).
    pub fn with_typ(self, v: u8) -> (r: Self)
        requires
            v < 0x10,
        ensures
            r.0 == set_field(self.0, 40, 4, v as u64),
    {
        proof {
            lemma_masks();
        }
        TssDescLow(write_field(self.0, 40, 4, v as u64))
    }

    /// Sets `typ` to `v` (which must fit in 4 bits).
    pub fn set_typ(&mut self, v: u8)
        requires
            v < 0x10,
        ensures
            final(self).0 == set_field(old(self).0, 40, 4, v as u64),
    {
        proof {
            lemma_masks();
        }
        self.0 = write_field(self.0, 40, 4, v as u64);
    }

    /// Code/data (1) or system (0) descriptor.
    #[verifier::allow_in_spec]
    pub fn s(&self) -> bool
        returns
            get_flag(self.0, 44),
    {
        read_flag(self.0, 44)
    }

    /// Returns a copy with `s` set to `v`.
    #[verifier::allow_in_spec]
    pub fn with_s(self, v: bool) -> Self
        returns
            TssDescLow(set_flag(self.0, 44, v)),
    {
        TssDescLow(write_flag(self.0, 44, v))
    }

    /// Sets `s` to `v`.
    pub fn set_s(&mut self, v: bool)
        ensures
            final(self).0 == set_flag(old(self).0, 44, v),
    {
        self.0 = write_flag(self.0, 44, v);
    }

    /// Descriptor privilege level.
    #[verifier::allow_in_spec]
    pub fn dpl(&self) -> u8
        returns
            get_field(self.0, 45, 2) as u8,
    {
        proof {
            lemma_field_fits(self.0, 45, 2);
        }
        read_field(self.0, 45, 2) as u8
    }

    /// Returns a copy with `dpl` set to `v` (which must fit in 2 bits).
    pub fn with_dpl(self, v: u8) -> (r: Self)
        requires
            v < 0x4,
        ensures
            r.0 == set_field(self.0, 45, 2, v as u64),
    {
        proof {
            lemma_masks();
        }
        TssDescLow(write_field(self.0, 45, 2, v as u64))
    }

    /// Sets `dpl` to `v` (which must fit in 2 bits).
    pub fn set_dpl(&mut self, v: u8)
        requires
            v < 0x4,
        ensures
            final(self).0 == set_field(old(self).0, 45, 2, v as u64),
    {
        proof {
            lemma_masks();
        }
        self.0 = write_field(self.0, 45, 2, v as u64);
    }

    /// Present.
    #[verifier::allow_in_spec]
    pub fn p(&self) -> bool
        returns
            get_flag(self.0, 47),
    {
        read_flag(self.0, 47)
    }

    /// Returns a copy with `p` set to `v`.
    #[verifier::allow_in_spec]
    pub fn with_p(self, v: bool) -> Self
        returns
            TssDescLow(set_flag(self.0, 47, v)),
    {
        TssDescLow(write_flag(self.0, 47, v))
    }

    /// Sets `p` to `v`.
    pub fn set_p(&mut self, v: bool)
        ensures
            final(self).0 == set_flag(old(self).0, 47, v),
    {
        self.0 = write_flag(self.0, 47, v);
    }

    /// Limit bits 19..16.
    #[verifier::allow_in_spec]
    pub fn limit_hi(&self) -> u8
        returns
            get_field(self.0, 48, 4) as u8,
    {
        proof {
            lemma_field_fits(self.0, 48, 4);
        }
        read_field(self.0, 48, 4) as u8
    }

    /// Returns a copy with `limit_hi` set to `v` (which must fit in 4 bits).
    pub fn with_limit_hi(self, v: u8) -> (r: Self)
        requires
            v < 0x10,
        ensures
            r.0 == set_field(self.0, 48, 4, v as u64),
    {
        proof {
            lemma_masks();
        }
        TssDescLow(write_field(self.0, 48, 4, v as u64))
    }

    /// Sets `limit_hi` to `v` (which must fit in 4 bits).
    pub fn set_limit_hi(&mut self, v: u8)
        requires
            v < 0x10,
        ensures
            final(self).0 == set_field(old(self).0, 48, 4, v as u64),
    {
        proof {
            lemma_masks();
        }
        self.0 = write_field(self.0, 48, 4, v as u64);
    }

    /// Available to software.
    #[verifier::allow_in_spec]
    pub fn avl(&self) -> bool
        returns
            get_flag(self.0, 52),
    {
        read_flag(self.0, 52)
    }

    /// Returns a copy with `avl` set to `v`.
    #[verifier::allow_in_spec]
    pub fn with_avl(self, v: bool) -> Self
        returns
            TssDescLow(set_flag(self.0, 52, v)),
    {
        TssDescLow(write_flag(self.0, 52, v))
    }

    /// Sets `avl` to `v`.
    pub fn set_avl(&mut self, v: bool)
        ensures
            final(self).0 == set_flag(old(self).0, 52, v),
    {
        self.0 = write_flag(self.0, 52, v);
    }

    /// Must be 0 for system types.
    #[verifier::allow_in_spec]
    pub fn zero1(&self) -> bool
        returns
            get_flag(self.0, 53),
    {
        read_flag(self.0, 53)
    }

    /// Returns a copy with `zero1` set to `v`.
    #[verifier::allow_in_spec]
    pub fn with_zero1(self, v: bool) -> Self
        returns
            TssDescLow(set_flag(self.0, 53, v)),
    {
        TssDescLow(write_flag(self.0, 53, v))
    }

    /// Sets `zero1` to `v`.
    pub fn set_zero1(&mut self, v: bool)
        ensures
            final(self).0 == set_flag(old(self).0, 53, v),
    {
        self.0 = write_flag(self.0, 53, v);
    }

    /// Must be 0 for system types.
    #[verifier::allow_in_spec]
    pub fn zero2(&self) -> bool
        returns
            get_flag(self.0, 54),
    {
        read_flag(self.0, 54)
    }

    /// Returns a copy with `zero2` set to `v`.
    #[verifier::allow_in_spec]
    pub fn with_zero2(self, v: bool) -> Self
        returns
            TssDescLow(set_flag(self.0, 54, v)),
    {
        TssDescLow(write_flag(self.0, 54, v))
    }

    /// Sets `zero2` to `v`.
    pub fn set_zero2(&mut self, v: bool)
        ensures
            final(self).0 == set_flag(old(self).0, 54, v),
    {
        self.0 = write_flag(self.0, 54, v);
    }

    /// Granularity.
    #[verifier::allow_in_spec]
    pub fn g(&self) -> bool
        returns
            get_flag(self.0, 55),
    {
        read_flag(self.0, 55)
    }

    /// Returns a copy with `g` set to `v`.
    #[verifier::allow_in_spec]
    pub fn with_g(self, v: bool) -> Self
        returns
            TssDescLow(set_flag(self.0, 55, v)),
    {
        TssDescLow(write_flag(self.0, 55, v))
    }

    /// Sets `g` to `v`.
    pub fn set_g(&mut self, v: bool)
        ensures
            final(self).0 == set_flag(old(self).0, 55, v),
    {
        self.0 = write_flag(self.0, 55, v);
    }

    /// Base bits 31..24.
    #[verifier::allow_in_spec]
    pub fn base_hi(&self) -> u8
        returns
            get_field(self.0, 56, 8) as u8,
    {
        proof {
            lemma_field_fits(self.0, 56, 8);
        }
        read_field(self.0, 56, 8) as u8
    }

    /// Returns a copy with `base_hi` set to `v` (which must fit in 8 bits).
    pub fn with_base_hi(self, v: u8) -> (r: Self)
        requires
            v < 0x100,
        ensures
            r.0 == set_field(self.0, 56, 8, v as u64),
    {
        proof {
            lemma_masks();
        }
        TssDescLow(write_field(self.0, 56, 8, v as u64))
    }

    /// Sets `base_hi` to `v` (which must fit in 8 bits).
    pub fn set_base_hi(&mut self, v: u8)
        requires
            v < 0x100,
        ensures
            final(self).0 == set_field(old(self).0, 56, 8, v as u64),
    {
        proof {
            lemma_masks();
        }
        self.0 = write_field(self.0, 56, 8, v as u64);
    }

}


/// The high eight bytes of a 64-bit TSS descriptor.
#[derive(Copy, Clone, Debug, PartialEq, Eq)]
pub struct TssDescHigh(pub u64);

impl TssDescHigh {
    /// Creates a value with every field at its default.
    pub fn new() -> (r: Self)
        ensures
            r.0 == 0x0,
    {
        TssDescHigh(0x0)
    }

    /// Wraps raw bits (no validation).
    #[verifier::allow_in_spec]
    pub fn from_bits(bits: u64) -> Self
        returns
            TssDescHigh(bits),
    {
        TssDescHigh(bits)
    }

    /// The raw bits.
    #[verifier::allow_in_spec]
    pub fn into_bits(self) -> u64
        returns
            self.0,
    {
        self.0
    }

    /// Base bits 63..32.
    #[verifier::allow_in_spec]
    pub fn base_upper(&self) -> u32
        returns
            get_field(self.0, 0, 32) as u32,
    {
        proof {
            lemma_field_fits(self.0, 0, 32);
        }
        read_field(self.0, 0, 32) as u32
    }

    /// Returns a copy with `base_upper` set to `v` (which must fit in 32 bits).
    pub fn with_base_upper(self, v: u32) -> (r: Self)
        requires
            v < 0x100000000,
        ensures
            r.0 == set_field(self.0, 0, 32, v as u64),
    {
        proof {
            lemma_masks();
        }
        TssDescHigh(write_field(self.0, 0, 32, v as u64))
    }

    /// Sets `base_upper` to `v` (which must fit in 32 bits).
    pub fn set_base_upper(&mut self, v: u32)
        requires
            v < 0x100000000,
        ensures
            final(self).0 == set_field(old(self).0, 0, 32, v as u64),
    {
        proof {
            lemma_masks();
        }
        self.0 = write_field(self.0, 0, 32, v as u64);
    }

    /// Reserved, must be 0.
    #[verifier::allow_in_spec]
    pub fn reserved(&self) -> u32
        returns
            get_field(self.0, 32, 32) as u32,
    {
        proof {
            lemma_field_fits(self.0, 32, 32);
        }
        read_field(self.0, 32, 32) as u32
    }

    /// Returns a copy with `reserved` set to `v` (which must fit in 32 bits).
    fn with_reserved(self, v: u32) -> (r: Self)
        requires
            v < 0x100000000,
        ensures
            r.0 == set_field(self.0, 32, 32, v as u64),
    {
        proof {
            lemma_masks();
        }
        TssDescHigh(write_field(self.0, 32, 32, v as u64))
    }

    /// Sets `reserved` to `v` (which must fit in 32 bits).
    fn set_reserved(&mut self, v: u32)
        requires
            v < 0x100000000,
        ensures
            final(self).0 == set_field(old(self).0, 32, 32, v as u64),
    {
        proof {
            lemma_masks();
        }
        self.0 = write_field(self.0, 32, 32, v as u64);
    }

}


/// A 64-bit TSS descriptor: the low and high halves.
#[derive(Copy, Clone, Debug)]
pub struct TssDesc64 {
    pub low: TssDescLow,
    pub high: TssDescHigh,
}

impl TssDesc64 {
    /// The descriptor of an available 64-bit TSS at `tss_base` with byte
    /// limit `tss_limit` (the low 20 bits are used): present, system type
    /// `0x9`, privilege level 0, byte granularity.
    pub fn new(tss_base: VirtualAddress, tss_limit: u32) -> (r: Self)
        ensures
            r.low.limit_lo() == (tss_limit & 0xFFFF) as u16,
            r.low.limit_hi() == ((tss_limit >> 16u32) & 0xF) as u8,
            r.low.base_lo() == (tss_base.0 & 0xFFFF) as u16,
            r.low.base_mid() == ((tss_base.0 >> 16u64) & 0xFF) as u8,
            r.low.base_hi() == ((tss_base.0 >> 24u64) & 0xFF) as u8,
            r.high.base_upper() == (tss_base.0 >> 32u64) as u32,
            r.high.reserved() == 0,
            r.low.typ() == 0x9,
            !r.low.s(),
            r.low.dpl() == 0,
            r.low.p(),
            !r.low.avl() && !r.low.zero1() && !r.low.zero2() && !r.low.g(),
    {
        let base = tss_base.as_u64();
        let limit_lo = (tss_limit & 0xFFFF) as u64;
        let limit_hi = ((tss_limit >> 16u32) & 0xF) as u64;
        let base_lo = base & 0xFFFF;
        let base_mid = (base >> 16u64) & 0xFF;
        let base_hi = (base >> 24u64) & 0xFF;
        let base_upper = base >> 32u64;
        let low = limit_lo | (base_lo << 16u64) | (base_mid << 32u64) | (0x9u64 << 40u64) | (1u64 << 47u64)
            | (limit_hi << 48u64) | (base_hi << 56u64);
        proof {
            assert((tss_limit & 0xFFFF) as u64 <= 0xFFFF) by (bit_vector);
            assert(((tss_limit >> 16u32) & 0xF) as u64 <= 0xF) by (bit_vector);
            assert(limit_lo == (tss_limit & 0xFFFF) as u64);
            assert(limit_hi == ((tss_limit >> 16u32) & 0xF) as u64);
            assert(get_field(low, 0, 16) == limit_lo && get_field(low, 16, 16) == base_lo && get_field(
                low,
                32,
                8,
            ) == base_mid && get_field(low, 40, 4) == 9 && !get_flag(low, 44) && get_field(low, 45, 2)
                == 0 && get_flag(low, 47) && get_field(low, 48, 4) == limit_hi && !get_flag(low, 52)
                && !get_flag(low, 53) && !get_flag(low, 54) && !get_flag(low, 55) && get_field(low, 56, 8)
                == base_hi) by (bit_vector)
                requires
                    limit_lo <= 0xFFFF,
                    limit_hi <= 0xF,
                    base_lo == base & 0xFFFF,
                    base_mid == (base >> 16u64) & 0xFF,
                    base_hi == (base >> 24u64) & 0xFF,
                    low == limit_lo | (base_lo << 16u64) | (base_mid << 32u64) | (0x9u64 << 40u64) | (1u64
                        << 47u64) | (limit_hi << 48u64) | (base_hi << 56u64),
            ;
            assert(get_field(base_upper, 0, 32) == base_upper && get_field(base_upper, 32, 32) == 0)
                by (bit_vector)
                requires
                    base_upper == base >> 32u64,
            ;
        }
        TssDesc64 { low: TssDescLow(low), high: TssDescHigh(base_upper) }
    }
}

} // verus!
