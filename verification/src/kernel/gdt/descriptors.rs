//! # Segment descriptors (64-bit GDT entries)
//!
//! In long mode only a few bits of a code or data descriptor matter: the
//! type, the `S` bit, the privilege level, present, and `L` for code.

use crate::bitfield::{
    get_field, get_flag, lemma_field_fits, lemma_masks, read_field, read_flag, set_field, set_flag,
    write_field, write_flag,
};
use vstd::prelude::*;

verus! {

/// The bits of a code-segment descriptor.
#[derive(Copy, Clone, Debug, PartialEq, Eq)]
pub struct CodeDescBits(pub u64);

impl CodeDescBits {
    /// Creates a value with every field at its default.
    pub fn new() -> (r: Self)
        ensures
            r.0 == 0x0,
    {
        CodeDescBits(0x0)
    }

    /// Wraps raw bits (no validation).
    #[verifier::allow_in_spec]
    pub fn from_bits(bits: u64) -> Self
        returns
            CodeDescBits(bits),
    {
        CodeDescBits(bits)
    }

    /// The raw bits.
    #[verifier::allow_in_spec]
    pub fn into_bits(self) -> u64
        returns
            self.0,
    {
        self.0
    }

    /// Segment limit bits 15..0 (ignored in long mode).
    #[verifier::allow_in_spec]
    pub fn limit_lo(&self) -> u16
        returns
            get_field(self.0, 0, 16) as u16,
    {
        proof {
            lemma_field_fits(self.0, 0, 16);
        }
        read_field(self.0, 0, 16) as u16
    }

    /// Returns a copy with `limit_lo` set to `v` (which must fit in 16 bits).
    pub fn with_limit_lo(self, v: u16) -> (r: Self)
        requires
            v < 0x10000,
        ensures
            r.0 == set_field(self.0, 0, 16, v as u64),
    {
        proof {
            lemma_masks();
        }
        CodeDescBits(write_field(self.0, 0, 16, v as u64))
    }

    /// Sets `limit_lo` to `v` (which must fit in 16 bits).
    pub fn set_limit_lo(&mut self, v: u16)
        requires
            v < 0x10000,
        ensures
            final(self).0 == set_field(old(self).0, 0, 16, v as u64),
    {
        proof {
            lemma_masks();
        }
        self.0 = write_field(self.0, 0, 16, v as u64);
    }

    /// Base bits 15..0 (ignored in long mode).
    #[verifier::allow_in_spec]
    pub fn base_lo(&self) -> u16
        returns
            get_field(self.0, 16, 16) as u16,
    {
        proof {
            lemma_field_fits(self.0, 16, 16);
        }
        read_field(self.0, 16, 16) as u16
    }

    /// Returns a copy with `base_lo` set to `v` (which must fit in 16 bits).
    pub fn with_base_lo(self, v: u16) -> (r: Self)
        requires
            v < 0x10000,
        ensures
            r.0 == set_field(self.0, 16, 16, v as u64),
    {
        proof {
            lemma_masks();
        }
        CodeDescBits(write_field(self.0, 16, 16, v as u64))
    }

    /// Sets `base_lo` to `v` (which must fit in 16 bits).
    pub fn set_base_lo(&mut self, v: u16)
        requires
            v < 0x10000,
        ensures
            final(self).0 == set_field(old(self).0, 16, 16, v as u64),
    {
        proof {
            lemma_masks();
        }
        self.0 = write_field(self.0, 16, 16, v as u64);
    }

    /// Base bits 23..16.
    #[verifier::allow_in_spec]
    pub fn base_mid(&self) -> u8
        returns
            get_field(self.0, 32, 8) as u8,
    {
        proof {
            lemma_field_fits(self.0, 32, 8);
        }
        read_field(self.0, 32, 8) as u8
    }

    /// Returns a copy with `base_mid` set to `v` (which must fit in 8 bits).
    pub fn with_base_mid(self, v: u8) -> (r: Self)
        requires
            v < 0x100,
        ensures
            r.0 == set_field(self.0, 32, 8, v as u64),
    {
        proof {
            lemma_masks();
        }
        CodeDescBits(write_field(self.0, 32, 8, v as u64))
    }

    /// Sets `base_mid` to `v` (which must fit in 8 bits).
    pub fn set_base_mid(&mut self, v: u8)
        requires
            v < 0x100,
        ensures
            final(self).0 == set_field(old(self).0, 32, 8, v as u64),
    {
        proof {
            lemma_masks();
        }
        self.0 = write_field(self.0, 32, 8, v as u64);
    }

    /// Segment type.
    #[verifier::allow_in_spec]
    pub fn typ(&self) -> u8
        returns
            get_field(self.0, 40, 4) as u8,
    {
        proof {
            lemma_field_fits(self.0, 40, 4);
        }
        read_field(self.0, 40, 4) as u8
    }

    /// Returns a copy with `typ` set to `v` (which must fit in 4 bits).
    pub fn with_typ(self, v: u8) -> (r: Self)
        requires
            v < 0x10,
        ensures
            r.0 == set_field(self.0, 40, 4, v as u64),
    {
        proof {
            lemma_masks();
        }
        CodeDescBits(write_field(self.0, 40, 4, v as u64))
    }

    /// Sets `typ` to `v` (which must fit in 4 bits).
    pub fn set_typ(&mut self, v: u8)
        requires
            v < 0x10,
        ensures
            final(self).0 == set_field(old(self).0, 40, 4, v as u64),
    {
        proof {
            lemma_masks();
        }
        self.0 = write_field(self.0, 40, 4, v as u64);
    }

    /// Code/data (1) or system (0) descriptor.
    #[verifier::allow_in_spec]
    pub fn s(&self) -> bool
        returns
            get_flag(self.0, 44),
    {
        read_flag(self.0, 44)
    }

    /// Returns a copy with `s` set to `v`.
    #[verifier::allow_in_spec]
    pub fn with_s(self, v: bool) -> Self
        returns
            CodeDescBits(set_flag(self.0, 44, v)),
    {
        CodeDescBits(write_flag(self.0, 44, v))
    }

    /// Sets `s` to `v`.
    pub fn set_s(&mut self, v: bool)
        ensures
            final(self).0 == set_flag(old(self).0, 44, v),
    {
        self.0 = write_flag(self.0, 44, v);
    }

    /// Descriptor privilege level.
    #[verifier::allow_in_spec]
    pub fn dpl(&self) -> u8
        returns
            get_field(self.0, 45, 2) as u8,
    {
        proof {
            lemma_field_fits(self.0, 45, 2);
        }
        read_field(self.0, 45, 2) as u8
    }

    /// Returns a copy with `dpl` set to `v` (which must fit in 2 bits).
    pub fn with_dpl(self, v: u8) -> (r: Self)
        requires
            v < 0x4,
        ensures
            r.0 == set_field(self.0, 45, 2, v as u64),
    {
        proof {
            lemma_masks();
        }
        CodeDescBits(write_field(self.0, 45, 2, v as u64))
    }

    /// Sets `dpl` to `v` (which must fit in 2 bits).
    pub fn set_dpl(&mut self, v: u8)
        requires
            v < 0x4,
        ensures
            final(self).0 == set_field(old(self).0, 45, 2, v as u64),
    {
        proof {
            lemma_masks();
        }
        self.0 = write_field(self.0, 45, 2, v as u64);
    }

    /// Present.
    #[verifier::allow_in_spec]
    pub fn p(&self) -> bool
        returns
            get_flag(self.0, 47),
    {
        read_flag(self.0, 47)
    }

    /// Returns a copy with `p` set to `v`.
    #[verifier::allow_in_spec]
    pub fn with_p(self, v: bool) -> Self
        returns
            CodeDescBits(set_flag(self.0, 47, v)),
    {
        CodeDescBits(write_flag(self.0, 47, v))
    }

    /// Sets `p` to `v`.
    pub fn set_p(&mut self, v: bool)
        ensures
            final(self).0 == set_flag(old(self).0, 47, v),
    {
        self.0 = write_flag(self.0, 47, v);
    }

    /// Segment limit bits 19..16.
    #[verifier::allow_in_spec]
    pub fn limit_hi(&self) -> u8
        returns
            get_field(self.0, 48, 4) as u8,
    {
        proof {
            lemma_field_fits(self.0, 48, 4);
        }
        read_field(self.0, 48, 4) as u8
    }

    /// Returns a copy with `limit_hi` set to `v` (which must fit in 4 bits).
    pub fn with_limit_hi(self, v: u8) -> (r: Self)
        requires
            v < 0x10,
        ensures
            r.0 == set_field(self.0, 48, 4, v as u64),
    {
        proof {
            lemma_masks();
        }
        CodeDescBits(write_field(self.0, 48, 4, v as u64))
    }

    /// Sets `limit_hi` to `v` (which must fit in 4 bits).
    pub fn set_limit_hi(&mut self, v: u8)
        requires
            v < 0x10,
        ensures
            final(self).0 == set_field(old(self).0, 48, 4, v as u64),
    {
        proof {
            lemma_masks();
        }
        self.0 = write_field(self.0, 48, 4, v as u64);
    }

    /// Available to software.
    #[verifier::allow_in_spec]
    pub fn avl(&self) -> bool
        returns
            get_flag(self.0, 52),
    {
        read_flag(self.0, 52)
    }

    /// Returns a copy with `avl` set to `v`.
    #[verifier::allow_in_spec]
    pub fn with_avl(self, v: bool) -> Self
        returns
            CodeDescBits(set_flag(self.0, 52, v)),
    {
        CodeDescBits(write_flag(self.0, 52, v))
    }

    /// Sets `avl` to `v`.
    pub fn set_avl(&mut self, v: bool)
        ensures
            final(self).0 == set_flag(old(self).0, 52, v),
    {
        self.0 = write_flag(self.0, 52, v);
    }

    /// 64-bit code segment.
    #[verifier::allow_in_spec]
    pub fn l(&self) -> bool
        returns
            get_flag(self.0, 53),
    {
        read_flag(self.0, 53)
    }

    /// Returns a copy with `l` set to `v`.
    #[verifier::allow_in_spec]
    pub fn with_l(self, v: bool) -> Self
        returns
            CodeDescBits(set_flag(self.0, 53, v)),
    {
        CodeDescBits(write_flag(self.0, 53, v))
    }

    /// Sets `l` to `v`.
    pub fn set_l(&mut self, v: bool)
        ensures
            final(self).0 == set_flag(old(self).0, 53, v),
    {
        self.0 = write_flag(self.0, 53, v);
    }

    /// Default operation size (0 when `l` is set).
    #[verifier::allow_in_spec]
    pub fn db(&self) -> bool
        returns
            get_flag(self.0, 54),
    {
        read_flag(self.0, 54)
    }

    /// Returns a copy with `db` set to `v`.
    #[verifier::allow_in_spec]
    pub fn with_db(self, v: bool) -> Self
        returns
            CodeDescBits(set_flag(self.0, 54, v)),
    {
        CodeDescBits(write_flag(self.0, 54, v))
    }

    /// Sets `db` to `v`.
    pub fn set_db(&mut self, v: bool)
        ensures
            final(self).0 == set_flag(old(self).0, 54, v),
    {
        self.0 = write_flag(self.0, 54, v);
    }

    /// Granularity.
    #[verifier::allow_in_spec]
    pub fn g(&self) -> bool
        returns
            get_flag(self.0, 55),
    {
        read_flag(self.0, 55)
    }

    /// Returns a copy with `g` set to `v`.
    #[verifier::allow_in_spec]
    pub fn with_g(self, v: bool) -> Self
        returns
            CodeDescBits(set_flag(self.0, 55, v)),
    {
        CodeDescBits(write_flag(self.0, 55, v))
    }

    /// Sets `g` to `v`.
    pub fn set_g(&mut self, v: bool)
        ensures
            final(self).0 == set_flag(old(self).0, 55, v),
    {
        self.0 = write_flag(self.0, 55, v);
    }

    /// Base bits 31..24.
    #[verifier::allow_in_spec]
    pub fn base_hi(&self) -> u8
        returns
            get_field(self.0, 56, 8) as u8,
    {
        proof {
            lemma_field_fits(self.0, 56, 8);
        }
        read_field(self.0, 56, 8) as u8
    }

    /// Returns a copy with `base_hi` set to `v` (which must fit in 8 bits).
    pub fn with_base_hi(self, v: u8) -> (r: Self)
        requires
            v < 0x100,
        ensures
            r.0 == set_field(self.0, 56, 8, v as u64),
    {
        proof {
            lemma_masks();
        }
        CodeDescBits(write_field(self.0, 56, 8, v as u64))
    }

    /// Sets `base_hi` to `v` (which must fit in 8 bits).
    pub fn set_base_hi(&mut self, v: u8)
        requires
            v < 0x100,
        ensures
            final(self).0 == set_field(old(self).0, 56, 8, v as u64),
    {
        proof {
            lemma_masks();
        }
        self.0 = write_field(self.0, 56, 8, v as u64);
    }

}


/// The bits of a data-segment descriptor.
#[derive(Copy, Clone, Debug, PartialEq, Eq)]
pub struct DataDescBits(pub u64);

impl DataDescBits {
    /// Creates a value with every field at its default.
    pub fn new() -> (r: Self)
        ensures
            r.0 == 0x0,
    {
        DataDescBits(0x0)
    }

    /// Wraps raw bits (no validation).
    #[verifier::allow_in_spec]
    pub fn from_bits(bits: u64) -> Self
        returns
            DataDescBits(bits),
    {
        DataDescBits(bits)
    }

    /// The raw bits.
    #[verifier::allow_in_spec]
    pub fn into_bits(self) -> u64
        returns
            self.0,
    {
        self.0
    }

    /// Segment limit bits 15..0 (ignored in long mode).
    #[verifier::allow_in_spec]
    pub fn limit_lo(&self) -> u16
        returns
            get_field(self.0, 0, 16) as u16,
    {
        proof {
            lemma_field_fits(self.0, 0, 16);
        }
        read_field(self.0, 0, 16) as u16
    }

    /// Returns a copy with `limit_lo` set to `v` (which must fit in 16 bits).
    pub fn with_limit_lo(self, v: u16) -> (r: Self)
        requires
            v < 0x10000,
        ensures
            r.0 == set_field(self.0, 0, 16, v as u64),
    {
        proof {
            lemma_masks();
        }
        DataDescBits(write_field(self.0, 0, 16, v as u64))
    }

    /// Sets `limit_lo` to `v` (which must fit in 16 bits).
    pub fn set_limit_lo(&mut self, v: u16)
        requires
            v < 0x10000,
        ensures
            final(self).0 == set_field(old(self).0, 0, 16, v as u64),
    {
        proof {
            lemma_masks();
        }
        self.0 = write_field(self.0, 0, 16, v as u64);
    }

    /// Base bits 15..0 (ignored in long mode).
    #[verifier::allow_in_spec]
    pub fn base_lo(&self) -> u16
        returns
            get_field(self.0, 16, 16) as u16,
    {
        proof {
            lemma_field_fits(self.0, 16, 16);
        }
        read_field(self.0, 16, 16) as u16
    }

    /// Returns a copy with `base_lo` set to `v` (which must fit in 16 bits).
    pub fn with_base_lo(self, v: u16) -> (r: Self)
        requires
            v < 0x10000,
        ensures
            r.0 == set_field(self.0, 16, 16, v as u64),
    {
        proof {
            lemma_masks();
        }
        DataDescBits(write_field(self.0, 16, 16, v as u64))
    }

    /// Sets `base_lo` to `v` (which must fit in 16 bits).
    pub fn set_base_lo(&mut self, v: u16)
        requires
            v < 0x10000,
        ensures
            final(self).0 == set_field(old(self).0, 16, 16, v as u64),
    {
        proof {
            lemma_masks();
        }
        self.0 = write_field(self.0, 16, 16, v as u64);
    }

    /// Base bits 23..16.
    #[verifier::allow_in_spec]
    pub fn base_mid(&self) -> u8
        returns
            get_field(self.0, 32, 8) as u8,
    {
        proof {
            lemma_field_fits(self.0, 32, 8);
        }
        read_field(self.0, 32, 8) as u8
    }

    /// Returns a copy with `base_mid` set to `v` (which must fit in 8 bits).
    pub fn with_base_mid(self, v: u8) -> (r: Self)
        requires
            v < 0x100,
        ensures
            r.0 == set_field(self.0, 32, 8, v as u64),
    {
        proof {
            lemma_masks();
        }
        DataDescBits(write_field(self.0, 32, 8, v as u64))
    }

    /// Sets `base_mid` to `v` (which must fit in 8 bits).
    pub fn set_base_mid(&mut self, v: u8)
        requires
            v < 0x100,
        ensures
            final(self).0 == set_field(old(self).0, 32, 8, v as u64),
    {
        proof {
            lemma_masks();
        }
        self.0 = write_field(self.0, 32, 8, v as u64);
    }

    /// Segment type.
    #[verifier::allow_in_spec]
    pub fn typ(&self) -> u8
        returns
            get_field(self.0, 40, 4) as u8,
    {
        proof {
            lemma_field_fits(self.0, 40, 4);
        }
        read_field(self.0, 40, 4) as u8
    }

    /// Returns a copy with `typ` set to `v` (which must fit in 4 bits).
    pub fn with_typ(self, v: u8) -> (r: Self)
        requires
            v < 0x10,
        ensures
            r.0 == set_field(self.0, 40, 4, v as u64),
    {
        proof {
            lemma_masks();
        }
        DataDescBits(write_field(self.0, 40, 4, v as u64))
    }

    /// Sets `typ` to `v` (which must fit in 4 bits).
    pub fn set_typ(&mut self, v: u8)
        requires
            v < 0x10,
        ensures
            final(self).0 == set_field(old(self).0, 40, 4, v as u64),
    {
        proof {
            lemma_masks();
        }
        self.0 = write_field(self.0, 40, 4, v as u64);
    }

    /// Code/data (1) or system (0) descriptor.
    #[verifier::allow_in_spec]
    pub fn s(&self) -> bool
        returns
            get_flag(self.0, 44),
    {
        read_flag(self.0, 44)
    }

    /// Returns a copy with `s` set to `v`.
    #[verifier::allow_in_spec]
    pub fn with_s(self, v: bool) -> Self
        returns
            DataDescBits(set_flag(self.0, 44, v)),
    {
        DataDescBits(write_flag(self.0, 44, v))
    }

    /// Sets `s` to `v`.
    pub fn set_s(&mut self, v: bool)
        ensures
            final(self).0 == set_flag(old(self).0, 44, v),
    {
        self.0 = write_flag(self.0, 44, v);
    }

    /// Descriptor privilege level.
    #[verifier::allow_in_spec]
    pub fn dpl(&self) -> u8
        returns
            get_field(self.0, 45, 2) as u8,
    {
        proof {
            lemma_field_fits(self.0, 45, 2);
        }
        read_field(self.0, 45, 2) as u8
    }

    /// Returns a copy with `dpl` set to `v` (which must fit in 2 bits).
    pub fn with_dpl(self, v: u8) -> (r: Self)
        requires
            v < 0x4,
        ensures
            r.0 == set_field(self.0, 45, 2, v as u64),
    {
        proof {
            lemma_masks();
        }
        DataDescBits(write_field(self.0, 45, 2, v as u64))
    }

    /// Sets `dpl` to `v` (which must fit in 2 bits).
    pub fn set_dpl(&mut self, v: u8)
        requires
            v < 0x4,
        ensures
            final(self).0 == set_field(old(self).0, 45, 2, v as u64),
    {
        proof {
            lemma_masks();
        }
        self.0 = write_field(self.0, 45, 2, v as u64);
    }

    /// Present.
    #[verifier::allow_in_spec]
    pub fn p(&self) -> bool
        returns
            get_flag(self.0, 47),
    {
        read_flag(self.0, 47)
    }

    /// Returns a copy with `p` set to `v`.
    #[verifier::allow_in_spec]
    pub fn with_p(self, v: bool) -> Self
        returns
            DataDescBits(set_flag(self.0, 47, v)),
    {
        DataDescBits(write_flag(self.0, 47, v))
    }

    /// Sets `p` to `v`.
    pub fn set_p(&mut self, v: bool)
        ensures
            final(self).0 == set_flag(old(self).0, 47, v),
    {
        self.0 = write_flag(self.0, 47, v);
    }

    /// Segment limit bits 19..16.
    #[verifier::allow_in_spec]
    pub fn limit_hi(&self) -> u8
        returns
            get_field(self.0, 48, 4) as u8,
    {
        proof {
            lemma_field_fits(self.0, 48, 4);
        }
        read_field(self.0, 48, 4) as u8
    }

    /// Returns a copy with `limit_hi` set to `v` (which must fit in 4 bits).
    pub fn with_limit_hi(self, v: u8) -> (r: Self)
        requires
            v < 0x10,
        ensures
            r.0 == set_field(self.0, 48, 4, v as u64),
    {
        proof {
            lemma_masks();
        }
        DataDescBits(write_field(self.0, 48, 4, v as u64))
    }

    /// Sets `limit_hi` to `v` (which must fit in 4 bits).
    pub fn set_limit_hi(&mut self, v: u8)
        requires
            v < 0x10,
        ensures
            final(self).0 == set_field(old(self).0, 48, 4, v as u64),
    {
        proof {
            lemma_masks();
        }
        self.0 = write_field(self.0, 48, 4, v as u64);
    }

    /// Available to software.
    #[verifier::allow_in_spec]
    pub fn avl(&self) -> bool
        returns
            get_flag(self.0, 52),
    {
        read_flag(self.0, 52)
    }

    /// Returns a copy with `avl` set to `v`.
    #[verifier::allow_in_spec]
    pub fn with_avl(self, v: bool) -> Self
        returns
            DataDescBits(set_flag(self.0, 52, v)),
    {
        DataDescBits(write_flag(self.0, 52, v))
    }

    /// Sets `avl` to `v`.
    pub fn set_avl(&mut self, v: bool)
        ensures
            final(self).0 == set_flag(old(self).0, 52, v),
    {
        self.0 = write_flag(self.0, 52, v);
    }

    /// Long mode (0 for data).
    #[verifier::allow_in_spec]
    pub fn l(&self) -> bool
        returns
            get_flag(self.0, 53),
    {
        read_flag(self.0, 53)
    }

    /// Returns a copy with `l` set to `v`.
    #[verifier::allow_in_spec]
    pub fn with_l(self, v: bool) -> Self
        returns
            DataDescBits(set_flag(self.0, 53, v)),
    {
        DataDescBits(write_flag(self.0, 53, v))
    }

    /// Sets `l` to `v`.
    pub fn set_l(&mut self, v: bool)
        ensures
            final(self).0 == set_flag(old(self).0, 53, v),
    {
        self.0 = write_flag(self.0, 53, v);
    }

    /// Default operation size (0 when `l` is set).
    #[verifier::allow_in_spec]
    pub fn db(&self) -> bool
        returns
            get_flag(self.0, 54),
    {
        read_flag(self.0, 54)
    }

    /// Returns a copy with `db` set to `v`.
    #[verifier::allow_in_spec]
    pub fn with_db(self, v: bool) -> Self
        returns
            DataDescBits(set_flag(self.0, 54, v)),
    {
        DataDescBits(write_flag(self.0, 54, v))
    }

    /// Sets `db` to `v`.
    pub fn set_db(&mut self, v: bool)
        ensures
            final(self).0 == set_flag(old(self).0, 54, v),
    {
        self.0 = write_flag(self.0, 54, v);
    }

    /// Granularity.
    #[verifier::allow_in_spec]
    pub fn g(&self) -> bool
        returns
            get_flag(self.0, 55),
    {
        read_flag(self.0, 55)
    }

    /// Returns a copy with `g` set to `v`.
    #[verifier::allow_in_spec]
    pub fn with_g(self, v: bool) -> Self
        returns
            DataDescBits(set_flag(self.0, 55, v)),
    {
        DataDescBits(write_flag(self.0, 55, v))
    }

    /// Sets `g` to `v`.
    pub fn set_g(&mut self, v: bool)
        ensures
            final(self).0 == set_flag(old(self).0, 55, v),
    {
        self.0 = write_flag(self.0, 55, v);
    }

    /// Base bits 31..24.
    #[verifier::allow_in_spec]
    pub fn base_hi(&self) -> u8
        returns
            get_field(self.0, 56, 8) as u8,
    {
        proof {
            lemma_field_fits(self.0, 56, 8);
        }
        read_field(self.0, 56, 8) as u8
    }

    /// Returns a copy with `base_hi` set to `v` (which must fit in 8 bits).
    pub fn with_base_hi(self, v: u8) -> (r: Self)
        requires
            v < 0x100,
        ensures
            r.0 == set_field(self.0, 56, 8, v as u64),
    {
        proof {
            lemma_masks();
        }
        DataDescBits(write_field(self.0, 56, 8, v as u64))
    }

    /// Sets `base_hi` to `v` (which must fit in 8 bits).
    pub fn set_base_hi(&mut self, v: u8)
        requires
            v < 0x100,
        ensures
            final(self).0 == set_field(old(self).0, 56, 8, v as u64),
    {
        proof {
            lemma_masks();
        }
        self.0 = write_field(self.0, 56, 8, v as u64);
    }

}


/// The raw bits of a code descriptor for `dpl` (only its low two bits are
/// used): type `0b1010` (execute/read), `S=1`, present, `L=1`; base, limit
/// and the other flags 0.
pub open spec fn code_desc(dpl: u8) -> u64 {
    0x0020_9A00_0000_0000u64 | (((dpl & 3u8) as u64) << 45u64)
}

/// The raw bits of a data descriptor for `dpl`: type `0b0010`
/// (read/write), `S=1`, present; base, limit and the other flags 0.
pub open spec fn data_desc(dpl: u8) -> u64 {
    0x0000_9200_0000_0000u64 | (((dpl & 3u8) as u64) << 45u64)
}

/// A 64-bit segment descriptor, read as code or data bits as needed.
#[derive(Copy, Clone, Debug, PartialEq, Eq, Structural)]
pub struct Desc64(pub u64);

impl Desc64 {
    /// A 64-bit code segment with privilege level `dpl & 3`.
    pub fn from_code_dpl(dpl: u8) -> (r: Self)
        ensures
            r.0 == code_desc(dpl),
            CodeDescBits(r.0).typ() == 0b1010,
            CodeDescBits(r.0).s(),
            CodeDescBits(r.0).dpl() == dpl & 3,
            CodeDescBits(r.0).p(),
            CodeDescBits(r.0).l(),
            !CodeDescBits(r.0).db(),
            !CodeDescBits(r.0).g(),
            !CodeDescBits(r.0).avl(),
            CodeDescBits(r.0).limit_lo() == 0 && CodeDescBits(r.0).limit_hi() == 0,
            CodeDescBits(r.0).base_lo() == 0 && CodeDescBits(r.0).base_mid() == 0
                && CodeDescBits(r.0).base_hi() == 0,
    {
        let d = (dpl & 3) as u64;
        let raw = 0x0020_9A00_0000_0000u64 | (d << 45u64);
        proof {
            assert(dpl & 3 <= 3) by (bit_vector);
            assert(d <= 3);
            assert(get_field(raw, 40, 4) == 0b1010 && get_flag(raw, 44) && get_field(raw, 45, 2) == d
                && get_flag(raw, 47) && get_flag(raw, 53) && !get_flag(raw, 54) && !get_flag(raw, 55)
                && !get_flag(raw, 52) && get_field(raw, 0, 16) == 0 && get_field(raw, 48, 4) == 0
                && get_field(raw, 16, 16) == 0 && get_field(raw, 32, 8) == 0 && get_field(raw, 56, 8) == 0)
                by (bit_vector)
                requires
                    d <= 3,
                    raw == 0x0020_9A00_0000_0000u64 | (d << 45u64),
            ;
        }
        Desc64(raw)
    }

    /// A data segment with privilege level `dpl & 3`.
    pub fn from_data_dpl(dpl: u8) -> (r: Self)
        ensures
            r.0 == data_desc(dpl),
            DataDescBits(r.0).typ() == 0b0010,
            DataDescBits(r.0).s(),
            DataDescBits(r.0).dpl() == dpl & 3,
            DataDescBits(r.0).p(),
            !DataDescBits(r.0).l(),
            !DataDescBits(r.0).db(),
            !DataDescBits(r.0).g(),
            !DataDescBits(r.0).avl(),
            DataDescBits(r.0).limit_lo() == 0 && DataDescBits(r.0).limit_hi() == 0,
            DataDescBits(r.0).base_lo() == 0 && DataDescBits(r.0).base_mid() == 0
                && DataDescBits(r.0).base_hi() == 0,
    {
        let d = (dpl & 3) as u64;
        let raw = 0x0000_9200_0000_0000u64 | (d << 45u64);
        proof {
            assert(dpl & 3 <= 3) by (bit_vector);
            assert(d <= 3);
            assert(get_field(raw, 40, 4) == 0b0010 && get_flag(raw, 44) && get_field(raw, 45, 2) == d
                && get_flag(raw, 47) && !get_flag(raw, 53) && !get_flag(raw, 54) && !get_flag(raw, 55)
                && !get_flag(raw, 52) && get_field(raw, 0, 16) == 0 && get_field(raw, 48, 4) == 0
                && get_field(raw, 16, 16) == 0 && get_field(raw, 32, 8) == 0 && get_field(raw, 56, 8) == 0)
                by (bit_vector)
                requires
                    d <= 3,
                    raw == 0x0000_9200_0000_0000u64 | (d << 45u64),
            ;
        }
        Desc64(raw)
    }

    /// The raw bits.
    pub fn to_u64(self) -> (r: u64)
        ensures
            r == self.0,
    {
        self.0
    }

    /// The bits read as a code descriptor.
    pub fn as_code(self) -> (r: CodeDescBits)
        ensures
            r.0 == self.0,
    {
        CodeDescBits(self.0)
    }

    /// The bits read as a data descriptor.
    pub fn as_data(self) -> (r: DataDescBits)
        ensures
            r.0 == self.0,
    {
        DataDescBits(self.0)
    }
}

} // verus!
