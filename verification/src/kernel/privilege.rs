//! # Privilege levels
//!
//! The four x86 rings, as a requested privilege level in a selector
//! ([`Rpl`]), a descriptor privilege level ([`Dpl`]) and a plain ring number
//! ([`Ring`]).

use vstd::prelude::*;

verus! {

/// A requested privilege level: the low two bits of a segment selector.
#[derive(Copy, Clone, Debug, PartialEq, Eq, Structural)]
pub enum Rpl {
    Ring0,
    Ring1,
    Ring2,
    Ring3,
}

/// The ring number of a privilege level.
pub open spec fn ring_bits(r: Rpl) -> u8 {
    match r {
        Rpl::Ring0 => 0,
        Rpl::Ring1 => 1,
        Rpl::Ring2 => 2,
        Rpl::Ring3 => 3,
    }
}

impl Rpl {
    /// The level in the low two bits of `bits`.
    #[verifier::allow_in_spec]
    pub fn from_bits(bits: u8) -> Self
        returns
            if bits & 3 == 0 {
                Rpl::Ring0
            } else if bits & 3 == 1 {
                Rpl::Ring1
            } else if bits & 3 == 2 {
                Rpl::Ring2
            } else {
                Rpl::Ring3
            },
    {
        let b = bits & 3;
        if b == 0 {
            Rpl::Ring0
        } else if b == 1 {
            Rpl::Ring1
        } else if b == 2 {
            Rpl::Ring2
        } else {
            Rpl::Ring3
        }
    }

    /// The ring number.
    #[verifier::allow_in_spec]
    pub fn into_bits(self) -> u8
        returns
            ring_bits(self),
    {
        match self {
            Rpl::Ring0 => 0,
            Rpl::Ring1 => 1,
            Rpl::Ring2 => 2,
            Rpl::Ring3 => 3,
        }
    }
}

/// A level survives the trip through its ring number, and a ring number
/// below four survives the trip through a level; the ring number of a
/// descriptor level identifies it.
pub proof fn lemma_level_roundtrip(r: Rpl, b: u8, d1: Dpl, d2: Dpl)
    ensures
        Rpl::from_bits(r.into_bits()) == r,
        b < 4 ==> Rpl::from_bits(b).into_bits() == b,
        d1.into_bits() == d2.into_bits() ==> d1 == d2,
{
    let x = r.into_bits();
    assert(forall|v: u8| v < 4 ==> #[trigger] (v & 3) == v) by (bit_vector);
    assert(x & 3 == x);
    assert(b < 4 ==> b & 3 == b);
}

/// A descriptor privilege level.
#[derive(Copy, Clone, Debug, PartialEq, Eq, Structural)]
pub enum Dpl {
    Ring0,
    Ring1,
    Ring2,
    Ring3,
}

impl Dpl {
    /// The ring number.
    #[verifier::allow_in_spec]
    pub fn into_bits(self) -> u8
        returns
            match self {
                Dpl::Ring0 => 0u8,
                Dpl::Ring1 => 1u8,
                Dpl::Ring2 => 2u8,
                Dpl::Ring3 => 3u8,
            },
    {
        match self {
            Dpl::Ring0 => 0,
            Dpl::Ring1 => 1,
            Dpl::Ring2 => 2,
            Dpl::Ring3 => 3,
        }
    }

    /// The level in the low two bits of `bits`.
    pub fn from_bits(bits: u8) -> (r: Self)
        ensures
            r.into_bits() == bits & 3,
    {
        let b = bits & 3;
        if b == 0 {
            Dpl::Ring0
        } else if b == 1 {
            Dpl::Ring1
        } else if b == 2 {
            Dpl::Ring2
        } else {
            proof {
                assert(bits & 3 < 4) by (bit_vector);
            }
            Dpl::Ring3
        }
    }
}

/// A CPU privilege ring.
#[derive(Copy, Clone, Debug, PartialEq, Eq, Structural)]
pub enum Ring {
    Ring0,
    Ring1,
    Ring2,
    Ring3,
}

impl Ring {
    /// The ring number.
    #[verifier::allow_in_spec]
    pub fn into_bits(self) -> u8
        returns
            match self {
                Ring::Ring0 => 0u8,
                Ring::Ring1 => 1u8,
                Ring::Ring2 => 2u8,
                Ring::Ring3 => 3u8,
            },
    {
        match self {
            Ring::Ring0 => 0,
            Ring::Ring1 => 1,
            Ring::Ring2 => 2,
            Ring::Ring3 => 3,
        }
    }
}

} // verus!
