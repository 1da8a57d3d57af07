//! # Interrupt Stack Table slots
//!
//! A gate can ask the CPU to switch to one of seven known-good stacks
//! (IST1..IST7) held in the TSS; 0 means no switch.

use vstd::prelude::*;

verus! {

/// An IST slot of a gate.
#[derive(Debug, Clone, Copy, PartialEq, Eq, Structural)]
pub enum Ist {
    /// No stack switch.
    NoSwitch,
    Ist1,
    Ist2,
    Ist3,
    Ist4,
    Ist5,
    Ist6,
    Ist7,
}

/// The slot number of `i` (0 for none).
pub open spec fn ist_bits(i: Ist) -> u8 {
    match i {
        Ist::NoSwitch => 0,
        Ist::Ist1 => 1,
        Ist::Ist2 => 2,
        Ist::Ist3 => 3,
        Ist::Ist4 => 4,
        Ist::Ist5 => 5,
        Ist::Ist6 => 6,
        Ist::Ist7 => 7,
    }
}

/// A slot's number identifies the slot and is at most 7, so reading a slot
/// back from its number ([`Ist::from_bits`] of [`Ist::into_bits`]) gives
/// the slot.
pub proof fn lemma_ist_roundtrip(a: Ist, b: Ist)
    ensures
        ist_bits(a) <= 7,
        ist_bits(a) == ist_bits(b) ==> a == b,
        a != Ist::NoSwitch <==> 1 <= ist_bits(a),
{
}

impl Ist {
    /// The slot with number `value`; anything outside 1..=7 is no slot.
    pub fn from_bits(value: u8) -> (r: Self)
        ensures
            1 <= value <= 7 ==> ist_bits(r) == value,
            !(1 <= value <= 7) ==> r == Ist::NoSwitch,
    {
        match value {
            1 => Ist::Ist1,
            2 => Ist::Ist2,
            3 => Ist::Ist3,
            4 => Ist::Ist4,
            5 => Ist::Ist5,
            6 => Ist::Ist6,
            7 => Ist::Ist7,
            _ => Ist::NoSwitch,
        }
    }

    /// The slot number (0 for none).
    pub fn into_bits(self) -> (r: u8)
        ensures
            r == ist_bits(self),
    {
        match self {
            Ist::NoSwitch => 0,
            Ist::Ist1 => 1,
            Ist::Ist2 => 2,
            Ist::Ist3 => 3,
            Ist::Ist4 => 4,
            Ist::Ist5 => 5,
            Ist::Ist6 => 6,
            Ist::Ist7 => 7,
        }
    }

    /// The index of the slot's stack pointer in the TSS `ist` array
    /// (IST1 → 0), or `None` for no slot.
    pub fn tss_index(self) -> (r: Option<usize>)
        ensures
            r == if self == Ist::NoSwitch {
                None
            } else {
                Some((ist_bits(self) - 1) as usize)
            },
    {
        match self {
            Ist::NoSwitch => None,
            Ist::Ist1 => Some(0),
            Ist::Ist2 => Some(1),
            Ist::Ist3 => Some(2),
            Ist::Ist4 => Some(3),
            Ist::Ist5 => Some(4),
            Ist::Ist6 => Some(5),
            Ist::Ist7 => Some(6),
        }
    }

    /// The value for the IST field of a gate.
    pub fn gate_index(self) -> (r: u8)
        ensures
            r == ist_bits(self),
    {
        self.into_bits()
    }
}

} // verus!
