//! # Interrupt Descriptor Table
//!
//! 256 gates of 16 bytes: the handler address split over three fields, the
//! code selector, and the type-and-attributes word (IST slot, gate type,
//! privilege level, present). Gates are written through a builder.

pub mod bp;
pub mod df;
pub mod ist;
pub mod page_fault;
pub mod spurious;
pub mod syscall;
pub mod timer;

pub use crate::kernel::interrupts::ist::Ist;

use crate::bitfield::{
    get_field, get_flag, lemma_field_fits, lemma_masks, lemma_set_field_fits_u16,
    lemma_set_flag_fits_u16, read_field, read_flag, set_field, set_flag, write_field, write_flag,
};
use vstd::prelude::*;

verus! {

/// The type-and-attributes word of an IDT gate.
#[derive(Copy, Clone, Debug, PartialEq, Eq)]
pub struct IdtGateAttr(pub u16);

impl IdtGateAttr {
    /// Creates a value with every field at its default.
    pub fn new() -> (r: Self)
        ensures
            r.0 == 0x0,
    {
        IdtGateAttr(0x0)
    }

    /// Wraps raw bits (no validation).
    #[verifier::allow_in_spec]
    pub fn from_bits(bits: u16) -> Self
        returns
            IdtGateAttr(bits),
    {
        IdtGateAttr(bits)
    }

    /// The raw bits.
    #[verifier::allow_in_spec]
    pub fn into_bits(self) -> u16
        returns
            self.0,
    {
        self.0
    }

    /// Interrupt stack table slot (0 = none).
    #[verifier::allow_in_spec]
    pub fn ist(&self) -> u8
        returns
            get_field(self.0 as u64, 0, 3) as u8,
    {
        proof {
            lemma_field_fits(self.0 as u64, 0, 3);
        }
        read_field(self.0 as u64, 0, 3) as u8
    }

    /// Returns a copy with `ist` set to `v` (which must fit in 3 bits).
    pub fn with_ist(self, v: u8) -> (r: Self)
        requires
            v < 0x8,
        ensures
            r.0 == set_field(self.0 as u64, 0, 3, v as u64) as u16,
    {
        proof {
            lemma_masks();
            lemma_set_field_fits_u16(self.0 as u64, 0, 3, v as u64);
        }
        IdtGateAttr(write_field(self.0 as u64, 0, 3, v as u64) as u16)
    }

    /// Sets `ist` to `v` (which must fit in 3 bits).
    pub fn set_ist(&mut self, v: u8)
        requires
            v < 0x8,
        ensures
            final(self).0 == set_field(old(self).0 as u64, 0, 3, v as u64) as u16,
    {
        proof {
            lemma_masks();
            lemma_set_field_fits_u16(self.0 as u64, 0, 3, v as u64);
        }
        self.0 = write_field(self.0 as u64, 0, 3, v as u64) as u16;
    }

    /// Gate type (0xE interrupt, 0xF trap).
    #[verifier::allow_in_spec]
    pub fn typ(&self) -> u8
        returns
            get_field(self.0 as u64, 8, 4) as u8,
    {
        proof {
            lemma_field_fits(self.0 as u64, 8, 4);
        }
        read_field(self.0 as u64, 8, 4) as u8
    }

    /// Returns a copy with `typ` set to `v` (which must fit in 4 bits).
    pub fn with_typ(self, v: u8) -> (r: Self)
        requires
            v < 0x10,
        ensures
            r.0 == set_field(self.0 as u64, 8, 4, v as u64) as u16,
    {
        proof {
            lemma_masks();
            lemma_set_field_fits_u16(self.0 as u64, 8, 4, v as u64);
        }
        IdtGateAttr(write_field(self.0 as u64, 8, 4, v as u64) as u16)
    }

    /// Sets `typ` to `v` (which must fit in 4 bits).
    pub fn set_typ(&mut self, v: u8)
        requires
            v < 0x10,
        ensures
            final(self).0 == set_field(old(self).0 as u64, 8, 4, v as u64) as u16,
    {
        proof {
            lemma_masks();
            lemma_set_field_fits_u16(self.0 as u64, 8, 4, v as u64);
        }
        self.0 = write_field(self.0 as u64, 8, 4, v as u64) as u16;
    }

    /// Storage segment (0 for gates).
    #[verifier::allow_in_spec]
    pub fn s(&self) -> bool
        returns
            get_flag(self.0 as u64, 12),
    {
        read_flag(self.0 as u64, 12)
    }

    /// Returns a copy with `s` set to `v`.
    #[verifier::allow_in_spec]
    pub fn with_s(self, v: bool) -> Self
        returns
            IdtGateAttr(set_flag(self.0 as u64, 12, v) as u16),
    {
        proof {
            lemma_set_flag_fits_u16(self.0 as u64, 12, v);
        }
        IdtGateAttr(write_flag(self.0 as u64, 12, v) as u16)
    }

    /// Sets `s` to `v`.
    pub fn set_s(&mut self, v: bool)
        ensures
            final(self).0 == set_flag(old(self).0 as u64, 12, v) as u16,
    {
        proof {
            lemma_set_flag_fits_u16(self.0 as u64, 12, v);
        }
        self.0 = write_flag(self.0 as u64, 12, v) as u16;
    }

    /// Privilege level needed to invoke the entry with `int`.
    #[verifier::allow_in_spec]
    pub fn dpl(&self) -> u8
        returns
            get_field(self.0 as u64, 13, 2) as u8,
    {
        proof {
            lemma_field_fits(self.0 as u64, 13, 2);
        }
        read_field(self.0 as u64, 13, 2) as u8
    }

    /// Returns a copy with `dpl` set to `v` (which must fit in 2 bits).
    pub fn with_dpl(self, v: u8) -> (r: Self)
        requires
            v < 0x4,
        ensures
            r.0 == set_field(self.0 as u64, 13, 2, v as u64) as u16,
    {
        proof {
            lemma_masks();
            lemma_set_field_fits_u16(self.0 as u64, 13, 2, v as u64);
        }
        IdtGateAttr(write_field(self.0 as u64, 13, 2, v as u64) as u16)
    }

    /// Sets `dpl` to `v` (which must fit in 2 bits).
    pub fn set_dpl(&mut self, v: u8)
        requires
            v < 0x4,
        ensures
            final(self).0 == set_field(old(self).0 as u64, 13, 2, v as u64) as u16,
    {
        proof {
            lemma_masks();
            lemma_set_field_fits_u16(self.0 as u64, 13, 2, v as u64);
        }
        self.0 = write_field(self.0 as u64, 13, 2, v as u64) as u16;
    }

    /// Present.
    #[verifier::allow_in_spec]
    pub fn present(&self) -> bool
        returns
            get_flag(self.0 as u64, 15),
    {
        read_flag(self.0 as u64, 15)
    }

    /// Returns a copy with `present` set to `v`.
    #[verifier::allow_in_spec]
    pub fn with_present(self, v: bool) -> Self
        returns
            IdtGateAttr(set_flag(self.0 as u64, 15, v) as u16),
    {
        proof {
            lemma_set_flag_fits_u16(self.0 as u64, 15, v);
        }
        IdtGateAttr(write_flag(self.0 as u64, 15, v) as u16)
    }

    /// Sets `present` to `v`.
    pub fn set_present(&mut self, v: bool)
        ensures
            final(self).0 == set_flag(old(self).0 as u64, 15, v) as u16,
    {
        proof {
            lemma_set_flag_fits_u16(self.0 as u64, 15, v);
        }
        self.0 = write_flag(self.0 as u64, 15, v) as u16;
    }

}


impl IdtGateAttr {
    /// A 64-bit interrupt gate (type `0xE`, not present, DPL 0, no IST).
    pub fn interrupt_gate() -> (r: Self)
        ensures
            r.0 == 0x0E00,
    {
        let r = Self::new().with_typ(0xE).with_s(false);
        proof {
            lemma_gate_attrs(0);
        }
        r
    }

    /// A 64-bit trap gate (type `0xF`, not present, DPL 0, no IST).
    pub fn trap_gate() -> (r: Self)
        ensures
            r.0 == 0x0F00,
    {
        let r = Self::new().with_typ(0xF).with_s(false);
        proof {
            lemma_gate_attrs(0);
        }
        r
    }
}

/// The attribute words that the entry builders produce: the fresh
/// interrupt and trap types, and the present interrupt gates of the
/// kernel's vectors (DPL 0 or 3, IST slot `i`).
pub proof fn lemma_gate_attrs(i: u16)
    by (bit_vector)
    ensures
        (set_flag((set_field(0u64, 8, 4, 0xEu64) as u16) as u64, 12, false) as u16) == 0x0E00u16,
        (set_flag((set_field(0u64, 8, 4, 0xFu64) as u16) as u64, 12, false) as u16) == 0x0F00u16,
        (set_field((set_field((set_flag(0x0E00u64, 15, false) as u16) as u64, 13, 2, 0u64) as u16)
            as u64, 0, 3, 0u64) as u16) == 0x0E00u16,
        i <= 7 ==> (((((0x0E00u16 | 0x8000) & 0xFFF8) | i) & 0xE0FF) | 0x0E00) == (0x8E00u16 | (0u16
            << 13u16) | i),
        i <= 7 ==> (((((((0x0E00u16 | 0x8000) & 0xE0FF) | 0x0E00) & 0xFFF8) | i) & 0x9FFF) | (0u16
            << 13u16)) == (0x8E00u16 | (0u16 << 13u16) | i),
        ((((0x0E00u16 | 0x8000) & 0x9FFF) | (3u16 << 13u16)) & 0xE0FF) | 0x0E00 == (0x8E00u16 | (3u16
            << 13u16) | 0u16),
        ((((0x0E00u16 | 0x8000) & 0x9FFF) | (0u16 << 13u16)) & 0xE0FF) | 0x0E00 == (0x8E00u16 | (0u16
            << 13u16) | 0u16),
        ((0x0E00u16 | 0x8000) & 0xE0FF) | 0x0E00 == (0x8E00u16 | (0u16 << 13u16) | 0u16),
{
}

/// The attributes word of a present interrupt gate with privilege level
/// `dpl` and IST slot `ist`.
pub open spec fn gate_attr(dpl: u16, ist: u16) -> u16 {
    (0x8E00u16 | (dpl << 13u16) | ist) as u16
}

/// One 16-byte IDT gate.
#[derive(Copy, Clone, Debug, PartialEq, Eq, Structural)]
pub struct IdtEntry {
    pub offset_lo: u16,
    pub selector: u16,
    pub ist_type: u16,
    pub offset_mid: u16,
    pub offset_hi: u32,
    pub zero: u32,
}

/// The entry kinds a builder can set.
#[derive(Copy, Clone, Eq, PartialEq, Debug, Structural)]
pub enum GateType {
    /// Interrupts stay disabled in the handler.
    InterruptGate,
    /// Interrupts stay enabled in the handler.
    TrapGate,
}

/// The entry for a handler at `addr` with code selector `sel` and
/// attributes `attr`.
pub open spec fn gate_entry(addr: u64, sel: u16, attr: u16) -> IdtEntry {
    IdtEntry {
        offset_lo: (addr & 0xFFFF) as u16,
        selector: sel,
        ist_type: attr,
        offset_mid: ((addr >> 16u64) & 0xFFFF) as u16,
        offset_hi: (addr >> 32u64) as u32,
        zero: 0,
    }
}

impl IdtEntry {
    /// An absent gate: all zero but the attributes of a fresh
    /// [`IdtGateAttr`].
    #[verifier::allow_in_spec]
    pub fn missing() -> Self
        returns
            (IdtEntry { offset_lo: 0, selector: 0, ist_type: 0, offset_mid: 0, offset_hi: 0, zero: 0 }),
    {
        IdtEntry { offset_lo: 0, selector: 0, ist_type: 0, offset_mid: 0, offset_hi: 0, zero: 0 }
    }

    /// Points the entry at the handler at `handler_addr`, running with the
    /// code selector `cs` (the one in use when the entry is written), as a
    /// non-present DPL-0 interrupt gate without IST; returns a builder for
    /// the rest.
    pub fn set_handler(self, handler_addr: u64, cs: u16) -> (r: IdtEntryBuilder)
        ensures
            r.entry == gate_entry(handler_addr, cs, 0x0E00),
    {
        let attr = IdtGateAttr::interrupt_gate().with_present(false).with_dpl(0).with_ist(0);
        proof {
            lemma_gate_attrs(0);
        }
        IdtEntryBuilder {
            entry: IdtEntry {
                offset_lo: (handler_addr & 0xFFFF) as u16,
                selector: cs,
                ist_type: attr.into_bits(),
                offset_mid: ((handler_addr >> 16u64) & 0xFFFF) as u16,
                offset_hi: (handler_addr >> 32u64) as u32,
                zero: self.zero,
            },
        }
        .zeroed()
    }
}

/// Fills in a gate step by step; [`IdtEntryBuilder::build`] gives the entry.
#[derive(Copy, Clone, Debug)]
pub struct IdtEntryBuilder {
    pub entry: IdtEntry,
}

impl IdtEntryBuilder {
    /// Clears the reserved word.
    fn zeroed(self) -> (r: Self)
        ensures
            r.entry == (IdtEntry { zero: 0, ..self.entry }),
    {
        IdtEntryBuilder { entry: IdtEntry { zero: 0, ..self.entry } }
    }

    /// Marks the entry present or not.
    pub fn present(self, p: bool) -> (r: Self)
        ensures
            r.entry == (IdtEntry {
                ist_type: if p {
                    self.entry.ist_type | 0x8000
                } else {
                    self.entry.ist_type & 0x7FFF
                },
                ..self.entry
            }),
    {
        let t = self.entry.ist_type;
        IdtEntryBuilder {
            entry: IdtEntry {
                ist_type: if p {
                    t | 0x8000
                } else {
                    t & 0x7FFF
                },
                ..self.entry
            },
        }
    }

    /// Sets the privilege level needed to invoke the entry with `int`.
    pub fn dpl(self, dpl: u8) -> (r: Self)
        requires
            dpl <= 3,
        ensures
            r.entry == (IdtEntry {
                ist_type: ((self.entry.ist_type & 0x9FFF) | ((dpl as u16) << 13u16)) as u16,
                ..self.entry
            }),
    {
        let t = self.entry.ist_type;
        IdtEntryBuilder {
            entry: IdtEntry { ist_type: (t & 0x9FFF) | ((dpl as u16) << 13u16), ..self.entry },
        }
    }

    /// Makes the entry callable from user mode (DPL 3).
    pub fn user_callable(self) -> (r: Self)
        ensures
            r.entry == (IdtEntry {
                ist_type: ((self.entry.ist_type & 0x9FFF) | (3u16 << 13u16)) as u16,
                ..self.entry
            }),
    {
        self.dpl(3)
    }

    /// Makes the entry reachable from the kernel only (DPL 0).
    pub fn kernel_only(self) -> (r: Self)
        ensures
            r.entry == (IdtEntry {
                ist_type: ((self.entry.ist_type & 0x9FFF) | (0u16 << 13u16)) as u16,
                ..self.entry
            }),
    {
        self.dpl(0)
    }

    /// Makes the entry an interrupt gate (type `0xE`).
    pub fn gate_interrupt(self) -> (r: Self)
        ensures
            r.entry == (IdtEntry { ist_type: (self.entry.ist_type & 0xE0FF) | 0x0E00, ..self.entry }),
    {
        let t = self.entry.ist_type;
        IdtEntryBuilder { entry: IdtEntry { ist_type: (t & 0xE0FF) | 0x0E00, ..self.entry } }
    }

    /// Makes the entry a trap gate (type `0xF`).
    pub fn gate_trap(self) -> (r: Self)
        ensures
            r.entry == (IdtEntry { ist_type: (self.entry.ist_type & 0xE0FF) | 0x0F00, ..self.entry }),
    {
        let t = self.entry.ist_type;
        IdtEntryBuilder { entry: IdtEntry { ist_type: (t & 0xE0FF) | 0x0F00, ..self.entry } }
    }

    /// Sets the entry type.
    pub fn gate_type(self, gate_type: GateType) -> (r: Self)
        ensures
            r.entry == (IdtEntry {
                ist_type: (self.entry.ist_type & 0xE0FF) | match gate_type {
                    GateType::InterruptGate => 0x0E00u16,
                    GateType::TrapGate => 0x0F00u16,
                },
                ..self.entry
            }),
    {
        match gate_type {
            GateType::InterruptGate => self.gate_interrupt(),
            GateType::TrapGate => self.gate_trap(),
        }
    }

    /// Sets the IST slot (0 = no stack switch).
    pub fn ist(self, idx: u8) -> (r: Self)
        requires
            idx <= 7,
        ensures
            r.entry == (IdtEntry { ist_type: (self.entry.ist_type & 0xFFF8) | (idx as u16), ..self.entry }),
    {
        let t = self.entry.ist_type;
        IdtEntryBuilder { entry: IdtEntry { ist_type: (t & 0xFFF8) | (idx as u16), ..self.entry } }
    }

    /// Sets the code selector the handler runs with.
    pub fn selector(self, sel: u16) -> (r: Self)
        ensures
            r.entry == (IdtEntry { selector: sel, ..self.entry }),
    {
        IdtEntryBuilder { entry: IdtEntry { selector: sel, ..self.entry } }
    }

    /// The finished gate.
    pub fn build(self) -> (r: IdtEntry)
        ensures
            r == self.entry,
    {
        self.entry
    }
}

/// The number of gates.
pub const IDT_ENTRIES: usize = 256;

/// The interrupt descriptor table: 256 gates.
pub struct Idt {
    entries: [IdtEntry; 256],
}

impl View for Idt {
    type V = Seq<IdtEntry>;

    closed spec fn view(&self) -> Seq<IdtEntry> {
        self.entries@
    }
}

impl Idt {
    /// The table always holds 256 gates.
    pub proof fn lemma_len(&self)
        ensures
            self@.len() == IDT_ENTRIES,
    {
    }

    /// A table of 256 absent gates.
    pub fn new() -> (r: Self)
        ensures
            r@.len() == IDT_ENTRIES,
            forall|i: int| 0 <= i < 256 ==> #[trigger] r@[i] == IdtEntry::missing(),
    {
        Idt { entries: [IdtEntry::missing(); 256] }
    }

    /// Gate `i`.
    pub fn get(&self, i: usize) -> (r: IdtEntry)
        requires
            i < IDT_ENTRIES,
        ensures
            r == self@[i as int],
    {
        self.entries[i]
    }

    /// Replaces gate `i` with `e`.
    pub fn set(&mut self, i: usize, e: IdtEntry)
        requires
            i < IDT_ENTRIES,
        ensures
            final(self)@ == old(self)@.update(i as int, e),
    {
        self.entries[i] = e;
    }
}

impl Default for Idt {
    fn default() -> (r: Self)
        ensures
            forall|i: int| 0 <= i < 256 ==> #[trigger] r@[i] == IdtEntry::missing(),
    {
        Self::new()
    }
}

} // verus!
