//! # Page faults: the error code and its gate

use crate::kernel::gdt::KERNEL_CS;
use crate::kernel::interrupts::ist::{ist_bits, Ist};
use crate::kernel::interrupts::{gate_attr, gate_entry, GateType, Idt, IdtEntry};
use crate::bitfield::{
    get_field, get_flag, lemma_field_fits, lemma_masks, read_field, read_flag, set_field, set_flag, write_field, write_flag,
};
use vstd::prelude::*;

verus! {

/// The page-fault vector.
pub const PAGE_FAULT_VECTOR: usize = 0x0E;

/// The error code the CPU pushes for a page fault.
#[derive(Copy, Clone, Debug, PartialEq, Eq)]
pub struct PageFaultError(pub u64);

impl PageFaultError {
    /// Creates a value with every field at its default.
    pub fn new() -> (r: Self)
        ensures
            r.0 == 0x0,
    {
        PageFaultError(0x0)
    }

    /// Wraps raw bits (no validation).
    #[verifier::allow_in_spec]
    pub fn from_bits(bits: u64) -> Self
        returns
            PageFaultError(bits),
    {
        PageFaultError(bits)
    }

    /// The raw bits.
    #[verifier::allow_in_spec]
    pub fn into_bits(self) -> u64
        returns
            self.0,
    {
        self.0
    }

    /// The fault was a protection violation on a present page (0: page not present).
    #[verifier::allow_in_spec]
    pub fn present(&self) -> bool
        returns
            get_flag(self.0, 0),
    {
        read_flag(self.0, 0)
    }

    /// Returns a copy with `present` set to `v`.
    #[verifier::allow_in_spec]
    pub fn with_present(self, v: bool) -> Self
        returns
            PageFaultError(set_flag(self.0, 0, v)),
    {
        PageFaultError(write_flag(self.0, 0, v))
    }

    /// Sets `present` to `v`.
    pub fn set_present(&mut self, v: bool)
        ensures
            final(self).0 == set_flag(old(self).0, 0, v),
    {
        self.0 = write_flag(self.0, 0, v);
    }

    /// The access was a write.
    #[verifier::allow_in_spec]
    pub fn write(&self) -> bool
        returns
            get_flag(self.0, 1),
    {
        read_flag(self.0, 1)
    }

    /// Returns a copy with `write` set to `v`.
    #[verifier::allow_in_spec]
    pub fn with_write(self, v: bool) -> Self
        returns
            PageFaultError(set_flag(self.0, 1, v)),
    {
        PageFaultError(write_flag(self.0, 1, v))
    }

    /// Sets `write` to `v`.
    pub fn set_write(&mut self, v: bool)
        ensures
            final(self).0 == set_flag(old(self).0, 1, v),
    {
        self.0 = write_flag(self.0, 1, v);
    }

    /// The access came from user mode.
    #[verifier::allow_in_spec]
    pub fn user(&self) -> bool
        returns
            get_flag(self.0, 2),
    {
        read_flag(self.0, 2)
    }

    /// Returns a copy with `user` set to `v`.
    #[verifier::allow_in_spec]
    pub fn with_user(self, v: bool) -> Self
        returns
            PageFaultError(set_flag(self.0, 2, v)),
    {
        PageFaultError(write_flag(self.0, 2, v))
    }

    /// Sets `user` to `v`.
    pub fn set_user(&mut self, v: bool)
        ensures
            final(self).0 == set_flag(old(self).0, 2, v),
    {
        self.0 = write_flag(self.0, 2, v);
    }

    /// A reserved bit was set in a paging entry.
    #[verifier::allow_in_spec]
    pub fn reserved_bit(&self) -> bool
        returns
            get_flag(self.0, 3),
    {
        read_flag(self.0, 3)
    }

    /// Returns a copy with `reserved_bit` set to `v`.
    #[verifier::allow_in_spec]
    pub fn with_reserved_bit(self, v: bool) -> Self
        returns
            PageFaultError(set_flag(self.0, 3, v)),
    {
        PageFaultError(write_flag(self.0, 3, v))
    }

    /// Sets `reserved_bit` to `v`.
    pub fn set_reserved_bit(&mut self, v: bool)
        ensures
            final(self).0 == set_flag(old(self).0, 3, v),
    {
        self.0 = write_flag(self.0, 3, v);
    }

    /// The access was an instruction fetch.
    #[verifier::allow_in_spec]
    pub fn instruction_fetch(&self) -> bool
        returns
            get_flag(self.0, 4),
    {
        read_flag(self.0, 4)
    }

    /// Returns a copy with `instruction_fetch` set to `v`.
    #[verifier::allow_in_spec]
    pub fn with_instruction_fetch(self, v: bool) -> Self
        returns
            PageFaultError(set_flag(self.0, 4, v)),
    {
        PageFaultError(write_flag(self.0, 4, v))
    }

    /// Sets `instruction_fetch` to `v`.
    pub fn set_instruction_fetch(&mut self, v: bool)
        ensures
            final(self).0 == set_flag(old(self).0, 4, v),
    {
        self.0 = write_flag(self.0, 4, v);
    }

    /// A protection-key violation.
    #[verifier::allow_in_spec]
    pub fn protection_key(&self) -> bool
        returns
            get_flag(self.0, 5),
    {
        read_flag(self.0, 5)
    }

    /// Returns a copy with `protection_key` set to `v`.
    #[verifier::allow_in_spec]
    pub fn with_protection_key(self, v: bool) -> Self
        returns
            PageFaultError(set_flag(self.0, 5, v)),
    {
        PageFaultError(write_flag(self.0, 5, v))
    }

    /// Sets `protection_key` to `v`.
    pub fn set_protection_key(&mut self, v: bool)
        ensures
            final(self).0 == set_flag(old(self).0, 5, v),
    {
        self.0 = write_flag(self.0, 5, v);
    }

    /// A shadow-stack access.
    #[verifier::allow_in_spec]
    pub fn shadow_stack(&self) -> bool
        returns
            get_flag(self.0, 6),
    {
        read_flag(self.0, 6)
    }

    /// Returns a copy with `shadow_stack` set to `v`.
    #[verifier::allow_in_spec]
    pub fn with_shadow_stack(self, v: bool) -> Self
        returns
            PageFaultError(set_flag(self.0, 6, v)),
    {
        PageFaultError(write_flag(self.0, 6, v))
    }

    /// Sets `shadow_stack` to `v`.
    pub fn set_shadow_stack(&mut self, v: bool)
        ensures
            final(self).0 == set_flag(old(self).0, 6, v),
    {
        self.0 = write_flag(self.0, 6, v);
    }

}


impl PageFaultError {
    /// A one-line reading of the error code.
    pub fn explain(&self) -> (r: &'static str)
        ensures
            r@ == if !self.present() {
                "Non-present page (page not mapped or swapped out)"@
            } else if self.instruction_fetch() {
                if self.user() {
                    "User-mode instruction fetch on protected page (likely NX or SMEP)"@
                } else {
                    "Kernel instruction fetch on protected page"@
                }
            } else if self.write() {
                "Write access to protected page"@
            } else {
                "Read access to protected page"@
            },
    {
        if !self.present() {
            "Non-present page (page not mapped or swapped out)"
        } else if self.instruction_fetch() {
            if self.user() {
                "User-mode instruction fetch on protected page (likely NX or SMEP)"
            } else {
                "Kernel instruction fetch on protected page"
            }
        } else if self.write() {
            "Write access to protected page"
        } else {
            "Read access to protected page"
        }
    }
}

/// Installs the page-fault gate.
pub trait PageFaultInterrupt {
    /// Points the page-fault vector at the handler at `handler` on IST
    /// slot `ist`: a present DPL-0 interrupt gate on the kernel code
    /// selector.
    fn init_page_fault_gate_ist(&mut self, handler: u64, ist: Ist);
}

impl PageFaultInterrupt for Idt {
    fn init_page_fault_gate_ist(&mut self, handler: u64, ist: Ist)
        ensures
            final(self)@ == old(self)@.update(
                PAGE_FAULT_VECTOR as int,
                gate_entry(handler, KERNEL_CS, gate_attr(0, ist_bits(ist) as u16)),
            ),
    {
        let g = ist.gate_index();
        let e = self.get(PAGE_FAULT_VECTOR).set_handler(handler, KERNEL_CS).selector(KERNEL_CS).present(
            true,
        ).ist(g).gate_type(GateType::InterruptGate).build();
        proof {
            self.lemma_len();
            let i = g as u16;
            crate::kernel::interrupts::lemma_gate_attrs(i);
        }
        self.set(PAGE_FAULT_VECTOR, e);
    }
}

} // verus!
