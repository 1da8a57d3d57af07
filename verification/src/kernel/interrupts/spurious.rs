//! # Spurious APIC interrupt

use crate::kernel::gdt::KERNEL_CS;
use crate::kernel::interrupts::{gate_attr, gate_entry, GateType, Idt};
use vstd::prelude::*;

verus! {

/// The spurious-interrupt vector.
pub const SPURIOUS_INTERRUPT_VECTOR: u8 = 0xFF;

/// Installs the spurious-interrupt gate.
pub trait SpuriousInterrupt {
    /// Points the spurious-interrupt vector at the handler at `handler`: a present DPL-0 interrupt gate on the kernel code selector.
    fn init_spurious_interrupt_gate(&mut self, handler: u64);
}

impl SpuriousInterrupt for Idt {
    fn init_spurious_interrupt_gate(&mut self, handler: u64)
        ensures
            final(self)@ == old(self)@.update(
                SPURIOUS_INTERRUPT_VECTOR as int,
                gate_entry(handler, KERNEL_CS, gate_attr(0, 0)),
            ),
    {
        let e = self.get(SPURIOUS_INTERRUPT_VECTOR as usize).set_handler(handler, KERNEL_CS).selector(KERNEL_CS).present(true).gate_type(GateType::InterruptGate).build();
        proof {
            self.lemma_len();
            assert(((0x0E00u16 | 0x8000) & 0xE0FF) | 0x0E00 == (0x8E00u16 | (0u16 << 13u16) | 0u16)) by (bit_vector);
        }
        self.set(SPURIOUS_INTERRUPT_VECTOR as usize, e);
    }
}

} // verus!
