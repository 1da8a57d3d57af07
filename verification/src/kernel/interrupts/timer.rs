//! # Local APIC timer

use crate::kernel::gdt::KERNEL_CS;
use crate::kernel::interrupts::{gate_attr, gate_entry, GateType, Idt};
use vstd::prelude::*;

verus! {

/// The local APIC timer vector.
pub const LAPIC_TIMER_VECTOR: u8 = 0xE0;

/// Installs the timer gate.
pub trait TimerInterrupt {
    /// Points the timer vector at the handler at `handler`: a present interrupt gate on the kernel code selector, kernel only (DPL 0).
    fn init_timer_gate(&mut self, handler: u64);
}

impl TimerInterrupt for Idt {
    fn init_timer_gate(&mut self, handler: u64)
        ensures
            final(self)@ == old(self)@.update(
                LAPIC_TIMER_VECTOR as int,
                gate_entry(handler, KERNEL_CS, gate_attr(0, 0)),
            ),
    {
        let e = self.get(LAPIC_TIMER_VECTOR as usize).set_handler(handler, KERNEL_CS).selector(KERNEL_CS).present(true).kernel_only().gate_type(GateType::InterruptGate).build();
        proof {
            self.lemma_len();
            assert(((((0x0E00u16 | 0x8000) & 0x9FFF) | (0u16 << 13u16)) & 0xE0FF) | 0x0E00 == (0x8E00u16 | (0u16 << 13u16) | 0u16)) by (bit_vector);
        }
        self.set(LAPIC_TIMER_VECTOR as usize, e);
    }
}

} // verus!
