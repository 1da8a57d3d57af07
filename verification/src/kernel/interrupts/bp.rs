//! # Breakpoint (`int3`)

use crate::kernel::gdt::KERNEL_CS;
use crate::kernel::interrupts::{gate_attr, gate_entry, GateType, Idt};
use vstd::prelude::*;

verus! {

/// The breakpoint vector.
pub const BP_VECTOR: usize = 0x03;

/// Installs the breakpoint gate.
pub trait BreakpointInterrupt {
    /// Points the breakpoint vector at the handler at `handler`: a present interrupt gate on the kernel code selector that user mode may invoke (DPL 3).
    fn init_breakpoint_gate(&mut self, handler: u64);
}

impl BreakpointInterrupt for Idt {
    fn init_breakpoint_gate(&mut self, handler: u64)
        ensures
            final(self)@ == old(self)@.update(
                BP_VECTOR as int,
                gate_entry(handler, KERNEL_CS, gate_attr(3, 0)),
            ),
    {
        let e = self.get(BP_VECTOR as usize).set_handler(handler, KERNEL_CS).selector(KERNEL_CS).present(true).user_callable().gate_type(GateType::InterruptGate).build();
        proof {
            self.lemma_len();
            assert(((((0x0E00u16 | 0x8000) & 0x9FFF) | (3u16 << 13u16)) & 0xE0FF) | 0x0E00 == (0x8E00u16 | (3u16 << 13u16) | 0u16)) by (bit_vector);
        }
        self.set(BP_VECTOR as usize, e);
    }
}

} // verus!
