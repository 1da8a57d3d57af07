//! # Double fault

use crate::kernel::gdt::KERNEL_CS;
use crate::kernel::interrupts::ist::{ist_bits, Ist};
use crate::kernel::interrupts::{gate_attr, gate_entry, GateType, Idt};
use vstd::prelude::*;

verus! {

/// The double-fault vector.
pub const DF_VECTOR: usize = 0x08;

/// Installs the double-fault gate.
pub trait DfInterrupt {
    /// Points the double-fault vector at the handler at `handler` on IST slot `ist` (which must be a clean stack): a present DPL-0 interrupt gate on the kernel code selector.
    fn init_df_gate_ist(&mut self, handler: u64, ist: Ist);
}

impl DfInterrupt for Idt {
    fn init_df_gate_ist(&mut self, handler: u64, ist: Ist)
        ensures
            final(self)@ == old(self)@.update(
                DF_VECTOR as int,
                gate_entry(handler, KERNEL_CS, gate_attr(0, ist_bits(ist) as u16)),
            ),
    {
        let g = ist.gate_index();
        let e = self.get(DF_VECTOR as usize).set_handler(handler, KERNEL_CS).selector(KERNEL_CS).present(true).gate_type(GateType::InterruptGate).ist(g).dpl(0).build();
        proof {
            self.lemma_len();
            let i = g as u16;
            crate::kernel::interrupts::lemma_gate_attrs(i);
        }
        self.set(DF_VECTOR as usize, e);
    }
}

} // verus!
