//! # System calls (`int 0x80`)

use crate::kernel::gdt::KERNEL_CS;
use crate::kernel::interrupts::{gate_attr, gate_entry, GateType, Idt};
use vstd::prelude::*;

verus! {

/// The system-call vector.
pub const SYSCALL_VECTOR: usize = 0x80;

/// Installs the system-call gate.
pub trait SyscallInterrupt {
    /// Points the system-call vector at the handler at `handler`: a present interrupt gate on the kernel code selector that user mode may invoke (DPL 3).
    fn init_syscall_gate(&mut self, handler: u64);
}

impl SyscallInterrupt for Idt {
    fn init_syscall_gate(&mut self, handler: u64)
        ensures
            final(self)@ == old(self)@.update(
                SYSCALL_VECTOR as int,
                gate_entry(handler, KERNEL_CS, gate_attr(3, 0)),
            ),
    {
        let e = self.get(SYSCALL_VECTOR as usize).set_handler(handler, KERNEL_CS).selector(KERNEL_CS).present(true).user_callable().gate_type(GateType::InterruptGate).build();
        proof {
            self.lemma_len();
            assert(((((0x0E00u16 | 0x8000) & 0x9FFF) | (3u16 << 13u16)) & 0xE0FF) | 0x0E00 == (0x8E00u16 | (3u16 << 13u16) | 0u16)) by (bit_vector);
        }
        self.set(SYSCALL_VECTOR as usize, e);
    }
}

} // verus!
