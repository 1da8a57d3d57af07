//! # Kernel services built on the page tables
//!
//! The parts of the kernel that are pure logic: the heap allocator, the ELF
//! loader's parser, descriptor tables, CPUID decoding, per-CPU stack layout
//! and page-table diagnostics.

pub mod allocator;
pub mod apic;
pub mod elf;
pub mod vm_debug;
pub mod gdt;
pub mod privilege;
pub mod interrupts;
pub mod cpuid;
pub mod per_cpu;
pub mod framebuffer;
pub mod msr;
