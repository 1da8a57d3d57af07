//! # Per-CPU stack layout
//!
//! Each CPU gets a kernel stack and seven IST stacks in fixed virtual
//! windows, each window starting with an unmapped 4 KiB guard page.

pub mod ist_stacks;
pub mod kernel_stacks;
pub mod stack;
