use vstd::prelude::*;

pub mod address_space;
pub mod addresses;
pub mod bitfield;
pub mod bits;
pub mod kernel;
pub mod page_entry_bits;
pub mod page_table;
pub mod phys;
pub mod table2;

pub use crate::page_entry_bits::PageEntryBits;

verus! {

} // verus!
