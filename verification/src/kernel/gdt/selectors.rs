//! # Segment selectors
//!
//! A selector is `index << 3 | TI << 2 | RPL`: the descriptor's slot, the
//! table (GDT or LDT) and the requested privilege level. The selector types
//! carry the kind of descriptor they select.

use crate::kernel::privilege::{ring_bits, Rpl};
use core::marker::PhantomData;
use vstd::prelude::*;

verus! {

/// The descriptor table a selector refers to.
#[derive(Copy, Clone, Debug, PartialEq, Eq, Structural)]
pub enum Table {
    /// The global descriptor table.
    Gdt,
    /// The local descriptor table.
    Ldt,
}

impl Table {
    /// The table of a selector's TI bit.
    #[verifier::allow_in_spec]
    pub fn from_bits(bits: u8) -> Self
        returns
            if bits == 0 {
                Table::Gdt
            } else {
                Table::Ldt
            },
    {
        if bits == 0 {
            Table::Gdt
        } else {
            Table::Ldt
        }
    }

    /// The TI bit.
    #[verifier::allow_in_spec]
    pub fn into_bits(self) -> u8
        returns
            match self {
                Table::Gdt => 0u8,
                Table::Ldt => 1u8,
            },
    {
        match self {
            Table::Gdt => 0,
            Table::Ldt => 1,
        }
    }
}

/// The encoding of a selector for slot `index` of `table` with `rpl`.
pub open spec fn selector_bits(index: u16, table: Table, rpl: Rpl) -> u16 {
    ((index << 3u16) | ((table.into_bits() as u16) << 2u16) | (ring_bits(rpl) as u16)) as u16
}

/// The 16 bits of a segment selector.
#[derive(Copy, Clone, Debug, PartialEq, Eq, Structural)]
pub struct SegmentSelectorRaw(pub u16);

impl SegmentSelectorRaw {
    /// The null selector.
    pub fn new() -> Self
        returns
            SegmentSelectorRaw(0),
    {
        SegmentSelectorRaw(0)
    }

    /// Wraps raw bits.
    pub fn from_bits(bits: u16) -> Self
        returns
            SegmentSelectorRaw(bits),
    {
        SegmentSelectorRaw(bits)
    }

    /// The raw bits.
    #[verifier::allow_in_spec]
    pub fn into_bits(self) -> u16
        returns
            self.0,
    {
        self.0
    }

    /// The requested privilege level (bits 1..0).
    #[verifier::allow_in_spec]
    pub fn rpl(&self) -> Rpl
        returns
            Rpl::from_bits((self.0 & 3) as u8),
    {
        Rpl::from_bits((self.0 & 3) as u8)
    }

    /// The table (bit 2).
    #[verifier::allow_in_spec]
    pub fn ti(&self) -> Table
        returns
            Table::from_bits(((self.0 >> 2u16) & 1) as u8),
    {
        Table::from_bits(((self.0 >> 2u16) & 1) as u8)
    }

    /// The descriptor slot (bits 15..3).
    #[verifier::allow_in_spec]
    pub fn index(&self) -> u16
        returns
            self.0 >> 3u16,
    {
        self.0 >> 3u16
    }

    /// A copy with the requested privilege level `rpl`.
    pub fn with_rpl(self, rpl: Rpl) -> (r: Self)
        ensures
            r.0 == (self.0 & !3u16) | (ring_bits(rpl) as u16),
    {
        SegmentSelectorRaw((self.0 & !3u16) | (rpl.into_bits() as u16))
    }

    /// A copy with the table bit of `table`.
    pub fn with_ti(self, table: Table) -> (r: Self)
        ensures
            r.0 == (self.0 & !4u16) | ((table.into_bits() as u16) << 2u16),
    {
        SegmentSelectorRaw((self.0 & !4u16) | ((table.into_bits() as u16) << 2u16))
    }

    /// A copy that selects slot `index` (which must fit in 13 bits).
    pub fn with_index(self, index: u16) -> (r: Self)
        requires
            index < 0x2000,
        ensures
            r.0 == (self.0 & 7u16) | (index << 3u16),
    {
        SegmentSelectorRaw((self.0 & 7u16) | (index << 3u16))
    }

    /// The selector of slot `index` (which must fit in 13 bits) of `table`
    /// with `rpl`.
    pub fn new_with(index: u16, table: Table, rpl: Rpl) -> (r: Self)
        requires
            index < 0x2000,
        ensures
            r.0 == selector_bits(index, table, rpl),
            r.index() == index,
            r.ti() == table,
            r.rpl() == rpl,
    {
        let r = Self::new().with_index(index).with_ti(table).with_rpl(rpl);
        proof {
            let t = table.into_bits() as u16;
            let p = ring_bits(rpl) as u16;
            assert(t <= 1 && p <= 3);
            assert((((((0u16 & 7u16) | (index << 3u16)) & !4u16) | (t << 2u16)) & !3u16) | p == (index << 3u16) | (t << 2u16) | p
                && ((index << 3u16) | (t << 2u16) | p) >> 3u16 == index
                && (((index << 3u16) | (t << 2u16) | p) >> 2u16) & 1 == t
                && ((index << 3u16) | (t << 2u16) | p) & 3 == p) by (bit_vector)
                requires
                    index < 0x2000,
                    t <= 1,
                    p <= 3,
            ;
            assert(0u8 & 3 == 0 && 1u8 & 3 == 1 && 2u8 & 3 == 2 && 3u8 & 3 == 3) by (bit_vector);
            assert(Rpl::from_bits(ring_bits(rpl)) == rpl);
            assert(((((index << 3u16) | (t << 2u16) | p) & 3) as u8) == ring_bits(rpl));
        }
        r
    }

    /// The raw bits.
    pub fn to_u16(self) -> (r: u16)
        ensures
            r == self.0,
    {
        self.0
    }
}

/// The kinds of descriptors a selector can select.
pub trait SelectorKind: Copy {}

/// Selects a code descriptor.
#[derive(Copy, Clone, PartialEq, Eq)]
pub struct CodeSel;

/// Selects a data descriptor.
#[derive(Copy, Clone, PartialEq, Eq)]
pub struct DataSel;

/// Selects a TSS descriptor.
#[derive(Copy, Clone, PartialEq, Eq)]
pub struct TssSel;

impl SelectorKind for CodeSel {}

impl SelectorKind for DataSel {}

impl SelectorKind for TssSel {}

/// A selector for a descriptor of kind `K`.
#[derive(Copy)]
pub struct SegmentSelector<K: SelectorKind>(SegmentSelectorRaw, PhantomData<K>);

impl<K: SelectorKind> Clone for SegmentSelector<K> {
    fn clone(&self) -> (r: Self)
        ensures
            r == *self,
    {
        *self
    }
}

impl<K: SelectorKind> SegmentSelector<K> {
    /// The encoded selector.
    pub closed spec fn bits(self) -> u16 {
        self.0.0
    }

    /// The raw selector.
    pub fn raw(self) -> (r: SegmentSelectorRaw)
        ensures
            r.0 == self.bits(),
    {
        self.0
    }

    /// The encoded selector, as loaded into a segment register.
    pub fn encode(self) -> (r: u16)
        ensures
            r == self.bits(),
    {
        self.0.into_bits()
    }
}

impl SegmentSelector<CodeSel> {
    /// The selector of code descriptor `index` (13 bits) of the GDT with
    /// `rpl`.
    pub fn new(index: u16, rpl: Rpl) -> (r: Self)
        requires
            index < 0x2000,
        ensures
            r.bits() == selector_bits(index, Table::Gdt, rpl),
    {
        SegmentSelector(SegmentSelectorRaw::new_with(index, Table::Gdt, rpl), PhantomData)
    }
}

impl SegmentSelector<DataSel> {
    /// The selector of data descriptor `index` (13 bits) of the GDT with
    /// `rpl`.
    pub fn new(index: u16, rpl: Rpl) -> (r: Self)
        requires
            index < 0x2000,
        ensures
            r.bits() == selector_bits(index, Table::Gdt, rpl),
    {
        SegmentSelector(SegmentSelectorRaw::new_with(index, Table::Gdt, rpl), PhantomData)
    }
}

impl SegmentSelector<TssSel> {
    /// The selector of the TSS descriptor at `index` (13 bits) of the GDT,
    /// with RPL 0.
    pub fn new(index: u16) -> (r: Self)
        requires
            index < 0x2000,
        ensures
            r.bits() == selector_bits(index, Table::Gdt, Rpl::Ring0),
    {
        SegmentSelector(SegmentSelectorRaw::new_with(index, Table::Gdt, Rpl::Ring0), PhantomData)
    }
}

} // verus!
