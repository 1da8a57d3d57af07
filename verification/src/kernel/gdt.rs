//! # Global Descriptor Table
//!
//! The kernel's GDT layout: null, kernel code, kernel data, user data, user
//! code, and the two-slot TSS descriptor, with the selectors that go with
//! it. User data comes before user code so that `SYSRET` finds them.

pub mod descriptors;
pub mod selectors;
pub mod tss_desc;

use crate::addresses::VirtualAddress;
use crate::kernel::gdt::descriptors::{code_desc, data_desc, Desc64};
use crate::kernel::gdt::selectors::{selector_bits, CodeSel, DataSel, SegmentSelector, Table, TssSel};
use crate::kernel::gdt::tss_desc::TssDesc64;
use crate::kernel::privilege::{Dpl, Rpl};
use vstd::prelude::*;

verus! {

/// The kernel code selector (slot 1, RPL 0).
pub const KERNEL_CS: u16 = 0x08;

/// The kernel data selector (slot 2, RPL 0).
pub const KERNEL_DS: u16 = 0x10;

/// The user data selector (slot 3, RPL 3).
pub const USER_DS: u16 = 0x1b;

/// The user code selector (slot 4, RPL 3).
pub const USER_CS: u16 = 0x23;

/// The TSS selector (slots 5 and 6, RPL 0).
pub const TSS_SEL: u16 = 0x28;

/// The encodings of the kernel's selectors, and the fields of a TSS
/// descriptor for base 0 and limit 0.
proof fn lemma_selector_encodings()
    by (bit_vector)
    ensures
        ((1u16 << 3u16) | (0u16 << 2u16) | 0u16) as u16 == 0x08u16,
        ((2u16 << 3u16) | (0u16 << 2u16) | 0u16) as u16 == 0x10u16,
        ((3u16 << 3u16) | (0u16 << 2u16) | 3u16) as u16 == 0x1bu16,
        ((4u16 << 3u16) | (0u16 << 2u16) | 3u16) as u16 == 0x23u16,
        ((5u16 << 3u16) | (0u16 << 2u16) | 0u16) as u16 == 0x28u16,
        (0u32 & 0xFFFF) as u16 == 0 && ((0u32 >> 16u32) & 0xF) as u8 == 0,
        (0u64 & 0xFFFF) as u16 == 0 && ((0u64 >> 16u64) & 0xFF) as u8 == 0 && ((0u64 >> 24u64)
            & 0xFF) as u8 == 0 && (0u64 >> 32u64) as u32 == 0,
{
}

/// The kernel code selector.
pub fn kernel_cs_sel() -> (r: SegmentSelector<CodeSel>)
    ensures
        r.bits() == selector_bits(1, Table::Gdt, Rpl::Ring0),
        r.bits() == KERNEL_CS,
{
    proof {
        lemma_selector_encodings();
    }
    SegmentSelector::<CodeSel>::new(1, Rpl::Ring0)
}

/// The kernel data selector.
pub fn kernel_ds_sel() -> (r: SegmentSelector<DataSel>)
    ensures
        r.bits() == selector_bits(2, Table::Gdt, Rpl::Ring0),
        r.bits() == KERNEL_DS,
{
    proof {
        lemma_selector_encodings();
    }
    SegmentSelector::<DataSel>::new(2, Rpl::Ring0)
}

/// The user data selector.
pub fn user_ds_sel() -> (r: SegmentSelector<DataSel>)
    ensures
        r.bits() == selector_bits(3, Table::Gdt, Rpl::Ring3),
        r.bits() == USER_DS,
{
    proof {
        lemma_selector_encodings();
    }
    SegmentSelector::<DataSel>::new(3, Rpl::Ring3)
}

/// The user code selector.
pub fn user_cs_sel() -> (r: SegmentSelector<CodeSel>)
    ensures
        r.bits() == selector_bits(4, Table::Gdt, Rpl::Ring3),
        r.bits() == USER_CS,
{
    proof {
        lemma_selector_encodings();
    }
    SegmentSelector::<CodeSel>::new(4, Rpl::Ring3)
}

/// The TSS selector.
pub fn tss_sys_sel() -> (r: SegmentSelector<TssSel>)
    ensures
        r.bits() == selector_bits(5, Table::Gdt, Rpl::Ring0),
        r.bits() == TSS_SEL,
{
    proof {
        lemma_selector_encodings();
    }
    SegmentSelector::<TssSel>::new(5)
}

/// The selectors of the kernel's GDT.
pub struct Selectors {
    pub kernel_cs: SegmentSelector<CodeSel>,
    pub kernel_ds: SegmentSelector<DataSel>,
    pub user_ds: SegmentSelector<DataSel>,
    pub user_cs: SegmentSelector<CodeSel>,
    pub tss: SegmentSelector<TssSel>,
}

impl Selectors {
    /// The selectors of the layout of [`Gdt::new_with_tss`].
    pub fn new() -> (r: Self)
        ensures
            r.kernel_cs.bits() == KERNEL_CS,
            r.kernel_ds.bits() == KERNEL_DS,
            r.user_ds.bits() == USER_DS,
            r.user_cs.bits() == USER_CS,
            r.tss.bits() == TSS_SEL,
    {
        Selectors {
            kernel_cs: kernel_cs_sel(),
            kernel_ds: kernel_ds_sel(),
            user_ds: user_ds_sel(),
            user_cs: user_cs_sel(),
            tss: tss_sys_sel(),
        }
    }
}

impl Default for Selectors {
    fn default() -> (r: Self)
        ensures
            r.kernel_cs.bits() == KERNEL_CS,
            r.kernel_ds.bits() == KERNEL_DS,
            r.user_ds.bits() == USER_DS,
            r.user_cs.bits() == USER_CS,
            r.tss.bits() == TSS_SEL,
    {
        Self::new()
    }
}

/// The kernel's GDT: null, kernel code, kernel data, user data, user code,
/// TSS.
#[derive(Copy, Clone)]
pub struct Gdt {
    pub null: Desc64,
    pub kcode: Desc64,
    pub kdata: Desc64,
    pub udata: Desc64,
    pub ucode: Desc64,
    pub tss: TssDesc64,
}

impl Gdt {
    /// The GDT with the given TSS descriptor.
    pub fn new_with_tss(tss: TssDesc64) -> (r: Self)
        ensures
            r.null.0 == 0,
            r.kcode.0 == code_desc(0),
            r.kdata.0 == data_desc(0),
            r.udata.0 == data_desc(3),
            r.ucode.0 == code_desc(3),
            r.tss == tss,
    {
        Gdt {
            null: Desc64(0),
            kcode: Desc64::from_code_dpl(Dpl::Ring0.into_bits()),
            kdata: Desc64::from_data_dpl(Dpl::Ring0.into_bits()),
            udata: Desc64::from_data_dpl(Dpl::Ring3.into_bits()),
            ucode: Desc64::from_code_dpl(Dpl::Ring3.into_bits()),
            tss,
        }
    }

    /// The GDT with an empty TSS descriptor (base 0, limit 0).
    pub fn new() -> (r: Self)
        ensures
            r.null.0 == 0,
            r.kcode.0 == code_desc(0),
            r.kdata.0 == data_desc(0),
            r.udata.0 == data_desc(3),
            r.ucode.0 == code_desc(3),
            r.tss.low.p() && r.tss.low.typ() == 0x9,
            r.tss.low.base_lo() == 0 && r.tss.low.base_mid() == 0 && r.tss.low.base_hi() == 0
                && r.tss.high.base_upper() == 0,
            r.tss.low.limit_lo() == 0 && r.tss.low.limit_hi() == 0,
    {
        proof {
            lemma_selector_encodings();
        }
        Self::new_with_tss(TssDesc64::new(VirtualAddress::zero(), 0))
    }
}

} // verus!
