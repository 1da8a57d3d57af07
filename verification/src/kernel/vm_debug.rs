//! # Page-table diagnostics and fix-ups
//!
//! Walks and patches the live tables through a [`PhysMapper`], starting
//! from the value of `CR3`, which the caller reads: a dump of the walk for
//! one address, setting the user bit of a PML4 entry, and clearing the
//! no-execute bit on the parents of an executable page. Also the TLB-flush
//! policy of a batch of table changes.

use crate::addresses::{l1_index, l2_index, l3_index, l4_index, PhysicalAddress, PhysicalPage, Size4K, VirtualAddress};
use crate::phys::PhysMapper;
use vstd::prelude::*;

verus! {

/// The bits of an entry (or of `CR3`) that hold a table's physical address.
pub const ADDR_MASK: u64 = 0x000F_FFFF_FFFF_F000;

/// The physical address held in bits 12..=51 of `e`.
pub open spec fn raw_addr(e: u64) -> u64 {
    e & ADDR_MASK
}

/// A raw page-table entry, read bit by bit.
#[derive(Copy, Clone, Debug, PartialEq, Eq, Structural)]
pub struct Pte(pub u64);

impl Pte {
    /// Present (bit 0).
    pub fn p(self) -> (r: bool)
        ensures
            r == (self.0 & 1 != 0),
    {
        self.0 & 1 != 0
    }

    /// Writable (bit 1).
    pub fn rw(self) -> (r: bool)
        ensures
            r == (self.0 & 2 != 0),
    {
        self.0 & 2 != 0
    }

    /// User accessible (bit 2).
    pub fn us(self) -> (r: bool)
        ensures
            r == (self.0 & 4 != 0),
    {
        self.0 & 4 != 0
    }

    /// Page size: a leaf at the PDPT or PD level (bit 7).
    pub fn ps(self) -> (r: bool)
        ensures
            r == (self.0 & 0x80 != 0),
    {
        self.0 & 0x80 != 0
    }

    /// No-execute (bit 63).
    pub fn nx(self) -> (r: bool)
        ensures
            r == (self.0 & 0x8000_0000_0000_0000 != 0),
    {
        self.0 & 0x8000_0000_0000_0000 != 0
    }

    /// The physical address in bits 12..=51.
    pub fn addr(self) -> (r: u64)
        ensures
            r == raw_addr(self.0),
    {
        self.0 & ADDR_MASK
    }
}

/// The table page at the 4 KiB-aligned physical address `pa`.
fn table_page(pa: u64) -> (r: PhysicalPage<Size4K>)
    ensures
        r.base.0 == pa & !0xfffu64,
{
    PhysicalPage { base: PhysicalAddress::new(pa & !0xfffu64), size: core::marker::PhantomData }
}

/// Where the walk of [`dump_walk`] stopped.
#[derive(Copy, Clone, Debug, PartialEq, Eq, Structural)]
pub enum WalkEnd {
    /// The PML4 entry is not present.
    NotPresentL4,
    /// The PDPT entry is not present.
    NotPresentL3,
    /// The PDPT entry is a 1 GiB leaf.
    Leaf1G,
    /// The PD entry is not present.
    NotPresentL2,
    /// The PD entry is a 2 MiB leaf.
    Leaf2M,
    /// The walk read the PT entry.
    ReachedL1,
}

/// The entries that the walk of one virtual address read, level by level.
#[derive(Copy, Clone, Debug)]
pub struct WalkDump {
    pub l4i: usize,
    pub l3i: usize,
    pub l2i: usize,
    pub l1i: usize,
    pub pml4e: Pte,
    pub pdpte: Option<Pte>,
    pub pde: Option<Pte>,
    pub pte: Option<Pte>,
    pub end: WalkEnd,
}

/// The PML4 entry that the walk of `va` from `cr3` reads.
pub open spec fn dump_e4<M: PhysMapper>(m: M, cr3: u64, va: u64) -> u64 {
    m.entry(raw_addr(cr3), l4_index(va))
}

/// The PDPT entry that the walk reads.
pub open spec fn dump_e3<M: PhysMapper>(m: M, cr3: u64, va: u64) -> u64 {
    m.entry(raw_addr(dump_e4(m, cr3, va)), l3_index(va))
}

/// The PD entry that the walk reads.
pub open spec fn dump_e2<M: PhysMapper>(m: M, cr3: u64, va: u64) -> u64 {
    m.entry(raw_addr(dump_e3(m, cr3, va)), l2_index(va))
}

/// The PT entry that the walk reads.
pub open spec fn dump_e1<M: PhysMapper>(m: M, cr3: u64, va: u64) -> u64 {
    m.entry(raw_addr(dump_e2(m, cr3, va)), l1_index(va))
}

/// The masked address of an entry is 4 KiB aligned.
proof fn lemma_raw_addr_aligned(e: u64)
    ensures
        raw_addr(e) & !0xfffu64 == raw_addr(e),
{
    assert((e & 0x000F_FFFF_FFFF_F000u64) & !0xfffu64 == e & 0x000F_FFFF_FFFF_F000u64) by (bit_vector);
}

/// Walks the tables from `cr3` for `va` and records each entry read, down to
/// the first non-present entry, a large leaf, or the PT entry.
pub fn dump_walk<M: PhysMapper>(mapper: &M, cr3: u64, va: VirtualAddress) -> (r: WalkDump)
    ensures
        r.l4i == l4_index(va.0),
        r.l3i == l3_index(va.0),
        r.l2i == l2_index(va.0),
        r.l1i == l1_index(va.0),
        ({
            let e4 = dump_e4(*mapper, cr3, va.0);
            let e3 = dump_e3(*mapper, cr3, va.0);
            let e2 = dump_e2(*mapper, cr3, va.0);
            let e1 = dump_e1(*mapper, cr3, va.0);
            &&& r.pml4e == Pte(e4)
            &&& if e4 & 1 == 0 {
                r.end == WalkEnd::NotPresentL4 && r.pdpte is None && r.pde is None && r.pte is None
            } else if e3 & 1 == 0 {
                r.end == WalkEnd::NotPresentL3 && r.pdpte == Some(Pte(e3)) && r.pde is None
                    && r.pte is None
            } else if e3 & 0x80 != 0 {
                r.end == WalkEnd::Leaf1G && r.pdpte == Some(Pte(e3)) && r.pde is None && r.pte is None
            } else if e2 & 1 == 0 {
                r.end == WalkEnd::NotPresentL2 && r.pdpte == Some(Pte(e3)) && r.pde == Some(Pte(e2))
                    && r.pte is None
            } else if e2 & 0x80 != 0 {
                r.end == WalkEnd::Leaf2M && r.pdpte == Some(Pte(e3)) && r.pde == Some(Pte(e2))
                    && r.pte is None
            } else {
                r.end == WalkEnd::ReachedL1 && r.pdpte == Some(Pte(e3)) && r.pde == Some(Pte(e2))
                    && r.pte == Some(Pte(e1))
            }
        }),
{
    let v = va.as_u64();
    let l4i = ((v >> 39) & 0x1ff) as usize;
    let l3i = ((v >> 30) & 0x1ff) as usize;
    let l2i = ((v >> 21) & 0x1ff) as usize;
    let l1i = ((v >> 12) & 0x1ff) as usize;
    proof {
        crate::addresses::lemma_indices_bounded(v);
        lemma_raw_addr_aligned(cr3);
    }
    let pml4_pa = cr3 & ADDR_MASK;
    let pml4e = Pte(mapper.read_entry(table_page(pml4_pa), l4i));
    let mut dump = WalkDump {
        l4i,
        l3i,
        l2i,
        l1i,
        pml4e,
        pdpte: None,
        pde: None,
        pte: None,
        end: WalkEnd::NotPresentL4,
    };
    if !pml4e.p() {
        return dump;
    }
    let pdpt_pa = pml4e.addr();
    proof {
        lemma_raw_addr_aligned(pml4e.0);
    }
    let pdpte = Pte(mapper.read_entry(table_page(pdpt_pa), l3i));
    dump.pdpte = Some(pdpte);
    if !pdpte.p() {
        dump.end = WalkEnd::NotPresentL3;
        return dump;
    }
    if pdpte.ps() {
        dump.end = WalkEnd::Leaf1G;
        return dump;
    }
    let pd_pa = pdpte.addr();
    proof {
        lemma_raw_addr_aligned(pdpte.0);
    }
    let pde = Pte(mapper.read_entry(table_page(pd_pa), l2i));
    dump.pde = Some(pde);
    if !pde.p() {
        dump.end = WalkEnd::NotPresentL2;
        return dump;
    }
    if pde.ps() {
        dump.end = WalkEnd::Leaf2M;
        return dump;
    }
    let pt_pa = pde.addr();
    proof {
        lemma_raw_addr_aligned(pde.0);
    }
    let pte = Pte(mapper.read_entry(table_page(pt_pa), l1i));
    dump.pte = Some(pte);
    dump.end = WalkEnd::ReachedL1;
    dump
}

/// What [`promote_pml4_user_bit`] found and did.
#[derive(Copy, Clone, Debug, PartialEq, Eq, Structural)]
pub enum PromoteOutcome {
    /// The PML4 entry `slot` is not present; nothing changed.
    NotPresent { slot: usize },
    /// The PML4 entry `slot` already allows user access; nothing changed.
    AlreadyUser { slot: usize },
    /// The PML4 entry `slot` changed from `old` to `new` (user bit set).
    Promoted { slot: usize, old: u64, new: u64 },
}

/// Sets the user bit (bit 2) of the present PML4 entry that covers
/// `target_va` in the tables at `cr3`.
pub fn promote_pml4_user_bit<M: PhysMapper>(mapper: &mut M, cr3: u64, target_va: VirtualAddress) -> (r: PromoteOutcome)
    ensures
        ({
            let slot = l4_index(target_va.0);
            let cur = old(mapper).entry(raw_addr(cr3), slot);
            &&& if cur & 1 == 0 {
                r == PromoteOutcome::NotPresent { slot: slot as usize }
            } else if cur | 4 == cur {
                r == PromoteOutcome::AlreadyUser { slot: slot as usize }
            } else {
                r == PromoteOutcome::Promoted { slot: slot as usize, old: cur, new: cur | 4 }
            }
            &&& forall|t: u64, j: u64| #[trigger]
                final(mapper).entry(t, j) == if r is Promoted && t == raw_addr(cr3) && j == slot {
                    cur | 4
                } else {
                    old(mapper).entry(t, j)
                }
        }),
{
    let pml4_pa = cr3 & ADDR_MASK;
    let slot = ((target_va.as_u64() >> 39) & 0x1ff) as usize;
    proof {
        crate::addresses::lemma_indices_bounded(target_va.0);
        lemma_raw_addr_aligned(cr3);
    }
    let page = table_page(pml4_pa);
    let cur = mapper.read_entry(page, slot);
    if (cur & 1) == 0 {
        return PromoteOutcome::NotPresent { slot };
    }
    let new = cur | 4;
    if new == cur {
        PromoteOutcome::AlreadyUser { slot }
    } else {
        mapper.write_entry(page, slot, new);
        PromoteOutcome::Promoted { slot, old: cur, new }
    }
}

/// The no-execute bit (bit 63).
pub const NX_BIT: u64 = 0x8000_0000_0000_0000;

/// The entries after [`clear_parent_xd_for_exec`]: unless the PDPT entry of
/// `va` is a 1 GiB leaf, its no-execute bit is cleared, and then that of the
/// PD entry it leads to.
pub open spec fn xd_cleared<M: PhysMapper>(m: M, cr3: u64, va: u64, t: u64, j: u64) -> u64 {
    let pdpt = raw_addr(m.entry(raw_addr(cr3), l4_index(va)));
    let e3 = m.entry(pdpt, l3_index(va));
    if e3 & 0x80 != 0 {
        m.entry(t, j)
    } else {
        let e3n = e3 & !NX_BIT;
        let pd = raw_addr(e3n);
        let e2 = if pd == pdpt && l2_index(va) == l3_index(va) {
            e3n
        } else {
            m.entry(pd, l2_index(va))
        };
        if t == pd && j == l2_index(va) {
            e2 & !NX_BIT
        } else if t == pdpt && j == l3_index(va) {
            e3n
        } else {
            m.entry(t, j)
        }
    }
}

/// Clears the no-execute bit on the PDPT entry and the PD entry on the walk
/// of `va` in the tables at `cr3`, so that a 4 KiB or 2 MiB executable page
/// below them can run; a 1 GiB leaf is left alone.
pub fn clear_parent_xd_for_exec<M: PhysMapper>(m: &mut M, cr3: u64, va: VirtualAddress)
    ensures
        forall|t: u64, j: u64| #[trigger]
            final(m).entry(t, j) == xd_cleared(*old(m), cr3, va.0, t, j),
{
    let v = va.as_u64();
    proof {
        crate::addresses::lemma_indices_bounded(v);
        lemma_raw_addr_aligned(cr3);
    }
    let pml4_pa = cr3 & ADDR_MASK;
    let e4 = m.read_entry(table_page(pml4_pa), ((v >> 39) & 0x1ff) as usize);
    let pdpt_pa = e4 & ADDR_MASK;
    proof {
        lemma_raw_addr_aligned(e4);
    }
    let pdpt = table_page(pdpt_pa);
    let i3 = ((v >> 30) & 0x1ff) as usize;
    let mut e3 = m.read_entry(pdpt, i3);
    if e3 & 0x80 == 0 {
        if e3 & NX_BIT != 0 {
            e3 = e3 & !NX_BIT;
            m.write_entry(pdpt, i3, e3);
        } else {
            proof {
                assert(e3 & !NX_BIT == e3) by (bit_vector)
                    requires
                        e3 & 0x8000_0000_0000_0000u64 == 0,
                ;
            }
        }
        let pd_pa = e3 & ADDR_MASK;
        proof {
            lemma_raw_addr_aligned(e3);
        }
        let pd = table_page(pd_pa);
        let i2 = ((v >> 21) & 0x1ff) as usize;
        let e2 = m.read_entry(pd, i2);
        if e2 & NX_BIT != 0 {
            m.write_entry(pd, i2, e2 & !NX_BIT);
        } else {
            proof {
                assert(e2 & !NX_BIT == e2) by (bit_vector)
                    requires
                        e2 & 0x8000_0000_0000_0000u64 == 0,
                ;
            }
        }
    }
}

/// When the TLB is flushed after a batch of table changes.
#[derive(Debug, Copy, Clone, PartialEq, Eq, Structural)]
pub enum FlushTlb {
    /// Never.
    Never,
    /// Only when the batch succeeded.
    OnSuccess,
    /// Whether the batch succeeded or not.
    Always,
}

impl FlushTlb {
    /// Whether the TLB is flushed after a batch that `succeeded` or not.
    pub fn should_flush(self, succeeded: bool) -> (r: bool)
        ensures
            r == (self == FlushTlb::Always || (self == FlushTlb::OnSuccess && succeeded)),
    {
        match self {
            FlushTlb::Never => false,
            FlushTlb::OnSuccess => succeeded,
            FlushTlb::Always => true,
        }
    }
}

} // verus!
