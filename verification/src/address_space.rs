//! # Address Space (x86-64, PML4-rooted)
//!
//! Builds and manipulates a **single** virtual address space: a four-level
//! tree of page tables rooted at a PML4, stored in physical frames that a
//! [`PhysMapper`] gives access to.
//!
//! - [`AddressSpace::map_one`] installs one mapping (4 KiB / 2 MiB / 1 GiB).
//! - [`AddressSpace::unmap_one`] clears a single 4 KiB PTE.
//! - [`AddressSpace::query`] translates a virtual to a physical address.
//! - [`AddressSpace::map_region`] / [`AddressSpace::unmap_region`] tile a
//!   range with the largest pages that alignment permits.
//! - [`AddressSpace::collapse_empty_tables`] frees tables without mappings.
//!
//! The meaning of the tables is [`translate`], the walk that the MMU
//! performs; the contracts are stated over it.

use crate::addresses::{
    l1_index, l2_index, l3_index, l4_index, lemma_indices_bounded, PhysicalAddress, PhysicalPage,
    Size1G, Size2M, Size4K, VirtualAddress, SIZE_1G, SIZE_2M, SIZE_4K,
};
use crate::page_table::pd::{L2Index, PdEntry, PdEntryKind};
use crate::page_table::pdpt::{L3Index, PdptEntry, PdptEntryKind};
use crate::page_table::pml4::{L4Index, Pml4Entry};
use crate::page_table::pt::{L1Index, PtEntry};
use crate::page_table::split_indices;
use crate::bitfield::{get_flag, group_bitfield};
use crate::bits::VirtualMemoryPageBits;
use crate::page_entry_bits::{fits_phys, frame_address, lemma_frame_address_bounds, PageEntryBits};
use crate::page_table::{leaf_1g_address, leaf_2m_address, lemma_leaf_1g_bounds, lemma_leaf_2m_bounds};
use crate::phys::{PhysFrameAlloc, PhysMapper};
use vstd::prelude::*;

pub mod map_size;

pub use crate::address_space::map_size::{MapSize, MapSizeEnsureChainError};

verus! {

broadcast use group_bitfield;

/// The entry is present (bit 0).
pub open spec fn present(e: u64) -> bool {
    get_flag(e, 0)
}

/// The entry has the page-size bit (bit 7) set.
pub open spec fn huge(e: u64) -> bool {
    get_flag(e, 7)
}

/// The entry is a present link to a next-level table.
pub open spec fn link(e: u64) -> bool {
    present(e) && !huge(e)
}

/// The translation of `va` by a PT entry `e1`.
pub open spec fn translate1(va: u64, e1: u64) -> Option<u64> {
    if present(e1) {
        Some((frame_address(e1) + va % SIZE_4K) as u64)
    } else {
        None
    }
}

/// The translation of `va` by a PD entry `e2`, reading the PT from `m`.
pub open spec fn translate2<M: PhysMapper>(m: M, va: u64, e2: u64) -> Option<u64> {
    if !present(e2) {
        None
    } else if huge(e2) {
        Some((leaf_2m_address(e2) + va % SIZE_2M) as u64)
    } else {
        translate1(va, m.entry(frame_address(e2), l1_index(va)))
    }
}

/// The translation of `va` by a PDPT entry `e3`, reading the lower tables
/// from `m`.
pub open spec fn translate3<M: PhysMapper>(m: M, va: u64, e3: u64) -> Option<u64> {
    if !present(e3) {
        None
    } else if huge(e3) {
        Some((leaf_1g_address(e3) + va % SIZE_1G) as u64)
    } else {
        translate2(m, va, m.entry(frame_address(e3), l2_index(va)))
    }
}

/// The translation of `va` by a PML4 entry `e4`.
pub open spec fn translate4<M: PhysMapper>(m: M, va: u64, e4: u64) -> Option<u64> {
    if !present(e4) {
        None
    } else {
        translate3(m, va, m.entry(frame_address(e4), l3_index(va)))
    }
}

/// The physical address that `va` translates to in the tables rooted at
/// `root`, as the MMU walks them: PML4 → PDPT (1 GiB leaf if `PS=1`) → PD
/// (2 MiB leaf if `PS=1`) → PT (4 KiB leaf). `None` if the walk meets a
/// non-present entry.
pub open spec fn translate<M: PhysMapper>(m: M, root: u64, va: u64) -> Option<u64> {
    translate4(m, va, m.entry(root, l4_index(va)))
}

/// The PML4 entry on the walk of `va`.
pub open spec fn walk_e4<M: PhysMapper>(m: M, root: u64, va: u64) -> u64 {
    m.entry(root, l4_index(va))
}

/// The PDPT entry on the walk of `va`.
pub open spec fn walk_e3<M: PhysMapper>(m: M, root: u64, va: u64) -> u64 {
    m.entry(frame_address(walk_e4(m, root, va)), l3_index(va))
}

/// The PD entry on the walk of `va`.
pub open spec fn walk_e2<M: PhysMapper>(m: M, root: u64, va: u64) -> u64 {
    m.entry(frame_address(walk_e3(m, root, va)), l2_index(va))
}

/// The PT entry on the walk of `va`.
pub open spec fn walk_e1<M: PhysMapper>(m: M, root: u64, va: u64) -> u64 {
    m.entry(frame_address(walk_e2(m, root, va)), l1_index(va))
}

/// The walk of `va` reads slot `i` of the PDPT in frame `t`.
pub open spec fn on_slot3<M: PhysMapper>(m: M, root: u64, va: u64, t: u64, i: u64) -> bool {
    present(walk_e4(m, root, va)) && frame_address(walk_e4(m, root, va)) == t && l3_index(va) == i
}

/// The walk of `va` reads slot `i` of the PD in frame `t`.
pub open spec fn on_slot2<M: PhysMapper>(m: M, root: u64, va: u64, t: u64, i: u64) -> bool {
    present(walk_e4(m, root, va)) && link(walk_e3(m, root, va)) && frame_address(
        walk_e3(m, root, va),
    ) == t && l2_index(va) == i
}

/// The walk of `va` reads slot `i` of the PT in frame `t`.
pub open spec fn on_slot1<M: PhysMapper>(m: M, root: u64, va: u64, t: u64, i: u64) -> bool {
    present(walk_e4(m, root, va)) && link(walk_e3(m, root, va)) && link(walk_e2(m, root, va))
        && frame_address(walk_e2(m, root, va)) == t && l1_index(va) == i
}

/// The tables rooted at `root` are well formed with respect to the sets of
/// PDPT, PD and PT frames `p3`, `p2`, `p1`: every link of a level points at a
/// frame of the next level's set, and the root and the three sets are
/// pairwise disjoint.
pub open spec fn tables_inv<M: PhysMapper>(
    m: M,
    root: u64,
    p3: Set<u64>,
    p2: Set<u64>,
    p1: Set<u64>,
) -> bool {
    &&& !p3.contains(root)
    &&& !p2.contains(root)
    &&& !p1.contains(root)
    &&& p3.disjoint(p2)
    &&& p3.disjoint(p1)
    &&& p2.disjoint(p1)
    &&& forall|i: u64|
        #![trigger m.entry(root, i)]
        i < 512 && present(m.entry(root, i)) ==> p3.contains(frame_address(m.entry(root, i)))
    &&& forall|t: u64, j: u64|
        #![trigger p3.contains(t), m.entry(t, j)]
        p3.contains(t) && j < 512 && link(m.entry(t, j)) ==> p2.contains(
            frame_address(m.entry(t, j)),
        )
    &&& forall|t: u64, j: u64|
        #![trigger p2.contains(t), m.entry(t, j)]
        p2.contains(t) && j < 512 && link(m.entry(t, j)) ==> p1.contains(
            frame_address(m.entry(t, j)),
        )
}

/// `m2` has the same entries as `m1` in the root and in every table frame.
pub open spec fn agree_on_tables<M: PhysMapper>(
    m1: M,
    m2: M,
    root: u64,
    p3: Set<u64>,
    p2: Set<u64>,
    p1: Set<u64>,
) -> bool {
    forall|t: u64, j: u64|
        #![trigger m2.entry(t, j)]
        (t == root || p3.contains(t) || p2.contains(t) || p1.contains(t)) && j < 512
            ==> m2.entry(t, j) == m1.entry(t, j)
}

/// `m2` is `m1` with entry `i` of the table in `t` replaced by `v`.
pub open spec fn written<M: PhysMapper>(m1: M, m2: M, t: u64, i: u64, v: u64) -> bool {
    forall|t2: u64, j: u64|
        #![trigger m2.entry(t2, j)]
        m2.entry(t2, j) == if t2 == t && j == i {
            v
        } else {
            m1.entry(t2, j)
        }
}

/// Memories that agree on the tables translate alike and keep the
/// invariant.
pub proof fn lemma_agree<M: PhysMapper>(
    m1: M,
    m2: M,
    root: u64,
    p3: Set<u64>,
    p2: Set<u64>,
    p1: Set<u64>,
)
    requires
        tables_inv(m1, root, p3, p2, p1),
        agree_on_tables(m1, m2, root, p3, p2, p1),
    ensures
        tables_inv(m2, root, p3, p2, p1),
        forall|va: u64| #[trigger] translate(m2, root, va) == translate(m1, root, va),
        forall|va: u64, level: nat| #[trigger]
            huge_at(m2, root, va, level) == huge_at(m1, root, va, level),
{
    assert forall|va: u64, level: nat| #[trigger]
        huge_at(m2, root, va, level) == huge_at(m1, root, va, level) by {
        lemma_indices_bounded(va);
        let e4 = m1.entry(root, l4_index(va));
        assert(m2.entry(root, l4_index(va)) == e4);
        if present(e4) {
            let t3 = frame_address(e4);
            assert(m2.entry(t3, l3_index(va)) == m1.entry(t3, l3_index(va)));
            let e3 = m1.entry(t3, l3_index(va));
            if link(e3) {
                let t2 = frame_address(e3);
                assert(m2.entry(t2, l2_index(va)) == m1.entry(t2, l2_index(va)));
            }
        }
    }
    assert forall|va: u64| #[trigger] translate(m2, root, va) == translate(m1, root, va) by {
        lemma_indices_bounded(va);
        let e4 = m1.entry(root, l4_index(va));
        assert(m2.entry(root, l4_index(va)) == e4);
        if present(e4) {
            let t3 = frame_address(e4);
            let e3 = m1.entry(t3, l3_index(va));
            assert(m2.entry(t3, l3_index(va)) == e3);
            if link(e3) {
                let t2 = frame_address(e3);
                let e2 = m1.entry(t2, l2_index(va));
                assert(m2.entry(t2, l2_index(va)) == e2);
                if link(e2) {
                    let t1 = frame_address(e2);
                    assert(m2.entry(t1, l1_index(va)) == m1.entry(t1, l1_index(va)));
                }
            }
        }
    }
    assert forall|i: u64|
        #![trigger m2.entry(root, i)]
        i < 512 && present(m2.entry(root, i)) implies p3.contains(frame_address(m2.entry(root, i))) by {
        assert(m2.entry(root, i) == m1.entry(root, i));
    }
    assert forall|t: u64, j: u64|
        #![trigger p3.contains(t), m2.entry(t, j)]
        p3.contains(t) && j < 512 && link(m2.entry(t, j)) implies p2.contains(
            frame_address(m2.entry(t, j)),
        ) by {
        assert(m2.entry(t, j) == m1.entry(t, j));
    }
    assert forall|t: u64, j: u64|
        #![trigger p2.contains(t), m2.entry(t, j)]
        p2.contains(t) && j < 512 && link(m2.entry(t, j)) implies p1.contains(
            frame_address(m2.entry(t, j)),
        ) by {
        assert(m2.entry(t, j) == m1.entry(t, j));
    }
}

/// A table frame that holds only zeros may join any level's set.
pub open spec fn fresh_zero<M: PhysMapper>(
    m: M,
    root: u64,
    p3: Set<u64>,
    p2: Set<u64>,
    p1: Set<u64>,
    f: u64,
) -> bool {
    &&& f != root
    &&& !p3.contains(f)
    &&& !p2.contains(f)
    &&& !p1.contains(f)
    &&& forall|j: u64| #![trigger m.entry(f, j)] j < 512 ==> m.entry(f, j) == 0
}

/// A frame outside the tables that holds no link may join the PD or PT set.
pub open spec fn fresh_unlinked<M: PhysMapper>(
    m: M,
    root: u64,
    p3: Set<u64>,
    p2: Set<u64>,
    p1: Set<u64>,
    f: u64,
) -> bool {
    &&& f != root
    &&& !p3.contains(f)
    &&& !p2.contains(f)
    &&& !p1.contains(f)
    &&& forall|j: u64| #![trigger m.entry(f, j)] j < 512 ==> !link(m.entry(f, j))
}

/// Fills the table in `f` with the 512 PD entries that split the 1 GiB
/// leaf `leaf`.
fn write_split_2m<M: PhysMapper>(mapper: &mut M, f: PhysicalPage<Size4K>, leaf: u64)
    ensures
        forall|t: u64, j: u64| #[trigger]
            final(mapper).entry(t, j) == if t == f.base.0 && j < 512 {
                split_2m_entry(leaf, j)
            } else {
                old(mapper).entry(t, j)
            },
{
    let mut j: usize = 0;
    while j < 512
        invariant
            j <= 512,
            forall|t: u64, k: u64| #[trigger]
                mapper.entry(t, k) == if t == f.base.0 && k < j {
                    split_2m_entry(leaf, k)
                } else {
                    old(mapper).entry(t, k)
                },
        decreases 512 - j,
    {
        let v = (leaf & 0xffff_ffff_c01f_ffff) | ((j as u64) << 21);
        mapper.write_entry(f, j, v);
        j = j + 1;
    }
}

/// Fills the table in `f` with the 512 PT entries that split the 2 MiB
/// leaf `leaf`.
fn write_split_4k<M: PhysMapper>(mapper: &mut M, f: PhysicalPage<Size4K>, leaf: u64)
    ensures
        forall|t: u64, j: u64| #[trigger]
            final(mapper).entry(t, j) == if t == f.base.0 && j < 512 {
                split_4k_entry(leaf, j)
            } else {
                old(mapper).entry(t, j)
            },
{
    let mut j: usize = 0;
    while j < 512
        invariant
            j <= 512,
            forall|t: u64, k: u64| #[trigger]
                mapper.entry(t, k) == if t == f.base.0 && k < j {
                    split_4k_entry(leaf, k)
                } else {
                    old(mapper).entry(t, k)
                },
        decreases 512 - j,
    {
        let v = (leaf & 0xfff0_0000_0000_0f7f) | ((leaf & 0x1000) >> 5) | (leaf & 0x000f_ffff_ffe0_0000)
            | ((j as u64) << 12);
        mapper.write_entry(f, j, v);
        j = j + 1;
    }
}

/// Linking, from a PDPT slot, a table outside the tables adds a large leaf
/// to a walk only at level 2, on the walks through that slot.
pub proof fn lemma_write_split_link<M: PhysMapper>(
    m1: M,
    m2: M,
    root: u64,
    p3: Set<u64>,
    p2: Set<u64>,
    p1: Set<u64>,
    t: u64,
    i: u64,
    v: u64,
)
    requires
        tables_inv(m1, root, p3, p2, p1),
        written(m1, m2, t, i, v),
        i < 512,
        p3.contains(t),
        link(v),
    ensures
        forall|va: u64, level: nat| #[trigger]
            huge_at(m2, root, va, level) ==> huge_at(m1, root, va, level) || (level == 2
                && on_slot3(m1, root, va, t, i)),
{
    assert forall|va: u64, level: nat| #[trigger]
        huge_at(m2, root, va, level) implies huge_at(m1, root, va, level) || (level == 2
            && on_slot3(m1, root, va, t, i)) by {
        lemma_indices_bounded(va);
        let a4 = walk_e4(m1, root, va);
        assert(walk_e4(m2, root, va) == a4);
        if present(a4) {
            let t3 = frame_address(a4);
            assert(p3.contains(t3));
            if !(t3 == t && l3_index(va) == i) {
                assert(walk_e3(m2, root, va) == walk_e3(m1, root, va));
                let a3 = walk_e3(m1, root, va);
                if link(a3) {
                    let t2 = frame_address(a3);
                    assert(p2.contains(t2));
                    assert(walk_e2(m2, root, va) == walk_e2(m1, root, va));
                }
            }
        }
    }
}

/// Writing a slot of a PD with an entry that is not a large leaf adds no
/// large leaf to any walk.
pub proof fn lemma_write_pd_slot<M: PhysMapper>(
    m1: M,
    m2: M,
    root: u64,
    p3: Set<u64>,
    p2: Set<u64>,
    p1: Set<u64>,
    t: u64,
    i: u64,
    v: u64,
)
    requires
        tables_inv(m1, root, p3, p2, p1),
        written(m1, m2, t, i, v),
        i < 512,
        p2.contains(t),
        !huge(v),
    ensures
        forall|va: u64, level: nat| #[trigger]
            huge_at(m2, root, va, level) ==> huge_at(m1, root, va, level),
{
    assert forall|va: u64, level: nat| #[trigger]
        huge_at(m2, root, va, level) implies huge_at(m1, root, va, level) by {
        lemma_indices_bounded(va);
        let a4 = walk_e4(m1, root, va);
        assert(walk_e4(m2, root, va) == a4);
        if present(a4) {
            let t3 = frame_address(a4);
            assert(p3.contains(t3));
            assert(walk_e3(m2, root, va) == walk_e3(m1, root, va));
            let a3 = walk_e3(m1, root, va);
            if link(a3) {
                let t2 = frame_address(a3);
                assert(p2.contains(t2));
                if !(t2 == t && l2_index(va) == i) {
                    assert(walk_e2(m2, root, va) == walk_e2(m1, root, va));
                }
            }
        }
    }
}

/// A frame of zeros holds no link.
pub proof fn lemma_zero_unlinked<M: PhysMapper>(
    m: M,
    root: u64,
    p3: Set<u64>,
    p2: Set<u64>,
    p1: Set<u64>,
    f: u64,
)
    requires
        fresh_zero(m, root, p3, p2, p1, f),
    ensures
        fresh_unlinked(m, root, p3, p2, p1, f),
{
    assert(!get_flag(0u64, 0));
}

/// The PD entry `j` of the table that splits the 1 GiB leaf `leaf`: the
/// leaf's bits with the 2 MiB frame number `j` in bits 21..=29.
pub open spec fn split_2m_entry(leaf: u64, j: u64) -> u64 {
    (leaf & 0xffff_ffff_c01f_ffffu64) | (j << 21u64)
}

/// The PT entry `j` of the table that splits the 2 MiB leaf `leaf`: the
/// leaf's bits 0..=6, 8..=11 and 52..=63, its PAT bit (12) moved to bit 7,
/// and the address of its `j`-th 4 KiB frame.
pub open spec fn split_4k_entry(leaf: u64, j: u64) -> u64 {
    (leaf & 0xfff0_0000_0000_0f7fu64) | ((leaf & 0x1000u64) >> 5u64) | (leaf
        & 0x000f_ffff_ffe0_0000u64) | (j << 12u64)
}

/// The entries of a split table keep the leaf's presence, and the entry
/// that an address reads translates it as the split leaf did.
pub proof fn lemma_split_bits(leaf: u64, j: u64, va: u64)
    by (bit_vector)
    requires
        j < 512,
    ensures
        get_flag(split_2m_entry(leaf, j), 0) == get_flag(leaf, 0),
        get_flag(split_2m_entry(leaf, j), 7) == get_flag(leaf, 7),
        j == (va >> 21u64) & 0x1ffu64 ==> (leaf_2m_address(split_2m_entry(leaf, j)) + va % SIZE_2M) as u64
            == (leaf_1g_address(leaf) + va % SIZE_1G) as u64,
        get_flag(split_4k_entry(leaf, j), 0) == get_flag(leaf, 0),
        j == (va >> 12u64) & 0x1ffu64 ==> (frame_address(split_4k_entry(leaf, j)) + va % SIZE_4K) as u64
            == (leaf_2m_address(leaf) + va % SIZE_2M) as u64,
{
}

/// Zeroing a frame outside the tables changes no translation.
pub proof fn lemma_zero_fresh<M: PhysMapper>(
    m1: M,
    m2: M,
    root: u64,
    p3: Set<u64>,
    p2: Set<u64>,
    p1: Set<u64>,
    f: u64,
)
    requires
        tables_inv(m1, root, p3, p2, p1),
        f != root,
        !p3.contains(f),
        !p2.contains(f),
        !p1.contains(f),
        forall|t: u64, j: u64| #[trigger]
            m2.entry(t, j) == if t == f {
                0
            } else {
                m1.entry(t, j)
            },
    ensures
        tables_inv(m2, root, p3, p2, p1),
        fresh_zero(m2, root, p3, p2, p1, f),
        agree_on_tables(m1, m2, root, p3, p2, p1),
        forall|va: u64| #[trigger] translate(m2, root, va) == translate(m1, root, va),
        no_new_huge(m1, m2, root),
{
    lemma_agree(m1, m2, root, p3, p2, p1);
}

/// A zeroed frame outside the tables may be added to the PDPT set.
pub proof fn lemma_grow3<M: PhysMapper>(
    m: M,
    root: u64,
    p3: Set<u64>,
    p2: Set<u64>,
    p1: Set<u64>,
    f: u64,
)
    requires
        tables_inv(m, root, p3, p2, p1),
        fresh_zero(m, root, p3, p2, p1, f),
    ensures
        tables_inv(m, root, p3.insert(f), p2, p1),
{
    assert forall|t: u64, j: u64|
        #![trigger p3.insert(f).contains(t), m.entry(t, j)]
        p3.insert(f).contains(t) && j < 512 && link(m.entry(t, j)) implies p2.contains(
            frame_address(m.entry(t, j)),
        ) by {
        if t == f {
            assert(m.entry(f, j) == 0);
            assert(!get_flag(0u64, 0));
        } else {
            assert(p3.contains(t));
        }
    }
}

/// A zeroed frame outside the tables may be added to the PD set.
pub proof fn lemma_grow2<M: PhysMapper>(
    m: M,
    root: u64,
    p3: Set<u64>,
    p2: Set<u64>,
    p1: Set<u64>,
    f: u64,
)
    requires
        tables_inv(m, root, p3, p2, p1),
        fresh_unlinked(m, root, p3, p2, p1, f),
    ensures
        tables_inv(m, root, p3, p2.insert(f), p1),
{
    assert forall|t: u64, j: u64|
        #![trigger p2.insert(f).contains(t), m.entry(t, j)]
        p2.insert(f).contains(t) && j < 512 && link(m.entry(t, j)) implies p1.contains(
            frame_address(m.entry(t, j)),
        ) by {
        if t == f {
            assert(!link(m.entry(f, j)));
        } else {
            assert(p2.contains(t));
        }
    }
    assert forall|t: u64, j: u64|
        #![trigger p3.contains(t), m.entry(t, j)]
        p3.contains(t) && j < 512 && link(m.entry(t, j)) implies p2.insert(f).contains(
            frame_address(m.entry(t, j)),
        ) by {
    }
}

/// A frame outside the tables may be added to the PT set.
pub proof fn lemma_grow1<M: PhysMapper>(
    m: M,
    root: u64,
    p3: Set<u64>,
    p2: Set<u64>,
    p1: Set<u64>,
    f: u64,
)
    requires
        tables_inv(m, root, p3, p2, p1),
        f != root,
        !p3.contains(f),
        !p2.contains(f),
    ensures
        tables_inv(m, root, p3, p2, p1.insert(f)),
{
    assert forall|t: u64, j: u64|
        #![trigger p2.contains(t), m.entry(t, j)]
        p2.contains(t) && j < 512 && link(m.entry(t, j)) implies p1.insert(f).contains(
            frame_address(m.entry(t, j)),
        ) by {
    }
}

/// Writing slot `i` of the root: the walks through that slot now start from
/// `v`; all others are unchanged.
pub proof fn lemma_write4<M: PhysMapper>(
    m1: M,
    m2: M,
    root: u64,
    p3: Set<u64>,
    p2: Set<u64>,
    p1: Set<u64>,
    i: u64,
    v: u64,
)
    requires
        tables_inv(m1, root, p3, p2, p1),
        i < 512,
        written(m1, m2, root, i, v),
        present(v) ==> p3.contains(frame_address(v)),
    ensures
        tables_inv(m2, root, p3, p2, p1),
        forall|va: u64| #[trigger]
            translate(m2, root, va) == if l4_index(va) == i {
                translate4(m1, va, v)
            } else {
                translate(m1, root, va)
            },
{
    assert(agree_on_tables(m1, m2, root, p3, p2, p1) || true);
    assert forall|va: u64| #[trigger]
        translate(m2, root, va) == if l4_index(va) == i {
            translate4(m1, va, v)
        } else {
            translate(m1, root, va)
        } by {
        lemma_indices_bounded(va);
        let e4 = m2.entry(root, l4_index(va));
        if present(e4) {
            let t3 = frame_address(e4);
            assert(p3.contains(t3)) by {
                if l4_index(va) != i {
                    assert(m1.entry(root, l4_index(va)) == e4);
                }
            }
            let e3 = m1.entry(t3, l3_index(va));
            assert(m2.entry(t3, l3_index(va)) == e3);
            if link(e3) {
                let t2 = frame_address(e3);
                let e2 = m1.entry(t2, l2_index(va));
                assert(m2.entry(t2, l2_index(va)) == e2);
                if link(e2) {
                    let t1 = frame_address(e2);
                    assert(m2.entry(t1, l1_index(va)) == m1.entry(t1, l1_index(va)));
                }
            }
        }
    }
    assert forall|t: u64, j: u64|
        #![trigger p3.contains(t), m2.entry(t, j)]
        p3.contains(t) && j < 512 && link(m2.entry(t, j)) implies p2.contains(
            frame_address(m2.entry(t, j)),
        ) by {
        assert(m2.entry(t, j) == m1.entry(t, j));
    }
    assert forall|t: u64, j: u64|
        #![trigger p2.contains(t), m2.entry(t, j)]
        p2.contains(t) && j < 512 && link(m2.entry(t, j)) implies p1.contains(
            frame_address(m2.entry(t, j)),
        ) by {
        assert(m2.entry(t, j) == m1.entry(t, j));
    }
}

/// Writing slot `i` of the PDPT in `t`: the walks through that slot now
/// continue from `v`; all others are unchanged.
pub proof fn lemma_write3<M: PhysMapper>(
    m1: M,
    m2: M,
    root: u64,
    p3: Set<u64>,
    p2: Set<u64>,
    p1: Set<u64>,
    t: u64,
    i: u64,
    v: u64,
)
    requires
        tables_inv(m1, root, p3, p2, p1),
        p3.contains(t),
        i < 512,
        written(m1, m2, t, i, v),
        link(v) ==> p2.contains(frame_address(v)),
    ensures
        tables_inv(m2, root, p3, p2, p1),
        forall|va: u64| #[trigger]
            translate(m2, root, va) == if on_slot3(m1, root, va, t, i) {
                translate3(m1, va, v)
            } else {
                translate(m1, root, va)
            },
{
    assert forall|va: u64| #[trigger]
        translate(m2, root, va) == if on_slot3(m1, root, va, t, i) {
            translate3(m1, va, v)
        } else {
            translate(m1, root, va)
        } by {
        lemma_indices_bounded(va);
        let e4 = m1.entry(root, l4_index(va));
        assert(m2.entry(root, l4_index(va)) == e4);
        if present(e4) {
            let t3 = frame_address(e4);
            let e3 = m2.entry(t3, l3_index(va));
            if link(e3) {
                let t2 = frame_address(e3);
                assert(p2.contains(t2)) by {
                    if !(t3 == t && l3_index(va) == i) {
                        assert(m1.entry(t3, l3_index(va)) == e3);
                    }
                }
                let e2 = m1.entry(t2, l2_index(va));
                assert(m2.entry(t2, l2_index(va)) == e2);
                if link(e2) {
                    let t1 = frame_address(e2);
                    assert(m2.entry(t1, l1_index(va)) == m1.entry(t1, l1_index(va)));
                }
            }
        }
    }
    assert forall|i2: u64|
        #![trigger m2.entry(root, i2)]
        i2 < 512 && present(m2.entry(root, i2)) implies p3.contains(
            frame_address(m2.entry(root, i2)),
        ) by {
        assert(m2.entry(root, i2) == m1.entry(root, i2));
    }
    assert forall|t2: u64, j: u64|
        #![trigger p2.contains(t2), m2.entry(t2, j)]
        p2.contains(t2) && j < 512 && link(m2.entry(t2, j)) implies p1.contains(
            frame_address(m2.entry(t2, j)),
        ) by {
        assert(m2.entry(t2, j) == m1.entry(t2, j));
    }
}

/// Writing slot `i` of the PD in `t`: the walks through that slot now
/// continue from `v`; all others are unchanged.
pub proof fn lemma_write2<M: PhysMapper>(
    m1: M,
    m2: M,
    root: u64,
    p3: Set<u64>,
    p2: Set<u64>,
    p1: Set<u64>,
    t: u64,
    i: u64,
    v: u64,
)
    requires
        tables_inv(m1, root, p3, p2, p1),
        p2.contains(t),
        i < 512,
        written(m1, m2, t, i, v),
        link(v) ==> p1.contains(frame_address(v)),
    ensures
        tables_inv(m2, root, p3, p2, p1),
        forall|va: u64| #[trigger]
            translate(m2, root, va) == if on_slot2(m1, root, va, t, i) {
                translate2(m1, va, v)
            } else {
                translate(m1, root, va)
            },
{
    assert forall|va: u64| #[trigger]
        translate(m2, root, va) == if on_slot2(m1, root, va, t, i) {
            translate2(m1, va, v)
        } else {
            translate(m1, root, va)
        } by {
        lemma_indices_bounded(va);
        let e4 = m1.entry(root, l4_index(va));
        assert(m2.entry(root, l4_index(va)) == e4);
        if present(e4) {
            let t3 = frame_address(e4);
            let e3 = m1.entry(t3, l3_index(va));
            assert(m2.entry(t3, l3_index(va)) == e3);
            if link(e3) {
                let t2 = frame_address(e3);
                let e2 = m2.entry(t2, l2_index(va));
                if link(e2) {
                    let t1 = frame_address(e2);
                    assert(p1.contains(t1)) by {
                        if !(t2 == t && l2_index(va) == i) {
                            assert(m1.entry(t2, l2_index(va)) == e2);
                        }
                    }
                    assert(m2.entry(t1, l1_index(va)) == m1.entry(t1, l1_index(va)));
                }
            }
        }
    }
    assert forall|i2: u64|
        #![trigger m2.entry(root, i2)]
        i2 < 512 && present(m2.entry(root, i2)) implies p3.contains(
            frame_address(m2.entry(root, i2)),
        ) by {
        assert(m2.entry(root, i2) == m1.entry(root, i2));
    }
    assert forall|t2: u64, j: u64|
        #![trigger p3.contains(t2), m2.entry(t2, j)]
        p3.contains(t2) && j < 512 && link(m2.entry(t2, j)) implies p2.contains(
            frame_address(m2.entry(t2, j)),
        ) by {
        assert(m2.entry(t2, j) == m1.entry(t2, j));
    }
}

/// Writing slot `i` of the PT in `t`: the walks through that slot now end at
/// `v`; all others are unchanged.
pub proof fn lemma_write1<M: PhysMapper>(
    m1: M,
    m2: M,
    root: u64,
    p3: Set<u64>,
    p2: Set<u64>,
    p1: Set<u64>,
    t: u64,
    i: u64,
    v: u64,
)
    requires
        tables_inv(m1, root, p3, p2, p1),
        p1.contains(t),
        i < 512,
        written(m1, m2, t, i, v),
    ensures
        tables_inv(m2, root, p3, p2, p1),
        forall|va: u64| #[trigger]
            translate(m2, root, va) == if on_slot1(m1, root, va, t, i) {
                translate1(va, v)
            } else {
                translate(m1, root, va)
            },
{
    assert forall|va: u64| #[trigger]
        translate(m2, root, va) == if on_slot1(m1, root, va, t, i) {
            translate1(va, v)
        } else {
            translate(m1, root, va)
        } by {
        lemma_indices_bounded(va);
        let e4 = m1.entry(root, l4_index(va));
        assert(m2.entry(root, l4_index(va)) == e4);
        if present(e4) {
            let t3 = frame_address(e4);
            let e3 = m1.entry(t3, l3_index(va));
            assert(m2.entry(t3, l3_index(va)) == e3);
            if link(e3) {
                let t2 = frame_address(e3);
                let e2 = m1.entry(t2, l2_index(va));
                assert(m2.entry(t2, l2_index(va)) == e2);
            }
        }
    }
    assert forall|i2: u64|
        #![trigger m2.entry(root, i2)]
        i2 < 512 && present(m2.entry(root, i2)) implies p3.contains(
            frame_address(m2.entry(root, i2)),
        ) by {
        assert(m2.entry(root, i2) == m1.entry(root, i2));
    }
    assert forall|t2: u64, j: u64|
        #![trigger p3.contains(t2), m2.entry(t2, j)]
        p3.contains(t2) && j < 512 && link(m2.entry(t2, j)) implies p2.contains(
            frame_address(m2.entry(t2, j)),
        ) by {
        assert(m2.entry(t2, j) == m1.entry(t2, j));
    }
    assert forall|t2: u64, j: u64|
        #![trigger p2.contains(t2), m2.entry(t2, j)]
        p2.contains(t2) && j < 512 && link(m2.entry(t2, j)) implies p1.contains(
            frame_address(m2.entry(t2, j)),
        ) by {
        assert(m2.entry(t2, j) == m1.entry(t2, j));
    }
}

/// The walk of `va` meets a large leaf at `level`: a 1 GiB leaf in the PDPT
/// (level 1) or a 2 MiB leaf in the PD (level 2).
pub open spec fn huge_at<M: PhysMapper>(m: M, root: u64, va: u64, level: nat) -> bool {
    let e4 = walk_e4(m, root, va);
    let e3 = walk_e3(m, root, va);
    let e2 = walk_e2(m, root, va);
    if level == 1 {
        present(e4) && present(e3) && huge(e3)
    } else if level == 2 {
        present(e4) && link(e3) && present(e2) && huge(e2)
    } else {
        false
    }
}

/// Every walk of `new` that meets a large leaf met one at the same level in
/// `old`.
pub open spec fn no_new_huge<M: PhysMapper>(old: M, new: M, root: u64) -> bool {
    forall|va: u64, level: nat| #[trigger]
        huge_at(new, root, va, level) ==> huge_at(old, root, va, level)
}

/// Every walk of `new` that meets a large leaf met one at the same level in
/// `old`, or met a 1 GiB leaf there and now meets a 2 MiB leaf split from it.
pub open spec fn no_new_huge_split<M: PhysMapper>(old: M, new: M, root: u64) -> bool {
    forall|va: u64, level: nat| #[trigger]
        huge_at(new, root, va, level) ==> huge_at(old, root, va, level) || (level == 2 && huge_at(
            old,
            root,
            va,
            1,
        ))
}

/// Writing `v` into slot `i` of a table `t` adds a large leaf to a walk only
/// where `v` is itself a large leaf and the walk reads that slot; a link
/// written must point at a table of zeros.
pub proof fn lemma_write_huge<M: PhysMapper>(
    m1: M,
    m2: M,
    root: u64,
    p3: Set<u64>,
    p2: Set<u64>,
    p1: Set<u64>,
    t: u64,
    i: u64,
    v: u64,
)
    requires
        tables_inv(m1, root, p3, p2, p1),
        written(m1, m2, t, i, v),
        i < 512,
        t == root || p3.contains(t) || p2.contains(t) || p1.contains(t),
        t == root ==> !huge(v),
        link(v) && !p1.contains(t) ==> frame_address(v) != t && forall|j: u64|
            #![trigger m1.entry(frame_address(v), j)]
            j < 512 ==> m1.entry(frame_address(v), j) == 0,
    ensures
        forall|va: u64, level: nat| #[trigger]
            huge_at(m2, root, va, level) ==> huge_at(m1, root, va, level) || (present(v) && huge(v)
                && ((level == 1 && p3.contains(t) && on_slot3(m1, root, va, t, i)) || (level == 2
                && p2.contains(t) && on_slot2(m1, root, va, t, i)))),
{
    assert forall|va: u64, level: nat| #[trigger]
        huge_at(m2, root, va, level) implies huge_at(m1, root, va, level) || (present(v) && huge(v)
            && ((level == 1 && p3.contains(t) && on_slot3(m1, root, va, t, i)) || (level == 2
            && p2.contains(t) && on_slot2(m1, root, va, t, i)))) by {
        lemma_indices_bounded(va);
        let a4 = walk_e4(m1, root, va);
        let b4 = walk_e4(m2, root, va);
        if t == root && l4_index(va) == i {
            assert(b4 == v);
            let z = frame_address(v);
            assert(m2.entry(z, l3_index(va)) == m1.entry(z, l3_index(va)));
            assert(m1.entry(z, l3_index(va)) == 0);
            assert(!get_flag(0u64, 0));
        } else if present(a4) {
            assert(b4 == a4);
            let t3 = frame_address(a4);
            assert(p3.contains(t3));
            let a3 = walk_e3(m1, root, va);
            let b3 = walk_e3(m2, root, va);
            if t == t3 && l3_index(va) == i {
                assert(b3 == v);
                if level == 2 {
                    let z = frame_address(v);
                    assert(m2.entry(z, l2_index(va)) == m1.entry(z, l2_index(va)));
                    assert(m1.entry(z, l2_index(va)) == 0);
                    assert(!get_flag(0u64, 0));
                }
            } else {
                assert(b3 == a3);
                if link(a3) {
                    let t2 = frame_address(a3);
                    assert(p2.contains(t2));
                    if t == t2 && l2_index(va) == i {
                        assert(walk_e2(m2, root, va) == v);
                    } else {
                        assert(walk_e2(m2, root, va) == walk_e2(m1, root, va));
                    }
                }
            }
        } else {
            assert(b4 == a4);
        }
    }
}

/// The PDPT frames reachable from the root.
pub open spec fn reach3<M: PhysMapper>(m: M, root: u64) -> Set<u64> {
    Set::new(
        |t: u64|
            exists|i: u64|
                i < 512 && present(#[trigger] m.entry(root, i)) && frame_address(m.entry(root, i))
                    == t,
    )
}

/// The PD frames reachable from the root.
pub open spec fn reach2<M: PhysMapper>(m: M, root: u64) -> Set<u64> {
    Set::new(
        |t: u64|
            exists|t3: u64, j: u64|
                reach3(m, root).contains(t3) && j < 512 && link(#[trigger] m.entry(t3, j))
                    && frame_address(m.entry(t3, j)) == t,
    )
}

/// The PT frames reachable from the root.
pub open spec fn reach1<M: PhysMapper>(m: M, root: u64) -> Set<u64> {
    Set::new(
        |t: u64|
            exists|t2: u64, j: u64|
                reach2(m, root).contains(t2) && j < 512 && link(#[trigger] m.entry(t2, j))
                    && frame_address(m.entry(t2, j)) == t,
    )
}

/// No frame serves at two levels of the tables rooted at `root`.
pub open spec fn levels_disjoint<M: PhysMapper>(m: M, root: u64) -> bool {
    &&& !reach3(m, root).contains(root)
    &&& !reach2(m, root).contains(root)
    &&& !reach1(m, root).contains(root)
    &&& reach3(m, root).disjoint(reach2(m, root))
    &&& reach3(m, root).disjoint(reach1(m, root))
    &&& reach2(m, root).disjoint(reach1(m, root))
}

/// Slot `s` (table, index) of the tables rooted at `root` links the table
/// in frame `f`.
pub open spec fn slot_links<M: PhysMapper>(m: M, root: u64, s: (u64, u64), f: u64) -> bool {
    &&& s.1 < 512
    &&& frame_address(m.entry(s.0, s.1)) == f
    &&& ((s.0 == root && present(m.entry(root, s.1))) || ((reach3(m, root).contains(s.0)
        || reach2(m, root).contains(s.0)) && link(m.entry(s.0, s.1))))
}

/// No table of the tables rooted at `root` is linked from two slots.
pub open spec fn links_unique<M: PhysMapper>(m: M, root: u64) -> bool {
    forall|s1: (u64, u64), s2: (u64, u64), f: u64|
        #![trigger slot_links(m, root, s1, f), slot_links(m, root, s2, f)]
        slot_links(m, root, s1, f) && slot_links(m, root, s2, f) ==> s1 == s2
}

/// The owner of each linked table, when no table is linked twice.
pub open spec fn owners<M: PhysMapper>(m: M, root: u64) -> Map<u64, (u64, u64)> {
    Map::new(|f: u64| true, |f: u64| choose|s: (u64, u64)| slot_links(m, root, s, f))
}

/// Unique links give owners.
pub proof fn lemma_owners<M: PhysMapper>(m: M, root: u64)
    requires
        levels_disjoint(m, root),
        links_unique(m, root),
    ensures
        owned(m, root, reach3(m, root), reach2(m, root), owners(m, root)),
{
    let own = owners(m, root);
    let p3 = reach3(m, root);
    let p2 = reach2(m, root);
    assert forall|i: u64|
        #![trigger m.entry(root, i)]
        i < 512 && present(m.entry(root, i)) implies own[frame_address(m.entry(root, i))] == (
        root,
        i,
    ) by {
        let f = frame_address(m.entry(root, i));
        assert(slot_links(m, root, (root, i), f));
        let s = choose|s: (u64, u64)| slot_links(m, root, s, f);
        assert(slot_links(m, root, s, f));
    }
    assert forall|t: u64, j: u64|
        #![trigger p3.contains(t), m.entry(t, j)]
        p3.contains(t) && j < 512 && link(m.entry(t, j)) implies own[frame_address(m.entry(t, j))]
        == (t, j) by {
        let f = frame_address(m.entry(t, j));
        assert(slot_links(m, root, (t, j), f));
        let s = choose|s: (u64, u64)| slot_links(m, root, s, f);
        assert(slot_links(m, root, s, f));
    }
    assert forall|t: u64, j: u64|
        #![trigger p2.contains(t), m.entry(t, j)]
        p2.contains(t) && j < 512 && link(m.entry(t, j)) implies own[frame_address(m.entry(t, j))]
        == (t, j) by {
        let f = frame_address(m.entry(t, j));
        assert(slot_links(m, root, (t, j), f));
        let s = choose|s: (u64, u64)| slot_links(m, root, s, f);
        assert(slot_links(m, root, s, f));
    }
}

/// The reachable sets satisfy the table invariant when the levels are
/// disjoint.
pub proof fn lemma_reach_inv<M: PhysMapper>(m: M, root: u64)
    requires
        levels_disjoint(m, root),
    ensures
        tables_inv(m, root, reach3(m, root), reach2(m, root), reach1(m, root)),
{
    let p3 = reach3(m, root);
    let p2 = reach2(m, root);
    let p1 = reach1(m, root);
    assert forall|i: u64|
        #![trigger m.entry(root, i)]
        i < 512 && present(m.entry(root, i)) implies p3.contains(frame_address(m.entry(root, i))) by {
    }
    assert forall|t: u64, j: u64|
        #![trigger p3.contains(t), m.entry(t, j)]
        p3.contains(t) && j < 512 && link(m.entry(t, j)) implies p2.contains(
            frame_address(m.entry(t, j)),
        ) by {
    }
    assert forall|t: u64, j: u64|
        #![trigger p2.contains(t), m.entry(t, j)]
        p2.contains(t) && j < 512 && link(m.entry(t, j)) implies p1.contains(
            frame_address(m.entry(t, j)),
        ) by {
    }
}

/// Every table below the root is linked from one slot only: `own` maps the
/// frame of each linked table to the slot (table, index) that links it.
pub open spec fn owned<M: PhysMapper>(
    m: M,
    root: u64,
    p3: Set<u64>,
    p2: Set<u64>,
    own: Map<u64, (u64, u64)>,
) -> bool {
    &&& forall|i: u64|
        #![trigger m.entry(root, i)]
        i < 512 && present(m.entry(root, i)) ==> own[frame_address(m.entry(root, i))] == (root, i)
    &&& forall|t: u64, j: u64|
        #![trigger p3.contains(t), m.entry(t, j)]
        p3.contains(t) && j < 512 && link(m.entry(t, j)) ==> own[frame_address(m.entry(t, j))]
            == (t, j)
    &&& forall|t: u64, j: u64|
        #![trigger p2.contains(t), m.entry(t, j)]
        p2.contains(t) && j < 512 && link(m.entry(t, j)) ==> own[frame_address(m.entry(t, j))]
            == (t, j)
}

/// Memories that agree on the tables have the same owners.
pub proof fn lemma_owned_agree<M: PhysMapper>(
    m1: M,
    m2: M,
    root: u64,
    p3: Set<u64>,
    p2: Set<u64>,
    p1: Set<u64>,
    own: Map<u64, (u64, u64)>,
)
    requires
        owned(m1, root, p3, p2, own),
        agree_on_tables(m1, m2, root, p3, p2, p1),
    ensures
        owned(m2, root, p3, p2, own),
{
    assert forall|i: u64|
        #![trigger m2.entry(root, i)]
        i < 512 && present(m2.entry(root, i)) implies own[frame_address(m2.entry(root, i))] == (
        root,
        i,
    ) by {
        assert(m2.entry(root, i) == m1.entry(root, i));
    }
    assert forall|t: u64, j: u64|
        #![trigger p3.contains(t), m2.entry(t, j)]
        p3.contains(t) && j < 512 && link(m2.entry(t, j)) implies own[frame_address(
            m2.entry(t, j),
        )] == (t, j) by {
        assert(m2.entry(t, j) == m1.entry(t, j));
    }
    assert forall|t: u64, j: u64|
        #![trigger p2.contains(t), m2.entry(t, j)]
        p2.contains(t) && j < 512 && link(m2.entry(t, j)) implies own[frame_address(
            m2.entry(t, j),
        )] == (t, j) by {
        assert(m2.entry(t, j) == m1.entry(t, j));
    }
}

/// Writing a value that links nothing keeps the owners.
pub proof fn lemma_owned_nonlink<M: PhysMapper>(
    m1: M,
    m2: M,
    root: u64,
    p3: Set<u64>,
    p2: Set<u64>,
    own: Map<u64, (u64, u64)>,
    t: u64,
    i: u64,
    v: u64,
)
    requires
        owned(m1, root, p3, p2, own),
        written(m1, m2, t, i, v),
        t == root ==> !present(v),
        p3.contains(t) || p2.contains(t) ==> !link(v),
    ensures
        owned(m2, root, p3, p2, own),
{
    assert forall|i2: u64|
        #![trigger m2.entry(root, i2)]
        i2 < 512 && present(m2.entry(root, i2)) implies own[frame_address(m2.entry(root, i2))]
        == (root, i2) by {
        assert(m2.entry(root, i2) == m1.entry(root, i2));
    }
    assert forall|t2: u64, j: u64|
        #![trigger p3.contains(t2), m2.entry(t2, j)]
        p3.contains(t2) && j < 512 && link(m2.entry(t2, j)) implies own[frame_address(
            m2.entry(t2, j),
        )] == (t2, j) by {
        assert(m2.entry(t2, j) == m1.entry(t2, j));
    }
    assert forall|t2: u64, j: u64|
        #![trigger p2.contains(t2), m2.entry(t2, j)]
        p2.contains(t2) && j < 512 && link(m2.entry(t2, j)) implies own[frame_address(
            m2.entry(t2, j),
        )] == (t2, j) by {
        assert(m2.entry(t2, j) == m1.entry(t2, j));
    }
}

/// Linking a fresh zeroed frame `f` from slot (`t`, `i`) makes that slot
/// its owner; `f` joins the level below `t`.
pub proof fn lemma_owned_link<M: PhysMapper>(
    m1: M,
    m2: M,
    root: u64,
    p3: Set<u64>,
    p2: Set<u64>,
    p1: Set<u64>,
    own: Map<u64, (u64, u64)>,
    t: u64,
    i: u64,
    f: u64,
    v: u64,
)
    requires
        tables_inv(m1, root, p3, p2, p1),
        owned(m1, root, p3, p2, own),
        f != root,
        !p3.contains(f),
        !p2.contains(f),
        !p1.contains(f),
        !p2.contains(t) ==> forall|j: u64| #![trigger m1.entry(f, j)] j < 512 ==> !link(m1.entry(f, j)),
        written(m1, m2, t, i, v),
        i < 512,
        frame_address(v) == f,
        t == root || p3.contains(t) || p2.contains(t),
        t != root ==> link(v),
    ensures
        t == root ==> owned(m2, root, p3.insert(f), p2, own.insert(f, (t, i))),
        p3.contains(t) ==> owned(m2, root, p3, p2.insert(f), own.insert(f, (t, i))),
        p2.contains(t) ==> owned(m2, root, p3, p2, own.insert(f, (t, i))),
{
    let own2 = own.insert(f, (t, i));
    let p3n = if t == root {
        p3.insert(f)
    } else {
        p3
    };
    let p2n = if p3.contains(t) {
        p2.insert(f)
    } else {
        p2
    };
    assert forall|i2: u64|
        #![trigger m2.entry(root, i2)]
        i2 < 512 && present(m2.entry(root, i2)) implies own2[frame_address(m2.entry(root, i2))]
        == (root, i2) by {
        if !(t == root && i2 == i) {
            assert(m2.entry(root, i2) == m1.entry(root, i2));
        }
    }
    assert forall|t2: u64, j: u64|
        #![trigger p3n.contains(t2), m2.entry(t2, j)]
        p3n.contains(t2) && j < 512 && link(m2.entry(t2, j)) implies own2[frame_address(
            m2.entry(t2, j),
        )] == (t2, j) by {
        if !(t2 == t && j == i) {
            assert(m2.entry(t2, j) == m1.entry(t2, j));
            if t2 == f {
                assert(!link(m1.entry(f, j)));
            }
        }
    }
    assert forall|t2: u64, j: u64|
        #![trigger p2n.contains(t2), m2.entry(t2, j)]
        p2n.contains(t2) && j < 512 && link(m2.entry(t2, j)) implies own2[frame_address(
            m2.entry(t2, j),
        )] == (t2, j) by {
        if !(t2 == t && j == i) {
            assert(m2.entry(t2, j) == m1.entry(t2, j));
            if t2 == f {
                assert(!link(m1.entry(f, j)));
            }
        }
    }
}

/// Where links are owned, the walks of two addresses reach the same slot
/// exactly when the addresses share the indices down to that level.
pub proof fn lemma_slot_iff_prefix<M: PhysMapper>(
    m: M,
    root: u64,
    p3: Set<u64>,
    p2: Set<u64>,
    p1: Set<u64>,
    own: Map<u64, (u64, u64)>,
    va: u64,
    va2: u64,
    level: nat,
)
    requires
        tables_inv(m, root, p3, p2, p1),
        owned(m, root, p3, p2, own),
        1 <= level <= 3,
        leaf_table(m, root, va, level) is Some,
    ensures
        same_slot(m, root, va, va2, level) == same_prefix(va, va2, level),
{
    lemma_indices_bounded(va);
    lemma_indices_bounded(va2);
    if same_slot(m, root, va, va2, level) {
        let e4 = walk_e4(m, root, va);
        let f4 = walk_e4(m, root, va2);
        assert(own[frame_address(e4)] == (root, l4_index(va)));
        assert(own[frame_address(f4)] == (root, l4_index(va2)));
        if level >= 2 {
            let t3 = frame_address(e4);
            let u3 = frame_address(f4);
            assert(p3.contains(t3));
            assert(p3.contains(u3));
            let e3 = walk_e3(m, root, va);
            let f3 = walk_e3(m, root, va2);
            assert(own[frame_address(e3)] == (t3, l3_index(va)));
            assert(own[frame_address(f3)] == (u3, l3_index(va2)));
            if level >= 3 {
                let t2 = frame_address(e3);
                let u2 = frame_address(f3);
                assert(p2.contains(t2));
                assert(p2.contains(u2));
                let e2 = walk_e2(m, root, va);
                let f2 = walk_e2(m, root, va2);
                assert(own[frame_address(e2)] == (t2, l2_index(va)));
                assert(own[frame_address(f2)] == (u2, l2_index(va2)));
            }
        }
    }
}

/// The table that holds the leaf of `va` at `level` (1: PDPT, 2: PD, 3: PT),
/// if the walk reaches it through present links.
pub open spec fn leaf_table<M: PhysMapper>(m: M, root: u64, va: u64, level: nat) -> Option<u64> {
    let e4 = walk_e4(m, root, va);
    let e3 = walk_e3(m, root, va);
    let e2 = walk_e2(m, root, va);
    if level == 1 {
        if present(e4) {
            Some(frame_address(e4))
        } else {
            None
        }
    } else if level == 2 {
        if present(e4) && link(e3) {
            Some(frame_address(e3))
        } else {
            None
        }
    } else {
        if present(e4) && link(e3) && link(e2) {
            Some(frame_address(e2))
        } else {
            None
        }
    }
}

/// The walk of `va2` reads the same slot at `level` as the walk of `va`.
pub open spec fn same_slot<M: PhysMapper>(m: M, root: u64, va: u64, va2: u64, level: nat) -> bool {
    if level == 1 {
        on_slot3(m, root, va2, frame_address(walk_e4(m, root, va)), l3_index(va))
    } else if level == 2 {
        on_slot2(m, root, va2, frame_address(walk_e3(m, root, va)), l2_index(va))
    } else {
        on_slot1(m, root, va2, frame_address(walk_e2(m, root, va)), l1_index(va))
    }
}

/// Making the chain for `level` on the walk of `va` splits a large leaf
/// above `level` into a table of smaller leaves; `va2` is translated through
/// that leaf, so its walk now ends in one of the smaller leaves.
pub open spec fn lost<M: PhysMapper>(m: M, root: u64, va: u64, va2: u64, level: nat) -> bool {
    let e4 = walk_e4(m, root, va);
    let e3 = walk_e3(m, root, va);
    let e2 = walk_e2(m, root, va);
    ||| (level >= 2 && present(e4) && present(e3) && huge(e3) && on_slot3(
        m,
        root,
        va2,
        frame_address(e4),
        l3_index(va),
    ))
    ||| (level >= 3 && present(e4) && link(e3) && present(e2) && huge(e2) && on_slot2(
        m,
        root,
        va2,
        frame_address(e3),
        l2_index(va),
    ))
}

/// The size of a page whose leaf sits at `level` (1: 1 GiB, 2: 2 MiB,
/// 3: 4 KiB).
pub open spec fn level_page_size(level: nat) -> u64 {
    if level == 1 {
        SIZE_1G
    } else if level == 2 {
        SIZE_2M
    } else {
        SIZE_4K
    }
}

/// `new` and `free1` are what `old` and `free0` became by adding tables
/// taken from the free frames: the tables stay well formed, the root stays,
/// every frame in use stays in use, and the free frames lose exactly the
/// frames that came into use.
pub open spec fn tables_grew<M: PhysMapper>(
    old: AddressSpace<M>,
    new: AddressSpace<M>,
    free0: Set<u64>,
    free1: Set<u64>,
) -> bool {
    &&& new.inv()
    &&& new.root_frame() == old.root_frame()
    &&& old.frames_in_use().subset_of(new.frames_in_use())
    &&& new.frames_in_use().subset_of(old.frames_in_use().union(free0))
    &&& free1 == free0.difference(new.frames_in_use())
}

/// The outcome of making the chain of tables for `va` down to the table that
/// holds its leaf at `level`.
///
/// - An existing chain is returned as it is, with nothing changed.
/// - Otherwise the missing tables are allocated, zeroed and linked; a large
///   leaf in the way is split into a table of leaves of the next size that
///   map the same memory. `Ok` carries the leaf table, empty where no leaf
///   was split.
/// - No translation changes.
/// - Only the tables that the chain lacked come into use, one per missing
///   level; each above `level` holds nothing but the entry on the chain.
/// - An error names the level whose table could not be allocated; the
///   tables linked above that level stay linked.
pub open spec fn chain_ok<M: PhysMapper>(
    old: AddressSpace<M>,
    new: AddressSpace<M>,
    free0: Set<u64>,
    free1: Set<u64>,
    va: u64,
    level: nat,
    r: Result<PhysicalPage<Size4K>, MapSizeEnsureChainError>,
) -> bool {
    let m = old.memory();
    let root = old.root_frame();
    &&& tables_grew(old, new, free0, free1)
    &&& no_new_huge_split(m, new.memory(), root)
    &&& only_chain_tables(old, new, va, level)
    &&& chain_tables_bare(m, new.memory(), root, va, level)
    &&& match leaf_table(m, root, va, level) {
        Some(t) => (r matches Ok(p) && p.base.0 == t) && new == old && free1 == free0,
        None => true,
    }
    &&& match r {
        Ok(p) => {
            &&& p.wf()
            &&& fits_phys(p.base.0)
            &&& leaf_table(new.memory(), root, va, level) == Some(p.base.0)
            &&& (leaf_table(m, root, va, level) is None && !huge_at(m, root, va, 1) && !huge_at(
                m,
                root,
                va,
                2,
            ) ==> forall|j: u64|
                #![trigger new.memory().entry(p.base.0, j)]
                j < 512 ==> new.memory().entry(p.base.0, j) == 0)
            &&& (level <= 2 && leaf_table(m, root, va, level) is None ==> forall|j: u64|
                #![trigger new.memory().entry(p.base.0, j)]
                j < 512 ==> !link(new.memory().entry(p.base.0, j)))
            &&& split_tables(m, new.memory(), root, va, level)
            &&& forall|va2: u64| #[trigger] new.translation(va2) == old.translation(va2)
        },
        Err(e) => {
            &&& leaf_table(m, root, va, level) is None
            &&& match e {
                MapSizeEnsureChainError::OomPdpt => !present(walk_e4(m, root, va)) && new == old,
                MapSizeEnsureChainError::OomPd => level >= 2 && leaf_table(m, root, va, 2) is None
                    && leaf_table(new.memory(), root, va, 1) is Some
                    && leaf_table(new.memory(), root, va, 2) is None
                    && forall|va2: u64| #[trigger]
                    new.translation(va2) == old.translation(va2),
                MapSizeEnsureChainError::OomPt => level == 3 && leaf_table(new.memory(), root, va, 2) is Some
                    && leaf_table(new.memory(), root, va, 3) is None
                    && forall|va2: u64| #[trigger] new.translation(va2) == old.translation(va2),
            }
        },
    }
}

/// The tables that the chain for `va` down to `level` made from a large
/// leaf on the walk of `va` in `m` hold that leaf split: a 1 GiB leaf into
/// 512 2 MiB leaves (but for the slot of the chain, where `level` is 3), and
/// the 2 MiB leaf of the chain into 512 4 KiB leaves.
pub open spec fn split_tables<M: PhysMapper>(m: M, n: M, root: u64, va: u64, level: nat) -> bool {
    let e3 = walk_e3(m, root, va);
    let e2 = walk_e2(m, root, va);
    &&& (level >= 2 && huge_at(m, root, va, 1)) ==> forall|j: u64|
        #![trigger n.entry(leaf_table(n, root, va, 2)->0, j)]
        j < 512 && (level == 2 || j != l2_index(va)) ==> n.entry(leaf_table(n, root, va, 2)->0, j)
            == split_2m_entry(e3, j)
    &&& (level >= 3 && huge_at(m, root, va, 1)) ==> forall|j: u64|
        #![trigger n.entry(leaf_table(n, root, va, 3)->0, j)]
        j < 512 ==> n.entry(leaf_table(n, root, va, 3)->0, j) == split_4k_entry(
            split_2m_entry(e3, l2_index(va)),
            j,
        )
    &&& (level >= 3 && huge_at(m, root, va, 2)) ==> forall|j: u64|
        #![trigger n.entry(leaf_table(n, root, va, 3)->0, j)]
        j < 512 ==> n.entry(leaf_table(n, root, va, 3)->0, j) == split_4k_entry(e2, j)
}

/// The slot of `va`'s leaf in a table at `level` (1: PDPT, 2: PD, 3: PT).
pub open spec fn level_index(va: u64, level: nat) -> u64 {
    if level == 1 {
        l3_index(va)
    } else if level == 2 {
        l2_index(va)
    } else {
        l1_index(va)
    }
}

/// [`split_tables`], but for the slot of `va`'s own leaf at `level`, which
/// the mapping of `va` then overwrote.
pub open spec fn split_kept<M: PhysMapper>(m: M, n: M, root: u64, va: u64, level: nat) -> bool {
    let e3 = walk_e3(m, root, va);
    let e2 = walk_e2(m, root, va);
    &&& (level >= 2 && huge_at(m, root, va, 1)) ==> forall|j: u64|
        #![trigger n.entry(leaf_table(n, root, va, 2)->0, j)]
        j < 512 && j != l2_index(va) ==> n.entry(leaf_table(n, root, va, 2)->0, j) == split_2m_entry(
            e3,
            j,
        )
    &&& (level >= 3 && huge_at(m, root, va, 1)) ==> forall|j: u64|
        #![trigger n.entry(leaf_table(n, root, va, 3)->0, j)]
        j < 512 && j != l1_index(va) ==> n.entry(leaf_table(n, root, va, 3)->0, j) == split_4k_entry(
            split_2m_entry(e3, l2_index(va)),
            j,
        )
    &&& (level >= 3 && huge_at(m, root, va, 2)) ==> forall|j: u64|
        #![trigger n.entry(leaf_table(n, root, va, 3)->0, j)]
        j < 512 && j != l1_index(va) ==> n.entry(leaf_table(n, root, va, 3)->0, j) == split_4k_entry(
            e2,
            j,
        )
}

/// Every frame that `new` has in use and `old` had not is the table that the
/// chain for `va` lacked at one of the levels down to `level`, and is that
/// table in `new`.
pub open spec fn only_chain_tables<M: PhysMapper>(
    old: AddressSpace<M>,
    new: AddressSpace<M>,
    va: u64,
    level: nat,
) -> bool {
    let m = old.memory();
    let n = new.memory();
    let root = old.root_frame();
    forall|f: u64|
        #[trigger] new.frames_in_use().contains(f) && !old.frames_in_use().contains(f) ==> {
            ||| (leaf_table(m, root, va, 1) is None && leaf_table(n, root, va, 1) == Some(f))
            ||| (level >= 2 && leaf_table(m, root, va, 2) is None && leaf_table(n, root, va, 2)
                == Some(f))
            ||| (level >= 3 && leaf_table(m, root, va, 3) is None && leaf_table(n, root, va, 3)
                == Some(f))
        }
}

/// Every table that the chain for `va` gained above `level` holds nothing
/// but the entry on that chain.
pub open spec fn chain_tables_bare<M: PhysMapper>(m0: M, m: M, root: u64, va: u64, level: nat) -> bool {
    &&& (level >= 2 && leaf_table(m0, root, va, 1) is None && leaf_table(m, root, va, 1) is Some)
        ==> forall|j: u64|
        #![trigger m.entry(leaf_table(m, root, va, 1)->0, j)]
        j < 512 && j != l3_index(va) ==> m.entry(leaf_table(m, root, va, 1)->0, j) == 0
    &&& (level >= 3 && leaf_table(m0, root, va, 2) is None && !huge_at(m0, root, va, 1) && leaf_table(
        m,
        root,
        va,
        2,
    ) is Some) ==> forall|j: u64|
        #![trigger m.entry(leaf_table(m, root, va, 2)->0, j)]
        j < 512 && j != l2_index(va) ==> m.entry(leaf_table(m, root, va, 2)->0, j) == 0
}

/// The outcome of writing the leaf for `va` → `pa` at `level`: every address
/// whose walk reads the same slot now translates into the new page; all
/// others are unchanged, and the walks to the slot are unchanged.
pub open spec fn leaf_set<M: PhysMapper>(
    old: AddressSpace<M>,
    new: AddressSpace<M>,
    va: u64,
    pa: u64,
    level: nat,
) -> bool {
    let root = old.root_frame();
    &&& new.inv()
    &&& new.root_frame() == root
    &&& new.frames_in_use() == old.frames_in_use()
    &&& leaf_table(new.memory(), root, va, level) == leaf_table(old.memory(), root, va, level)
    &&& forall|va2: u64| #[trigger]
        same_slot(new.memory(), root, va, va2, level) == same_slot(
            old.memory(),
            root,
            va,
            va2,
            level,
        )
    &&& forall|va2: u64| #[trigger]
        new.translation(va2) == if same_slot(old.memory(), root, va, va2, level) {
            Some((pa + va2 % level_page_size(level)) as u64)
        } else {
            old.translation(va2)
        }
    &&& forall|va2: u64, lv: nat| #[trigger]
        huge_at(new.memory(), root, va2, lv) ==> huge_at(old.memory(), root, va2, lv) || (lv
            == level && same_slot(old.memory(), root, va, va2, level))
    &&& huge_at(new.memory(), root, va, 1) == (level == 1)
    &&& huge_at(new.memory(), root, va, 2) == (level == 2)
}

/// The entry on the walk of `va` that holds a leaf of `level`: the PDPT
/// entry for 1, the PD entry for 2, the PT entry for 3.
pub open spec fn walk_leaf<M: PhysMapper>(m: M, root: u64, va: u64, level: nat) -> u64 {
    if level == 1 {
        walk_e3(m, root, va)
    } else if level == 2 {
        walk_e2(m, root, va)
    } else {
        walk_e1(m, root, va)
    }
}

/// `e` is the leaf of `level` for `pa` made from the caller's `flags`: the
/// flags as given but present (a 4 KiB leaf has bit 7, its PAT bit, clear).
pub open spec fn leaf_entry_of(flags: VirtualMemoryPageBits, e: u64, pa: u64, level: nat) -> bool {
    if level == 1 {
        (VirtualMemoryPageBits { present: true, ..flags }).leaf_1g_in(e, pa)
    } else if level == 2 {
        (VirtualMemoryPageBits { present: true, ..flags }).leaf_2m_in(e, pa)
    } else {
        (VirtualMemoryPageBits { present: true, pat_bit2: false, ..flags }).leaf_4k_in(e, pa)
    }
}

/// The entries above the leaf of `level` on the walk of `va` are the same
/// in `m0` and `m`.
pub open spec fn upper_kept<M: PhysMapper>(m0: M, m: M, root: u64, va: u64, level: nat) -> bool {
    &&& walk_e4(m, root, va) == walk_e4(m0, root, va)
    &&& level >= 2 ==> walk_e3(m, root, va) == walk_e3(m0, root, va)
    &&& level >= 3 ==> walk_e2(m, root, va) == walk_e2(m0, root, va)
}

/// The leaf that the walk of `x` ends in, with its level (1: a PDPT
/// entry, 2: a PD entry, 3: a PT entry), if the walk ends in one.
pub open spec fn leaf_of<M: PhysMapper>(m: M, root: u64, x: u64) -> Option<(nat, u64)> {
    if huge_at(m, root, x, 1) {
        Some((1nat, walk_e3(m, root, x)))
    } else if huge_at(m, root, x, 2) {
        Some((2nat, walk_e2(m, root, x)))
    } else if through_pt(m, root, x) && present(walk_e1(m, root, x)) {
        Some((3nat, walk_e1(m, root, x)))
    } else {
        None
    }
}

/// A walk of `x` that ends in a leaf in `m0` reads the same entries in `m`.
pub open spec fn leaf_walk_kept<M: PhysMapper>(m0: M, m: M, root: u64, x: u64) -> bool {
    leaf_of(m0, root, x) is Some ==> {
        &&& walk_e4(m, root, x) == walk_e4(m0, root, x)
        &&& walk_e3(m, root, x) == walk_e3(m0, root, x)
        &&& link(walk_e3(m0, root, x)) ==> walk_e2(m, root, x) == walk_e2(m0, root, x)
        &&& through_pt(m0, root, x) ==> walk_e1(m, root, x) == walk_e1(m0, root, x)
    }
}

/// The link on the walk of `x` to the table of `level`: the PML4 entry for
/// 1, the PDPT entry for 2, the PD entry for 3.
pub open spec fn link_entry<M: PhysMapper>(m: M, root: u64, x: u64, level: nat) -> u64 {
    if level == 1 {
        walk_e4(m, root, x)
    } else if level == 2 {
        walk_e3(m, root, x)
    } else {
        walk_e2(m, root, x)
    }
}

/// Every link that `m` has and `m0` had not, on the walk of any address,
/// holds the non-leaf `flags`, made present.
pub open spec fn links_made_with<M: PhysMapper>(m0: M, m: M, root: u64, flags: VirtualMemoryPageBits) -> bool {
    forall|x: u64, l: nat|
        1 <= l <= 3 && leaf_table(m0, root, x, l) is None && #[trigger] leaf_table(m, root, x, l)
            is Some ==> (VirtualMemoryPageBits { present: true, ..flags }).nonleaf_in(
            link_entry(m, root, x, l),
            frame_address(link_entry(m, root, x, l)),
        )
}

/// Every link that `m0` has on the walk of an address, `m` has too, as the
/// same entry.
pub open spec fn links_kept_all<M: PhysMapper>(m0: M, m: M, root: u64) -> bool {
    forall|x: u64, l: nat|
        1 <= l <= 3 && #[trigger] leaf_table(m0, root, x, l) is Some ==> leaf_table(m, root, x, l)
            is Some && link_entry(m, root, x, l) == link_entry(m0, root, x, l)
}

/// Every link that `m` has on the walk of an address, `m0` had too, as the
/// same entry.
pub open spec fn links_only_kept<M: PhysMapper>(m0: M, m: M, root: u64) -> bool {
    forall|x: u64, l: nat|
        1 <= l <= 3 && #[trigger] leaf_table(m, root, x, l) is Some ==> leaf_table(m0, root, x, l)
            is Some && link_entry(m, root, x, l) == link_entry(m0, root, x, l)
}

/// A link that both `m0` and `m` have on the walk of an address is the same
/// entry in both.
pub open spec fn links_stable<M: PhysMapper>(m0: M, m: M, root: u64) -> bool {
    forall|x: u64, l: nat|
        1 <= l <= 3 && leaf_table(m0, root, x, l) is Some && #[trigger] leaf_table(m, root, x, l)
            is Some ==> link_entry(m, root, x, l) == link_entry(m0, root, x, l)
}

/// Links made with `flags` in two steps, where the second step changes no
/// link it keeps, are links made with `flags`.
proof fn lemma_links_made_trans<M: PhysMapper>(m0: M, m1: M, m2: M, root: u64, flags: VirtualMemoryPageBits)
    requires
        links_made_with(m0, m1, root, flags),
        links_made_with(m1, m2, root, flags),
        links_stable(m1, m2, root),
    ensures
        links_made_with(m0, m2, root, flags),
{
    assert forall|x: u64, l: nat|
        1 <= l <= 3 && leaf_table(m0, root, x, l) is None && #[trigger] leaf_table(m2, root, x, l) is Some
            implies (VirtualMemoryPageBits { present: true, ..flags }).nonleaf_in(
            link_entry(m2, root, x, l),
            frame_address(link_entry(m2, root, x, l)),
        ) by {
        if leaf_table(m1, root, x, l) is Some {
            assert(link_entry(m2, root, x, l) == link_entry(m1, root, x, l));
        }
    }
}

/// Every link that the chain for `va` down to `level` had to make (where
/// `m0` had none) holds the caller's non-leaf `flags`, made present.
pub open spec fn new_links_with<M: PhysMapper>(
    m0: M,
    m: M,
    root: u64,
    va: u64,
    level: nat,
    flags: VirtualMemoryPageBits,
) -> bool {
    let f = VirtualMemoryPageBits { present: true, ..flags };
    &&& leaf_table(m0, root, va, 1) is None ==> f.nonleaf_in(
        walk_e4(m, root, va),
        frame_address(walk_e4(m, root, va)),
    )
    &&& level >= 2 && leaf_table(m0, root, va, 2) is None ==> f.nonleaf_in(
        walk_e3(m, root, va),
        frame_address(walk_e3(m, root, va)),
    )
    &&& level >= 3 && leaf_table(m0, root, va, 3) is None ==> f.nonleaf_in(
        walk_e2(m, root, va),
        frame_address(walk_e2(m, root, va)),
    )
}

/// Two virtual addresses share the table indices down to `level`.
pub open spec fn same_prefix(va: u64, va2: u64, level: nat) -> bool {
    &&& l4_index(va) == l4_index(va2)
    &&& l3_index(va) == l3_index(va2)
    &&& (level >= 2 ==> l2_index(va) == l2_index(va2))
    &&& (level >= 3 ==> l1_index(va) == l1_index(va2))
}

/// [`lost`] in terms of indices: `va2` shares the indices of `va` down to
/// the level of a large leaf on the walk of `va` that the chain for `level`
/// splits.
pub open spec fn lost_prefix<M: PhysMapper>(m: M, root: u64, va: u64, va2: u64, level: nat) -> bool {
    let e4 = walk_e4(m, root, va);
    let e3 = walk_e3(m, root, va);
    let e2 = walk_e2(m, root, va);
    ||| (level >= 2 && present(e4) && present(e3) && huge(e3) && same_prefix(va, va2, 1))
    ||| (level >= 3 && present(e4) && link(e3) && present(e2) && huge(e2) && same_prefix(
        va,
        va2,
        2,
    ))
}

/// Where links are owned, [`lost`] is [`lost_prefix`].
pub proof fn lemma_lost_prefix<M: PhysMapper>(
    m: M,
    root: u64,
    p3: Set<u64>,
    p2: Set<u64>,
    p1: Set<u64>,
    own: Map<u64, (u64, u64)>,
    va: u64,
    va2: u64,
    level: nat,
)
    requires
        tables_inv(m, root, p3, p2, p1),
        owned(m, root, p3, p2, own),
    ensures
        lost(m, root, va, va2, level) == lost_prefix(m, root, va, va2, level),
{
    if present(walk_e4(m, root, va)) {
        lemma_slot_iff_prefix(m, root, p3, p2, p1, own, va, va2, 1);
        if link(walk_e3(m, root, va)) {
            lemma_slot_iff_prefix(m, root, p3, p2, p1, own, va, va2, 2);
        }
    }
}

/// Growing the tables twice is growing them once.
pub proof fn lemma_tables_grew_trans<M: PhysMapper>(
    a: AddressSpace<M>,
    b: AddressSpace<M>,
    c: AddressSpace<M>,
    f0: Set<u64>,
    f1: Set<u64>,
    f2: Set<u64>,
)
    requires
        tables_grew(a, b, f0, f1),
        tables_grew(b, c, f1, f2),
    ensures
        tables_grew(a, c, f0, f2),
{
    assert(f2 =~= f0.difference(c.frames_in_use()));
}

/// The low-bit masks of the page sizes test alignment.
pub proof fn lemma_align_masks(x: u64)
    by (bit_vector)
    ensures
        (x & 0xfff == 0) == (x % SIZE_4K == 0),
        (x & 0x1f_ffff == 0) == (x % SIZE_2M == 0),
        (x & 0x3fff_ffff == 0) == (x % SIZE_1G == 0),
        x % SIZE_2M == 0 ==> x % SIZE_4K == 0,
        x % SIZE_1G == 0 ==> x % SIZE_4K == 0,
{
}

/// Adding a multiple of 4 KiB keeps 4 KiB alignment.
pub proof fn lemma_add_aligned_4k(x: u64, y: u64)
    by (bit_vector)
    requires
        x % SIZE_4K == 0,
        y % SIZE_4K == 0,
        x + y <= u64::MAX,
    ensures
        ((x + y) as u64) % SIZE_4K == 0,
{
}

/// Addresses in one aligned page share the indices down to the page's
/// level.
pub proof fn lemma_same_page(va: u64, va2: u64)
    by (bit_vector)
    ensures
        va % SIZE_4K == 0 && va <= va2 && va2 - va < SIZE_4K ==> same_prefix(va, va2, 3),
        va % SIZE_2M == 0 && va <= va2 && va2 - va < SIZE_2M ==> same_prefix(va, va2, 2),
        va % SIZE_1G == 0 && va <= va2 && va2 - va < SIZE_1G ==> same_prefix(va, va2, 1),
{
}

/// The 2 MiB block of an address lies inside its 1 GiB block.
pub proof fn lemma_2m_in_1g(x: u64)
    by (bit_vector)
    ensures
        x % SIZE_2M <= x % SIZE_1G,
        x % SIZE_1G - x % SIZE_2M + SIZE_2M <= SIZE_1G,
{
}

/// Alignment facts for 1 GiB blocks, with `2^48` the span of the four
/// index levels.
proof fn lemma_block_1g(a: u64, b: u64)
    by (bit_vector)
    ensures
        (a % 0x4000_0000 == 0 && a + 0x4000_0000 <= b && b - a < 0x1_0000_0000_0000) ==> !((a
            >> 39u64) & 0x1ff == (b >> 39u64) & 0x1ff && (a >> 30u64) & 0x1ff == (b >> 30u64)
            & 0x1ff),
        (a % 0x4000_0000 == 0 && b % 0x4000_0000 == 0 && a < b) ==> a + 0x4000_0000 <= b,
        (a % 0x4000_0000 == 0 && a <= b && b < a + 0x4000_0000) ==> b % 0x4000_0000 == b - a,
        ((b - b % 0x4000_0000) as u64) % 0x4000_0000 == 0,
        (((b - b % 0x4000_0000) as u64) >> 39u64) & 0x1ff == (b >> 39u64) & 0x1ff,
        (((b - b % 0x4000_0000) as u64) >> 30u64) & 0x1ff == (b >> 30u64) & 0x1ff,
{
}

/// Alignment facts for 2 MiB blocks.
proof fn lemma_block_2m(a: u64, b: u64)
    by (bit_vector)
    ensures
        (a % 0x20_0000 == 0 && a + 0x20_0000 <= b && b - a < 0x1_0000_0000_0000) ==> !((a
            >> 39u64) & 0x1ff == (b >> 39u64) & 0x1ff && (a >> 30u64) & 0x1ff == (b >> 30u64)
            & 0x1ff && (a >> 21u64) & 0x1ff == (b >> 21u64) & 0x1ff),
        (a % 0x20_0000 == 0 && b % 0x20_0000 == 0 && a < b) ==> a + 0x20_0000 <= b,
        (a % 0x20_0000 == 0 && a <= b && b < a + 0x20_0000) ==> b % 0x20_0000 == b - a,
        ((b - b % 0x20_0000) as u64) % 0x20_0000 == 0,
        (((b - b % 0x20_0000) as u64) >> 39u64) & 0x1ff == (b >> 39u64) & 0x1ff,
        (((b - b % 0x20_0000) as u64) >> 30u64) & 0x1ff == (b >> 30u64) & 0x1ff,
        (((b - b % 0x20_0000) as u64) >> 21u64) & 0x1ff == (b >> 21u64) & 0x1ff,
{
}

/// Alignment facts for 4 KiB pages.
proof fn lemma_block_4k(a: u64, b: u64)
    by (bit_vector)
    ensures
        (a % 0x1000 == 0 && a + 0x1000 <= b && b - a < 0x1_0000_0000_0000) ==> !((a >> 39u64)
            & 0x1ff == (b >> 39u64) & 0x1ff && (a >> 30u64) & 0x1ff == (b >> 30u64) & 0x1ff && (a
            >> 21u64) & 0x1ff == (b >> 21u64) & 0x1ff && (a >> 12u64) & 0x1ff == (b >> 12u64)
            & 0x1ff),
        (a % 0x1000 == 0 && b % 0x1000 == 0 && a < b) ==> a + 0x1000 <= b,
        (a % 0x1000 == 0 && a <= b && b < a + 0x1000) ==> b % 0x1000 == b - a,
        ((b - b % 0x1000) as u64) % 0x1000 == 0,
        (((b - b % 0x1000) as u64) >> 39u64) & 0x1ff == (b >> 39u64) & 0x1ff,
        (((b - b % 0x1000) as u64) >> 30u64) & 0x1ff == (b >> 30u64) & 0x1ff,
        (((b - b % 0x1000) as u64) >> 21u64) & 0x1ff == (b >> 21u64) & 0x1ff,
        (((b - b % 0x1000) as u64) >> 12u64) & 0x1ff == (b >> 12u64) & 0x1ff,
        (a % 0x1000 == 0 && a < 0x1_0000_0000_0000) ==> a + 0x1000 <= 0x1_0000_0000_0000,
        (a % 0x1000 == 0 && b <= a && a < b + 0x1000 && b % 0x1000 == 0) ==> a == b,
        (a % 0x1000 == 0 && b <= a && a < b + 0x1000 && b % 0x1000 != 0) ==> a == b - b % 0x1000
            + 0x1000,
{
}

/// The alignment facts of [`lemma_block_1g`] and its kin, for the page
/// size of `level`, in terms of [`same_prefix`].
pub proof fn lemma_block(a: u64, b: u64, level: nat)
    requires
        1 <= level <= 3,
    ensures
        ({
            let s = level_page_size(level);
            &&& (a % s == 0 && a + s <= b && b - a < 0x1_0000_0000_0000) ==> !same_prefix(
                a,
                b,
                level,
            )
            &&& (a % s == 0 && b % s == 0 && a < b) ==> a + s <= b
            &&& (a % s == 0 && a <= b && b < a + s) ==> b % s == b - a
            &&& ((b - b % s) as u64) % s == 0
            &&& b % s <= b
            &&& same_prefix(b, (b - b % s) as u64, level)
        }),
{
    if level == 1 {
        lemma_block_1g(a, b);
    } else if level == 2 {
        lemma_block_2m(a, b);
    } else {
        lemma_block_4k(a, b);
    }
}

/// The addresses `[vs, vs + n)` translate to `[ps, ps + n)`, byte for byte.
pub open spec fn region_mapped<M: PhysMapper>(s: AddressSpace<M>, vs: u64, ps: u64, n: int) -> bool {
    forall|va: u64| #[trigger]
        s.translation(va) == if vs <= va < vs + n {
            Some((ps + (va - vs)) as u64)
        } else {
            s.translation(va)
        }
}

/// `len` rounded up to whole 4 KiB pages.
pub open spec fn pages_len(len: u64) -> int {
    if len % SIZE_4K == 0 {
        len as int
    } else {
        len - len % SIZE_4K + SIZE_4K
    }
}

/// Every large leaf on a walk of an address in `[vs, vs + n)` maps a block
/// that lies inside `[vs, vs + n)`.
spec fn leaves_inside<M: PhysMapper>(s: AddressSpace<M>, vs: u64, n: int) -> bool {
    forall|va: u64, l: nat|
        vs <= va < vs + n && #[trigger] huge_at(s.memory(), s.root_frame(), va, l) ==> vs <= va
            - va % level_page_size(l) && va - va % level_page_size(l) + level_page_size(l) <= vs
            + n
}

/// Mapping the page at `va` = `vs + off` neither reaches nor loses an
/// address already mapped in `[vs, vs + off)`.
proof fn lemma_processed_kept<M: PhysMapper>(
    cur: AddressSpace<M>,
    vs: u64,
    off: int,
    va: u64,
    va2: u64,
    level: nat,
)
    requires
        1 <= level <= 3,
        leaves_inside(cur, vs, off),
        vs <= va2 < va,
        va == vs + off,
        va % level_page_size(level) == 0,
        va + level_page_size(level) <= vs + 0x1_0000_0000_0000,
    ensures
        !same_prefix(va, va2, level),
        !lost_prefix(cur.memory(), cur.root_frame(), va, va2, level),
        !lost_prefix(cur.memory(), cur.root_frame(), va, va2, 2),
{
    let m = cur.memory();
    let root = cur.root_frame();
    let s = level_page_size(level);
    lemma_block(0, va2, level);
    let x = (va2 - va2 % s) as u64;
    lemma_block(x, va, level);
    lemma_block(va, va2, level);
    if lost_prefix(m, root, va, va2, level) || lost_prefix(m, root, va, va2, 2) {
        let e4 = walk_e4(m, root, va);
        let e3 = walk_e3(m, root, va);
        let e2 = walk_e2(m, root, va);
        if present(e4) && present(e3) && huge(e3) && same_prefix(va, va2, 1) {
            assert(huge_at(m, root, va2, 1));
            lemma_block(0, va2, 1);
            let x1 = (va2 - va2 % SIZE_1G) as u64;
            lemma_block(x1, va, 1);
            assert(false);
        } else {
            assert(present(e4) && link(e3) && present(e2) && huge(e2) && same_prefix(va, va2, 2));
            assert(huge_at(m, root, va2, 2));
            lemma_block(0, va2, 2);
            let x2 = (va2 - va2 % SIZE_2M) as u64;
            lemma_block(x2, va, 2);
            assert(false);
        }
    }
}

/// One step of [`AddressSpace::map_region`]: the page of size
/// `level_page_size(level)` at `va` = `vs + off` mapped to `ps + off`
/// extends the mapped region by that page.
proof fn lemma_region_step<M: PhysMapper>(
    cur: AddressSpace<M>,
    new: AddressSpace<M>,
    vs: u64,
    ps: u64,
    off: int,
    va: u64,
    level: nat,
)
    requires
        1 <= level <= 3,
        new.root_frame() == cur.root_frame(),
        region_mapped(cur, vs, ps, off),
        leaves_inside(cur, vs, off),
        0 <= off,
        va == vs + off,
        ps + off + level_page_size(level) <= u64::MAX,
        va % level_page_size(level) == 0,
        va + level_page_size(level) <= vs + 0x1_0000_0000_0000,
        mapped_page(cur, new, va, (ps + off) as u64, level),
    ensures
        region_mapped(new, vs, ps, off + level_page_size(level)),
        leaves_inside(new, vs, off + level_page_size(level)),
{
    let s = level_page_size(level);
    assert forall|va2: u64| #[trigger]
        new.translation(va2) == if vs <= va2 < vs + off + s {
            Some((ps + (va2 - vs)) as u64)
        } else {
            new.translation(va2)
        } by {
        if vs <= va2 < va {
            lemma_processed_kept(cur, vs, off, va, va2, level);
            assert(cur.translation(va2) == Some((ps + (va2 - vs)) as u64));
        } else if va <= va2 < va + s {
            lemma_block(va, va2, level);
            lemma_same_page(va, va2);
        }
    }
    assert forall|va2: u64, l: nat|
        vs <= va2 < vs + off + s && #[trigger] huge_at(new.memory(), new.root_frame(), va2, l)
            implies vs <= va2 - va2 % level_page_size(l) && va2 - va2 % level_page_size(l)
            + level_page_size(l) <= vs + off + s by {
        if va2 < va {
            lemma_processed_kept(cur, vs, off, va, va2, level);
            if !huge_at(cur.memory(), cur.root_frame(), va2, l) {
                assert(huge_at(cur.memory(), cur.root_frame(), va2, 1));
                lemma_2m_in_1g(va2);
            }
        } else {
            lemma_block(va, va2, level);
            lemma_same_page(va, va2);
            assert(l == level);
        }
    }
}

/// The address that a leaf entry `e` of `level` maps.
pub open spec fn leaf_address(e: u64, level: nat) -> u64 {
    if level == 1 {
        leaf_1g_address(e)
    } else if level == 2 {
        leaf_2m_address(e)
    } else {
        frame_address(e)
    }
}

/// The walk of `va` in `s` ends in a leaf, of whatever size, made from the
/// caller's leaf `flags` (see [`leaf_entry_of`]).
pub open spec fn leaf_with<M: PhysMapper>(s: AddressSpace<M>, va: u64, flags: VirtualMemoryPageBits) -> bool {
    match leaf_of(s.memory(), s.root_frame(), va) {
        Some((l, e)) => leaf_entry_of(flags, e, leaf_address(e, l), l),
        None => false,
    }
}

/// Every address of `[vs, vs + n)` ends its walk in a leaf made from
/// `flags`.
pub open spec fn region_leaves_with<M: PhysMapper>(
    s: AddressSpace<M>,
    vs: u64,
    n: int,
    flags: VirtualMemoryPageBits,
) -> bool {
    forall|va: u64| vs <= va < vs + n ==> #[trigger] leaf_with(s, va, flags)
}

/// The level of the page that [`AddressSpace::map_region`] maps at
/// `va` = `vs + off` with `remain` bytes left: 1 GiB where both addresses
/// are 1 GiB aligned and at least 1 GiB is left, else 2 MiB on the same
/// test, else 4 KiB.
pub open spec fn step_level(va: int, pa: int, remain: int) -> nat {
    if va % (SIZE_1G as int) == 0 && pa % (SIZE_1G as int) == 0 && remain >= SIZE_1G {
        1
    } else if va % (SIZE_2M as int) == 0 && pa % (SIZE_2M as int) == 0 && remain >= SIZE_2M {
        2
    } else {
        3
    }
}

/// The level of the page that covers `x` when the region `[vs, vs + len)`
/// → `[ps, ps + len)` is mapped in steps from offset `off` on, each step
/// taking the page of [`step_level`].
pub open spec fn level_from(vs: int, ps: int, len: int, off: int, x: int) -> nat
    decreases if off <= len {
        len - off
    } else {
        0
    },
{
    if off < len && vs + off <= x {
        let l = step_level(vs + off, ps + off, len - off);
        proof {
            assert(level_page_size(l) > 0);
        }
        if x < vs + off + level_page_size(l) {
            l
        } else {
            level_from(vs, ps, len, off + level_page_size(l), x)
        }
    } else {
        3
    }
}

/// The level of the page that covers `x` when the region `[vs, vs + len)`
/// → `[ps, ps + len)` is mapped from its start.
pub open spec fn region_level(vs: u64, ps: u64, len: u64, x: u64) -> nat {
    level_from(vs as int, ps as int, len as int, 0, x as int)
}

/// Every address of `[vs, vs + n)` ends its walk in a leaf of the level
/// that [`region_level`] gives it.
pub open spec fn region_sized<M: PhysMapper>(s: AddressSpace<M>, vs: u64, ps: u64, len: u64, n: int) -> bool {
    forall|va: u64|
        vs <= va < vs + n ==> #[trigger] leaf_of(s.memory(), s.root_frame(), va) is Some && leaf_of(
            s.memory(),
            s.root_frame(),
            va,
        ).unwrap().0 == region_level(vs, ps, len, va)
}

/// The steps of [`AddressSpace::map_region`] from offset `off` on cover
/// every address from `vs + off` on as the steps from the start do.
pub open spec fn steps_agree(vs: u64, ps: u64, len: u64, off: int) -> bool {
    forall|x: int|
        vs + off <= x ==> #[trigger] level_from(vs as int, ps as int, len as int, 0, x) == level_from(
            vs as int,
            ps as int,
            len as int,
            off,
            x,
        )
}

/// A step of [`AddressSpace::map_region`] that mapped the page of
/// [`step_level`] at `va` = `vs + off` extends the sized leaves by that
/// page and moves the agreement of the steps past it.
proof fn lemma_region_sized_step<M: PhysMapper>(
    cur: AddressSpace<M>,
    new: AddressSpace<M>,
    vs: u64,
    ps: u64,
    len: u64,
    off: int,
    va: u64,
    pa: u64,
    level: nat,
    flags: VirtualMemoryPageBits,
)
    requires
        1 <= level <= 3,
        new.root_frame() == cur.root_frame(),
        region_sized(cur, vs, ps, len, off),
        steps_agree(vs, ps, len, off),
        region_leaves_with(cur, vs, off, flags),
        region_leaves_with(new, vs, off + level_page_size(level), flags),
        leaves_inside(cur, vs, off),
        0 <= off < len,
        va == vs + off,
        level == step_level(vs + off, ps + off, len - off),
        new.translation(va) is Some,
        leaf_entry_of(flags, walk_leaf(new.memory(), new.root_frame(), va, level), pa, level),
        va % level_page_size(level) == 0,
        va + level_page_size(level) <= vs + 0x1_0000_0000_0000,
        forall|va2: u64, l: nat| #[trigger]
            huge_at(new.memory(), new.root_frame(), va2, l) ==> if same_prefix(va, va2, level) {
                l == level
            } else {
                huge_at(cur.memory(), cur.root_frame(), va2, l) || (l == 2 && huge_at(
                    cur.memory(),
                    cur.root_frame(),
                    va2,
                    1,
                ))
            },
        forall|x: u64|
            !same_prefix(va, x, level) && !lost_prefix(cur.memory(), cur.root_frame(), va, x, level)
                ==> #[trigger] leaf_walk_kept(cur.memory(), new.memory(), cur.root_frame(), x),
    ensures
        region_sized(new, vs, ps, len, off + level_page_size(level)),
        steps_agree(vs, ps, len, off + level_page_size(level)),
{
    let root = cur.root_frame();
    let m = new.memory();
    let sz = level_page_size(level);
    assert forall|va2: u64| vs <= va2 < vs + off + sz implies #[trigger] leaf_of(m, root, va2) is Some
        && leaf_of(m, root, va2).unwrap().0 == region_level(vs, ps, len, va2) by {
        assert(leaf_with(new, va2, flags));
        if va2 < va {
            lemma_processed_kept(cur, vs, off, va, va2, level);
            assert(leaf_of(cur.memory(), root, va2) is Some);
            assert(leaf_walk_kept(cur.memory(), m, root, va2));
        } else {
            lemma_same_page(va, va2);
            assert(same_prefix(va, va2, level));
            assert(level_from(vs as int, ps as int, len as int, off, va2 as int) == level);
            assert(!get_flag(0u64, 0));
            if level == 1 {
                assert(huge_at(m, root, va, 1));
            } else if level == 2 {
                assert(!huge_at(m, root, va, 1));
                assert(huge_at(m, root, va, 2));
            }
        }
    }
    assert forall|x: int| vs + off + sz <= x implies #[trigger] level_from(vs as int, ps as int, len as int, 0, x)
        == level_from(vs as int, ps as int, len as int, off + sz, x) by {
        assert(level_from(vs as int, ps as int, len as int, off, x) == level_from(
            vs as int,
            ps as int,
            len as int,
            off + sz,
            x,
        ));
    }
}

/// A step of [`AddressSpace::map_region`] at `va` = `vs + off` that ran
/// out of frames keeps the sized leaves of the part mapped before.
proof fn lemma_region_sized_fail<M: PhysMapper>(
    cur: AddressSpace<M>,
    new: AddressSpace<M>,
    vs: u64,
    ps: u64,
    len: u64,
    off: int,
    va: u64,
    level: nat,
)
    requires
        1 <= level <= 3,
        new.root_frame() == cur.root_frame(),
        region_sized(cur, vs, ps, len, off),
        leaves_inside(cur, vs, off),
        0 <= off,
        va == vs + off,
        va % level_page_size(level) == 0,
        va + level_page_size(level) <= vs + 0x1_0000_0000_0000,
        forall|x: u64|
            !lost_prefix(cur.memory(), cur.root_frame(), va, x, level) ==> #[trigger] leaf_walk_kept(
                cur.memory(),
                new.memory(),
                cur.root_frame(),
                x,
            ),
    ensures
        region_sized(new, vs, ps, len, off),
{
    let root = cur.root_frame();
    assert forall|va2: u64| vs <= va2 < vs + off implies #[trigger] leaf_of(new.memory(), root, va2) is Some
        && leaf_of(new.memory(), root, va2).unwrap().0 == region_level(vs, ps, len, va2) by {
        lemma_processed_kept(cur, vs, off, va, va2, level);
        assert(leaf_of(cur.memory(), root, va2) is Some);
        assert(leaf_walk_kept(cur.memory(), new.memory(), root, va2));
    }
}

/// One step of [`AddressSpace::map_region`] that mapped the page of
/// `level` at `va` = `vs + off` with `flags` extends the leaves made from
/// `flags` by that page.
proof fn lemma_region_flags_step<M: PhysMapper>(
    cur: AddressSpace<M>,
    new: AddressSpace<M>,
    vs: u64,
    off: int,
    va: u64,
    pa: u64,
    level: nat,
    flags: VirtualMemoryPageBits,
)
    requires
        1 <= level <= 3,
        new.root_frame() == cur.root_frame(),
        region_leaves_with(cur, vs, off, flags),
        leaves_inside(cur, vs, off),
        0 <= off,
        va == vs + off,
        va % level_page_size(level) == 0,
        va + level_page_size(level) <= vs + 0x1_0000_0000_0000,
        mapped_page(cur, new, va, pa, level),
        leaf_entry_of(flags, walk_leaf(new.memory(), new.root_frame(), va, level), pa, level),
        forall|x: u64|
            !same_prefix(va, x, level) && !lost_prefix(cur.memory(), cur.root_frame(), va, x, level)
                ==> #[trigger] leaf_walk_kept(cur.memory(), new.memory(), cur.root_frame(), x),
    ensures
        region_leaves_with(new, vs, off + level_page_size(level), flags),
{
    let root = cur.root_frame();
    let m = new.memory();
    let s = level_page_size(level);
    assert(new.translation(va) is Some) by {
        lemma_same_page(va, va);
        assert(same_prefix(va, va, level));
    }
    assert forall|va2: u64| vs <= va2 < vs + off + s implies #[trigger] leaf_with(new, va2, flags) by {
        lemma_indices_bounded(va2);
        if va2 < va {
            lemma_processed_kept(cur, vs, off, va, va2, level);
            assert(leaf_with(cur, va2, flags));
            assert(leaf_walk_kept(cur.memory(), m, root, va2));
        } else {
            lemma_same_page(va, va2);
            assert(walk_e4(m, root, va2) == walk_e4(m, root, va));
            assert(walk_e3(m, root, va2) == walk_e3(m, root, va));
            if level >= 2 {
                assert(walk_e2(m, root, va2) == walk_e2(m, root, va));
            }
            if level >= 3 {
                assert(walk_e1(m, root, va2) == walk_e1(m, root, va));
            }
        }
    }
}

/// A step of [`AddressSpace::map_region`] at `va` = `vs + off` that ran
/// out of frames keeps the leaves of the part mapped before.
proof fn lemma_region_flags_fail<M: PhysMapper>(
    cur: AddressSpace<M>,
    new: AddressSpace<M>,
    vs: u64,
    off: int,
    va: u64,
    level: nat,
    flags: VirtualMemoryPageBits,
)
    requires
        1 <= level <= 3,
        new.root_frame() == cur.root_frame(),
        region_leaves_with(cur, vs, off, flags),
        leaves_inside(cur, vs, off),
        0 <= off,
        va == vs + off,
        va % level_page_size(level) == 0,
        va + level_page_size(level) <= vs + 0x1_0000_0000_0000,
        forall|x: u64|
            !lost_prefix(cur.memory(), cur.root_frame(), va, x, level) ==> #[trigger] leaf_walk_kept(
                cur.memory(),
                new.memory(),
                cur.root_frame(),
                x,
            ),
    ensures
        region_leaves_with(new, vs, off, flags),
{
    assert forall|va2: u64| vs <= va2 < vs + off implies #[trigger] leaf_with(new, va2, flags) by {
        lemma_processed_kept(cur, vs, off, va, va2, level);
        assert(leaf_with(cur, va2, flags));
        assert(leaf_walk_kept(cur.memory(), new.memory(), cur.root_frame(), va2));
    }
}

/// A step of [`AddressSpace::map_region`] that ran out of frames keeps the
/// region mapped so far.
proof fn lemma_region_fail<M: PhysMapper>(
    cur: AddressSpace<M>,
    new: AddressSpace<M>,
    vs: u64,
    ps: u64,
    off: u64,
    va: u64,
    level: nat,
    f0: Set<u64>,
    f1: Set<u64>,
    e: AddressSpaceMapOneError,
)
    requires
        1 <= level <= 3,
        cur.inv(),
        region_mapped(cur, vs, ps, off as int),
        leaves_inside(cur, vs, off as int),
        va == vs + off,
        va % level_page_size(level) == 0,
        va + level_page_size(level) <= vs + 0x1_0000_0000_0000,
        match e {
            AddressSpaceMapOneError::OutOfMemory(c) => chain_ok(cur, new, f0, f1, va, level, Err(c)),
        },
    ensures
        region_mapped(new, vs, ps, off as int),
{
    let m = cur.memory();
    let root = cur.root_frame();
    match e {
        AddressSpaceMapOneError::OutOfMemory(c) => {
            assert forall|va2: u64| #[trigger]
                new.translation(va2) == if vs <= va2 < vs + off {
                    Some((ps + (va2 - vs)) as u64)
                } else {
                    new.translation(va2)
                } by {
                assert(new.translation(va2) == cur.translation(va2));
            }
        },
    }
}

/// The outcome of mapping the page of `va` at `level` to `pa` (see
/// [`AddressSpace::map_one`]): every address that shares the indices of `va`
/// down to `level` translates into the new page at its offset; all else is
/// unchanged. The walks of the page meet a large leaf only at `level`, and
/// no other walk gains one, but for the 2 MiB leaves split from a 1 GiB
/// leaf.
pub open spec fn mapped_page<M: PhysMapper>(
    old: AddressSpace<M>,
    new: AddressSpace<M>,
    va: u64,
    pa: u64,
    level: nat,
) -> bool {
    let m = old.memory();
    let root = old.root_frame();
    &&& forall|va2: u64| #[trigger]
        new.translation(va2) == if same_prefix(va, va2, level) {
            Some((pa + va2 % level_page_size(level)) as u64)
        } else {
            old.translation(va2)
        }
    &&& forall|va2: u64, l: nat| #[trigger]
        huge_at(new.memory(), root, va2, l) ==> if same_prefix(va, va2, level) {
            l == level
        } else {
            huge_at(m, root, va2, l) || (l == 2 && huge_at(m, root, va2, 1))
        }
}

/// The walk of `va` reaches a present 4 KiB entry: what
/// [`AddressSpace::unmap_one`] clears.
pub open spec fn unmappable<M: PhysMapper>(s: AddressSpace<M>, va: u64) -> bool {
    let m = s.memory();
    let root = s.root_frame();
    &&& present(walk_e4(m, root, va))
    &&& link(walk_e3(m, root, va))
    &&& link(walk_e2(m, root, va))
    &&& present(walk_e1(m, root, va))
}

/// After a page is mapped, every address of the page reads back the
/// physical page at the same offset.
pub proof fn lemma_mapped_page_reads_back<M: PhysMapper>(
    old: AddressSpace<M>,
    new: AddressSpace<M>,
    va: u64,
    pa: u64,
    level: nat,
    va2: u64,
)
    requires
        1 <= level <= 3,
        mapped_page(old, new, va, pa, level),
        va - va % level_page_size(level) <= va2 < va - va % level_page_size(level)
            + level_page_size(level),
    ensures
        new.translation(va2) == Some((pa + va2 % level_page_size(level)) as u64),
{
    lemma_block(0, va, level);
    let x = (va - va % level_page_size(level)) as u64;
    lemma_same_page(x, va);
    lemma_same_page(x, va2);
}

/// A 4 KiB page just mapped can be unmapped again: its walk reaches a
/// present PT entry.
pub proof fn lemma_mapped_4k_unmappable<M: PhysMapper>(
    old: AddressSpace<M>,
    new: AddressSpace<M>,
    va: u64,
    pa: u64,
)
    requires
        mapped_page(old, new, va, pa, 3),
        new.root_frame() == old.root_frame(),
    ensures
        unmappable(new, va),
{
    assert(new.translation(va) is Some);
    assert(!huge_at(new.memory(), new.root_frame(), va, 1));
    assert(!huge_at(new.memory(), new.root_frame(), va, 2));
}

/// The frames of the tables rooted at `root`, the root included.
pub open spec fn table_frames<M: PhysMapper>(m: M, root: u64) -> Set<u64> {
    reach3(m, root).union(reach2(m, root)).union(reach1(m, root)).insert(root)
}

/// `m` is `m0` with the table in frame `f` holding the upper half (slots
/// 256..512) of the PML4 in `kr` and zeros below.
pub open spec fn upper_half_copied<M: PhysMapper>(m0: M, m: M, kr: u64, f: u64) -> bool {
    forall|t: u64, j: u64| #[trigger]
        m.entry(t, j) == if t == f {
            if 256 <= j < 512 {
                m0.entry(kr, j)
            } else {
                0
            }
        } else {
            m0.entry(t, j)
        }
}

/// A PML4 in a fresh frame that holds the upper half of the PML4 in `kr`
/// shares the tables below it: its tables are well formed if those of `kr`
/// are, and it translates the upper half as `kr` does and nothing below.
pub proof fn lemma_upper_half_copy<M: PhysMapper>(m0: M, m: M, kr: u64, f: u64)
    requires
        levels_disjoint(m0, kr),
        links_unique(m0, kr),
        !table_frames(m0, kr).contains(f),
        upper_half_copied(m0, m, kr, f),
    ensures
        reach3(m, f).subset_of(reach3(m0, kr)),
        reach2(m, f).subset_of(reach2(m0, kr)),
        reach1(m, f).subset_of(reach1(m0, kr)),
        levels_disjoint(m, f),
        links_unique(m, f),
        forall|va: u64| #[trigger]
            translate(m, f, va) == if l4_index(va) >= 256 {
                translate(m0, kr, va)
            } else {
                None
            },
{
    assert forall|t: u64| reach3(m, f).contains(t) implies reach3(m0, kr).contains(t) by {
        let i = choose|i: u64|
            i < 512 && present(#[trigger] m.entry(f, i)) && frame_address(m.entry(f, i)) == t;
        if i < 256 {
            assert(m.entry(f, i) == 0);
            assert(!get_flag(0u64, 0));
        }
        assert(m.entry(f, i) == m0.entry(kr, i));
    }
    assert forall|t: u64| reach2(m, f).contains(t) implies reach2(m0, kr).contains(t) by {
        let (t3, j) = choose|t3: u64, j: u64|
            reach3(m, f).contains(t3) && j < 512 && link(#[trigger] m.entry(t3, j))
                && frame_address(m.entry(t3, j)) == t;
        assert(reach3(m0, kr).contains(t3));
        assert(m.entry(t3, j) == m0.entry(t3, j));
    }
    assert forall|t: u64| reach1(m, f).contains(t) implies reach1(m0, kr).contains(t) by {
        let (t2, j) = choose|t2: u64, j: u64|
            reach2(m, f).contains(t2) && j < 512 && link(#[trigger] m.entry(t2, j))
                && frame_address(m.entry(t2, j)) == t;
        assert(reach2(m0, kr).contains(t2));
        assert(m.entry(t2, j) == m0.entry(t2, j));
    }
    assert forall|s1: (u64, u64), s2: (u64, u64), t: u64|
        #![trigger slot_links(m, f, s1, t), slot_links(m, f, s2, t)]
        slot_links(m, f, s1, t) && slot_links(m, f, s2, t) implies s1 == s2 by {
        let g1 = if s1.0 == f {
            (kr, s1.1)
        } else {
            s1
        };
        let g2 = if s2.0 == f {
            (kr, s2.1)
        } else {
            s2
        };
        if s1.0 == f {
            if s1.1 < 256 {
                assert(m.entry(f, s1.1) == 0);
                assert(!get_flag(0u64, 0));
            }
            assert(m.entry(f, s1.1) == m0.entry(kr, s1.1));
        } else {
            assert(m.entry(s1.0, s1.1) == m0.entry(s1.0, s1.1));
        }
        if s2.0 == f {
            if s2.1 < 256 {
                assert(m.entry(f, s2.1) == 0);
                assert(!get_flag(0u64, 0));
            }
            assert(m.entry(f, s2.1) == m0.entry(kr, s2.1));
        } else {
            assert(m.entry(s2.0, s2.1) == m0.entry(s2.0, s2.1));
        }
        assert(slot_links(m0, kr, g1, t));
        assert(slot_links(m0, kr, g2, t));
    }
    assert forall|va: u64| #[trigger]
        translate(m, f, va) == if l4_index(va) >= 256 {
            translate(m0, kr, va)
        } else {
            None
        } by {
        lemma_indices_bounded(va);
        let i = l4_index(va);
        if i < 256 {
            assert(m.entry(f, i) == 0);
            assert(!get_flag(0u64, 0));
        } else {
            let e4 = m0.entry(kr, i);
            assert(m.entry(f, i) == e4);
            if present(e4) {
                let t3 = frame_address(e4);
                assert(reach3(m0, kr).contains(t3));
                let e3 = m0.entry(t3, l3_index(va));
                assert(m.entry(t3, l3_index(va)) == e3);
                if link(e3) {
                    let t2 = frame_address(e3);
                    assert(reach2(m0, kr).contains(t2));
                    let e2 = m0.entry(t2, l2_index(va));
                    assert(m.entry(t2, l2_index(va)) == e2);
                    if link(e2) {
                        let t1 = frame_address(e2);
                        assert(reach1(m0, kr).contains(t1));
                        assert(m.entry(t1, l1_index(va)) == m0.entry(t1, l1_index(va)));
                    }
                }
            }
        }
    }
}

/// Every address of `[vs, vs + n)` is mapped.
pub open spec fn range_present<M: PhysMapper>(s: AddressSpace<M>, vs: u64, n: int) -> bool {
    forall|va: u64| vs <= va < vs + n ==> #[trigger] s.translation(va) is Some
}

/// The 4 KiB frame that the page holding `va` maps to in `s`.
pub open spec fn page_frame<M: PhysMapper>(s: AddressSpace<M>, va: u64) -> int {
    s.translation(va)->0 - va % SIZE_4K
}

/// The walk of `va` in `s` goes through a PT and ends in a 4 KiB leaf made
/// from the caller's leaf `flags` (see [`leaf_entry_of`]).
pub open spec fn pt_leaf_with<M: PhysMapper>(s: AddressSpace<M>, va: u64, flags: VirtualMemoryPageBits) -> bool {
    let m = s.memory();
    let root = s.root_frame();
    &&& through_pt(m, root, va)
    &&& leaf_entry_of(flags, walk_e1(m, root, va), frame_address(walk_e1(m, root, va)), 3)
}

/// Every address of `[vs, vs + n)` is mapped, at its offset in its page, to
/// a frame that was in `free0` and is neither in `free1` nor a table frame
/// of `s`; two different pages of the range never share a frame.
pub open spec fn fresh_frames<M: PhysMapper>(
    s: AddressSpace<M>,
    free0: Set<u64>,
    free1: Set<u64>,
    vs: u64,
    n: int,
) -> bool {
    &&& forall|va: u64|
        vs <= va < vs + n ==> {
            &&& #[trigger] s.translation(va) is Some
            &&& 0 <= page_frame(s, va) < 0x1_0000_0000_0000_0000
            &&& free0.contains(page_frame(s, va) as u64)
            &&& !free1.contains(page_frame(s, va) as u64)
            &&& !s.frames_in_use().contains(page_frame(s, va) as u64)
        }
    &&& forall|va1: u64, va2: u64|
        #![trigger page_frame(s, va1), page_frame(s, va2)]
        vs <= va1 < vs + n && vs <= va2 < vs + n && va1 / SIZE_4K != va2 / SIZE_4K ==> page_frame(
            s,
            va1,
        ) != page_frame(s, va2)
}

/// Every frame that left `free0` for `free1` is a table frame of `s` or
/// backs a page of `[vs, vs + n)`.
pub open spec fn frames_accounted<M: PhysMapper>(
    s: AddressSpace<M>,
    free0: Set<u64>,
    free1: Set<u64>,
    vs: u64,
    n: int,
) -> bool {
    forall|f: u64|
        #[trigger] free0.contains(f) && !free1.contains(f) ==> s.frames_in_use().contains(f) || exists|
            va: u64,
        | vs <= va < vs + n && #[trigger] page_frame(s, va) == f
}

/// Some frame left `free0` for `free1` that is neither a table frame of `s`
/// nor backs a page of `[vs, vs + n)`: the frame taken for a page whose
/// tables could then not be made.
pub open spec fn frame_stranded<M: PhysMapper>(
    s: AddressSpace<M>,
    free0: Set<u64>,
    free1: Set<u64>,
    vs: u64,
    n: int,
) -> bool {
    exists|f: u64|
        #[trigger] free0.contains(f) && !free1.contains(f) && !s.frames_in_use().contains(f) && forall|
            va: u64,
        | vs <= va < vs + n ==> #[trigger] page_frame(s, va) != f
}

/// The chain of tables for `va` in `m` ends where the error `e` says the
/// allocation failed: no PDPT; a PDPT but no PD; a PD but no PT.
pub open spec fn chain_stops<M: PhysMapper>(m: M, root: u64, va: u64, e: MapSizeEnsureChainError) -> bool {
    match e {
        MapSizeEnsureChainError::OomPdpt => leaf_table(m, root, va, 1) is None,
        MapSizeEnsureChainError::OomPd => leaf_table(m, root, va, 1) is Some && leaf_table(m, root, va, 2)
            is None,
        MapSizeEnsureChainError::OomPt => leaf_table(m, root, va, 2) is Some && leaf_table(m, root, va, 3)
            is None,
    }
}

/// One step of [`AddressSpace::map_fresh_4k`]: mapping the page at `va` =
/// `vs + off` to the frame `pa` just taken from the free frames keeps the
/// frames of the range fresh and distinct.
proof fn lemma_fresh_step<M: PhysMapper>(
    cur: AddressSpace<M>,
    new: AddressSpace<M>,
    free0: Set<u64>,
    fb: Set<u64>,
    fm: Set<u64>,
    fa: Set<u64>,
    vs: u64,
    off: int,
    va: u64,
    pa: u64,
)
    requires
        cur.inv(),
        fresh_frames(cur, free0, fb, vs, off),
        leaves_inside(cur, vs, off),
        fb.subset_of(free0),
        fb.disjoint(cur.frames_in_use()),
        fb.contains(pa),
        fm == fb.remove(pa),
        pa % SIZE_4K == 0,
        pa < 0x1_0000_0000_0000_0000 - SIZE_4K,
        tables_grew(cur, new, fm, fa),
        0 <= off,
        va == vs + off,
        va % SIZE_4K == 0,
        va + SIZE_4K <= vs + 0x1_0000_0000_0000,
        mapped_page(cur, new, va, pa, 3),
    ensures
        fresh_frames(new, free0, fa, vs, off + SIZE_4K),
{
    assert forall|va2: u64| vs <= va2 < vs + off + SIZE_4K implies {
        &&& #[trigger] new.translation(va2) is Some
        &&& 0 <= page_frame(new, va2) < 0x1_0000_0000_0000_0000
        &&& free0.contains(page_frame(new, va2) as u64)
        &&& !fa.contains(page_frame(new, va2) as u64)
        &&& !new.frames_in_use().contains(page_frame(new, va2) as u64)
    } by {
        if va2 < va {
            lemma_processed_kept(cur, vs, off, va, va2, 3);
            assert(new.translation(va2) == cur.translation(va2));
            assert(cur.translation(va2) is Some);
        } else {
            lemma_same_page(va, va2);
            assert(new.translation(va2) == Some((pa + va2 % SIZE_4K) as u64));
        }
    }
    assert forall|va1: u64, va2: u64|
        #![trigger page_frame(new, va1), page_frame(new, va2)]
        vs <= va1 < vs + off + SIZE_4K && vs <= va2 < vs + off + SIZE_4K && va1 / SIZE_4K != va2
            / SIZE_4K implies page_frame(new, va1) != page_frame(new, va2) by {
        if va1 < va {
            lemma_processed_kept(cur, vs, off, va, va1, 3);
            assert(new.translation(va1) == cur.translation(va1));
            assert(cur.translation(va1) is Some);
        } else {
            lemma_same_page(va, va1);
        }
        if va2 < va {
            lemma_processed_kept(cur, vs, off, va, va2, 3);
            assert(new.translation(va2) == cur.translation(va2));
            assert(cur.translation(va2) is Some);
        } else {
            lemma_same_page(va, va2);
        }
        if va1 < va && va2 < va {
            assert(page_frame(cur, va1) != page_frame(cur, va2));
        }
    }
}

/// One step of [`AddressSpace::map_fresh_4k`]: the page at `va` = `vs +
/// off` mapped to a fresh frame extends the mapped range by that page.
proof fn lemma_present_step<M: PhysMapper>(
    cur: AddressSpace<M>,
    new: AddressSpace<M>,
    vs: u64,
    off: int,
    va: u64,
    pa: u64,
)
    requires
        new.root_frame() == cur.root_frame(),
        range_present(cur, vs, off),
        leaves_inside(cur, vs, off),
        0 <= off,
        va == vs + off,
        va % SIZE_4K == 0,
        va + SIZE_4K <= vs + 0x1_0000_0000_0000,
        mapped_page(cur, new, va, pa, 3),
    ensures
        range_present(new, vs, off + SIZE_4K),
        leaves_inside(new, vs, off + SIZE_4K),
{
    assert forall|va2: u64| vs <= va2 < vs + off + SIZE_4K implies #[trigger] new.translation(
        va2,
    ) is Some by {
        if va2 < va {
            lemma_processed_kept(cur, vs, off, va, va2, 3);
            assert(cur.translation(va2) is Some);
        } else {
            lemma_same_page(va, va2);
        }
    }
    assert forall|va2: u64, l: nat|
        vs <= va2 < vs + off + SIZE_4K && #[trigger] huge_at(new.memory(), new.root_frame(), va2, l)
            implies vs <= va2 - va2 % level_page_size(l) && va2 - va2 % level_page_size(l)
            + level_page_size(l) <= vs + off + SIZE_4K by {
        if va2 < va {
            lemma_processed_kept(cur, vs, off, va, va2, 3);
            if !huge_at(cur.memory(), cur.root_frame(), va2, l) {
                assert(huge_at(cur.memory(), cur.root_frame(), va2, 1));
                lemma_2m_in_1g(va2);
            }
        } else {
            lemma_same_page(va, va2);
        }
    }
}

/// An address in the 1 GiB or 2 MiB page at `va` that shares the indices
/// of `va2` down to the page's level: `va2` with the page's base bits.
proof fn lemma_page_witness(va: u64, va2: u64)
    by (bit_vector)
    ensures
        (va % 0x4000_0000 == 0 && (va >> 39u64) & 0x1ff == (va2 >> 39u64) & 0x1ff && (va
            >> 30u64) & 0x1ff == (va2 >> 30u64) & 0x1ff) ==> ((va | (va2 & 0x3fff_f000)) >> 39u64)
            & 0x1ff == (va2 >> 39u64) & 0x1ff && ((va | (va2 & 0x3fff_f000)) >> 30u64) & 0x1ff == (
        va2 >> 30u64) & 0x1ff && ((va | (va2 & 0x3fff_f000)) >> 21u64) & 0x1ff == (va2 >> 21u64)
            & 0x1ff && ((va | (va2 & 0x3fff_f000)) >> 12u64) & 0x1ff == (va2 >> 12u64) & 0x1ff && va
            <= (va | (va2 & 0x3fff_f000)) && (va | (va2 & 0x3fff_f000)) < va + 0x4000_0000,
        (va % 0x20_0000 == 0 && (va >> 39u64) & 0x1ff == (va2 >> 39u64) & 0x1ff && (va >> 30u64)
            & 0x1ff == (va2 >> 30u64) & 0x1ff && (va >> 21u64) & 0x1ff == (va2 >> 21u64) & 0x1ff)
            ==> ((va | (va2 & 0x1f_f000)) >> 39u64) & 0x1ff == (va2 >> 39u64) & 0x1ff && ((va | (
        va2 & 0x1f_f000)) >> 30u64) & 0x1ff == (va2 >> 30u64) & 0x1ff && ((va | (va2
            & 0x1f_f000)) >> 21u64) & 0x1ff == (va2 >> 21u64) & 0x1ff && ((va | (va2 & 0x1f_f000))
            >> 12u64) & 0x1ff == (va2 >> 12u64) & 0x1ff && va <= (va | (va2 & 0x1f_f000)) && (va | (
        va2 & 0x1f_f000)) < va + 0x20_0000,
{
}

/// From `old` to `new` a translation changed only where the address shares
/// its table indices with an address of `[vs, vs + n)` (it differs from one
/// only in the bits above the 48 that the tables translate).
pub open spec fn changed_only_in<M: PhysMapper>(
    old: AddressSpace<M>,
    new: AddressSpace<M>,
    vs: u64,
    n: int,
) -> bool {
    forall|va2: u64| #[trigger]
        new.translation(va2) == old.translation(va2) || exists|va3: u64|
            vs <= va3 < vs + n && #[trigger] same_prefix(va3, va2, 3)
}

/// [`changed_only_in`] holds for every larger range.
proof fn lemma_changed_only_in_grow<M: PhysMapper>(
    old: AddressSpace<M>,
    new: AddressSpace<M>,
    vs: u64,
    n1: int,
    n2: int,
)
    requires
        changed_only_in(old, new, vs, n1),
        n1 <= n2,
    ensures
        changed_only_in(old, new, vs, n2),
{
    assert forall|va2: u64| #[trigger]
        new.translation(va2) == old.translation(va2) || new.translation(va2) is None || exists|
            va3: u64,
        |
            vs <= va3 < vs + n2 && #[trigger] same_prefix(va3, va2, 3) by {
        if !(new.translation(va2) == old.translation(va2) || new.translation(va2) is None) {
            let va3 = choose|va3: u64| vs <= va3 < vs + n1 && #[trigger] same_prefix(va3, va2, 3);
            assert(vs <= va3 < vs + n2 && same_prefix(va3, va2, 3));
        }
    }
}

/// A step of [`AddressSpace::map_region`] that maps the page at `va` =
/// `vs + off` changes translations only inside the region so far and the
/// new page, or removes them.
proof fn lemma_region_changes<M: PhysMapper>(
    start: AddressSpace<M>,
    cur: AddressSpace<M>,
    new: AddressSpace<M>,
    vs: u64,
    off: int,
    va: u64,
    pa: u64,
    level: nat,
)
    requires
        1 <= level <= 3,
        changed_only_in(start, cur, vs, off),
        0 <= off,
        va == vs + off,
        va % level_page_size(level) == 0,
        mapped_page(cur, new, va, pa, level),
    ensures
        changed_only_in(start, new, vs, off + level_page_size(level)),
{
    let sz = level_page_size(level);
    assert forall|va2: u64| #[trigger]
        new.translation(va2) == start.translation(va2) || new.translation(va2) is None || exists|
            va3: u64,
        |
            vs <= va3 < vs + off + sz && #[trigger] same_prefix(va3, va2, 3) by {
        if same_prefix(va, va2, level) {
            lemma_page_witness(va, va2);
            if level == 1 {
                let w = va | (va2 & 0x3fff_f000);
                assert(vs <= w < vs + off + sz && same_prefix(w, va2, 3));
            } else if level == 2 {
                let w = va | (va2 & 0x1f_f000);
                assert(vs <= w < vs + off + sz && same_prefix(w, va2, 3));
            } else {
                assert(vs <= va < vs + off + sz && same_prefix(va, va2, 3));
            }
        } else if !lost_prefix(cur.memory(), cur.root_frame(), va, va2, level) {
            assert(new.translation(va2) == cur.translation(va2));
            if !(cur.translation(va2) == start.translation(va2) || cur.translation(va2) is None) {
                let va3 = choose|va3: u64| vs <= va3 < vs + off && #[trigger] same_prefix(va3, va2, 3);
                assert(vs <= va3 < vs + off + sz && same_prefix(va3, va2, 3));
            }
        }
    }
}

/// A step of [`AddressSpace::map_region`] that ran out of frames only
/// removed translations.
proof fn lemma_region_changes_fail<M: PhysMapper>(
    start: AddressSpace<M>,
    cur: AddressSpace<M>,
    new: AddressSpace<M>,
    vs: u64,
    off: int,
    va: u64,
    level: nat,
    f0: Set<u64>,
    f1: Set<u64>,
    e: AddressSpaceMapOneError,
)
    requires
        changed_only_in(start, cur, vs, off),
        match e {
            AddressSpaceMapOneError::OutOfMemory(c) => chain_ok(cur, new, f0, f1, va, level, Err(c)),
        },
    ensures
        changed_only_in(start, new, vs, off),
{
    assert forall|va2: u64| #[trigger]
        new.translation(va2) == start.translation(va2) || new.translation(va2) is None || exists|
            va3: u64,
        |
            vs <= va3 < vs + off && #[trigger] same_prefix(va3, va2, 3) by {
        assert(new.translation(va2) == cur.translation(va2) || new.translation(va2) is None);
    }
}

/// The large page of level `level` that holds `va` lies inside `[lo, hi)`.
pub open spec fn block_inside(va: u64, level: nat, lo: int, hi: int) -> bool {
    lo <= va - va % level_page_size(level) && va - va % level_page_size(level) + level_page_size(
        level,
    ) <= hi
}

/// Every entry of `n` is the entry of `m` or 0: entries were only cleared.
pub open spec fn zeroed_only<M: PhysMapper>(m: M, n: M) -> bool {
    forall|t: u64, j: u64| #[trigger] n.entry(t, j) == m.entry(t, j) || n.entry(t, j) == 0
}

/// No address of `[vs, vs + len)` that reaches the large leaf of `va2` at
/// `level` sees that leaf's page wholly inside the range.
pub open spec fn partly_outside(vs: u64, len: u64, va2: u64, level: nat) -> bool {
    forall|x: u64|
        vs <= x < vs + len && #[trigger] same_prefix(x, va2, level) ==> !block_inside(
            x,
            level,
            vs as int,
            vs + len,
        )
}

/// Where the links stayed, two addresses under one large leaf of `m0` are
/// both unmapped in `m` or both mapped through that leaf.
proof fn lemma_huge_shared<M: PhysMapper>(m0: M, m: M, root: u64, x: u64, y: u64, level: nat)
    requires
        huge_at(m0, root, x, level),
        same_prefix(x, y, level),
        links_kept(m0, m, root, x),
    ensures
        translate(m, root, x) is None ==> translate(m, root, y) is None,
        translate(m, root, x) is Some ==> huge_at(m, root, x, level),
{
    assert(walk_e4(m, root, y) == walk_e4(m, root, x));
    assert(walk_e3(m, root, y) == walk_e3(m, root, x));
    assert(walk_e4(m0, root, y) == walk_e4(m0, root, x));
    assert(walk_e3(m0, root, y) == walk_e3(m0, root, x));
    if level == 2 {
        assert(walk_e2(m, root, y) == walk_e2(m, root, x));
    }
}

/// One step of [`AddressSpace::unmap_region`] at `va` = `vs + off`: every
/// large leaf of the original tables whose page lies inside the region and
/// starts below `vs + off + step` is gone.
proof fn lemma_unmap_huge_step<M: PhysMapper>(
    m0: M,
    m1: M,
    m2: M,
    root: u64,
    vs: u64,
    len: u64,
    off: int,
    step: int,
    cleared: nat,
    va: u64,
)
    requires
        vs % SIZE_4K == 0,
        0 <= off < len,
        off % (SIZE_4K as int) == 0,
        va == vs + off,
        forall|x: u64| #[trigger] links_kept(m0, m1, root, x),
        forall|x: u64| #[trigger]
            translate(m2, root, x) == translate(m1, root, x) || translate(m2, root, x) is None,
        forall|x: u64, l: nat|
            vs <= x < vs + off && #[trigger] huge_at(m0, root, x, l) && block_inside(
                x,
                l,
                vs as int,
                vs + len,
            ) ==> translate(m1, root, x) is None,
        cleared == 0 ==> step == SIZE_4K && !(huge_at(m1, root, va, 1) && va % SIZE_1G == 0 && len
            - off >= SIZE_1G) && !(huge_at(m1, root, va, 2) && va % SIZE_2M == 0 && len - off
            >= SIZE_2M),
        cleared == 1 ==> step == SIZE_1G && va % SIZE_1G == 0 && forall|x: u64|
            same_prefix(va, x, 1) ==> #[trigger] translate(m2, root, x) is None,
        cleared == 2 ==> step == SIZE_2M && va % SIZE_2M == 0 && forall|x: u64|
            same_prefix(va, x, 2) ==> #[trigger] translate(m2, root, x) is None,
        cleared <= 2,
    ensures
        forall|x: u64, l: nat|
            vs <= x < vs + off + step && #[trigger] huge_at(m0, root, x, l) && block_inside(
                x,
                l,
                vs as int,
                vs + len,
            ) ==> translate(m2, root, x) is None,
{
    assert forall|x: u64, l: nat|
        vs <= x < vs + off + step && #[trigger] huge_at(m0, root, x, l) && block_inside(
            x,
            l,
            vs as int,
            vs + len,
        ) implies translate(m2, root, x) is None by {
        assert(1 <= l <= 2);
        let b = (x - x % level_page_size(l)) as u64;
        lemma_block(0, x, l);
        if x < va {
            assert(translate(m1, root, x) is None);
        } else if cleared == 1 {
            lemma_same_page(va, x);
        } else if cleared == 2 {
            lemma_same_page(va, x);
        } else {
            lemma_block(b, va, 3);
            lemma_block(0, b, 3);
            lemma_block(0, va, 3);
            assert(b % SIZE_4K == 0) by {
                if l == 1 {
                    lemma_block_1g(0, x);
                    lemma_block_4k(0, b);
                    assert(b % SIZE_1G == 0);
                    assert((b % SIZE_1G == 0) ==> (b % SIZE_4K == 0)) by {
                        lemma_align_masks(b);
                    }
                } else {
                    lemma_block_2m(0, x);
                    assert(b % SIZE_2M == 0);
                    lemma_align_masks(b);
                }
            }
            assert(b <= va);
            assert(huge_at(m0, root, b, l)) by {
                assert(walk_e4(m0, root, b) == walk_e4(m0, root, x));
                assert(walk_e3(m0, root, b) == walk_e3(m0, root, x));
                if l == 2 {
                    assert(walk_e2(m0, root, b) == walk_e2(m0, root, x));
                }
            }
            lemma_huge_shared(m0, m1, root, b, x, l);
            if b < va {
                assert(block_inside(b, l, vs as int, vs + len)) by {
                    lemma_block(0, b, l);
                }
                assert(translate(m1, root, b) is None);
            } else {
                if translate(m1, root, b) is Some {
                    assert(huge_at(m1, root, va, l));
                    assert(false);
                }
            }
        }
    }
}

/// From `old` to `new` a translation changed only where the address shares
/// its table indices with an address of `[lo, lo + n)`.
pub open spec fn touched_only_in<M: PhysMapper>(
    old: AddressSpace<M>,
    new: AddressSpace<M>,
    lo: int,
    n: int,
) -> bool {
    forall|va2: u64| #[trigger]
        new.translation(va2) == old.translation(va2) || exists|va3: u64|
            lo <= va3 < lo + n && #[trigger] same_prefix(va3, va2, 3)
}

/// Clearing the slot that the walk of `va` reads at `level` (the PDPT slot
/// for 1, the PD slot for 2, the PT slot for 3) changes only the
/// translations of addresses that share `va`'s indices down to `level`.
proof fn lemma_clear_touch<M: PhysMapper>(
    m1: M,
    m2: M,
    root: u64,
    p3: Set<u64>,
    p2: Set<u64>,
    p1: Set<u64>,
    own: Map<u64, (u64, u64)>,
    va: u64,
    level: nat,
    t: u64,
    i: u64,
)
    requires
        tables_inv(m1, root, p3, p2, p1),
        owned(m1, root, p3, p2, own),
        1 <= level <= 3,
        leaf_table(m1, root, va, level) == Some(t),
        level == 1 ==> i == l3_index(va),
        level == 2 ==> i == l2_index(va),
        level == 3 ==> i == l1_index(va),
        written(m1, m2, t, i, 0),
    ensures
        forall|x: u64| #[trigger]
            translate(m2, root, x) == translate(m1, root, x) || same_prefix(va, x, level),
{
    lemma_indices_bounded(va);
    assert(!get_flag(0u64, 0));
    if level == 1 {
        lemma_write3(m1, m2, root, p3, p2, p1, t, i, 0);
    } else if level == 2 {
        lemma_write2(m1, m2, root, p3, p2, p1, t, i, 0);
    } else {
        lemma_write1(m1, m2, root, p3, p2, p1, t, i, 0);
    }
    assert forall|x: u64| #[trigger]
        translate(m2, root, x) == translate(m1, root, x) || same_prefix(va, x, level) by {
        lemma_slot_iff_prefix(m1, root, p3, p2, p1, own, va, x, level);
    }
}

/// A step of [`AddressSpace::unmap_region`] at `va`, whose page starts at
/// `lo + off`, that changed only addresses sharing `va`'s indices down to
/// `level` keeps [`touched_only_in`] for the range grown by that page.
proof fn lemma_unmap_touch<M: PhysMapper>(
    start: AddressSpace<M>,
    cur: AddressSpace<M>,
    new: AddressSpace<M>,
    lo: int,
    off: int,
    va: u64,
    level: nat,
)
    requires
        touched_only_in(start, cur, lo, off),
        1 <= level <= 3,
        0 <= off,
        lo + off == va - va % SIZE_4K,
        level < 3 ==> va % level_page_size(level) == 0,
        forall|x: u64| #[trigger] new.translation(x) == cur.translation(x) || same_prefix(va, x, level),
    ensures
        touched_only_in(start, new, lo, off + level_page_size(level)),
{
    let sz = level_page_size(level);
    lemma_block(0, va, 3);
    lemma_align_masks(va);
    let pb = (va - va % SIZE_4K) as u64;
    assert forall|va2: u64| #[trigger]
        new.translation(va2) == start.translation(va2) || exists|va3: u64|
            lo <= va3 < lo + off + sz && #[trigger] same_prefix(va3, va2, 3) by {
        if new.translation(va2) != cur.translation(va2) {
            assert(same_prefix(va, va2, level));
            lemma_page_witness(va, va2);
            if level == 1 {
                let w = va | (va2 & 0x3fff_f000);
                assert(lo <= w < lo + off + sz && same_prefix(w, va2, 3));
            } else if level == 2 {
                let w = va | (va2 & 0x1f_f000);
                assert(lo <= w < lo + off + sz && same_prefix(w, va2, 3));
            } else {
                assert(lo <= pb < lo + off + sz && same_prefix(pb, va2, 3));
            }
        } else if cur.translation(va2) != start.translation(va2) {
            let va3 = choose|va3: u64| lo <= va3 < lo + off && #[trigger] same_prefix(va3, va2, 3);
            assert(lo <= va3 < lo + off + sz && same_prefix(va3, va2, 3));
        }
    }
}

/// From `a` to `b` every entry of every frame stayed, except links to
/// tables that left use, which became 0.
pub open spec fn unlinked_only<M: PhysMapper>(a: AddressSpace<M>, b: AddressSpace<M>) -> bool {
    forall|t: u64, j: u64|
        #[trigger] b.memory().entry(t, j) == a.memory().entry(t, j) || (b.memory().entry(t, j) == 0
            && present(a.memory().entry(t, j)) && a.frames_in_use().contains(
            frame_address(a.memory().entry(t, j)),
        ) && !b.frames_in_use().contains(frame_address(a.memory().entry(t, j))))
}

/// Clearing slot (`t`, `i`), a link to the table in `c` that leaves use,
/// unlinks only.
proof fn lemma_unlink_step<M: PhysMapper>(a: AddressSpace<M>, b: AddressSpace<M>, t: u64, i: u64, c: u64)
    requires
        forall|tt: u64, jj: u64| #[trigger]
            b.memory().entry(tt, jj) == if tt == t && jj == i {
                0
            } else {
                a.memory().entry(tt, jj)
            },
        present(a.memory().entry(t, i)),
        frame_address(a.memory().entry(t, i)) == c,
        a.frames_in_use().contains(c),
        !b.frames_in_use().contains(c),
    ensures
        unlinked_only(a, b),
{
    assert forall|tt: u64, jj: u64| #[trigger] b.memory().entry(tt, jj) == a.memory().entry(tt, jj) || (
        b.memory().entry(tt, jj) == 0 && present(a.memory().entry(tt, jj)) && a.frames_in_use().contains(
            frame_address(a.memory().entry(tt, jj)),
        ) && !b.frames_in_use().contains(frame_address(a.memory().entry(tt, jj)))) by {
        if tt == t && jj == i {
        }
    }
}

/// Unlinking twice, with frames only leaving use, is unlinking once.
proof fn lemma_unlinked_trans<M: PhysMapper>(a: AddressSpace<M>, b: AddressSpace<M>, c: AddressSpace<M>)
    requires
        unlinked_only(a, b),
        unlinked_only(b, c),
        b.frames_in_use().subset_of(a.frames_in_use()),
        c.frames_in_use().subset_of(b.frames_in_use()),
    ensures
        unlinked_only(a, c),
{
    assert forall|t: u64, j: u64| #[trigger] c.memory().entry(t, j) == a.memory().entry(t, j) || (
        c.memory().entry(t, j) == 0 && present(a.memory().entry(t, j)) && a.frames_in_use().contains(
            frame_address(a.memory().entry(t, j)),
        ) && !c.frames_in_use().contains(frame_address(a.memory().entry(t, j)))) by {
        assert(b.memory().entry(t, j) == a.memory().entry(t, j) || b.memory().entry(t, j) == 0);
        assert(c.memory().entry(t, j) == b.memory().entry(t, j) || (c.memory().entry(t, j) == 0 && present(
            b.memory().entry(t, j),
        )));
        assert(!get_flag(0u64, 0));
    }
}

/// The PD in `t2` maps something, and so does every PT it links.
pub open spec fn pd_ok<M: PhysMapper>(m: M, t2: u64) -> bool {
    &&& !table_empty(m, t2)
    &&& forall|k: u64|
        #![trigger m.entry(t2, k)]
        k < 512 && link(m.entry(t2, k)) ==> !table_empty(m, frame_address(m.entry(t2, k)))
}

/// The PDPT in `t3` maps something, and so does every PD it links (see
/// [`pd_ok`]).
pub open spec fn pdpt_ok<M: PhysMapper>(m: M, t3: u64) -> bool {
    &&& !table_empty(m, t3)
    &&& forall|j: u64|
        #![trigger m.entry(t3, j)]
        j < 512 && link(m.entry(t3, j)) ==> pd_ok(m, frame_address(m.entry(t3, j)))
}

/// No table reachable from the root is empty: every PDPT, PD and PT that
/// the walks can reach maps something.
pub open spec fn no_empty_tables<M: PhysMapper>(m: M, root: u64) -> bool {
    forall|i: u64|
        #![trigger m.entry(root, i)]
        i < 512 && present(m.entry(root, i)) ==> pdpt_ok(m, frame_address(m.entry(root, i)))
}

/// [`pd_ok`] depends only on the entries of the PD and of the PTs it links.
proof fn lemma_pd_ok_kept<M: PhysMapper>(m: M, m2: M, t2: u64, keep: spec_fn(u64) -> bool)
    requires
        pd_ok(m, t2),
        keep(t2),
        forall|k: u64|
            #![trigger m.entry(t2, k)]
            k < 512 && link(m.entry(t2, k)) ==> keep(frame_address(m.entry(t2, k))),
        forall|t: u64, j: u64| keep(t) ==> #[trigger] m2.entry(t, j) == m.entry(t, j),
    ensures
        pd_ok(m2, t2),
{
    assert forall|k: u64|
        #![trigger m2.entry(t2, k)]
        k < 512 && link(m2.entry(t2, k)) implies !table_empty(m2, frame_address(m2.entry(t2, k))) by {
        assert(m2.entry(t2, k) == m.entry(t2, k));
        let t1 = frame_address(m.entry(t2, k));
        assert forall|j: u64| j < 512 implies #[trigger] m2.entry(t1, j) == m.entry(t1, j) by {}
        let w = choose|j: u64| j < 512 && present(#[trigger] m.entry(t1, j));
        assert(m2.entry(t1, w) == m.entry(t1, w));
    }
    let w = choose|j: u64| j < 512 && present(#[trigger] m.entry(t2, j));
    assert(m2.entry(t2, w) == m.entry(t2, w));
}

/// [`pdpt_ok`] depends only on the entries of the PDPT, of the PDs it links
/// and of the PTs those link.
proof fn lemma_pdpt_ok_kept<M: PhysMapper>(m: M, m2: M, t3: u64, keep: spec_fn(u64) -> bool)
    requires
        pdpt_ok(m, t3),
        keep(t3),
        forall|j: u64|
            #![trigger m.entry(t3, j)]
            j < 512 && link(m.entry(t3, j)) ==> keep(frame_address(m.entry(t3, j))),
        forall|j: u64, k: u64|
            #![trigger m.entry(frame_address(m.entry(t3, j)), k)]
            j < 512 && link(m.entry(t3, j)) && k < 512 && link(m.entry(frame_address(m.entry(t3, j)), k))
                ==> keep(frame_address(m.entry(frame_address(m.entry(t3, j)), k))),
        forall|t: u64, j: u64| keep(t) ==> #[trigger] m2.entry(t, j) == m.entry(t, j),
    ensures
        pdpt_ok(m2, t3),
{
    assert forall|j: u64|
        #![trigger m2.entry(t3, j)]
        j < 512 && link(m2.entry(t3, j)) implies pd_ok(m2, frame_address(m2.entry(t3, j))) by {
        assert(m2.entry(t3, j) == m.entry(t3, j));
        let t2 = frame_address(m.entry(t3, j));
        assert forall|k: u64|
            #![trigger m.entry(t2, k)]
            k < 512 && link(m.entry(t2, k)) implies keep(frame_address(m.entry(t2, k))) by {
            assert(m.entry(frame_address(m.entry(t3, j)), k) == m.entry(t2, k));
        }
        lemma_pd_ok_kept(m, m2, t2, keep);
    }
    let w = choose|j: u64| j < 512 && present(#[trigger] m.entry(t3, j));
    assert(m2.entry(t3, w) == m.entry(t3, w));
}

/// The walk of `va` reaches a PT through present links.
pub open spec fn through_pt<M: PhysMapper>(m: M, root: u64, va: u64) -> bool {
    present(walk_e4(m, root, va)) && link(walk_e3(m, root, va)) && link(walk_e2(m, root, va))
}

/// The walk of `va` in `m` keeps the links it had in `m0`: the same entries
/// wherever `m0` links, and links exactly where `m0` does.
pub open spec fn links_kept<M: PhysMapper>(m0: M, m: M, root: u64, va: u64) -> bool {
    let e4 = walk_e4(m0, root, va);
    let e3 = walk_e3(m0, root, va);
    let e2 = walk_e2(m0, root, va);
    &&& walk_e4(m, root, va) == e4
    &&& present(e4) ==> {
        &&& link(walk_e3(m, root, va)) == link(e3)
        &&& link(e3) ==> {
            &&& walk_e3(m, root, va) == e3
            &&& link(walk_e2(m, root, va)) == link(e2)
            &&& link(e2) ==> walk_e2(m, root, va) == e2
        }
    }
}

/// Clearing a leaf slot keeps every walk's links.
pub proof fn lemma_clear_leaf<M: PhysMapper>(
    m1: M,
    m2: M,
    root: u64,
    p3: Set<u64>,
    p2: Set<u64>,
    p1: Set<u64>,
    t: u64,
    i: u64,
)
    requires
        tables_inv(m1, root, p3, p2, p1),
        written(m1, m2, t, i, 0),
        p3.contains(t) || p2.contains(t) ==> !link(m1.entry(t, i)),
        t != root,
    ensures
        forall|va: u64| #[trigger] links_kept(m1, m2, root, va),
{
    assert forall|va: u64| #[trigger] links_kept(m1, m2, root, va) by {
        lemma_indices_bounded(va);
        assert(!get_flag(0u64, 0));
    }
}

/// No entry of the table in `t` is present.
pub open spec fn table_empty<M: PhysMapper>(m: M, t: u64) -> bool {
    forall|j: u64| #![trigger m.entry(t, j)] j < 512 ==> !present(m.entry(t, j))
}

/// `new` and `free1` are what `old` and `free0` became by taking tables out
/// and giving their frames back: the tables stay well formed, the root
/// stays, and the free frames gain exactly the frames that left use.
pub open spec fn tables_shrank<M: PhysMapper>(
    old: AddressSpace<M>,
    new: AddressSpace<M>,
    free0: Set<u64>,
    free1: Set<u64>,
) -> bool {
    &&& new.inv()
    &&& new.root_frame() == old.root_frame()
    &&& new.frames_in_use().subset_of(old.frames_in_use())
    &&& free1 == free0.union(old.frames_in_use().difference(new.frames_in_use()))
}

/// Unlinking an empty PT from slot (`t`, `i`) of a PD changes no
/// translation; the PT leaves the tables.
pub proof fn lemma_unlink1<M: PhysMapper>(
    m1: M,
    m2: M,
    root: u64,
    p3: Set<u64>,
    p2: Set<u64>,
    p1: Set<u64>,
    own: Map<u64, (u64, u64)>,
    t: u64,
    i: u64,
)
    requires
        tables_inv(m1, root, p3, p2, p1),
        owned(m1, root, p3, p2, own),
        p2.contains(t),
        i < 512,
        link(m1.entry(t, i)),
        table_empty(m1, frame_address(m1.entry(t, i))),
        written(m1, m2, t, i, 0),
    ensures
        tables_inv(m2, root, p3, p2, p1.remove(frame_address(m1.entry(t, i)))),
        owned(m2, root, p3, p2, own),
        forall|va: u64| #[trigger] translate(m2, root, va) == translate(m1, root, va),
{
    let c = frame_address(m1.entry(t, i));
    lemma_write2(m1, m2, root, p3, p2, p1, t, i, 0);
    lemma_owned_nonlink(m1, m2, root, p3, p2, own, t, i, 0);
    assert(!get_flag(0u64, 0));
    assert forall|va: u64| #[trigger] translate(m2, root, va) == translate(m1, root, va) by {
        lemma_indices_bounded(va);
        if on_slot2(m1, root, va, t, i) {
            assert(!present(m1.entry(c, l1_index(va))));
        }
    }
    assert forall|t2: u64, j: u64|
        #![trigger p2.contains(t2), m2.entry(t2, j)]
        p2.contains(t2) && j < 512 && link(m2.entry(t2, j)) implies p1.remove(c).contains(
            frame_address(m2.entry(t2, j)),
        ) by {
        assert(m2.entry(t2, j) == m1.entry(t2, j));
    }
}

/// Unlinking an empty PD from slot (`t`, `i`) of a PDPT changes no
/// translation; the PD leaves the tables.
pub proof fn lemma_unlink2<M: PhysMapper>(
    m1: M,
    m2: M,
    root: u64,
    p3: Set<u64>,
    p2: Set<u64>,
    p1: Set<u64>,
    own: Map<u64, (u64, u64)>,
    t: u64,
    i: u64,
)
    requires
        tables_inv(m1, root, p3, p2, p1),
        owned(m1, root, p3, p2, own),
        p3.contains(t),
        i < 512,
        link(m1.entry(t, i)),
        table_empty(m1, frame_address(m1.entry(t, i))),
        written(m1, m2, t, i, 0),
    ensures
        tables_inv(m2, root, p3, p2.remove(frame_address(m1.entry(t, i))), p1),
        owned(m2, root, p3, p2.remove(frame_address(m1.entry(t, i))), own),
        forall|va: u64| #[trigger] translate(m2, root, va) == translate(m1, root, va),
{
    let c = frame_address(m1.entry(t, i));
    let p2n = p2.remove(c);
    lemma_write3(m1, m2, root, p3, p2, p1, t, i, 0);
    lemma_owned_nonlink(m1, m2, root, p3, p2, own, t, i, 0);
    assert(!get_flag(0u64, 0));
    assert forall|va: u64| #[trigger] translate(m2, root, va) == translate(m1, root, va) by {
        lemma_indices_bounded(va);
        if on_slot3(m1, root, va, t, i) {
            assert(!present(m1.entry(c, l2_index(va))));
        }
    }
    assert forall|t2: u64, j: u64|
        #![trigger p3.contains(t2), m2.entry(t2, j)]
        p3.contains(t2) && j < 512 && link(m2.entry(t2, j)) implies p2n.contains(
            frame_address(m2.entry(t2, j)),
        ) by {
        assert(m2.entry(t2, j) == m1.entry(t2, j));
    }
    assert forall|t2: u64, j: u64|
        #![trigger p2n.contains(t2), m2.entry(t2, j)]
        p2n.contains(t2) && j < 512 && link(m2.entry(t2, j)) implies p1.contains(
            frame_address(m2.entry(t2, j)),
        ) by {
        assert(p2.contains(t2));
    }
    assert forall|t2: u64, j: u64|
        #![trigger p2n.contains(t2), m2.entry(t2, j)]
        p2n.contains(t2) && j < 512 && link(m2.entry(t2, j)) implies own[frame_address(
            m2.entry(t2, j),
        )] == (t2, j) by {
        assert(p2.contains(t2));
    }
}

/// Unlinking an empty PDPT from slot `i` of the root changes no
/// translation; the PDPT leaves the tables.
pub proof fn lemma_unlink3<M: PhysMapper>(
    m1: M,
    m2: M,
    root: u64,
    p3: Set<u64>,
    p2: Set<u64>,
    p1: Set<u64>,
    own: Map<u64, (u64, u64)>,
    i: u64,
)
    requires
        tables_inv(m1, root, p3, p2, p1),
        owned(m1, root, p3, p2, own),
        i < 512,
        present(m1.entry(root, i)),
        table_empty(m1, frame_address(m1.entry(root, i))),
        written(m1, m2, root, i, 0),
    ensures
        tables_inv(m2, root, p3.remove(frame_address(m1.entry(root, i))), p2, p1),
        owned(m2, root, p3.remove(frame_address(m1.entry(root, i))), p2, own),
        forall|va: u64| #[trigger] translate(m2, root, va) == translate(m1, root, va),
{
    let c = frame_address(m1.entry(root, i));
    let p3n = p3.remove(c);
    lemma_write4(m1, m2, root, p3, p2, p1, i, 0);
    lemma_owned_nonlink(m1, m2, root, p3, p2, own, root, i, 0);
    assert(!get_flag(0u64, 0));
    assert forall|va: u64| #[trigger] translate(m2, root, va) == translate(m1, root, va) by {
        lemma_indices_bounded(va);
        if l4_index(va) == i {
            assert(!present(m1.entry(c, l3_index(va))));
        }
    }
    assert forall|i2: u64|
        #![trigger m2.entry(root, i2)]
        i2 < 512 && present(m2.entry(root, i2)) implies p3n.contains(
            frame_address(m2.entry(root, i2)),
        ) by {
        assert(m2.entry(root, i2) == m1.entry(root, i2));
    }
    assert forall|t2: u64, j: u64|
        #![trigger p3n.contains(t2), m2.entry(t2, j)]
        p3n.contains(t2) && j < 512 && link(m2.entry(t2, j)) implies p2.contains(
            frame_address(m2.entry(t2, j)),
        ) by {
        assert(p3.contains(t2));
    }
    assert forall|t2: u64, j: u64|
        #![trigger p3n.contains(t2), m2.entry(t2, j)]
        p3n.contains(t2) && j < 512 && link(m2.entry(t2, j)) implies own[frame_address(
            m2.entry(t2, j),
        )] == (t2, j) by {
        assert(p3.contains(t2));
    }
}

/// A mapping error of [`AddressSpace::map_one`].
#[derive(Debug, Copy, Clone, PartialEq, Eq, Structural)]
pub enum AddressSpaceMapOneError {
    /// A table of the chain could not be allocated.
    OutOfMemory(MapSizeEnsureChainError),
}

/// An error of [`AddressSpace::map_fresh_4k`].
#[derive(Debug, Copy, Clone, PartialEq, Eq, Structural)]
pub enum MapFreshError {
    /// The allocator had no frame for a page.
    NoFrame,
    /// A table of a chain could not be allocated.
    OutOfMemory(MapSizeEnsureChainError),
}

/// A mapping error of [`AddressSpace::map_region`].
#[derive(Debug, Copy, Clone, PartialEq, Eq, Structural)]
pub enum AddressSpaceMapRegionError {
    /// A table of a chain could not be allocated.
    OutOfMemory(MapSizeEnsureChainError),
    /// The remaining region starts at addresses that are not 4 KiB aligned.
    Unaligned(VirtualAddress, PhysicalAddress),
}

impl From<AddressSpaceMapOneError> for AddressSpaceMapRegionError {
    fn from(e: AddressSpaceMapOneError) -> (r: Self) {
        match e {
            AddressSpaceMapOneError::OutOfMemory(e) => AddressSpaceMapRegionError::OutOfMemory(e),
        }
    }
}

impl vstd::std_specs::convert::FromSpecImpl<AddressSpaceMapOneError> for AddressSpaceMapRegionError {
    open spec fn obeys_from_spec() -> bool {
        true
    }

    open spec fn from_spec(v: AddressSpaceMapOneError) -> Self {
        match v {
            AddressSpaceMapOneError::OutOfMemory(e) => AddressSpaceMapRegionError::OutOfMemory(e),
        }
    }
}

/// The table level that `ensure_chain` produces.
#[derive(Copy, Clone, Debug, Eq, PartialEq, Structural)]
pub enum EnsureTarget {
    /// A **PDPTE** will be written (1 GiB leaf).
    L3For1G,
    /// A **PDE** will be written (2 MiB leaf).
    L2For2M,
    /// A **PTE** will be written (4 KiB leaf).
    L1For4K,
}

/// Where a walk ends.
pub enum WalkResult {
    /// Hit a 1 GiB leaf in the PDPT at `pdpt`, slot `i3`.
    Leaf1G { base: PhysicalPage<Size1G>, pdpt: PhysicalPage<Size4K>, i3: L3Index },
    /// Hit a 2 MiB leaf in the PD at `pd`, slot `i2`.
    Leaf2M { base: PhysicalPage<Size2M>, pd: PhysicalPage<Size4K>, i2: L2Index },
    /// Reached the PT at `pt`, slot `i1`, holding `pte`.
    L1 { pt: PhysicalPage<Size4K>, i1: L1Index, pte: PtEntry },
    /// Missing somewhere in the chain.
    Missing,
}

/// An error of [`AddressSpace::new`].
#[derive(Debug, Copy, Clone, PartialEq, Eq, Structural)]
pub enum AddressSpaceError {
    /// The allocator had no frame for the new PML4.
    OutOfMemory,
}

/// An error of [`AddressSpace::unmap_one`].
#[derive(Debug, Copy, Clone, PartialEq, Eq, Structural)]
pub enum AddressSpaceUnmapError {
    /// The walk reached a PT whose entry is not present.
    MissingPte,
    /// The walk ended at a 2 MiB leaf.
    Found2MiBLeaf,
    /// The walk ended at a 1 GiB leaf.
    Found1GiBLeaf,
    /// The walk met a non-present entry above the PT.
    MissingChain,
}

impl AddressSpaceUnmapError {
    /// A description of the error.
    pub fn as_str(&self) -> (r: &'static str)
        ensures
            r@ == match self {
                AddressSpaceUnmapError::MissingPte => "missing: pte"@,
                AddressSpaceUnmapError::Found2MiBLeaf => "found 2MiB leaf (not a 4KiB mapping)"@,
                AddressSpaceUnmapError::Found1GiBLeaf => "found 1GiB leaf (not a 4KiB mapping)"@,
                AddressSpaceUnmapError::MissingChain => "missing: chain"@,
            },
    {
        match self {
            AddressSpaceUnmapError::MissingPte => "missing: pte",
            AddressSpaceUnmapError::Found2MiBLeaf => "found 2MiB leaf (not a 4KiB mapping)",
            AddressSpaceUnmapError::Found1GiBLeaf => "found 1GiB leaf (not a 4KiB mapping)",
            AddressSpaceUnmapError::MissingChain => "missing: chain",
        }
    }
}

/// Handle to a single, concrete address space: the PML4 frame and the
/// memory that holds the tables.
pub struct AddressSpace<M: PhysMapper> {
    root: PhysicalPage<Size4K>,
    mapper: M,
    pdpts: Ghost<Set<u64>>,
    pds: Ghost<Set<u64>>,
    pts: Ghost<Set<u64>>,
    owner: Ghost<Map<u64, (u64, u64)>>,
}

/// The PML4 root page of an [`AddressSpace`].
pub type RootPage = PhysicalPage<Size4K>;

impl<M: PhysMapper> AddressSpace<M> {
    /// The tables are well formed: the root is a 4 KiB frame and every link
    /// of a level points at a table of the next level, with no frame at two
    /// levels.
    pub closed spec fn inv(&self) -> bool {
        &&& self.root.wf()
        &&& fits_phys(self.root.base.0)
        &&& tables_inv(self.mapper, self.root.base.0, self.pdpts@, self.pds@, self.pts@)
        &&& owned(self.mapper, self.root.base.0, self.pdpts@, self.pds@, self.owner@)
    }

    /// The physical address that `va` translates to, if mapped.
    pub closed spec fn translation(&self, va: u64) -> Option<u64> {
        translate(self.mapper, self.root.base.0, va)
    }

    /// The translation is the walk of the tables from the root.
    pub proof fn lemma_translation_is_walk(&self, va: u64)
        ensures
            self.translation(va) == translate(self.memory(), self.root_frame(), va),
    {
    }

    /// The frames that hold this address space's tables (the root included).
    pub closed spec fn frames_in_use(&self) -> Set<u64> {
        self.pdpts@.union(self.pds@).union(self.pts@).insert(self.root.base.0)
    }

    /// The memory that holds the tables.
    pub closed spec fn memory(&self) -> M {
        self.mapper
    }

    /// The frame of the root table.
    pub closed spec fn root_frame(&self) -> u64 {
        self.root.base.0
    }

    /// Wraps the tables rooted at `root` in `mapper`.
    ///
    /// The tables must use no frame at two levels and link no table twice.
    pub fn from_root(mapper: M, root: PhysicalPage<Size4K>) -> (r: Self)
        requires
            root.wf(),
            fits_phys(root.base.0),
            levels_disjoint(mapper, root.base.0),
            links_unique(mapper, root.base.0),
        ensures
            r.inv(),
            r.root_frame() == root.base.0,
            r.memory() == mapper,
            r.frames_in_use() == table_frames(mapper, root.base.0),
            forall|va: u64| #[trigger] r.translation(va) == translate(mapper, root.base.0, va),
    {
        proof {
            lemma_reach_inv(mapper, root.base.0);
            lemma_owners(mapper, root.base.0);
        }
        let r = AddressSpace {
            root,
            mapper,
            pdpts: Ghost(reach3(mapper, root.base.0)),
            pds: Ghost(reach2(mapper, root.base.0)),
            pts: Ghost(reach1(mapper, root.base.0)),
            owner: Ghost(owners(mapper, root.base.0)),
        };
        proof {
            assert(r.frames_in_use() =~= table_frames(mapper, root.base.0));
        }
        r
    }

    /// Makes an address space whose PML4 is a fresh frame from `alloc`: its
    /// upper half (slots 256..512) is copied from the kernel PML4 in
    /// `kernel_root`, so the new space shares the kernel's tables; its lower
    /// half is empty.
    ///
    /// # Errors
    /// [`AddressSpaceError::OutOfMemory`]: `alloc` had no frame (the mapper
    /// is dropped).
    pub fn new<A: PhysFrameAlloc>(
        mapper: M,
        alloc: &mut A,
        kernel_root: PhysicalPage<Size4K>,
    ) -> (r: Result<Self, AddressSpaceError>)
        requires
            levels_disjoint(mapper, kernel_root.base.0),
            links_unique(mapper, kernel_root.base.0),
            old(alloc).free_frames().disjoint(table_frames(mapper, kernel_root.base.0)),
        ensures
            match r {
                Ok(s) => {
                    &&& s.inv()
                    &&& old(alloc).free_frames().contains(s.root_frame())
                    &&& final(alloc).free_frames() == old(alloc).free_frames().remove(
                        s.root_frame(),
                    )
                    &&& s.frames_in_use().subset_of(
                        table_frames(mapper, kernel_root.base.0).insert(s.root_frame()),
                    )
                    &&& forall|va: u64| #[trigger]
                        s.translation(va) == if l4_index(va) >= 256 {
                            translate(mapper, kernel_root.base.0, va)
                        } else {
                            None
                        }
                },
                Err(AddressSpaceError::OutOfMemory) => final(alloc).free_frames() == old(
                    alloc,
                ).free_frames(),
            },
    {
        let f = match alloc.alloc_4k() {
            Some(f) => f,
            None => {
                return Err(AddressSpaceError::OutOfMemory);
            },
        };
        let ghost m0 = mapper;
        let ghost kr = kernel_root.base.0;
        let mut mapper = mapper;
        mapper.zero_table(f);
        proof {
            assert(table_frames(m0, kr).contains(kr));
        }
        Self::clone_upper_half_from(&mut mapper, f, kernel_root);
        proof {
            assert(upper_half_copied(m0, mapper, kr, f.base.0));
            lemma_upper_half_copy(m0, mapper, kr, f.base.0);
        }
        let s = Self::from_root(mapper, f);
        proof {
            assert(s.frames_in_use().subset_of(table_frames(m0, kr).insert(f.base.0)));
        }
        Ok(s)
    }

    /// Copies the upper half (slots 256..512) of the PML4 in `src` into the
    /// PML4 in `dst`, so that both link the same kernel tables.
    fn clone_upper_half_from(mapper: &mut M, dst: PhysicalPage<Size4K>, src: PhysicalPage<Size4K>)
        requires
            dst.base.0 != src.base.0,
        ensures
            forall|t: u64, j: u64| #[trigger]
                final(mapper).entry(t, j) == if t == dst.base.0 && 256 <= j < 512 {
                    old(mapper).entry(src.base.0, j)
                } else {
                    old(mapper).entry(t, j)
                },
    {
        let ghost m0 = *mapper;
        let mut i: usize = 256;
        while i < 512
            invariant
                256 <= i <= 512,
                dst.base.0 != src.base.0,
                forall|t: u64, j: u64| #[trigger]
                    mapper.entry(t, j) == if t == dst.base.0 && 256 <= j < i {
                        m0.entry(src.base.0, j)
                    } else {
                        m0.entry(t, j)
                    },
            decreases 512 - i,
        {
            let e = mapper.read_entry(src, i);
            mapper.write_entry(dst, i, e);
            i = i + 1;
        }
    }

    /// The page of the PML4.
    pub fn root_page(&self) -> (r: RootPage)
        ensures
            r.base.0 == self.root_frame(),
    {
        self.root
    }

    /// Gives the memory back.
    pub fn into_mapper(self) -> (r: M)
        ensures
            r == self.memory(),
    {
        self.mapper
    }

    /// Borrows the memory.
    pub fn mapper(&self) -> (r: &M)
        ensures
            *r == self.memory(),
    {
        &self.mapper
    }

    /// Walks the tables for `va` down to where the walk ends.
    pub fn walk(&self, va: VirtualAddress) -> (r: WalkResult)
        requires
            self.inv(),
        ensures
            ({
                let m = self.memory();
                let root = self.root_frame();
                let e4 = walk_e4(m, root, va.0);
                let e3 = walk_e3(m, root, va.0);
                let e2 = walk_e2(m, root, va.0);
                let e1 = walk_e1(m, root, va.0);
                match r {
                    WalkResult::Missing => !present(e4) || !present(e3) || (!huge(e3) && !present(
                        e2,
                    )),
                    WalkResult::Leaf1G { base, pdpt, i3 } => present(e4) && present(e3) && huge(e3)
                        && pdpt.base.0 == frame_address(e4) && pdpt.wf() && i3.0 == l3_index(va.0)
                        && base.base.0 == leaf_1g_address(e3),
                    WalkResult::Leaf2M { base, pd, i2 } => present(e4) && link(e3) && present(e2)
                        && huge(e2) && pd.base.0 == frame_address(e3) && pd.wf() && i2.0 == l2_index(
                        va.0,
                    ) && base.base.0 == leaf_2m_address(e2),
                    WalkResult::L1 { pt, i1, pte } => present(e4) && link(e3) && link(e2)
                        && pt.base.0 == frame_address(e2) && pt.wf() && i1.0 == l1_index(va.0)
                        && pte.0.0 == e1,
                }
            }),
    {
        let (i4, i3, i2, i1) = split_indices(va);
        let e4 = Pml4Entry::from_bits(self.mapper.read_entry(self.root, i4.as_usize()));
        let pdpt_page = match e4.next_table() {
            Some(p) => p,
            None => {
                return WalkResult::Missing;
            },
        };
        let e3 = PdptEntry::from_bits(self.mapper.read_entry(pdpt_page, i3.as_usize()));
        match e3.kind() {
            Some(PdptEntryKind::Leaf1GiB(base, _fl)) => WalkResult::Leaf1G { base, pdpt: pdpt_page, i3 },
            Some(PdptEntryKind::NextPageDirectory(pd_page, _fl)) => {
                let e2 = PdEntry::from_bits(self.mapper.read_entry(pd_page, i2.as_usize()));
                match e2.kind() {
                    Some(PdEntryKind::Leaf2MiB(base, _fl)) => WalkResult::Leaf2M {
                        base,
                        pd: pd_page,
                        i2,
                    },
                    Some(PdEntryKind::NextPageTable(pt_page, _fl)) => {
                        let pte = PtEntry::from_raw(self.mapper.read_entry(pt_page, i1.as_usize()));
                        WalkResult::L1 { pt: pt_page, i1, pte }
                    },
                    None => WalkResult::Missing,
                }
            },
            None => WalkResult::Missing,
        }
    }

    /// Translates `va` to a physical address if mapped, adding the in-page
    /// offset for 1 GiB, 2 MiB and 4 KiB leaves.
    pub fn query(&self, va: VirtualAddress) -> (r: Option<PhysicalAddress>)
        requires
            self.inv(),
        ensures
            r == match self.translation(va.0) {
                Some(x) => Some(PhysicalAddress(x)),
                None => None,
            },
    {
        match self.walk(va) {
            WalkResult::Leaf1G { base, .. } => {
                let off = va.offset::<Size1G>();
                proof {
                    lemma_leaf_1g_bounds(walk_e3(self.mapper, self.root.base.0, va.0));
                }
                Some(base.join(off))
            },
            WalkResult::Leaf2M { base, .. } => {
                let off = va.offset::<Size2M>();
                proof {
                    lemma_leaf_2m_bounds(walk_e2(self.mapper, self.root.base.0, va.0));
                }
                Some(base.join(off))
            },
            WalkResult::L1 { pte, .. } => {
                if !pte.is_present() {
                    return None;
                }
                proof {
                    lemma_frame_address_bounds(pte.0.0);
                }
                let base4k = PhysicalPage::<Size4K>::from_addr(pte.flags().physical_address());
                let off = va.offset::<Size4K>();
                Some(base4k.join(off))
            },
            WalkResult::Missing => None,
        }
    }

    /// Clears the single **4 KiB** mapping of `va`: its PT entry becomes 0
    /// and no other entry changes, so exactly the addresses of `va`'s page
    /// (and those that differ from them only above bit 47, which the tables
    /// do not translate) lose their translation.
    ///
    /// # Errors
    /// - the walk does not reach a present PT entry: a 1 GiB or 2 MiB leaf,
    ///   a missing table, or a missing PTE.
    pub fn unmap_one(&mut self, va: VirtualAddress) -> (r: Result<(), AddressSpaceUnmapError>)
        requires
            old(self).inv(),
        ensures
            final(self).inv(),
            final(self).frames_in_use() == old(self).frames_in_use(),
            final(self).root_frame() == old(self).root_frame(),
            r is Ok <==> unmappable(*old(self), va.0),
            r is Ok ==> forall|va2: u64| #[trigger]
                final(self).translation(va2) == if same_prefix(va.0, va2, 3) {
                    None
                } else {
                    old(self).translation(va2)
                },
            ({
                let m = old(self).memory();
                let root = old(self).root_frame();
                let e4 = walk_e4(m, root, va.0);
                let e3 = walk_e3(m, root, va.0);
                let e2 = walk_e2(m, root, va.0);
                let e1 = walk_e1(m, root, va.0);
                match r {
                    Ok(()) => present(e4) && link(e3) && link(e2) && present(e1) && written(
                        m,
                        final(self).memory(),
                        frame_address(e2),
                        l1_index(va.0),
                        0,
                    ) && forall|va2: u64|
                        #[trigger]
                        final(self).translation(va2) == if on_slot1(
                            m,
                            root,
                            va2,
                            frame_address(e2),
                            l1_index(va.0),
                        ) {
                            None
                        } else {
                            old(self).translation(va2)
                        },
                    Err(e) => *final(self) == *old(self) && match e {
                        AddressSpaceUnmapError::MissingPte => present(e4) && link(e3) && link(e2)
                            && !present(e1),
                        AddressSpaceUnmapError::Found2MiBLeaf => present(e4) && link(e3) && present(
                            e2,
                        ) && huge(e2),
                        AddressSpaceUnmapError::Found1GiBLeaf => present(e4) && present(e3) && huge(
                            e3,
                        ),
                        AddressSpaceUnmapError::MissingChain => !present(e4) || !present(e3) || (
                        !huge(e3) && !present(e2)),
                    },
                }
            }),
    {
        match self.walk(va) {
            WalkResult::L1 { pt, i1, pte } => {
                if !pte.is_present() {
                    return Err(AddressSpaceUnmapError::MissingPte);
                }
                let ghost m1 = self.mapper;
                proof {
                    lemma_indices_bounded(va.0);
                    assert(self.pts@.contains(pt.base.0));
                }
                self.mapper.write_entry(pt, i1.as_usize(), 0);
                proof {
                    lemma_write1(
                        m1,
                        self.mapper,
                        self.root.base.0,
                        self.pdpts@,
                        self.pds@,
                        self.pts@,
                        pt.base.0,
                        i1.0 as u64,
                        0,
                    );
                    lemma_owned_nonlink(
                        m1,
                        self.mapper,
                        self.root.base.0,
                        self.pdpts@,
                        self.pds@,
                        self.owner@,
                        pt.base.0,
                        i1.0 as u64,
                        0,
                    );
                    assert forall|va2: u64| #[trigger]
                        self.translation(va2) == if on_slot1(
                            m1,
                            self.root.base.0,
                            va2,
                            pt.base.0,
                            i1.0 as u64,
                        ) {
                            None
                        } else {
                            old(self).translation(va2)
                        } by {
                        assert(translate(self.mapper, self.root.base.0, va2) == translate(
                            self.mapper,
                            self.root.base.0,
                            va2,
                        ));
                    }
                    assert forall|va2: u64| #[trigger]
                        self.translation(va2) == if same_prefix(va.0, va2, 3) {
                            None
                        } else {
                            old(self).translation(va2)
                        } by {
                        lemma_slot_iff_prefix(
                            m1,
                            self.root.base.0,
                            self.pdpts@,
                            self.pds@,
                            self.pts@,
                            self.owner@,
                            va.0,
                            va2,
                            3,
                        );
                    }
                }
                Ok(())
            },
            WalkResult::Leaf2M { .. } => Err(AddressSpaceUnmapError::Found2MiBLeaf),
            WalkResult::Leaf1G { .. } => Err(AddressSpaceUnmapError::Found1GiBLeaf),
            WalkResult::Missing => Err(AddressSpaceUnmapError::MissingChain),
        }
    }
}

impl<M: PhysMapper> AddressSpace<M> {
    /// Makes sure the PML4 slot of `va` links to a PDPT, taking a zeroed
    /// frame from `alloc` if the slot is empty.
    pub(crate) fn ensure_pdpt<A: PhysFrameAlloc>(
        &mut self,
        alloc: &mut A,
        va: VirtualAddress,
        flags: VirtualMemoryPageBits,
    ) -> (r: Result<PhysicalPage<Size4K>, MapSizeEnsureChainError>)
        requires
            old(self).inv(),
            old(alloc).free_frames().disjoint(old(self).frames_in_use()),
        ensures
            chain_ok(
                *old(self),
                *final(self),
                old(alloc).free_frames(),
                final(alloc).free_frames(),
                va.0,
                1,
                r,
            ),
            r is Ok ==> new_links_with(
                old(self).memory(),
                final(self).memory(),
                old(self).root_frame(),
                va.0,
                1,
                flags,
            ),
            forall|x: u64| #[trigger]
                leaf_walk_kept(old(self).memory(), final(self).memory(), old(self).root_frame(), x),
            links_made_with(old(self).memory(), final(self).memory(), old(self).root_frame(), flags),
            links_kept_all(old(self).memory(), final(self).memory(), old(self).root_frame()),
    {
        let (i4, _i3, _i2, _i1) = split_indices(va);
        proof {
            lemma_indices_bounded(va.0);
        }
        let e4 = Pml4Entry::from_bits(self.mapper.read_entry(self.root, i4.as_usize()));
        match e4.next_table() {
            Some(p) => {
                proof {
                    lemma_frame_address_bounds(e4.0);
                    assert(old(alloc).free_frames() =~= old(alloc).free_frames().difference(
                        self.frames_in_use(),
                    ));
                }
                return Ok(p);
            },
            None => {},
        }
        let f = match alloc.alloc_4k() {
            Some(f) => f,
            None => {
                proof {
                    assert(old(alloc).free_frames() =~= old(alloc).free_frames().difference(
                        self.frames_in_use(),
                    ));
                }
                return Err(MapSizeEnsureChainError::OomPdpt);
            },
        };
        let ghost m1 = self.mapper;
        let ghost root = self.root.base.0;
        let ghost p3 = self.pdpts@;
        let ghost p2 = self.pds@;
        let ghost p1 = self.pts@;
        self.mapper.zero_table(f);
        let ghost m2 = self.mapper;
        proof {
            lemma_zero_fresh(m1, m2, root, p3, p2, p1, f.base.0);
            lemma_zero_unlinked(m2, root, p3, p2, p1, f.base.0);
            lemma_owned_agree(m1, m2, root, p3, p2, p1, self.owner@);
            lemma_grow3(m2, root, p3, p2, p1, f.base.0);
        }
        let e = Pml4Entry::present_with(flags, f);
        self.mapper.write_entry(self.root, i4.as_usize(), e.0);
        proof {
            let p3n = p3.insert(f.base.0);
            lemma_write4(m2, self.mapper, root, p3n, p2, p1, i4.0 as u64, e.0);
            lemma_owned_link(m2, self.mapper, root, p3, p2, p1, self.owner@, root, i4.0 as u64, f.base.0, e.0);
            self.pdpts = Ghost(p3n);
            self.owner = Ghost(self.owner@.insert(f.base.0, (root, i4.0 as u64)));
            assert forall|va2: u64| #[trigger]
                self.translation(va2) == old(self).translation(va2) by {
                lemma_indices_bounded(va2);
                if l4_index(va2) == i4.0 {
                    assert(m2.entry(f.base.0, l3_index(va2)) == 0);
                    assert(!get_flag(0u64, 0));
                }
            }
            assert(self.frames_in_use() =~= old(self).frames_in_use().insert(f.base.0));
            assert forall|j: u64| #![trigger self.mapper.entry(f.base.0, j)] j < 512 implies !link(
                self.mapper.entry(f.base.0, j),
            ) by {
                assert(self.mapper.entry(f.base.0, j) == m2.entry(f.base.0, j));
            }
            assert(final(alloc).free_frames() =~= old(alloc).free_frames().difference(
                self.frames_in_use(),
            ));
            assert forall|x: u64| #[trigger] leaf_walk_kept(m1, self.mapper, root, x) by {
                lemma_indices_bounded(x);
                if leaf_of(m1, root, x) is Some {
                    let t3 = frame_address(walk_e4(m1, root, x));
                    assert(p3.contains(t3));
                    assert(self.mapper.entry(root, l4_index(x)) == m1.entry(root, l4_index(x)));
                    assert(self.mapper.entry(t3, l3_index(x)) == m1.entry(t3, l3_index(x)));
                    if link(walk_e3(m1, root, x)) {
                        let t2 = frame_address(walk_e3(m1, root, x));
                        assert(p2.contains(t2));
                        assert(self.mapper.entry(t2, l2_index(x)) == m1.entry(t2, l2_index(x)));
                        if link(walk_e2(m1, root, x)) {
                            let t1 = frame_address(walk_e2(m1, root, x));
                            assert(p1.contains(t1));
                            assert(self.mapper.entry(t1, l1_index(x)) == m1.entry(t1, l1_index(x)));
                        }
                    }
                }
            }
            assert forall|x: u64, l: nat|
                1 <= l <= 3 implies {
                    &&& leaf_table(m1, root, x, l) is Some ==> leaf_table(self.mapper, root, x, l) is Some
                        && link_entry(self.mapper, root, x, l) == link_entry(m1, root, x, l)
                    &&& leaf_table(m1, root, x, l) is None && #[trigger] leaf_table(self.mapper, root, x, l)
                        is Some ==> (VirtualMemoryPageBits { present: true, ..flags }).nonleaf_in(
                        link_entry(self.mapper, root, x, l),
                        frame_address(link_entry(self.mapper, root, x, l)),
                    )
                } by {
                lemma_indices_bounded(x);
                let m = self.mapper;
                if l4_index(x) == i4.0 {
                    assert(m.entry(root, l4_index(x)) == e.0);
                    assert(m.entry(f.base.0, l3_index(x)) == 0);
                    assert(!get_flag(0u64, 0));
                } else {
                    assert(m.entry(root, l4_index(x)) == m1.entry(root, l4_index(x)));
                    if present(walk_e4(m1, root, x)) {
                        let t3 = frame_address(walk_e4(m1, root, x));
                        assert(p3.contains(t3));
                        assert(m.entry(t3, l3_index(x)) == m1.entry(t3, l3_index(x)));
                        if link(walk_e3(m1, root, x)) {
                            let t2 = frame_address(walk_e3(m1, root, x));
                            assert(p2.contains(t2));
                            assert(m.entry(t2, l2_index(x)) == m1.entry(t2, l2_index(x)));
                        }
                    }
                }
            }
        }
        Ok(f)
    }

    /// Makes sure the chain for `va` reaches a PD, taking zeroed frames from
    /// `alloc` for missing tables; a 1 GiB leaf in the way is split into
    /// 2 MiB leaves.
    #[verifier::rlimit(50)]
    pub(crate) fn ensure_pd<A: PhysFrameAlloc>(
        &mut self,
        alloc: &mut A,
        va: VirtualAddress,
        flags: VirtualMemoryPageBits,
    ) -> (r: Result<PhysicalPage<Size4K>, MapSizeEnsureChainError>)
        requires
            old(self).inv(),
            old(alloc).free_frames().disjoint(old(self).frames_in_use()),
        ensures
            chain_ok(
                *old(self),
                *final(self),
                old(alloc).free_frames(),
                final(alloc).free_frames(),
                va.0,
                2,
                r,
            ),
            r is Ok ==> new_links_with(
                old(self).memory(),
                final(self).memory(),
                old(self).root_frame(),
                va.0,
                2,
                flags,
            ),
            forall|x: u64|
                !lost(old(self).memory(), old(self).root_frame(), va.0, x, 2) ==> #[trigger] leaf_walk_kept(
                    old(self).memory(),
                    final(self).memory(),
                    old(self).root_frame(),
                    x,
                ),
            links_made_with(old(self).memory(), final(self).memory(), old(self).root_frame(), flags),
            links_kept_all(old(self).memory(), final(self).memory(), old(self).root_frame()),
    {
        let pdpt_page = match self.ensure_pdpt(alloc, va, flags) {
            Ok(p) => p,
            Err(e) => {
                return Err(e);
            },
        };
        let ghost m0 = old(self).memory();
        let ghost root = self.root.base.0;
        let (_i4, i3, _i2, _i1) = split_indices(va);
        proof {
            lemma_indices_bounded(va.0);
            assert(self.pdpts@.contains(pdpt_page.base.0));
        }
        let e3 = PdptEntry::from_bits(self.mapper.read_entry(pdpt_page, i3.as_usize()));
        proof {
            if leaf_table(m0, root, va.0, 1) is None {
                assert(e3.0 == 0);
                assert(!get_flag(0u64, 0));
            }
        }
        match e3.kind() {
            Some(PdptEntryKind::NextPageDirectory(pd, _)) => {
                proof {
                    assert(leaf_table(m0, root, va.0, 1) is Some);
                    assert(*self == *old(self));
                    assert(leaf_table(m0, root, va.0, 2) == Some(pd.base.0));
                    lemma_frame_address_bounds(e3.0);
                }
                return Ok(pd);
            },
            _ => {},
        }
        proof {
            assert(leaf_table(m0, root, va.0, 2) is None);
            assert(leaf_table(self.mapper, root, va.0, 2) is None);
        }
        let f = match alloc.alloc_4k() {
            Some(f) => f,
            None => {
                return Err(MapSizeEnsureChainError::OomPd);
            },
        };
        let ghost m1 = self.mapper;
        let ghost p3 = self.pdpts@;
        let ghost p2 = self.pds@;
        let ghost p1 = self.pts@;
        let ghost mid = *self;
        let split = match e3.kind() {
            Some(PdptEntryKind::Leaf1GiB(_, _)) => true,
            _ => false,
        };
        self.mapper.zero_table(f);
        if split {
            write_split_2m(&mut self.mapper, f, e3.0);
        }
        let ghost m2 = self.mapper;
        proof {
            assert forall|t: u64, j: u64| #[trigger]
                m2.entry(t, j) == if t == f.base.0 {
                    if split && j < 512 {
                        split_2m_entry(e3.0, j)
                    } else {
                        0
                    }
                } else {
                    m1.entry(t, j)
                } by {}
            assert(agree_on_tables(m1, m2, root, p3, p2, p1));
            lemma_agree(m1, m2, root, p3, p2, p1);
            assert forall|j: u64| #![trigger m2.entry(f.base.0, j)] j < 512 implies !link(m2.entry(f.base.0, j)) by {
                assert(!get_flag(0u64, 0));
                if split {
                    lemma_split_bits(e3.0, j, 0);
                }
            }
            assert(fresh_unlinked(m2, root, p3, p2, p1, f.base.0));
            lemma_owned_agree(m1, m2, root, p3, p2, p1, self.owner@);
            lemma_grow2(m2, root, p3, p2, p1, f.base.0);
        }
        let e = PdptEntry::make_next(f, flags.to_pdpte(f));
        proof {
            assert(!get_flag(e.0, 7));
        }
        self.mapper.write_entry(pdpt_page, i3.as_usize(), e.0);
        proof {
            let p2n = p2.insert(f.base.0);
            lemma_write3(m2, self.mapper, root, p3, p2n, p1, pdpt_page.base.0, i3.0 as u64, e.0);
            if split {
                lemma_write_split_link(m2, self.mapper, root, p3, p2n, p1, pdpt_page.base.0, i3.0 as u64, e.0);
            } else {
                lemma_write_huge(m2, self.mapper, root, p3, p2n, p1, pdpt_page.base.0, i3.0 as u64, e.0);
            }
            assert forall|va2: u64, level: nat| #[trigger]
                huge_at(self.mapper, root, va2, level) implies huge_at(m0, root, va2, level) || (level == 2
                    && huge_at(m0, root, va2, 1)) by {
                if huge_at(m2, root, va2, level) {
                    assert(huge_at(m1, root, va2, level));
                } else {
                    assert(on_slot3(m2, root, va2, pdpt_page.base.0, i3.0 as u64));
                    assert(huge_at(m2, root, va2, 1));
                    assert(huge_at(m1, root, va2, 1));
                }
            }
            lemma_owned_link(m2, self.mapper, root, p3, p2, p1, self.owner@, pdpt_page.base.0, i3.0 as u64, f.base.0, e.0);
            self.pds = Ghost(p2n);
            self.owner = Ghost(self.owner@.insert(f.base.0, (pdpt_page.base.0, i3.0 as u64)));
            assert forall|va2: u64| #[trigger] self.translation(va2) == old(self).translation(va2) by {
                lemma_indices_bounded(va2);
                assert(mid.translation(va2) == old(self).translation(va2));
                assert(m2.entry(root, l4_index(va2)) == m1.entry(root, l4_index(va2)));
                if on_slot3(m2, root, va2, pdpt_page.base.0, i3.0 as u64) {
                    assert(m1.entry(pdpt_page.base.0, i3.0 as u64) == e3.0);
                    assert(translate(m1, root, va2) == translate3(m1, va2, e3.0));
                    if split {
                        lemma_split_bits(e3.0, l2_index(va2), va2);
                        assert(m2.entry(f.base.0, l2_index(va2)) == split_2m_entry(e3.0, l2_index(va2)));
                    } else {
                        assert(m2.entry(f.base.0, l2_index(va2)) == 0);
                        assert(!get_flag(0u64, 0));
                    }
                }
            }
            assert(self.mapper.entry(root, l4_index(va.0)) == m1.entry(root, l4_index(va.0)));
            assert(self.mapper.entry(pdpt_page.base.0, i3.0 as u64) == e.0);
            assert(self.frames_in_use() =~= mid.frames_in_use().insert(f.base.0));
            assert forall|j: u64| #![trigger self.mapper.entry(f.base.0, j)] j < 512 implies !link(
                self.mapper.entry(f.base.0, j),
            ) by {
                assert(self.mapper.entry(f.base.0, j) == m2.entry(f.base.0, j));
            }
            if huge_at(m0, root, va.0, 1) {
                assert(leaf_table(m0, root, va.0, 1) is Some);
                assert(m1 == m0);
                assert(e3.0 == walk_e3(m0, root, va.0));
                assert(split);
                assert(leaf_table(self.mapper, root, va.0, 2) == Some(f.base.0));
                assert forall|j: u64| #![trigger self.mapper.entry(f.base.0, j)] j < 512 implies self.mapper.entry(
                    f.base.0,
                    j,
                ) == split_2m_entry(e3.0, j) by {
                    assert(self.mapper.entry(f.base.0, j) == m2.entry(f.base.0, j));
                }
            }
            assert(final(alloc).free_frames() =~= old(alloc).free_frames().difference(
                self.frames_in_use(),
            ));
            assert forall|x: u64|
                !lost(m0, root, va.0, x, 2) implies #[trigger] leaf_walk_kept(m0, self.mapper, root, x) by {
                lemma_indices_bounded(x);
                assert(leaf_walk_kept(m0, m1, root, x));
                if leaf_of(m0, root, x) is Some {
                    let t3 = frame_address(walk_e4(m1, root, x));
                    assert(p3.contains(t3));
                    assert(self.mapper.entry(root, l4_index(x)) == m1.entry(root, l4_index(x)));
                    if t3 == pdpt_page.base.0 && l3_index(x) == i3.0 {
                        assert(m1.entry(pdpt_page.base.0, i3.0 as u64) == e3.0);
                        if leaf_table(m0, root, va.0, 1) is None {
                            assert(m1.entry(pdpt_page.base.0, l3_index(x)) == 0);
                            assert(!get_flag(0u64, 0));
                        } else {
                            assert(m1 == m0);
                            assert(on_slot3(m0, root, x, pdpt_page.base.0, i3.0 as u64));
                        }
                    }
                    assert(self.mapper.entry(t3, l3_index(x)) == m1.entry(t3, l3_index(x)));
                    if link(walk_e3(m1, root, x)) {
                        let t2 = frame_address(walk_e3(m1, root, x));
                        assert(p2.contains(t2));
                        assert(self.mapper.entry(t2, l2_index(x)) == m1.entry(t2, l2_index(x)));
                        if link(walk_e2(m1, root, x)) {
                            let t1 = frame_address(walk_e2(m1, root, x));
                            assert(p1.contains(t1));
                            assert(self.mapper.entry(t1, l1_index(x)) == m1.entry(t1, l1_index(x)));
                        }
                    }
                }
            }
            let nf = VirtualMemoryPageBits { present: true, ..flags };
            assert forall|x: u64, l: nat|
                1 <= l <= 3 implies {
                    &&& leaf_table(m1, root, x, l) is Some ==> leaf_table(self.mapper, root, x, l) is Some
                        && link_entry(self.mapper, root, x, l) == link_entry(m1, root, x, l)
                    &&& leaf_table(m1, root, x, l) is None && #[trigger] leaf_table(self.mapper, root, x, l)
                        is Some ==> nf.nonleaf_in(
                        link_entry(self.mapper, root, x, l),
                        frame_address(link_entry(self.mapper, root, x, l)),
                    )
                } by {
                lemma_indices_bounded(x);
                let m = self.mapper;
                assert(!get_flag(0u64, 0));
                assert(m.entry(root, l4_index(x)) == m1.entry(root, l4_index(x)));
                if present(walk_e4(m1, root, x)) {
                    let t3 = frame_address(walk_e4(m1, root, x));
                    assert(p3.contains(t3));
                    if t3 == pdpt_page.base.0 && l3_index(x) == i3.0 {
                        assert(m.entry(t3, l3_index(x)) == e.0);
                        assert(m1.entry(t3, l3_index(x)) == e3.0);
                        assert(m.entry(f.base.0, l2_index(x)) == m2.entry(f.base.0, l2_index(x)));
                        assert(!link(m2.entry(f.base.0, l2_index(x))));
                    } else {
                        assert(m.entry(t3, l3_index(x)) == m1.entry(t3, l3_index(x)));
                        if link(walk_e3(m1, root, x)) {
                            let t2 = frame_address(walk_e3(m1, root, x));
                            assert(p2.contains(t2));
                            assert(m.entry(t2, l2_index(x)) == m1.entry(t2, l2_index(x)));
                        }
                    }
                }
            }
            assert forall|x: u64, l: nat|
                1 <= l <= 3 && leaf_table(m0, root, x, l) is None && #[trigger] leaf_table(self.mapper, root, x, l) is Some
                    implies nf.nonleaf_in(
                        link_entry(self.mapper, root, x, l),
                        frame_address(link_entry(self.mapper, root, x, l)),
                    ) by {
                if leaf_table(m1, root, x, l) is Some {
                    assert(leaf_table(m1, root, x, l) is Some);
                }
            }
            assert forall|x: u64, l: nat|
                1 <= l <= 3 && #[trigger] leaf_table(m0, root, x, l) is Some implies leaf_table(self.mapper, root, x, l)
                    is Some && link_entry(self.mapper, root, x, l) == link_entry(m0, root, x, l) by {
                assert(leaf_table(m1, root, x, l) is Some);
            }
        }
        Ok(f)
    }

    /// Makes sure the chain for `va` reaches a PT, taking zeroed frames from
    /// `alloc` for missing tables; a 1 GiB or 2 MiB leaf in the way is split
    /// down to 4 KiB leaves.
    pub(crate) fn ensure_pt<A: PhysFrameAlloc>(
        &mut self,
        alloc: &mut A,
        va: VirtualAddress,
        flags: VirtualMemoryPageBits,
    ) -> (r: Result<PhysicalPage<Size4K>, MapSizeEnsureChainError>)
        requires
            old(self).inv(),
            old(alloc).free_frames().disjoint(old(self).frames_in_use()),
        ensures
            chain_ok(
                *old(self),
                *final(self),
                old(alloc).free_frames(),
                final(alloc).free_frames(),
                va.0,
                3,
                r,
            ),
            r is Ok ==> new_links_with(
                old(self).memory(),
                final(self).memory(),
                old(self).root_frame(),
                va.0,
                3,
                flags,
            ),
            forall|x: u64|
                !lost(old(self).memory(), old(self).root_frame(), va.0, x, 3) ==> #[trigger] leaf_walk_kept(
                    old(self).memory(),
                    final(self).memory(),
                    old(self).root_frame(),
                    x,
                ),
            links_made_with(old(self).memory(), final(self).memory(), old(self).root_frame(), flags),
            links_kept_all(old(self).memory(), final(self).memory(), old(self).root_frame()),
    {
        let pd_page = match self.ensure_pd(alloc, va, flags) {
            Ok(p) => p,
            Err(e) => {
                return Err(e);
            },
        };
        let ghost m0 = old(self).memory();
        let ghost root = self.root.base.0;
        let (_i4, _i3, i2, _i1) = split_indices(va);
        proof {
            lemma_indices_bounded(va.0);
            assert(self.pds@.contains(pd_page.base.0));
        }
        let e2 = PdEntry::from_bits(self.mapper.read_entry(pd_page, i2.as_usize()));
        proof {
            if leaf_table(m0, root, va.0, 2) is None {
                assert(!link(e2.0));
            }
        }
        match e2.kind() {
            Some(PdEntryKind::NextPageTable(pt, _)) => {
                proof {
                    assert(leaf_table(m0, root, va.0, 2) is Some);
                    assert(*self == *old(self));
                    assert(leaf_table(m0, root, va.0, 3) == Some(pt.base.0));
                    lemma_frame_address_bounds(e2.0);
                }
                return Ok(pt);
            },
            _ => {},
        }
        proof {
            assert(leaf_table(m0, root, va.0, 3) is None);
            assert(leaf_table(self.mapper, root, va.0, 3) is None);
        }
        let f = match alloc.alloc_4k() {
            Some(f) => f,
            None => {
                return Err(MapSizeEnsureChainError::OomPt);
            },
        };
        let ghost m1 = self.mapper;
        let ghost p3 = self.pdpts@;
        let ghost p2 = self.pds@;
        let ghost p1 = self.pts@;
        let ghost mid = *self;
        let split = match e2.kind() {
            Some(PdEntryKind::Leaf2MiB(_, _)) => true,
            _ => false,
        };
        self.mapper.zero_table(f);
        if split {
            write_split_4k(&mut self.mapper, f, e2.0);
        }
        let ghost m2 = self.mapper;
        proof {
            assert forall|t: u64, j: u64| #[trigger]
                m2.entry(t, j) == if t == f.base.0 {
                    if split && j < 512 {
                        split_4k_entry(e2.0, j)
                    } else {
                        0
                    }
                } else {
                    m1.entry(t, j)
                } by {}
            assert(agree_on_tables(m1, m2, root, p3, p2, p1));
            lemma_agree(m1, m2, root, p3, p2, p1);
            lemma_owned_agree(m1, m2, root, p3, p2, p1, self.owner@);
            lemma_grow1(m2, root, p3, p2, p1, f.base.0);
        }
        let e = PdEntry::present_next_with(flags, f);
        self.mapper.write_entry(pd_page, i2.as_usize(), e.0);
        proof {
            let p1n = p1.insert(f.base.0);
            lemma_write2(m2, self.mapper, root, p3, p2, p1n, pd_page.base.0, i2.0 as u64, e.0);
            lemma_write_pd_slot(m2, self.mapper, root, p3, p2, p1n, pd_page.base.0, i2.0 as u64, e.0);
            assert forall|va2: u64, level: nat| #[trigger]
                huge_at(self.mapper, root, va2, level) implies huge_at(m0, root, va2, level) || (level == 2
                    && huge_at(m0, root, va2, 1)) by {
                assert(huge_at(m2, root, va2, level));
                assert(huge_at(m1, root, va2, level));
            }
            lemma_owned_link(m2, self.mapper, root, p3, p2, p1, self.owner@, pd_page.base.0, i2.0 as u64, f.base.0, e.0);
            self.pts = Ghost(p1n);
            self.owner = Ghost(self.owner@.insert(f.base.0, (pd_page.base.0, i2.0 as u64)));
            assert forall|va2: u64| #[trigger] self.translation(va2) == old(self).translation(va2) by {
                lemma_indices_bounded(va2);
                assert(mid.translation(va2) == old(self).translation(va2));
                assert(m2.entry(root, l4_index(va2)) == m1.entry(root, l4_index(va2)));
                if present(walk_e4(m1, root, va2)) {
                    let t3 = frame_address(walk_e4(m1, root, va2));
                    assert(p3.contains(t3));
                    assert(m2.entry(t3, l3_index(va2)) == m1.entry(t3, l3_index(va2)));
                }
                if on_slot2(m2, root, va2, pd_page.base.0, i2.0 as u64) {
                    assert(m1.entry(pd_page.base.0, i2.0 as u64) == e2.0);
                    assert(translate(m1, root, va2) == translate2(m1, va2, e2.0));
                    if split {
                        lemma_split_bits(e2.0, l1_index(va2), va2);
                        assert(m2.entry(f.base.0, l1_index(va2)) == split_4k_entry(e2.0, l1_index(va2)));
                    } else {
                        assert(m2.entry(f.base.0, l1_index(va2)) == 0);
                        assert(!get_flag(0u64, 0));
                    }
                }
            }
            assert(self.mapper.entry(root, l4_index(va.0)) == m1.entry(root, l4_index(va.0)));
            let t3 = frame_address(walk_e4(m1, root, va.0));
            assert(p3.contains(t3));
            assert(self.mapper.entry(t3, l3_index(va.0)) == m1.entry(t3, l3_index(va.0)));
            assert(self.mapper.entry(pd_page.base.0, i2.0 as u64) == e.0);
            assert(self.frames_in_use() =~= mid.frames_in_use().insert(f.base.0));
            if huge_at(m0, root, va.0, 1) || huge_at(m0, root, va.0, 2) {
                let e30 = walk_e3(m0, root, va.0);
                if huge_at(m0, root, va.0, 1) {
                    assert(leaf_table(m1, root, va.0, 2) == Some(pd_page.base.0));
                    assert(split_tables(m0, mid.memory(), root, va.0, 2));
                    assert(mid.memory() == m1);
                    assert(m1.entry(leaf_table(m1, root, va.0, 2)->0, l2_index(va.0)) == split_2m_entry(
                        e30,
                        l2_index(va.0),
                    ));
                    assert(m1.entry(pd_page.base.0, l2_index(va.0)) == split_2m_entry(e30, l2_index(va.0)));
                    assert(e2.0 == split_2m_entry(e30, l2_index(va.0)));
                    lemma_split_bits(e30, l2_index(va.0), 0);
                    assert forall|j: u64|
                        #![trigger self.mapper.entry(pd_page.base.0, j)]
                        j < 512 && j != l2_index(va.0) implies self.mapper.entry(pd_page.base.0, j)
                            == split_2m_entry(e30, j) by {
                        assert(self.mapper.entry(pd_page.base.0, j) == m1.entry(pd_page.base.0, j));
                        assert(m1.entry(leaf_table(m1, root, va.0, 2)->0, j) == split_2m_entry(e30, j));
                    }
                } else {
                    assert(leaf_table(m0, root, va.0, 2) is Some);
                    assert(m1 == m0);
                    assert(e2.0 == walk_e2(m0, root, va.0));
                }
                assert(split);
                assert(leaf_table(self.mapper, root, va.0, 2) == Some(pd_page.base.0));
                assert(leaf_table(self.mapper, root, va.0, 3) == Some(f.base.0));
                assert forall|j: u64| #![trigger self.mapper.entry(f.base.0, j)] j < 512 implies self.mapper.entry(
                    f.base.0,
                    j,
                ) == split_4k_entry(e2.0, j) by {
                    assert(self.mapper.entry(f.base.0, j) == m2.entry(f.base.0, j));
                }
            }
            assert(final(alloc).free_frames() =~= old(alloc).free_frames().difference(
                self.frames_in_use(),
            ));
            assert forall|x: u64|
                !lost(m0, root, va.0, x, 3) implies #[trigger] leaf_walk_kept(m0, self.mapper, root, x) by {
                lemma_indices_bounded(x);
                assert(leaf_walk_kept(m0, m1, root, x));
                if leaf_of(m0, root, x) is Some {
                    let t3 = frame_address(walk_e4(m1, root, x));
                    assert(p3.contains(t3));
                    assert(self.mapper.entry(root, l4_index(x)) == m1.entry(root, l4_index(x)));
                    assert(self.mapper.entry(t3, l3_index(x)) == m1.entry(t3, l3_index(x)));
                    if link(walk_e3(m1, root, x)) {
                        let t2 = frame_address(walk_e3(m1, root, x));
                        assert(p2.contains(t2));
                        if t2 == pd_page.base.0 && l2_index(x) == i2.0 {
                            assert(m1.entry(pd_page.base.0, i2.0 as u64) == e2.0);
                            if leaf_table(m0, root, va.0, 2) is None {
                                if huge_at(m0, root, va.0, 1) {
                                    let own = self.owner@;
                                    let pdpt = frame_address(walk_e4(m1, root, va.0));
                                    assert(own[pd_page.base.0] == (pdpt, l3_index(va.0)));
                                    assert(own[pd_page.base.0] == (t3, l3_index(x)));
                                    assert(lost(m0, root, va.0, x, 2));
                                } else {
                                    assert(m1.entry(pd_page.base.0, l2_index(x)) == 0);
                                    assert(!get_flag(0u64, 0));
                                }
                            } else {
                                assert(m1 == m0);
                                assert(on_slot2(m0, root, x, pd_page.base.0, i2.0 as u64));
                            }
                        }
                        assert(self.mapper.entry(t2, l2_index(x)) == m1.entry(t2, l2_index(x)));
                        if link(walk_e2(m1, root, x)) {
                            let t1 = frame_address(walk_e2(m1, root, x));
                            assert(p1.contains(t1));
                            assert(self.mapper.entry(t1, l1_index(x)) == m1.entry(t1, l1_index(x)));
                        }
                    }
                }
            }
            let nf = VirtualMemoryPageBits { present: true, ..flags };
            assert forall|x: u64, l: nat|
                1 <= l <= 3 implies {
                    &&& leaf_table(m1, root, x, l) is Some ==> leaf_table(self.mapper, root, x, l) is Some
                        && link_entry(self.mapper, root, x, l) == link_entry(m1, root, x, l)
                    &&& leaf_table(m1, root, x, l) is None && #[trigger] leaf_table(self.mapper, root, x, l)
                        is Some ==> nf.nonleaf_in(
                        link_entry(self.mapper, root, x, l),
                        frame_address(link_entry(self.mapper, root, x, l)),
                    )
                } by {
                lemma_indices_bounded(x);
                let m = self.mapper;
                assert(!get_flag(0u64, 0));
                assert(m.entry(root, l4_index(x)) == m1.entry(root, l4_index(x)));
                if present(walk_e4(m1, root, x)) {
                    let t3 = frame_address(walk_e4(m1, root, x));
                    assert(p3.contains(t3));
                    assert(m.entry(t3, l3_index(x)) == m1.entry(t3, l3_index(x)));
                    if link(walk_e3(m1, root, x)) {
                        let t2 = frame_address(walk_e3(m1, root, x));
                        assert(p2.contains(t2));
                        if t2 == pd_page.base.0 && l2_index(x) == i2.0 {
                            assert(m.entry(t2, l2_index(x)) == e.0);
                            assert(m1.entry(t2, l2_index(x)) == e2.0);
                        } else {
                            assert(m.entry(t2, l2_index(x)) == m1.entry(t2, l2_index(x)));
                        }
                    }
                }
            }
            assert forall|x: u64, l: nat|
                1 <= l <= 3 && leaf_table(m0, root, x, l) is None && #[trigger] leaf_table(self.mapper, root, x, l) is Some
                    implies nf.nonleaf_in(
                        link_entry(self.mapper, root, x, l),
                        frame_address(link_entry(self.mapper, root, x, l)),
                    ) by {
                if leaf_table(m1, root, x, l) is Some {
                    assert(leaf_table(m1, root, x, l) is Some);
                }
            }
            assert forall|x: u64, l: nat|
                1 <= l <= 3 && #[trigger] leaf_table(m0, root, x, l) is Some implies leaf_table(self.mapper, root, x, l)
                    is Some && link_entry(self.mapper, root, x, l) == link_entry(m0, root, x, l) by {
                assert(leaf_table(m1, root, x, l) is Some);
            }
        }
        Ok(f)
    }

    /// Writes a 1 GiB leaf for `va` → `pa` into the PDPT `tbl`.
    pub(crate) fn set_leaf_1g(
        &mut self,
        tbl: PhysicalPage<Size4K>,
        va: VirtualAddress,
        pa: PhysicalAddress,
        leaf: VirtualMemoryPageBits,
    )
        requires
            old(self).inv(),
            leaf_table(old(self).memory(), old(self).root_frame(), va.0, 1) == Some(tbl.base.0),
            pa.0 % SIZE_1G == 0,
            fits_phys(pa.0),
        ensures
            leaf_set(*old(self), *final(self), va.0, pa.0, 1),
            leaf_entry_of(leaf, walk_leaf(final(self).memory(), final(self).root_frame(), va.0, 1), pa.0, 1),
            upper_kept(old(self).memory(), final(self).memory(), old(self).root_frame(), va.0, 1),
            forall|x: u64|
                !same_prefix(va.0, x, 1) ==> #[trigger] leaf_walk_kept(
                    old(self).memory(),
                    final(self).memory(),
                    old(self).root_frame(),
                    x,
                ),
            links_only_kept(old(self).memory(), final(self).memory(), old(self).root_frame()),
            forall|t: u64, j: u64| #[trigger]
                final(self).memory().entry(t, j) == old(self).memory().entry(t, j) || (t == tbl.base.0
                    && j == level_index(va.0, 1)),
    {
        let (_i4, i3, _i2, _i1) = split_indices(va);
        let g1 = PhysicalPage::<Size1G>::from_addr(pa);
        let lf = leaf.to_pdpte_1g(g1);
        let e = PdptEntry::make_1g(g1, lf);
        proof {
            leaf.lemma_leaf_1g_forced(lf.0, pa.0);
        }
        let ghost m1 = self.mapper;
        let ghost root = self.root.base.0;
        proof {
            lemma_indices_bounded(va.0);
            assert(self.pdpts@.contains(tbl.base.0));
        }
        self.mapper.write_entry(tbl, i3.as_usize(), e.0);
        proof {
            lemma_write3(m1, self.mapper, root, self.pdpts@, self.pds@, self.pts@, tbl.base.0, i3.0 as u64, e.0);
            lemma_write_huge(m1, self.mapper, root, self.pdpts@, self.pds@, self.pts@, tbl.base.0, i3.0 as u64, e.0);
            lemma_owned_nonlink(m1, self.mapper, root, self.pdpts@, self.pds@, self.owner@, tbl.base.0, i3.0 as u64, e.0);
            assert forall|va2: u64|
                #![trigger same_slot(self.mapper, root, va.0, va2, 1)]
                #![trigger self.translation(va2)]
                same_slot(self.mapper, root, va.0, va2, 1) == same_slot(m1, root, va.0, va2, 1)
                && self.translation(va2) == if same_slot(m1, root, va.0, va2, 1) {
                    Some((pa.0 + va2 % SIZE_1G) as u64)
                } else {
                    old(self).translation(va2)
                } by {
                lemma_indices_bounded(va2);
                assert(self.mapper.entry(root, l4_index(va2)) == m1.entry(root, l4_index(va2)));
                assert(self.mapper.entry(root, l4_index(va.0)) == m1.entry(root, l4_index(va.0)));
            }
            assert(self.mapper.entry(root, l4_index(va.0)) == m1.entry(root, l4_index(va.0)));
            assert forall|x: u64| !same_prefix(va.0, x, 1) implies #[trigger] leaf_walk_kept(m1, self.mapper, root, x) by {
                lemma_indices_bounded(x);
                lemma_slot_iff_prefix(m1, root, self.pdpts@, self.pds@, self.pts@, self.owner@, va.0, x, 1);
                if through_pt(m1, root, x) {
                    let t3 = frame_address(walk_e4(m1, root, x));
                    let t2 = frame_address(walk_e3(m1, root, x));
                    let t1 = frame_address(walk_e2(m1, root, x));
                    assert(self.pdpts@.contains(t3) && self.pds@.contains(t2) && self.pts@.contains(t1));
                    assert(self.mapper.entry(root, l4_index(x)) == m1.entry(root, l4_index(x)));
                    assert(self.mapper.entry(t3, l3_index(x)) == m1.entry(t3, l3_index(x)));
                    assert(self.mapper.entry(t2, l2_index(x)) == m1.entry(t2, l2_index(x)));
                    assert(self.mapper.entry(t1, l1_index(x)) == m1.entry(t1, l1_index(x)));
                }
            }
            assert forall|x: u64, l: nat|
                1 <= l <= 3 && #[trigger] leaf_table(self.mapper, root, x, l) is Some implies leaf_table(m1, root, x, l)
                    is Some && link_entry(self.mapper, root, x, l) == link_entry(m1, root, x, l) by {
                lemma_indices_bounded(x);
                let m = self.mapper;
                assert(m.entry(root, l4_index(x)) == m1.entry(root, l4_index(x)));
                let t3 = frame_address(walk_e4(m1, root, x));
                assert(self.pdpts@.contains(t3));
                if t3 == tbl.base.0 && l3_index(x) == i3.0 {
                    assert(m.entry(t3, l3_index(x)) == e.0);
                } else {
                    assert(m.entry(t3, l3_index(x)) == m1.entry(t3, l3_index(x)));
                }
                if link(walk_e3(m1, root, x)) {
                    let t2 = frame_address(walk_e3(m1, root, x));
                    assert(self.pds@.contains(t2));
                    assert(m.entry(t2, l2_index(x)) == m1.entry(t2, l2_index(x)));
                }
            }
        }
    }

    /// Writes a 2 MiB leaf for `va` → `pa` into the PD `tbl`.
    pub(crate) fn set_leaf_2m(
        &mut self,
        tbl: PhysicalPage<Size4K>,
        va: VirtualAddress,
        pa: PhysicalAddress,
        leaf: VirtualMemoryPageBits,
    )
        requires
            old(self).inv(),
            leaf_table(old(self).memory(), old(self).root_frame(), va.0, 2) == Some(tbl.base.0),
            pa.0 % SIZE_2M == 0,
            fits_phys(pa.0),
        ensures
            leaf_set(*old(self), *final(self), va.0, pa.0, 2),
            leaf_entry_of(leaf, walk_leaf(final(self).memory(), final(self).root_frame(), va.0, 2), pa.0, 2),
            upper_kept(old(self).memory(), final(self).memory(), old(self).root_frame(), va.0, 2),
            forall|x: u64|
                !same_prefix(va.0, x, 2) ==> #[trigger] leaf_walk_kept(
                    old(self).memory(),
                    final(self).memory(),
                    old(self).root_frame(),
                    x,
                ),
            links_only_kept(old(self).memory(), final(self).memory(), old(self).root_frame()),
            forall|t: u64, j: u64| #[trigger]
                final(self).memory().entry(t, j) == old(self).memory().entry(t, j) || (t == tbl.base.0
                    && j == level_index(va.0, 2)),
    {
        let (_i4, _i3, i2, _i1) = split_indices(va);
        let m2p = PhysicalPage::<Size2M>::from_addr(pa);
        let e = PdEntry::present_leaf_with(leaf, m2p);
        let ghost m1 = self.mapper;
        let ghost root = self.root.base.0;
        proof {
            lemma_indices_bounded(va.0);
            assert(self.pds@.contains(tbl.base.0));
        }
        self.mapper.write_entry(tbl, i2.as_usize(), e.0);
        proof {
            let m2 = self.mapper;
            let p3 = self.pdpts@;
            lemma_write2(m1, m2, root, p3, self.pds@, self.pts@, tbl.base.0, i2.0 as u64, e.0);
            lemma_write_huge(m1, m2, root, p3, self.pds@, self.pts@, tbl.base.0, i2.0 as u64, e.0);
            lemma_owned_nonlink(m1, m2, root, p3, self.pds@, self.owner@, tbl.base.0, i2.0 as u64, e.0);
            assert forall|x: u64| #[trigger] walk_e3(m2, root, x) == walk_e3(m1, root, x)
                && walk_e4(m2, root, x) == walk_e4(m1, root, x) || !present(walk_e4(m1, root, x)) by {
                lemma_indices_bounded(x);
                assert(m2.entry(root, l4_index(x)) == m1.entry(root, l4_index(x)));
                if present(walk_e4(m1, root, x)) {
                    let t3 = frame_address(walk_e4(m1, root, x));
                    assert(p3.contains(t3));
                    assert(m2.entry(t3, l3_index(x)) == m1.entry(t3, l3_index(x)));
                }
            }
            assert forall|va2: u64|
                #![trigger same_slot(m2, root, va.0, va2, 2)]
                #![trigger self.translation(va2)]
                same_slot(m2, root, va.0, va2, 2) == same_slot(m1, root, va.0, va2, 2)
                && self.translation(va2) == if same_slot(m1, root, va.0, va2, 2) {
                    Some((pa.0 + va2 % SIZE_2M) as u64)
                } else {
                    old(self).translation(va2)
                } by {
                lemma_indices_bounded(va2);
                assert(m2.entry(root, l4_index(va2)) == m1.entry(root, l4_index(va2)));
                assert(walk_e3(m2, root, va.0) == walk_e3(m1, root, va.0));
                if present(walk_e4(m1, root, va2)) {
                    assert(walk_e3(m2, root, va2) == walk_e3(m1, root, va2));
                }
            }
            assert(walk_e3(m2, root, va.0) == walk_e3(m1, root, va.0));
            assert forall|x: u64| !same_prefix(va.0, x, 2) implies #[trigger] leaf_walk_kept(m1, self.mapper, root, x) by {
                lemma_indices_bounded(x);
                lemma_slot_iff_prefix(m1, root, self.pdpts@, self.pds@, self.pts@, self.owner@, va.0, x, 2);
                if through_pt(m1, root, x) {
                    let t3 = frame_address(walk_e4(m1, root, x));
                    let t2 = frame_address(walk_e3(m1, root, x));
                    let t1 = frame_address(walk_e2(m1, root, x));
                    assert(self.pdpts@.contains(t3) && self.pds@.contains(t2) && self.pts@.contains(t1));
                    assert(self.mapper.entry(root, l4_index(x)) == m1.entry(root, l4_index(x)));
                    assert(self.mapper.entry(t3, l3_index(x)) == m1.entry(t3, l3_index(x)));
                    assert(self.mapper.entry(t2, l2_index(x)) == m1.entry(t2, l2_index(x)));
                    assert(self.mapper.entry(t1, l1_index(x)) == m1.entry(t1, l1_index(x)));
                }
            }
            assert forall|x: u64, l: nat|
                1 <= l <= 3 && #[trigger] leaf_table(self.mapper, root, x, l) is Some implies leaf_table(m1, root, x, l)
                    is Some && link_entry(self.mapper, root, x, l) == link_entry(m1, root, x, l) by {
                lemma_indices_bounded(x);
                let m = self.mapper;
                assert(m.entry(root, l4_index(x)) == m1.entry(root, l4_index(x)));
                let t3 = frame_address(walk_e4(m1, root, x));
                assert(self.pdpts@.contains(t3));
                assert(m.entry(t3, l3_index(x)) == m1.entry(t3, l3_index(x)));
                if link(walk_e3(m1, root, x)) {
                    let t2 = frame_address(walk_e3(m1, root, x));
                    assert(self.pds@.contains(t2));
                    if t2 == tbl.base.0 && l2_index(x) == i2.0 {
                        assert(m.entry(t2, l2_index(x)) == e.0);
                    } else {
                        assert(m.entry(t2, l2_index(x)) == m1.entry(t2, l2_index(x)));
                    }
                }
            }
        }
    }

    /// Writes a 4 KiB leaf for `va` → `pa` into the PT `tbl`.
    pub(crate) fn set_leaf_4k(
        &mut self,
        tbl: PhysicalPage<Size4K>,
        va: VirtualAddress,
        pa: PhysicalAddress,
        leaf: VirtualMemoryPageBits,
    )
        requires
            old(self).inv(),
            leaf_table(old(self).memory(), old(self).root_frame(), va.0, 3) == Some(tbl.base.0),
            pa.0 % SIZE_4K == 0,
            fits_phys(pa.0),
        ensures
            leaf_set(*old(self), *final(self), va.0, pa.0, 3),
            leaf_entry_of(leaf, walk_leaf(final(self).memory(), final(self).root_frame(), va.0, 3), pa.0, 3),
            upper_kept(old(self).memory(), final(self).memory(), old(self).root_frame(), va.0, 3),
            forall|x: u64|
                !same_prefix(va.0, x, 3) ==> #[trigger] leaf_walk_kept(
                    old(self).memory(),
                    final(self).memory(),
                    old(self).root_frame(),
                    x,
                ),
            links_only_kept(old(self).memory(), final(self).memory(), old(self).root_frame()),
            forall|t: u64, j: u64| #[trigger]
                final(self).memory().entry(t, j) == old(self).memory().entry(t, j) || (t == tbl.base.0
                    && j == level_index(va.0, 3)),
    {
        let (_i4, _i3, _i2, i1) = split_indices(va);
        let k4 = PhysicalPage::<Size4K>::from_addr(pa);
        let lf = leaf.to_pte_4k(k4);
        let e = PtEntry::make_4k(k4, PageEntryBits(lf.0));
        proof {
            leaf.lemma_leaf_4k_forced(lf.0, pa.0);
        }
        let ghost m1 = self.mapper;
        let ghost root = self.root.base.0;
        proof {
            lemma_indices_bounded(va.0);
            assert(self.pts@.contains(tbl.base.0));
        }
        self.mapper.write_entry(tbl, i1.as_usize(), e.0.0);
        proof {
            let m2 = self.mapper;
            let p3 = self.pdpts@;
            let p2 = self.pds@;
            lemma_write1(m1, m2, root, p3, p2, self.pts@, tbl.base.0, i1.0 as u64, e.0.0);
            lemma_write_huge(m1, m2, root, p3, p2, self.pts@, tbl.base.0, i1.0 as u64, e.0.0);
            lemma_owned_nonlink(m1, m2, root, p3, p2, self.owner@, tbl.base.0, i1.0 as u64, e.0.0);
            assert forall|x: u64| #[trigger] walk_e2(m2, root, x) == walk_e2(m1, root, x)
                && walk_e3(m2, root, x) == walk_e3(m1, root, x)
                && walk_e4(m2, root, x) == walk_e4(m1, root, x)
                || !present(walk_e4(m1, root, x)) || !link(walk_e3(m1, root, x)) by {
                lemma_indices_bounded(x);
                assert(m2.entry(root, l4_index(x)) == m1.entry(root, l4_index(x)));
                if present(walk_e4(m1, root, x)) {
                    let t3 = frame_address(walk_e4(m1, root, x));
                    assert(p3.contains(t3));
                    assert(m2.entry(t3, l3_index(x)) == m1.entry(t3, l3_index(x)));
                    if link(walk_e3(m1, root, x)) {
                        let t2 = frame_address(walk_e3(m1, root, x));
                        assert(p2.contains(t2));
                        assert(m2.entry(t2, l2_index(x)) == m1.entry(t2, l2_index(x)));
                    }
                }
            }
            assert forall|va2: u64|
                #![trigger same_slot(m2, root, va.0, va2, 3)]
                #![trigger self.translation(va2)]
                same_slot(m2, root, va.0, va2, 3) == same_slot(m1, root, va.0, va2, 3)
                && self.translation(va2) == if same_slot(m1, root, va.0, va2, 3) {
                    Some((pa.0 + va2 % SIZE_4K) as u64)
                } else {
                    old(self).translation(va2)
                } by {
                lemma_indices_bounded(va2);
                assert(walk_e2(m2, root, va.0) == walk_e2(m1, root, va.0));
                if present(walk_e4(m1, root, va2)) && link(walk_e3(m1, root, va2)) {
                    assert(walk_e2(m2, root, va2) == walk_e2(m1, root, va2));
                }
                if !present(walk_e4(m1, root, va2)) {
                    assert(m2.entry(root, l4_index(va2)) == m1.entry(root, l4_index(va2)));
                } else if !link(walk_e3(m1, root, va2)) {
                    assert(walk_e3(m2, root, va2) == walk_e3(m1, root, va2));
                }
            }
            assert(walk_e2(m2, root, va.0) == walk_e2(m1, root, va.0));
            assert forall|x: u64| !same_prefix(va.0, x, 3) implies #[trigger] leaf_walk_kept(m1, self.mapper, root, x) by {
                lemma_indices_bounded(x);
                lemma_slot_iff_prefix(m1, root, self.pdpts@, self.pds@, self.pts@, self.owner@, va.0, x, 3);
                if through_pt(m1, root, x) {
                    let t3 = frame_address(walk_e4(m1, root, x));
                    let t2 = frame_address(walk_e3(m1, root, x));
                    let t1 = frame_address(walk_e2(m1, root, x));
                    assert(self.pdpts@.contains(t3) && self.pds@.contains(t2) && self.pts@.contains(t1));
                    assert(self.mapper.entry(root, l4_index(x)) == m1.entry(root, l4_index(x)));
                    assert(self.mapper.entry(t3, l3_index(x)) == m1.entry(t3, l3_index(x)));
                    assert(self.mapper.entry(t2, l2_index(x)) == m1.entry(t2, l2_index(x)));
                    assert(self.mapper.entry(t1, l1_index(x)) == m1.entry(t1, l1_index(x)));
                }
            }
            assert forall|x: u64, l: nat|
                1 <= l <= 3 && #[trigger] leaf_table(self.mapper, root, x, l) is Some implies leaf_table(m1, root, x, l)
                    is Some && link_entry(self.mapper, root, x, l) == link_entry(m1, root, x, l) by {
                lemma_indices_bounded(x);
                let m = self.mapper;
                assert(m.entry(root, l4_index(x)) == m1.entry(root, l4_index(x)));
                let t3 = frame_address(walk_e4(m1, root, x));
                assert(self.pdpts@.contains(t3));
                assert(m.entry(t3, l3_index(x)) == m1.entry(t3, l3_index(x)));
                if link(walk_e3(m1, root, x)) {
                    let t2 = frame_address(walk_e3(m1, root, x));
                    assert(self.pds@.contains(t2));
                    assert(m.entry(t2, l2_index(x)) == m1.entry(t2, l2_index(x)));
                }
            }
        }
    }

    /// Maps one page of size `S`: `va` → `pa`.
    ///
    /// Makes the chain of tables down to the level of `S` (allocating from
    /// `alloc`, splitting a larger leaf in the way) and writes the leaf with
    /// `leaf_flags`; new non-leaf entries get `nonleaf_flags`.
    ///
    /// # Errors
    /// A table of the chain could not be allocated.
    pub fn map_one<A: PhysFrameAlloc, S: MapSize>(
        &mut self,
        alloc: &mut A,
        va: VirtualAddress,
        pa: PhysicalAddress,
        nonleaf_flags: VirtualMemoryPageBits,
        leaf_flags: VirtualMemoryPageBits,
    ) -> (r: Result<(), AddressSpaceMapOneError>)
        requires
            old(self).inv(),
            old(alloc).free_frames().disjoint(old(self).frames_in_use()),
            pa.0 % S::size_spec() == 0,
            fits_phys(pa.0),
        ensures
            tables_grew(*old(self), *final(self), old(alloc).free_frames(), final(alloc).free_frames()),
            leaf_table(old(self).memory(), old(self).root_frame(), va.0, S::leaf_level()) is Some
                ==> r is Ok,
            r is Ok ==> new_links_with(
                old(self).memory(),
                final(self).memory(),
                old(self).root_frame(),
                va.0,
                S::leaf_level(),
                nonleaf_flags,
            ),
            r is Ok ==> leaf_entry_of(
                leaf_flags,
                walk_leaf(final(self).memory(), final(self).root_frame(), va.0, S::leaf_level()),
                pa.0,
                S::leaf_level(),
            ),
            links_made_with(
                old(self).memory(),
                final(self).memory(),
                old(self).root_frame(),
                nonleaf_flags,
            ),
            links_stable(old(self).memory(), final(self).memory(), old(self).root_frame()),
            r is Ok ==> split_kept(
                old(self).memory(),
                final(self).memory(),
                old(self).root_frame(),
                va.0,
                S::leaf_level(),
            ),
            r is Err ==> forall|x: u64|
                !lost_prefix(old(self).memory(), old(self).root_frame(), va.0, x, S::leaf_level())
                    ==> #[trigger] leaf_walk_kept(
                    old(self).memory(),
                    final(self).memory(),
                    old(self).root_frame(),
                    x,
                ),
            r is Ok ==> forall|x: u64|
                !same_prefix(va.0, x, S::leaf_level()) && !lost_prefix(
                    old(self).memory(),
                    old(self).root_frame(),
                    va.0,
                    x,
                    S::leaf_level(),
                ) ==> #[trigger] leaf_walk_kept(
                    old(self).memory(),
                    final(self).memory(),
                    old(self).root_frame(),
                    x,
                ),
            match r {
                Ok(()) => mapped_page(*old(self), *final(self), va.0, pa.0, S::leaf_level()),
                Err(AddressSpaceMapOneError::OutOfMemory(e)) => chain_ok(
                    *old(self),
                    *final(self),
                    old(alloc).free_frames(),
                    final(alloc).free_frames(),
                    va.0,
                    S::leaf_level(),
                    Err(e),
                ),
            },
    {
        proof {
            S::lemma_leaf_level();
        }
        let tbl = match S::ensure_chain_for(self, alloc, va, nonleaf_flags) {
            Ok(t) => t,
            Err(e) => {
                proof {
                    assert forall|x: u64|
                        !lost_prefix(old(self).mapper, old(self).root.base.0, va.0, x, S::leaf_level())
                            implies #[trigger] leaf_walk_kept(old(self).mapper, self.mapper, old(self).root.base.0, x) by {
                        lemma_lost_prefix(
                            old(self).mapper,
                            old(self).root.base.0,
                            old(self).pdpts@,
                            old(self).pds@,
                            old(self).pts@,
                            old(self).owner@,
                            va.0,
                            x,
                            S::leaf_level(),
                        );
                    }
                }
                return Err(AddressSpaceMapOneError::OutOfMemory(e));
            },
        };
        let ghost mid = *self;
        S::set_leaf(self, tbl, va, pa, leaf_flags);
        proof {
            let root = mid.root_frame();
            let lv = S::leaf_level();
            S::lemma_leaf_level();
            let m0 = old(self).memory();
            let m1 = mid.memory();
            let m2 = self.memory();
            assert(split_tables(m0, m1, root, va.0, lv));
            if lv >= 2 {
                assert(leaf_table(m2, root, va.0, 2) == leaf_table(m1, root, va.0, 2));
                let t2 = leaf_table(m1, root, va.0, 2)->0;
                assert forall|j: u64| #![trigger m2.entry(t2, j)] j < 512 && (lv == 3 || j != l2_index(va.0))
                    implies m2.entry(t2, j) == m1.entry(t2, j) by {
                    if lv == 3 {
                        lemma_indices_bounded(va.0);
                        assert(mid.pdpts@.contains(frame_address(walk_e4(m1, root, va.0))));
                        assert(mid.pds@.contains(t2));
                        assert(mid.pts@.contains(tbl.base.0));
                    }
                }
            }
            if lv >= 3 {
                assert(leaf_table(m2, root, va.0, 3) == leaf_table(m1, root, va.0, 3));
            }
            assert(split_kept(m0, m2, root, va.0, lv));
            assert(alloc.free_frames() =~= alloc.free_frames().difference(self.frames_in_use()));
            assert(tables_grew(mid, *self, alloc.free_frames(), alloc.free_frames()));
            lemma_tables_grew_trans(
                *old(self),
                mid,
                *self,
                old(alloc).free_frames(),
                alloc.free_frames(),
                alloc.free_frames(),
            );
            assert forall|va2: u64, l: nat| #[trigger]
                huge_at(self.mapper, root, va2, l) implies if same_prefix(va.0, va2, lv) {
                    l == lv
                } else {
                    huge_at(old(self).mapper, root, va2, l) || (l == 2 && huge_at(old(self).mapper, root, va2, 1))
                } by {
                if same_prefix(va.0, va2, lv) {
                    assert(walk_e4(self.mapper, root, va2) == walk_e4(self.mapper, root, va.0));
                    assert(walk_e3(self.mapper, root, va2) == walk_e3(self.mapper, root, va.0));
                    if lv >= 2 {
                        assert(walk_e2(self.mapper, root, va2) == walk_e2(self.mapper, root, va.0));
                    }
                }
                lemma_slot_iff_prefix(
                    self.mapper,
                    root,
                    self.pdpts@,
                    self.pds@,
                    self.pts@,
                    self.owner@,
                    va.0,
                    va2,
                    lv,
                );
                if !(l == lv && same_slot(mid.mapper, root, va.0, va2, lv)) {
                    assert(huge_at(mid.mapper, root, va2, l));
                }
            }
            assert forall|va2: u64| #[trigger]
                self.translation(va2) == if same_prefix(va.0, va2, lv) {
                    Some((pa.0 + va2 % S::size_spec()) as u64)
                } else {
                    old(self).translation(va2)
                } by {
                lemma_slot_iff_prefix(
                    self.mapper,
                    root,
                    self.pdpts@,
                    self.pds@,
                    self.pts@,
                    self.owner@,
                    va.0,
                    va2,
                    lv,
                );
                lemma_lost_prefix(
                    old(self).mapper,
                    root,
                    old(self).pdpts@,
                    old(self).pds@,
                    old(self).pts@,
                    old(self).owner@,
                    va.0,
                    va2,
                    lv,
                );
            }
            assert forall|x: u64, l: nat|
                1 <= l <= 3 && #[trigger] leaf_table(self.mapper, root, x, l) is Some implies {
                    &&& leaf_table(old(self).mapper, root, x, l) is None ==> (VirtualMemoryPageBits {
                        present: true,
                        ..nonleaf_flags
                    }).nonleaf_in(
                        link_entry(self.mapper, root, x, l),
                        frame_address(link_entry(self.mapper, root, x, l)),
                    )
                    &&& leaf_table(old(self).mapper, root, x, l) is Some ==> link_entry(self.mapper, root, x, l)
                        == link_entry(old(self).mapper, root, x, l)
                } by {
                assert(leaf_table(mid.mapper, root, x, l) is Some);
            }
            assert forall|x: u64|
                !same_prefix(va.0, x, lv) && !lost_prefix(old(self).mapper, root, va.0, x, lv) implies #[trigger] leaf_walk_kept(old(self).mapper, self.mapper, root, x) by {
                lemma_lost_prefix(
                    old(self).mapper,
                    root,
                    old(self).pdpts@,
                    old(self).pds@,
                    old(self).pts@,
                    old(self).owner@,
                    va.0,
                    x,
                    lv,
                );
                assert(leaf_walk_kept(old(self).mapper, mid.mapper, root, x));
                assert(leaf_walk_kept(mid.mapper, self.mapper, root, x));
            }
        }
        Ok(())
    }

    /// Maps `[virt_start, virt_start + len)` to
    /// `[phys_start, phys_start + len)`, each step with the largest page
    /// (1 GiB, 2 MiB, 4 KiB) that the alignment of both addresses and the
    /// remaining length permit (see [`step_level`]). A length that is not a multiple of 4 KiB is
    /// rounded up to whole pages.
    ///
    /// # Errors
    /// - [`AddressSpaceMapRegionError::Unaligned`]: the start addresses are
    ///   not 4 KiB aligned; nothing is mapped.
    /// - [`AddressSpaceMapRegionError::OutOfMemory`]: a table could not be
    ///   allocated; the pages mapped before stay mapped, and the chain of
    ///   the page that failed still lacks the table of its level.
    #[verifier::rlimit(100)]
    #[verifier::spinoff_prover]
    pub fn map_region<A: PhysFrameAlloc>(
        &mut self,
        alloc: &mut A,
        virt_start: VirtualAddress,
        phys_start: PhysicalAddress,
        len: u64,
        nonleaf_flags: VirtualMemoryPageBits,
        leaf_flags: VirtualMemoryPageBits,
    ) -> (r: Result<(), AddressSpaceMapRegionError>)
        requires
            old(self).inv(),
            old(alloc).free_frames().disjoint(old(self).frames_in_use()),
            virt_start.0 + len <= u64::MAX + 1,
            phys_start.0 + len <= 0x10_0000_0000_0000,
        ensures
            tables_grew(*old(self), *final(self), old(alloc).free_frames(), final(alloc).free_frames()),
            changed_only_in(*old(self), *final(self), virt_start.0, pages_len(len)),
            (len > 0 && (virt_start.0 % SIZE_4K != 0 || phys_start.0 % SIZE_4K != 0)) <==> (r matches Err(AddressSpaceMapRegionError::Unaligned(_, _))),
            match r {
                Err(AddressSpaceMapRegionError::Unaligned(v, p)) => v == virt_start && p
                    == phys_start && *final(self) == *old(self),
                Err(AddressSpaceMapRegionError::OutOfMemory(_)) => len > 0 && (len
                    <= 0x1_0000_0000_0000 ==> exists|done: u64|
                    done < len && done % SIZE_4K == 0 && #[trigger] region_mapped(
                        *final(self),
                        virt_start.0,
                        phys_start.0,
                        done as int,
                    ) && region_leaves_with(*final(self), virt_start.0, done as int, leaf_flags)
                        && region_sized(*final(self), virt_start.0, phys_start.0, len, done as int)
                        && leaf_table(
                        final(self).memory(),
                        final(self).root_frame(),
                        (virt_start.0 + done) as u64,
                        step_level(virt_start.0 + done, phys_start.0 + done, len - done),
                    ) is None),
                Ok(()) => len <= 0x1_0000_0000_0000 ==> region_mapped(
                    *final(self),
                    virt_start.0,
                    phys_start.0,
                    pages_len(len),
                ) && region_leaves_with(*final(self), virt_start.0, pages_len(len), leaf_flags)
                    && region_sized(*final(self), virt_start.0, phys_start.0, len, pages_len(len)),
            },
            links_made_with(
                old(self).memory(),
                final(self).memory(),
                old(self).root_frame(),
                nonleaf_flags,
            ),
            len == 0 ==> r is Ok && *final(self) == *old(self) && *final(alloc) == *old(alloc),
    {
        let mut off: u64 = 0;
        proof {
            assert(old(alloc).free_frames() =~= old(alloc).free_frames().difference(
                old(self).frames_in_use(),
            ));
        }
        while off < len
            invariant
                old(self).inv(),
                old(alloc).free_frames().disjoint(old(self).frames_in_use()),
                tables_grew(*old(self), *self, old(alloc).free_frames(), alloc.free_frames()),
                virt_start.0 + len <= u64::MAX + 1,
                phys_start.0 + len <= 0x10_0000_0000_0000,
                off % SIZE_4K == 0,
                off < len + SIZE_4K,
                off > 0 ==> virt_start.0 % SIZE_4K == 0 && phys_start.0 % SIZE_4K == 0 && len > 0,
                off == 0 ==> *self == *old(self) && *alloc == *old(alloc),
                len <= 0x1_0000_0000_0000 ==> region_mapped(
                    *self,
                    virt_start.0,
                    phys_start.0,
                    off as int,
                ) && leaves_inside(*self, virt_start.0, off as int) && region_leaves_with(
                    *self,
                    virt_start.0,
                    off as int,
                    leaf_flags,
                ) && region_sized(*self, virt_start.0, phys_start.0, len, off as int),
                steps_agree(virt_start.0, phys_start.0, len, off as int),
                changed_only_in(*old(self), *self, virt_start.0, off as int),
                links_made_with(old(self).memory(), self.memory(), old(self).root_frame(), nonleaf_flags),
            decreases len + SIZE_4K - off,
        {
            let va = VirtualAddress::new(virt_start.as_u64() + off);
            let pa = PhysicalAddress::new(phys_start.as_u64() + off);
            let remain = len - off;
            let ghost before = *self;
            let ghost free_before = alloc.free_frames();
            proof {
                lemma_align_masks(va.0);
                lemma_align_masks(pa.0);
                lemma_align_masks(off);
                if off > 0 {
                    lemma_add_aligned_4k(virt_start.0, off);
                    lemma_add_aligned_4k(phys_start.0, off);
                }
            }
            if (va.as_u64() & (SIZE_1G - 1) == 0) && (pa.as_u64() & (SIZE_1G - 1) == 0) && remain
                >= SIZE_1G {
                match self.map_one::<A, Size1G>(alloc, va, pa, nonleaf_flags, leaf_flags) {
                    Ok(()) => {},
                    Err(e) => {
                        proof {
                            lemma_tables_grew_trans(*old(self), before, *self, old(alloc).free_frames(), free_before, alloc.free_frames());
                            if len <= 0x1_0000_0000_0000 {
                                lemma_region_fail(before, *self, virt_start.0, phys_start.0, off, va.0, 1, free_before, alloc.free_frames(), e);
                                lemma_region_flags_fail(before, *self, virt_start.0, off as int, va.0, 1, leaf_flags);
                                lemma_region_sized_fail(before, *self, virt_start.0, phys_start.0, len, off as int, va.0, 1);
                                assert(leaf_table(self.memory(), self.root_frame(), va.0, 1) is None);
                            }
                            lemma_region_changes_fail(*old(self), before, *self, virt_start.0, off as int, va.0, 1, free_before, alloc.free_frames(), e);
                            lemma_changed_only_in_grow(*old(self), *self, virt_start.0, off as int, pages_len(len));
                            lemma_links_made_trans(old(self).mapper, before.mapper, self.mapper, self.root.base.0, nonleaf_flags);
                        }
                        return Err(AddressSpaceMapRegionError::from(e));
                    },
                }
                proof {
                    lemma_tables_grew_trans(*old(self), before, *self, old(alloc).free_frames(), free_before, alloc.free_frames());
                    if len <= 0x1_0000_0000_0000 {
                        lemma_region_step(before, *self, virt_start.0, phys_start.0, off as int, va.0, 1);
                        lemma_region_flags_step(before, *self, virt_start.0, off as int, va.0, pa.0, 1, leaf_flags);
                        assert(same_prefix(va.0, va.0, 1));
                        assert(1 == step_level(virt_start.0 + off, phys_start.0 + off, len - off));
                        lemma_region_sized_step(before, *self, virt_start.0, phys_start.0, len, off as int, va.0, pa.0, 1, leaf_flags);
                    }
                    lemma_region_changes(*old(self), before, *self, virt_start.0, off as int, va.0, pa.0, 1);
                    lemma_links_made_trans(old(self).mapper, before.mapper, self.mapper, self.root.base.0, nonleaf_flags);
                }
                off = off + SIZE_1G;
                continue ;
            }
            if (va.as_u64() & (SIZE_2M - 1) == 0) && (pa.as_u64() & (SIZE_2M - 1) == 0) && remain
                >= SIZE_2M {
                match self.map_one::<A, Size2M>(alloc, va, pa, nonleaf_flags, leaf_flags) {
                    Ok(()) => {},
                    Err(e) => {
                        proof {
                            lemma_tables_grew_trans(*old(self), before, *self, old(alloc).free_frames(), free_before, alloc.free_frames());
                            if len <= 0x1_0000_0000_0000 {
                                lemma_region_fail(before, *self, virt_start.0, phys_start.0, off, va.0, 2, free_before, alloc.free_frames(), e);
                                lemma_region_flags_fail(before, *self, virt_start.0, off as int, va.0, 2, leaf_flags);
                                lemma_region_sized_fail(before, *self, virt_start.0, phys_start.0, len, off as int, va.0, 2);
                                assert(leaf_table(self.memory(), self.root_frame(), va.0, 2) is None);
                            }
                            lemma_region_changes_fail(*old(self), before, *self, virt_start.0, off as int, va.0, 2, free_before, alloc.free_frames(), e);
                            lemma_changed_only_in_grow(*old(self), *self, virt_start.0, off as int, pages_len(len));
                            lemma_links_made_trans(old(self).mapper, before.mapper, self.mapper, self.root.base.0, nonleaf_flags);
                        }
                        return Err(AddressSpaceMapRegionError::from(e));
                    },
                }
                proof {
                    lemma_tables_grew_trans(*old(self), before, *self, old(alloc).free_frames(), free_before, alloc.free_frames());
                    if len <= 0x1_0000_0000_0000 {
                        lemma_region_step(before, *self, virt_start.0, phys_start.0, off as int, va.0, 2);
                        lemma_region_flags_step(before, *self, virt_start.0, off as int, va.0, pa.0, 2, leaf_flags);
                        assert(same_prefix(va.0, va.0, 2));
                        assert(2 == step_level(virt_start.0 + off, phys_start.0 + off, len - off));
                        lemma_region_sized_step(before, *self, virt_start.0, phys_start.0, len, off as int, va.0, pa.0, 2, leaf_flags);
                    }
                    lemma_region_changes(*old(self), before, *self, virt_start.0, off as int, va.0, pa.0, 2);
                    lemma_links_made_trans(old(self).mapper, before.mapper, self.mapper, self.root.base.0, nonleaf_flags);
                }
                off = off + SIZE_2M;
                continue ;
            }
            if (va.as_u64() & (SIZE_4K - 1) == 0) && (pa.as_u64() & (SIZE_4K - 1) == 0) {
                match self.map_one::<A, Size4K>(alloc, va, pa, nonleaf_flags, leaf_flags) {
                    Ok(()) => {},
                    Err(e) => {
                        proof {
                            lemma_tables_grew_trans(*old(self), before, *self, old(alloc).free_frames(), free_before, alloc.free_frames());
                            if len <= 0x1_0000_0000_0000 {
                                lemma_region_fail(before, *self, virt_start.0, phys_start.0, off, va.0, 3, free_before, alloc.free_frames(), e);
                                lemma_region_flags_fail(before, *self, virt_start.0, off as int, va.0, 3, leaf_flags);
                                lemma_region_sized_fail(before, *self, virt_start.0, phys_start.0, len, off as int, va.0, 3);
                                assert(leaf_table(self.memory(), self.root_frame(), va.0, 3) is None);
                            }
                            lemma_region_changes_fail(*old(self), before, *self, virt_start.0, off as int, va.0, 3, free_before, alloc.free_frames(), e);
                            lemma_changed_only_in_grow(*old(self), *self, virt_start.0, off as int, pages_len(len));
                            lemma_links_made_trans(old(self).mapper, before.mapper, self.mapper, self.root.base.0, nonleaf_flags);
                        }
                        return Err(AddressSpaceMapRegionError::from(e));
                    },
                }
                proof {
                    lemma_tables_grew_trans(*old(self), before, *self, old(alloc).free_frames(), free_before, alloc.free_frames());
                    if len <= 0x1_0000_0000_0000 {
                        lemma_region_step(before, *self, virt_start.0, phys_start.0, off as int, va.0, 3);
                        lemma_region_flags_step(before, *self, virt_start.0, off as int, va.0, pa.0, 3, leaf_flags);
                        assert(same_prefix(va.0, va.0, 3));
                        assert(3 == step_level(virt_start.0 + off, phys_start.0 + off, len - off));
                        lemma_region_sized_step(before, *self, virt_start.0, phys_start.0, len, off as int, va.0, pa.0, 3, leaf_flags);
                    }
                    lemma_region_changes(*old(self), before, *self, virt_start.0, off as int, va.0, pa.0, 3);
                    lemma_links_made_trans(old(self).mapper, before.mapper, self.mapper, self.root.base.0, nonleaf_flags);
                }
                off = off + SIZE_4K;
                continue ;
            }
            return Err(AddressSpaceMapRegionError::Unaligned(va, pa));
        }
        Ok(())
    }

    /// Maps `[start, start + len)` (rounded up to whole pages) page by page
    /// to fresh 4 KiB frames taken from `alloc`, with `leaf_flags` for the
    /// pages and `nonleaf_flags` for new tables.
    ///
    /// # Errors
    /// - [`MapFreshError::NoFrame`]: `alloc` had no frame for a page; every
    ///   frame taken backs a page mapped before or a table;
    /// - [`MapFreshError::OutOfMemory`]: a table could not be allocated; the
    ///   frame taken for that page stays out of the allocator, and the page's
    ///   chain stops at the level the error names.
    /// The pages mapped before stay mapped.
    #[verifier::rlimit(100)]
    #[verifier::spinoff_prover]
    pub fn map_fresh_4k<A: PhysFrameAlloc>(
        &mut self,
        alloc: &mut A,
        start: VirtualAddress,
        len: u64,
        nonleaf_flags: VirtualMemoryPageBits,
        leaf_flags: VirtualMemoryPageBits,
    ) -> (r: Result<(), MapFreshError>)
        requires
            old(self).inv(),
            old(alloc).free_frames().disjoint(old(self).frames_in_use()),
            start.0 % SIZE_4K == 0,
            start.0 + len <= u64::MAX + 1,
            len <= 0x1_0000_0000_0000,
        ensures
            final(self).inv(),
            final(self).root_frame() == old(self).root_frame(),
            old(self).frames_in_use().subset_of(final(self).frames_in_use()),
            final(self).frames_in_use().subset_of(
                old(self).frames_in_use().union(old(alloc).free_frames()),
            ),
            final(alloc).free_frames().subset_of(old(alloc).free_frames()),
            final(alloc).free_frames().disjoint(final(self).frames_in_use()),
            r is Ok ==> range_present(
                *final(self),
                start.0,
                pages_len(len),
            ),
            r is Ok ==> fresh_frames(
                *final(self),
                old(alloc).free_frames(),
                final(alloc).free_frames(),
                start.0,
                pages_len(len),
            ),
            r is Err ==> exists|done: int|
                0 <= done < pages_len(len) && done % (SIZE_4K as int) == 0 && fresh_frames(
                    *final(self),
                    old(alloc).free_frames(),
                    final(alloc).free_frames(),
                    start.0,
                    done,
                ) && (forall|va: u64|
                    start.0 <= va < start.0 + done ==> #[trigger] pt_leaf_with(*final(self), va, leaf_flags))
                    && match r {
                    Err(MapFreshError::NoFrame) => frames_accounted(
                        *final(self),
                        old(alloc).free_frames(),
                        final(alloc).free_frames(),
                        start.0,
                        done,
                    ),
                    Err(MapFreshError::OutOfMemory(e)) => frame_stranded(
                        *final(self),
                        old(alloc).free_frames(),
                        final(alloc).free_frames(),
                        start.0,
                        done,
                    ) && chain_stops(
                        final(self).memory(),
                        final(self).root_frame(),
                        (start.0 + done) as u64,
                        e,
                    ),
                    Ok(()) => true,
                },
            changed_only_in(*old(self), *final(self), start.0, pages_len(len)),
            r is Ok ==> forall|va: u64|
                start.0 <= va < start.0 + pages_len(len) ==> #[trigger] pt_leaf_with(*final(self), va, leaf_flags),
            links_made_with(
                old(self).memory(),
                final(self).memory(),
                old(self).root_frame(),
                nonleaf_flags,
            ),
            len == 0 ==> r is Ok && *final(self) == *old(self) && *final(alloc) == *old(alloc),
    {
        let mut off: u64 = 0;
        proof {
            assert(changed_only_in(*old(self), *self, start.0, 0)) by {
                assert forall|va2: u64| #[trigger] self.translation(va2) == old(self).translation(va2) by {}
            }
        }
        while off < len
            invariant
                old(self).inv(),
                self.inv(),
                self.root_frame() == old(self).root_frame(),
                old(self).frames_in_use().subset_of(self.frames_in_use()),
                self.frames_in_use().subset_of(
                    old(self).frames_in_use().union(old(alloc).free_frames()),
                ),
                alloc.free_frames().subset_of(old(alloc).free_frames()),
                alloc.free_frames().disjoint(self.frames_in_use()),
                start.0 % SIZE_4K == 0,
                start.0 + len <= u64::MAX + 1,
                len <= 0x1_0000_0000_0000,
                off % SIZE_4K == 0,
                off < len + SIZE_4K,
                range_present(*self, start.0, off as int),
                leaves_inside(*self, start.0, off as int),
                fresh_frames(*self, old(alloc).free_frames(), alloc.free_frames(), start.0, off as int),
                changed_only_in(*old(self), *self, start.0, off as int),
                forall|va2: u64| start.0 <= va2 < start.0 + off ==> #[trigger] pt_leaf_with(*self, va2, leaf_flags),
                links_made_with(old(self).memory(), self.memory(), old(self).root_frame(), nonleaf_flags),
                off == 0 ==> *self == *old(self) && *alloc == *old(alloc),
                frames_accounted(*self, old(alloc).free_frames(), alloc.free_frames(), start.0, off as int),
            decreases len + SIZE_4K - off,
        {
            proof {
                lemma_add_aligned_4k(start.0, off);
                assert(off < pages_len(len));
            }
            let va = VirtualAddress::new(start.as_u64() + off);
            let ghost free_start = alloc.free_frames();
            let f = match alloc.alloc_4k() {
                Some(f) => f,
                None => {
                    proof {
                        lemma_changed_only_in_grow(*old(self), *self, start.0, off as int, pages_len(len));
                    }
                    return Err(MapFreshError::NoFrame);
                },
            };
            let ghost before = *self;
            let ghost free_before = alloc.free_frames();
            proof {
                lemma_align_masks(f.base.0);
                assert(fresh_frames(*self, old(alloc).free_frames(), alloc.free_frames(), start.0, off as int)) by {
                    assert forall|va2: u64| start.0 <= va2 < start.0 + off implies !alloc.free_frames().contains(
                        #[trigger] page_frame(*self, va2) as u64,
                    ) by {
                        assert(self.translation(va2) is Some);
                    }
                }
            }
            match self.map_one::<A, Size4K>(alloc, va, f.base(), nonleaf_flags, leaf_flags) {
                Ok(()) => {},
                Err(AddressSpaceMapOneError::OutOfMemory(e)) => {
                    proof {
                        assert(fresh_frames(*self, old(alloc).free_frames(), alloc.free_frames(), start.0, off as int)) by {
                            assert forall|va2: u64| start.0 <= va2 < start.0 + off implies #[trigger] self.translation(va2) == before.translation(va2) by {
                                lemma_processed_kept(before, start.0, off as int, va.0, va2, 3);
                                lemma_lost_prefix(before.mapper, before.root.base.0, before.pdpts@, before.pds@, before.pts@, before.owner@, va.0, va2, 2);
                            }
                        }
                        lemma_region_changes_fail(*old(self), before, *self, start.0, off as int, va.0, 3, free_before, alloc.free_frames(), AddressSpaceMapOneError::OutOfMemory(e));
                        lemma_changed_only_in_grow(*old(self), *self, start.0, off as int, pages_len(len));
                        assert forall|va2: u64| start.0 <= va2 < start.0 + off implies #[trigger] pt_leaf_with(*self, va2, leaf_flags) by {
                            lemma_processed_kept(before, start.0, off as int, va.0, va2, 3);
                            assert(pt_leaf_with(before, va2, leaf_flags));
                            assert(leaf_walk_kept(before.mapper, self.mapper, before.root.base.0, va2));
                        }
                        lemma_links_made_trans(old(self).mapper, before.mapper, self.mapper, self.root.base.0, nonleaf_flags);
                        assert(!alloc.free_frames().contains(f.base.0));
                        assert(!self.frames_in_use().contains(f.base.0));
                        assert forall|va2: u64| start.0 <= va2 < start.0 + off implies #[trigger] page_frame(*self, va2)
                            != f.base.0 by {
                            lemma_processed_kept(before, start.0, off as int, va.0, va2, 3);
                            lemma_lost_prefix(before.mapper, before.root.base.0, before.pdpts@, before.pds@, before.pts@, before.owner@, va.0, va2, 2);
                            assert(self.translation(va2) == before.translation(va2));
                            assert(!free_start.contains(page_frame(before, va2) as u64));
                        }
                        assert(frame_stranded(*self, old(alloc).free_frames(), alloc.free_frames(), start.0, off as int));
                        assert(chain_stops(self.memory(), self.root_frame(), va.0, e));
                    }
                    return Err(MapFreshError::OutOfMemory(e));
                },
            }
            proof {
                lemma_present_step(before, *self, start.0, off as int, va.0, f.base.0);
                lemma_fresh_step(before, *self, old(alloc).free_frames(), free_start, free_before, alloc.free_frames(), start.0, off as int, va.0, f.base.0);
                lemma_region_changes(*old(self), before, *self, start.0, off as int, va.0, f.base.0, 3);
                lemma_links_made_trans(old(self).mapper, before.mapper, self.mapper, self.root.base.0, nonleaf_flags);
                let root = self.root.base.0;
                assert forall|va2: u64| start.0 <= va2 < start.0 + off + SIZE_4K implies #[trigger] pt_leaf_with(*self, va2, leaf_flags) by {
                    lemma_indices_bounded(va2);
                    if va2 < va.0 {
                        lemma_processed_kept(before, start.0, off as int, va.0, va2, 3);
                        assert(pt_leaf_with(before, va2, leaf_flags));
                        assert(leaf_walk_kept(before.mapper, self.mapper, root, va2));
                    } else {
                        lemma_same_page(va.0, va2);
                        assert(!huge_at(self.mapper, root, va.0, 1));
                        assert(!huge_at(self.mapper, root, va.0, 2));
                        assert(self.translation(va.0) is Some);
                        assert(walk_e1(self.mapper, root, va2) == walk_e1(self.mapper, root, va.0));
                    }
                }
                assert forall|g: u64|
                    #[trigger] old(alloc).free_frames().contains(g) && !alloc.free_frames().contains(g)
                        implies self.frames_in_use().contains(g) || exists|va2: u64|
                        start.0 <= va2 < start.0 + off + SIZE_4K && #[trigger] page_frame(*self, va2) == g by {
                    if g == f.base.0 {
                        lemma_same_page(va.0, va.0);
                        assert(same_prefix(va.0, va.0, 3));
                        assert(page_frame(*self, va.0) == g);
                    } else if free_start.contains(g) {
                        assert(free_before.contains(g));
                        assert(self.frames_in_use().contains(g));
                    } else {
                        if !before.frames_in_use().contains(g) {
                            let w = choose|va2: u64| start.0 <= va2 < start.0 + off && #[trigger] page_frame(before, va2) == g;
                            lemma_processed_kept(before, start.0, off as int, va.0, w, 3);
                            assert(self.translation(w) == before.translation(w));
                            assert(page_frame(*self, w) == g);
                        }
                    }
                }
            }
            off = off + SIZE_4K;
        }
        proof {
            assert(off == pages_len(len));
        }
        Ok(())
    }

    /// One step of [`Self::unmap_region`] at `va`, with `rem` bytes of the
    /// region left: a 1 GiB or 2 MiB leaf that starts at `va` and fits in
    /// `rem` is cleared (the step is its size); a present 4 KiB entry is
    /// cleared; otherwise nothing changes. The step is 4 KiB in those cases.
    fn unmap_step(&mut self, va: VirtualAddress, rem: u64) -> (step: u64)
        requires
            old(self).inv(),
        ensures
            final(self).inv(),
            final(self).root == old(self).root,
            final(self).frames_in_use() == old(self).frames_in_use(),
            forall|x: u64| #[trigger] links_kept(old(self).mapper, final(self).mapper, old(self).root.base.0, x),
            zeroed_only(old(self).mapper, final(self).mapper),
            forall|x: u64| #[trigger]
                final(self).translation(x) == old(self).translation(x) || final(self).translation(x) is None,
            forall|x: u64|
                same_prefix(va.0, x, 3) && through_pt(old(self).mapper, old(self).root.base.0, x)
                    ==> #[trigger] final(self).translation(x) is None,
            step == SIZE_4K || step == SIZE_2M || step == SIZE_1G,
            step == SIZE_4K ==> {
                &&& !(huge_at(old(self).mapper, old(self).root.base.0, va.0, 1) && va.0 % SIZE_1G == 0
                    && rem >= SIZE_1G)
                &&& !(huge_at(old(self).mapper, old(self).root.base.0, va.0, 2) && va.0 % SIZE_2M == 0
                    && rem >= SIZE_2M)
                &&& forall|x: u64|
                    !through_pt(old(self).mapper, old(self).root.base.0, x)
                        ==> #[trigger] final(self).translation(x) == old(self).translation(x)
                &&& forall|x: u64| #[trigger]
                    final(self).translation(x) == old(self).translation(x) || same_prefix(va.0, x, 3)
            },
            step == SIZE_1G ==> {
                &&& va.0 % SIZE_1G == 0
                &&& rem >= SIZE_1G
                &&& huge_at(old(self).mapper, old(self).root.base.0, va.0, 1)
                &&& forall|x: u64|
                    same_prefix(va.0, x, 1) ==> #[trigger] translate(
                        final(self).mapper,
                        old(self).root.base.0,
                        x,
                    ) is None
                &&& forall|x: u64| #[trigger]
                    final(self).translation(x) == old(self).translation(x) || same_prefix(va.0, x, 1)
            },
            step == SIZE_2M ==> {
                &&& va.0 % SIZE_2M == 0
                &&& rem >= SIZE_2M
                &&& huge_at(old(self).mapper, old(self).root.base.0, va.0, 2)
                &&& forall|x: u64|
                    same_prefix(va.0, x, 2) ==> #[trigger] translate(
                        final(self).mapper,
                        old(self).root.base.0,
                        x,
                    ) is None
                &&& forall|x: u64| #[trigger]
                    final(self).translation(x) == old(self).translation(x) || same_prefix(va.0, x, 2)
            },
    {
        let ghost m1 = self.mapper;
        let ghost root = self.root.base.0;
        proof {
            lemma_indices_bounded(va.0);
            lemma_align_masks(va.0);
            assert(!get_flag(0u64, 0));
        }
        match self.walk(va) {
            WalkResult::Leaf1G { pdpt, i3, .. } => {
                if (va.as_u64() & (SIZE_1G - 1) == 0) && rem >= SIZE_1G {
                    self.mapper.write_entry(pdpt, i3.as_usize(), 0);
                    proof {
                        assert(self.pdpts@.contains(pdpt.base.0));
                        lemma_write3(m1, self.mapper, root, self.pdpts@, self.pds@, self.pts@, pdpt.base.0, i3.0 as u64, 0);
                        lemma_owned_nonlink(m1, self.mapper, root, self.pdpts@, self.pds@, self.owner@, pdpt.base.0, i3.0 as u64, 0);
                        lemma_clear_leaf(m1, self.mapper, root, self.pdpts@, self.pds@, self.pts@, pdpt.base.0, i3.0 as u64);
                        lemma_clear_touch(m1, self.mapper, root, self.pdpts@, self.pds@, self.pts@, self.owner@, va.0, 1, pdpt.base.0, i3.0 as u64);
                        assert forall|x: u64| same_prefix(va.0, x, 1) implies #[trigger] translate(self.mapper, root, x) is None by {
                            assert(walk_e4(m1, root, x) == walk_e4(m1, root, va.0));
                        }
                    }
                    return SIZE_1G;
                }
            },
            WalkResult::Leaf2M { pd, i2, .. } => {
                if (va.as_u64() & (SIZE_2M - 1) == 0) && rem >= SIZE_2M {
                    self.mapper.write_entry(pd, i2.as_usize(), 0);
                    proof {
                        assert(self.pds@.contains(pd.base.0));
                        lemma_write2(m1, self.mapper, root, self.pdpts@, self.pds@, self.pts@, pd.base.0, i2.0 as u64, 0);
                        lemma_owned_nonlink(m1, self.mapper, root, self.pdpts@, self.pds@, self.owner@, pd.base.0, i2.0 as u64, 0);
                        lemma_clear_leaf(m1, self.mapper, root, self.pdpts@, self.pds@, self.pts@, pd.base.0, i2.0 as u64);
                        lemma_clear_touch(m1, self.mapper, root, self.pdpts@, self.pds@, self.pts@, self.owner@, va.0, 2, pd.base.0, i2.0 as u64);
                        assert forall|x: u64| same_prefix(va.0, x, 2) implies #[trigger] translate(self.mapper, root, x) is None by {
                            assert(walk_e4(m1, root, x) == walk_e4(m1, root, va.0));
                            assert(walk_e3(m1, root, x) == walk_e3(m1, root, va.0));
                        }
                    }
                    return SIZE_2M;
                }
            },
            WalkResult::L1 { pt, i1, pte } => {
                if pte.is_present() {
                    self.mapper.write_entry(pt, i1.as_usize(), 0);
                    proof {
                        assert(self.pts@.contains(pt.base.0));
                        lemma_write1(m1, self.mapper, root, self.pdpts@, self.pds@, self.pts@, pt.base.0, i1.0 as u64, 0);
                        lemma_owned_nonlink(m1, self.mapper, root, self.pdpts@, self.pds@, self.owner@, pt.base.0, i1.0 as u64, 0);
                        lemma_clear_leaf(m1, self.mapper, root, self.pdpts@, self.pds@, self.pts@, pt.base.0, i1.0 as u64);
                        lemma_clear_touch(m1, self.mapper, root, self.pdpts@, self.pds@, self.pts@, self.owner@, va.0, 3, pt.base.0, i1.0 as u64);
                    }
                }
            },
            WalkResult::Missing => {},
        }
        proof {
            assert forall|x: u64| #[trigger] links_kept(m1, self.mapper, root, x) by {
                assert(links_kept(m1, m1, root, x));
            }
        }
        SIZE_4K
    }

    /// Clears the mappings of `[virt_start, virt_start + len)`: a 1 GiB or
    /// 2 MiB leaf whose page starts at the current address and fits in the
    /// remaining length is cleared whole; a present 4 KiB entry is cleared;
    /// otherwise the walk moves on by 4 KiB. Entries are only cleared, every
    /// link to a table is kept, and no table is freed. From an
    /// aligned start, a large leaf whose page is not wholly inside the range
    /// keeps its translations.
    #[verifier::spinoff_prover]
    pub fn unmap_region(&mut self, virt_start: VirtualAddress, len: u64)
        requires
            old(self).inv(),
            virt_start.0 + len <= u64::MAX + 1,
            len + SIZE_4K <= u64::MAX + 1,
        ensures
            final(self).inv(),
            final(self).root_frame() == old(self).root_frame(),
            final(self).frames_in_use() == old(self).frames_in_use(),
            zeroed_only(old(self).memory(), final(self).memory()),
            forall|va2: u64| #[trigger] links_kept(old(self).memory(), final(self).memory(), old(self).root_frame(), va2),
            forall|va2: u64| #[trigger]
                final(self).translation(va2) == old(self).translation(va2)
                    || final(self).translation(va2) is None,
            forall|va2: u64|
                virt_start.0 - virt_start.0 % SIZE_4K <= va2 < virt_start.0 - virt_start.0 % SIZE_4K
                    + pages_len(len) && through_pt(
                    old(self).memory(),
                    old(self).root_frame(),
                    va2,
                ) ==> #[trigger] final(self).translation(va2) is None,
            virt_start.0 % SIZE_4K == 0 ==> forall|va2: u64, l: nat|
                virt_start.0 <= va2 < virt_start.0 + len && #[trigger] huge_at(
                    old(self).memory(),
                    old(self).root_frame(),
                    va2,
                    l,
                ) && block_inside(va2, l, virt_start.0 as int, virt_start.0 + len)
                    ==> final(self).translation(va2) is None,
            virt_start.0 % SIZE_4K == 0 ==> forall|va2: u64, l: nat|
                #[trigger] huge_at(old(self).memory(), old(self).root_frame(), va2, l) && partly_outside(
                    virt_start.0,
                    len,
                    va2,
                    l,
                ) ==> final(self).translation(va2) == old(self).translation(va2),
            virt_start.0 % SIZE_4K != 0 ==> forall|va2: u64|
                !through_pt(old(self).memory(), old(self).root_frame(), va2)
                    ==> #[trigger] final(self).translation(va2) == old(self).translation(va2),
            touched_only_in(
                *old(self),
                *final(self),
                virt_start.0 - virt_start.0 % SIZE_4K,
                pages_len(len),
            ),
    {
        let ghost m0 = self.mapper;
        let ghost root = self.root.base.0;
        let mut off: u64 = 0;
        while off < len
            invariant
                self.inv(),
                self.root.base.0 == root,
                root == old(self).root_frame(),
                m0 == old(self).memory(),
                self.frames_in_use() == old(self).frames_in_use(),
                virt_start.0 + len <= u64::MAX + 1,
                len + SIZE_4K <= u64::MAX + 1,
                off % SIZE_4K == 0,
                off < len + SIZE_4K,
                forall|va2: u64| #[trigger]
                    self.translation(va2) == old(self).translation(va2) || self.translation(va2) is None,
                forall|va2: u64| #[trigger] links_kept(m0, self.mapper, root, va2),
                zeroed_only(m0, self.mapper),
                forall|va2: u64|
                    virt_start.0 - virt_start.0 % SIZE_4K <= va2 < virt_start.0 - virt_start.0 % SIZE_4K
                        + off && through_pt(m0, root, va2) ==> #[trigger] self.translation(va2) is None,
                virt_start.0 % SIZE_4K != 0 ==> forall|va2: u64|
                    !through_pt(m0, root, va2) ==> #[trigger] self.translation(va2) == old(self).translation(va2),
                touched_only_in(*old(self), *self, virt_start.0 - virt_start.0 % SIZE_4K, off as int),
                virt_start.0 % SIZE_4K == 0 ==> forall|va2: u64, l: nat|
                    virt_start.0 <= va2 < virt_start.0 + off && #[trigger] huge_at(m0, root, va2, l)
                        && block_inside(va2, l, virt_start.0 as int, virt_start.0 + len)
                        ==> translate(self.mapper, root, va2) is None,
                virt_start.0 % SIZE_4K == 0 ==> forall|va2: u64, l: nat|
                    #[trigger] huge_at(m0, root, va2, l) && partly_outside(virt_start.0, len, va2, l)
                        ==> self.translation(va2) == old(self).translation(va2),
            decreases len + SIZE_4K - off,
        {
            let va = VirtualAddress::new(virt_start.as_u64() + off);
            let ghost m1 = self.mapper;
            let ghost before = *self;
            proof {
                lemma_align_masks(va.0);
                if virt_start.0 % SIZE_4K == 0 {
                    lemma_add_aligned_4k(virt_start.0, off);
                }
            }
            let step = self.unmap_step(va, len - off);
            proof {
                let m2 = self.mapper;
                assert forall|t: u64, j: u64| #[trigger] m2.entry(t, j) == m0.entry(t, j) || m2.entry(t, j)
                    == 0 by {
                    assert(m2.entry(t, j) == m1.entry(t, j) || m2.entry(t, j) == 0);
                    assert(m1.entry(t, j) == m0.entry(t, j) || m1.entry(t, j) == 0);
                }
                assert forall|va2: u64| #[trigger] links_kept(m0, m2, root, va2) by {
                    assert(links_kept(m0, m1, root, va2));
                    assert(links_kept(m1, m2, root, va2));
                }
                assert forall|va2: u64| #[trigger]
                    self.translation(va2) == old(self).translation(va2) || self.translation(va2) is None by {
                    assert(before.translation(va2) == old(self).translation(va2) || before.translation(va2) is None);
                    assert(self.translation(va2) == before.translation(va2) || self.translation(va2) is None);
                }
                let vb = virt_start.0 - virt_start.0 % SIZE_4K;
                lemma_block(0, va.0, 3);
                let pb = (va.0 - va.0 % SIZE_4K) as u64;
                assert(va.0 % SIZE_4K == virt_start.0 % SIZE_4K);
                assert(pb == vb + off);
                let lvl: nat = if step == SIZE_1G { 1 } else if step == SIZE_2M { 2 } else { 3 };
                assert forall|x: u64| #[trigger]
                    translate(m2, root, x) == translate(m1, root, x) || translate(m2, root, x) is None by {
                    assert(self.translation(x) == before.translation(x) || self.translation(x) is None);
                }
                if virt_start.0 % SIZE_4K == 0 {
                    assert forall|va2: u64, l: nat|
                        #[trigger] huge_at(m0, root, va2, l) && partly_outside(virt_start.0, len, va2, l)
                            implies self.translation(va2) == old(self).translation(va2) by {
                        assert(links_kept(m0, m1, root, va2));
                        assert(before.translation(va2) == old(self).translation(va2));
                        if step == SIZE_1G {
                            if same_prefix(va.0, va2, 1) {
                                assert(links_kept(m0, m1, root, va.0));
                                assert(walk_e4(m0, root, va2) == walk_e4(m0, root, va.0));
                                assert(walk_e3(m0, root, va2) == walk_e3(m0, root, va.0));
                                if l == 1 {
                                    assert(block_inside(va.0, 1, virt_start.0 as int, virt_start.0 + len));
                                    assert(same_prefix(va.0, va2, l));
                                }
                            }
                        } else if step == SIZE_2M {
                            if same_prefix(va.0, va2, 2) {
                                assert(links_kept(m0, m1, root, va.0));
                                assert(walk_e4(m0, root, va2) == walk_e4(m0, root, va.0));
                                assert(walk_e3(m0, root, va2) == walk_e3(m0, root, va.0));
                                if l == 2 {
                                    assert(walk_e2(m0, root, va2) == walk_e2(m0, root, va.0));
                                    assert(block_inside(va.0, 2, virt_start.0 as int, virt_start.0 + len));
                                    assert(same_prefix(va.0, va2, l));
                                }
                            }
                        } else {
                            assert(!through_pt(m1, root, va2));
                        }
                    }
                    let cleared: nat = if step == SIZE_1G { 1 } else if step == SIZE_2M { 2 } else { 0 };
                    lemma_unmap_huge_step(m0, m1, m2, root, virt_start.0, len, off as int, step as int, cleared, va.0);
                }
                if step != SIZE_4K {
                    lemma_align_masks(va.0);
                    assert(pb == va.0);
                }
                lemma_unmap_touch(*old(self), before, *self, vb, off as int, va.0, lvl);
                if virt_start.0 % SIZE_4K != 0 {
                    assert(step == SIZE_4K);
                    assert forall|va2: u64| !through_pt(m0, root, va2) implies #[trigger] self.translation(va2)
                        == old(self).translation(va2) by {
                        assert(links_kept(m0, m1, root, va2));
                        assert(before.translation(va2) == old(self).translation(va2));
                    }
                }
                assert forall|va2: u64|
                    vb <= va2 < vb + off + step && through_pt(m0, root, va2)
                        implies #[trigger] self.translation(va2) is None by {
                    lemma_indices_bounded(va2);
                    lemma_same_page(pb, va2);
                    assert(links_kept(m0, m1, root, va2));
                    if va2 < vb + off {
                        assert(before.translation(va2) is None);
                    }
                }
            }
            off = off + step;
        }
        proof {
            assert(off == pages_len(len));
        }
    }

    /// Whether some entry of the table in `t` is present.
    fn any_present(&self, t: PhysicalPage<Size4K>) -> (r: bool)
        ensures
            r == !table_empty(self.memory(), t.base.0),
    {
        let mut i: usize = 0;
        while i < 512
            invariant
                i <= 512,
                forall|j: u64| j < i ==> !present(#[trigger] self.mapper.entry(t.base.0, j)),
            decreases 512 - i,
        {
            if PageEntryBits(self.mapper.read_entry(t, i)).present() {
                return true;
            }
            i = i + 1;
        }
        false
    }

    /// Unlinks and frees every empty PT of the PD `pd`; returns whether the
    /// PD still maps something (a 2 MiB leaf or a PT with a present entry).
    fn collapse_pd<F: PhysFrameAlloc>(&mut self, free: &mut F, pd: PhysicalPage<Size4K>) -> (used: bool)
        requires
            old(self).inv(),
            old(self).pds@.contains(pd.base.0),
        ensures
            tables_shrank(*old(self), *final(self), old(free).free_frames(), final(free).free_frames()),
            final(self).pdpts@ == old(self).pdpts@,
            final(self).pds@ == old(self).pds@,
            final(self).pts@.subset_of(old(self).pts@),
            final(self).owner@ == old(self).owner@,
            forall|va: u64| #[trigger] final(self).translation(va) == old(self).translation(va),
            forall|t: u64, j: u64|
                t != pd.base.0 ==> #[trigger] final(self).mapper.entry(t, j) == old(self).mapper.entry(t, j),
            unlinked_only(*old(self), *final(self)),
            used == !table_empty(final(self).memory(), pd.base.0),
            pd_ok(old(self).mapper, pd.base.0) ==> *final(self) == *old(self) && *final(free) == *old(free),
            forall|k: u64|
                #![trigger final(self).mapper.entry(pd.base.0, k)]
                k < 512 && link(final(self).mapper.entry(pd.base.0, k)) ==> !table_empty(
                    final(self).mapper,
                    frame_address(final(self).mapper.entry(pd.base.0, k)),
                ),
    {
        let mut used = false;
        let mut i2: usize = 0;
        proof {
            assert(old(free).free_frames() =~= old(free).free_frames().union(
                old(self).frames_in_use().difference(self.frames_in_use()),
            ));
        }
        while i2 < 512
            invariant
                i2 <= 512,
                tables_shrank(*old(self), *self, old(free).free_frames(), free.free_frames()),
                self.pdpts@ == old(self).pdpts@,
                self.pds@ == old(self).pds@,
                self.pts@.subset_of(old(self).pts@),
                self.owner@ == old(self).owner@,
                self.pds@.contains(pd.base.0),
                unlinked_only(*old(self), *self),
                forall|va: u64| #[trigger] self.translation(va) == old(self).translation(va),
                forall|t: u64, j: u64|
                    t != pd.base.0 ==> #[trigger] self.mapper.entry(t, j) == old(self).mapper.entry(t, j),
                !used ==> forall|j: u64| j < i2 ==> !present(#[trigger] self.mapper.entry(pd.base.0, j)),
                used ==> exists|j: u64| j < i2 && present(#[trigger] self.mapper.entry(pd.base.0, j)),
                pd_ok(old(self).mapper, pd.base.0) ==> *self == *old(self) && *free == *old(free),
                forall|j: u64|
                    #![trigger self.mapper.entry(pd.base.0, j)]
                    j < i2 && link(self.mapper.entry(pd.base.0, j)) ==> !table_empty(
                        self.mapper,
                        frame_address(self.mapper.entry(pd.base.0, j)),
                    ),
            decreases 512 - i2,
        {
            let ghost s0 = *self;
            let e2 = PdEntry::from_bits(self.mapper.read_entry(pd, i2));
            match e2.kind() {
                Some(PdEntryKind::Leaf2MiB(_, _)) => {
                    used = true;
                },
                Some(PdEntryKind::NextPageTable(pt_page, _)) => {
                    if self.any_present(pt_page) {
                        used = true;
                    } else {
                        proof {
                            if pd_ok(old(self).mapper, pd.base.0) {
                                assert(link(old(self).mapper.entry(pd.base.0, i2 as u64)));
                            }
                        }
                        let ghost m1 = self.mapper;
                        let ghost before = *self;
                        let ghost root = self.root.base.0;
                        proof {
                            lemma_frame_address_bounds(e2.0);
                            assert(self.pts@.contains(pt_page.base.0));
                        }
                        self.mapper.write_entry(pd, i2, PdEntry::zero().0);
                        free.free_4k(pt_page);
                        proof {
                            lemma_unlink1(m1, self.mapper, root, self.pdpts@, self.pds@, self.pts@, self.owner@, pd.base.0, i2 as u64);
                            self.pts = Ghost(self.pts@.remove(pt_page.base.0));
                            assert(self.frames_in_use() =~= before.frames_in_use().remove(pt_page.base.0));
                            assert(m1.entry(pd.base.0, i2 as u64) == e2.0);
                            lemma_unlink_step(before, *self, pd.base.0, i2 as u64, pt_page.base.0);
                            lemma_unlinked_trans(*old(self), before, *self);
                            assert(free.free_frames() =~= old(free).free_frames().union(
                                old(self).frames_in_use().difference(self.frames_in_use()),
                            ));
                            assert forall|va: u64| #[trigger] self.translation(va) == old(self).translation(va) by {
                                assert(before.translation(va) == old(self).translation(va));
                            }
                        }
                    }
                },
                None => {},
            }
            proof {
                assert(self.mapper.entry(pd.base.0, i2 as u64) == e2.0 || self.mapper.entry(pd.base.0, i2 as u64) == 0);
                assert(!get_flag(0u64, 0));
                assert forall|j: u64|
                    #![trigger self.mapper.entry(pd.base.0, j)]
                    j <= i2 && link(self.mapper.entry(pd.base.0, j)) implies !table_empty(
                        self.mapper,
                        frame_address(self.mapper.entry(pd.base.0, j)),
                    ) by {
                    let c = frame_address(self.mapper.entry(pd.base.0, j));
                    assert(self.pts@.contains(c));
                    assert(c != pd.base.0);
                    if j < i2 {
                        assert(self.mapper.entry(pd.base.0, j) == s0.mapper.entry(pd.base.0, j));
                        let w = choose|x: u64| x < 512 && present(#[trigger] s0.mapper.entry(c, x));
                        assert(self.mapper.entry(c, w) == old(self).mapper.entry(c, w));
                        assert(s0.mapper.entry(c, w) == old(self).mapper.entry(c, w));
                    }
                }
                if used {
                    if exists|j: u64| j < i2 && present(#[trigger] s0.mapper.entry(pd.base.0, j)) {
                        let w = choose|j: u64| j < i2 && present(#[trigger] s0.mapper.entry(pd.base.0, j));
                        assert(self.mapper.entry(pd.base.0, w) == s0.mapper.entry(pd.base.0, w));
                    } else {
                        assert(present(self.mapper.entry(pd.base.0, i2 as u64)));
                    }
                }
            }
            i2 = i2 + 1;
        }
        proof {
            if used {
                let w = choose|j: u64| j < 512 && present(#[trigger] self.mapper.entry(pd.base.0, j));
            }
        }
        used
    }

    /// Collapses the PDs under the PDPT `pdpt` (see [`Self::collapse_pd`]),
    /// unlinking and freeing those that map nothing; returns whether the
    /// PDPT still maps something.
    fn collapse_pdpt<F: PhysFrameAlloc>(&mut self, free: &mut F, pdpt: PhysicalPage<Size4K>) -> (used: bool)
        requires
            old(self).inv(),
            old(self).pdpts@.contains(pdpt.base.0),
        ensures
            tables_shrank(*old(self), *final(self), old(free).free_frames(), final(free).free_frames()),
            final(self).pdpts@ == old(self).pdpts@,
            forall|va: u64| #[trigger] final(self).translation(va) == old(self).translation(va),
            forall|j: u64| #[trigger] final(self).mapper.entry(old(self).root.base.0, j) == old(self).mapper.entry(old(self).root.base.0, j),
            final(self).owner@ == old(self).owner@,
            unlinked_only(*old(self), *final(self)),
            final(self).pts@.subset_of(old(self).pts@),
            final(self).pds@.subset_of(old(self).pds@),
            forall|t: u64, j: u64|
                t != pdpt.base.0 && !(old(self).pds@.contains(t) && old(self).owner@[t].0 == pdpt.base.0)
                    ==> #[trigger] final(self).mapper.entry(t, j) == old(self).mapper.entry(t, j),
            used == !table_empty(final(self).memory(), pdpt.base.0),
            pdpt_ok(old(self).mapper, pdpt.base.0) ==> *final(self) == *old(self) && *final(free) == *old(free),
            forall|j: u64|
                #![trigger final(self).mapper.entry(pdpt.base.0, j)]
                j < 512 && link(final(self).mapper.entry(pdpt.base.0, j)) ==> pd_ok(
                    final(self).mapper,
                    frame_address(final(self).mapper.entry(pdpt.base.0, j)),
                ),
    {
        let mut used = false;
        let mut i3: usize = 0;
        let ghost root = self.root.base.0;
        proof {
            assert(old(free).free_frames() =~= old(free).free_frames().union(
                old(self).frames_in_use().difference(self.frames_in_use()),
            ));
        }
        while i3 < 512
            invariant
                i3 <= 512,
                root == old(self).root.base.0,
                tables_shrank(*old(self), *self, old(free).free_frames(), free.free_frames()),
                self.pdpts@ == old(self).pdpts@,
                self.pdpts@.contains(pdpt.base.0),
                forall|va: u64| #[trigger] self.translation(va) == old(self).translation(va),
                forall|j: u64| #[trigger] self.mapper.entry(root, j) == old(self).mapper.entry(root, j),
                !used ==> forall|j: u64| j < i3 ==> !present(#[trigger] self.mapper.entry(pdpt.base.0, j)),
                old(self).inv(),
                self.owner@ == old(self).owner@,
                unlinked_only(*old(self), *self),
                self.pts@.subset_of(old(self).pts@),
                self.pds@.subset_of(old(self).pds@),
                forall|t: u64, j: u64|
                    t != pdpt.base.0 && !(old(self).pds@.contains(t) && old(self).owner@[t].0 == pdpt.base.0)
                        ==> #[trigger] self.mapper.entry(t, j) == old(self).mapper.entry(t, j),
                used ==> exists|j: u64| j < i3 && present(#[trigger] self.mapper.entry(pdpt.base.0, j)),
                pdpt_ok(old(self).mapper, pdpt.base.0) ==> *self == *old(self) && *free == *old(free),
                forall|j: u64|
                    #![trigger self.mapper.entry(pdpt.base.0, j)]
                    j < i3 && link(self.mapper.entry(pdpt.base.0, j)) ==> pd_ok(
                        self.mapper,
                        frame_address(self.mapper.entry(pdpt.base.0, j)),
                    ),
            decreases 512 - i3,
        {
            let ghost s00 = *self;
            let e3 = PdptEntry::from_bits(self.mapper.read_entry(pdpt, i3));
            match e3.kind() {
                Some(PdptEntryKind::Leaf1GiB(_, _)) => {
                    used = true;
                },
                Some(PdptEntryKind::NextPageDirectory(pd_page, _)) => {
                    let ghost s0 = *self;
                    proof {
                        lemma_frame_address_bounds(e3.0);
                        assert(self.pds@.contains(pd_page.base.0));
                    }
                    proof {
                        if pdpt_ok(old(self).mapper, pdpt.base.0) {
                            assert(link(old(self).mapper.entry(pdpt.base.0, i3 as u64)));
                            assert(pd_ok(self.mapper, pd_page.base.0));
                        }
                    }
                    let used_l2 = self.collapse_pd(free, pd_page);
                    proof {
                        lemma_unlinked_trans(*old(self), s0, *self);
                        assert(tables_shrank(*old(self), *self, old(free).free_frames(), free.free_frames())) by {
                            assert(free.free_frames() =~= old(free).free_frames().union(
                                old(self).frames_in_use().difference(self.frames_in_use()),
                            ));
                        }
                        assert(self.mapper.entry(pdpt.base.0, i3 as u64) == e3.0);
                        assert forall|j: u64| #[trigger] self.mapper.entry(root, j) == old(self).mapper.entry(root, j) by {
                            assert(self.mapper.entry(root, j) == s0.mapper.entry(root, j));
                        }
                        assert forall|j: u64| j < i3 implies !present(#[trigger] self.mapper.entry(pdpt.base.0, j)) || used by {
                            assert(self.mapper.entry(pdpt.base.0, j) == s0.mapper.entry(pdpt.base.0, j));
                        }
                    }
                    if used_l2 {
                        used = true;
                    } else {
                        let ghost m1 = self.mapper;
                        let ghost before = *self;
                        self.mapper.write_entry(pdpt, i3, PdptEntry::zero().0);
                        free.free_4k(pd_page);
                        proof {
                            lemma_unlink2(m1, self.mapper, root, self.pdpts@, self.pds@, self.pts@, self.owner@, pdpt.base.0, i3 as u64);
                            self.pds = Ghost(self.pds@.remove(pd_page.base.0));
                            assert(self.frames_in_use() =~= before.frames_in_use().remove(pd_page.base.0));
                            assert(m1.entry(pdpt.base.0, i3 as u64) == e3.0);
                            lemma_unlink_step(before, *self, pdpt.base.0, i3 as u64, pd_page.base.0);
                            lemma_unlinked_trans(*old(self), before, *self);
                            assert(free.free_frames() =~= old(free).free_frames().union(
                                old(self).frames_in_use().difference(self.frames_in_use()),
                            ));
                            assert forall|va: u64| #[trigger] self.translation(va) == old(self).translation(va) by {
                                assert(before.translation(va) == old(self).translation(va));
                            }
                        }
                    }
                },
                None => {},
            }
            proof {
                let m = self.mapper;
                assert(!get_flag(0u64, 0));
                assert(m.entry(pdpt.base.0, i3 as u64) == e3.0 || m.entry(pdpt.base.0, i3 as u64) == 0);
                assert forall|j: u64|
                    #![trigger m.entry(pdpt.base.0, j)]
                    j <= i3 && link(m.entry(pdpt.base.0, j)) implies pd_ok(
                        m,
                        frame_address(m.entry(pdpt.base.0, j)),
                    ) by {
                    if j < i3 {
                        assert(m.entry(pdpt.base.0, j) == s00.mapper.entry(pdpt.base.0, j));
                        let pdj = frame_address(m.entry(pdpt.base.0, j));
                        assert(s00.pds@.contains(pdj));
                        assert(s00.owner@[pdj] == (pdpt.base.0, j));
                        let keep = |t: u64| t != pdpt.base.0 && (t == pdj || s00.pts@.contains(t));
                        assert forall|k: u64|
                            #![trigger s00.mapper.entry(pdj, k)]
                            k < 512 && link(s00.mapper.entry(pdj, k)) implies keep(frame_address(s00.mapper.entry(pdj, k))) by {
                        }
                        assert forall|t: u64, x: u64| keep(t) implies #[trigger] m.entry(t, x) == s00.mapper.entry(t, x) by {
                            if t != pdj {
                                assert(old(self).pts@.contains(t));
                                assert(!old(self).pds@.contains(t));
                            }
                        }
                        lemma_pd_ok_kept(s00.mapper, m, pdj, keep);
                    }
                }
                if used {
                    if exists|j: u64| j < i3 && present(#[trigger] s00.mapper.entry(pdpt.base.0, j)) {
                        let w = choose|j: u64| j < i3 && present(#[trigger] s00.mapper.entry(pdpt.base.0, j));
                        assert(m.entry(pdpt.base.0, w) == s00.mapper.entry(pdpt.base.0, w));
                    } else {
                        assert(present(m.entry(pdpt.base.0, i3 as u64)));
                    }
                }
            }
            i3 = i3 + 1;
        }
        proof {
            if used {
                let w = choose|j: u64| j < 512 && present(#[trigger] self.mapper.entry(pdpt.base.0, j));
            }
        }
        used
    }

    /// Frees the page tables that map nothing: empty PTs, then PDs and PDPTs
    /// left without mappings, clearing the entries that linked them and
    /// handing their frames to `free`. No translation changes, and
    /// afterwards every table reachable from the root maps something; where
    /// that held already, nothing changes.
    pub fn collapse_empty_tables<F: PhysFrameAlloc>(&mut self, free: &mut F)
        requires
            old(self).inv(),
        ensures
            tables_shrank(*old(self), *final(self), old(free).free_frames(), final(free).free_frames()),
            forall|va: u64| #[trigger] final(self).translation(va) == old(self).translation(va),
            no_empty_tables(final(self).memory(), final(self).root_frame()),
            unlinked_only(*old(self), *final(self)),
            no_empty_tables(old(self).memory(), old(self).root_frame()) ==> *final(self) == *old(self)
                && *final(free) == *old(free),
    {
        let mut i4: usize = 0;
        let ghost root = self.root.base.0;
        proof {
            assert(old(free).free_frames() =~= old(free).free_frames().union(
                old(self).frames_in_use().difference(self.frames_in_use()),
            ));
        }
        while i4 < 512
            invariant
                i4 <= 512,
                root == old(self).root.base.0,
                root == self.root.base.0,
                tables_shrank(*old(self), *self, old(free).free_frames(), free.free_frames()),
                forall|va: u64| #[trigger] self.translation(va) == old(self).translation(va),
                unlinked_only(*old(self), *self),
                no_empty_tables(old(self).memory(), root) ==> *self == *old(self) && *free == *old(free),
                forall|i: u64|
                    #![trigger self.mapper.entry(root, i)]
                    i < i4 && present(self.mapper.entry(root, i)) ==> pdpt_ok(
                        self.mapper,
                        frame_address(self.mapper.entry(root, i)),
                    ),
            decreases 512 - i4,
        {
            let ghost s00 = *self;
            let ghost mut s1 = *self;
            let e4 = Pml4Entry::from_bits(self.mapper.read_entry(self.root, i4));
            match e4.next_table() {
                Some(pdpt_page) => {
                    let ghost s0 = *self;
                    proof {
                        lemma_frame_address_bounds(e4.0);
                        assert(self.pdpts@.contains(pdpt_page.base.0));
                    }
                    proof {
                        if no_empty_tables(old(self).memory(), root) {
                            assert(present(old(self).mapper.entry(root, i4 as u64)));
                        }
                    }
                    let used_l3 = self.collapse_pdpt(free, pdpt_page);
                    proof {
                        lemma_unlinked_trans(*old(self), s0, *self);
                        s1 = *self;
                        assert(free.free_frames() =~= old(free).free_frames().union(
                            old(self).frames_in_use().difference(self.frames_in_use()),
                        ));
                        assert(self.mapper.entry(root, i4 as u64) == e4.0);
                        assert forall|va: u64| #[trigger] self.translation(va) == old(self).translation(va) by {
                            assert(s0.translation(va) == old(self).translation(va));
                        }
                    }
                    if !used_l3 {
                        let ghost m1 = self.mapper;
                        let ghost before = *self;
                        self.mapper.write_entry(self.root, i4, Pml4Entry::zero().0);
                        free.free_4k(pdpt_page);
                        proof {
                            lemma_unlink3(m1, self.mapper, root, self.pdpts@, self.pds@, self.pts@, self.owner@, i4 as u64);
                            self.pdpts = Ghost(self.pdpts@.remove(pdpt_page.base.0));
                            assert(self.frames_in_use() =~= before.frames_in_use().remove(pdpt_page.base.0));
                            assert(m1.entry(root, i4 as u64) == e4.0);
                            lemma_unlink_step(before, *self, root, i4 as u64, pdpt_page.base.0);
                            lemma_unlinked_trans(*old(self), before, *self);
                            assert(free.free_frames() =~= old(free).free_frames().union(
                                old(self).frames_in_use().difference(self.frames_in_use()),
                            ));
                            assert forall|va: u64| #[trigger] self.translation(va) == old(self).translation(va) by {
                                assert(before.translation(va) == old(self).translation(va));
                            }
                        }
                    }
                },
                None => {},
            }
            proof {
                let m = self.mapper;
                assert(!get_flag(0u64, 0));
                assert forall|i: u64|
                    #![trigger m.entry(root, i)]
                    i <= i4 && present(m.entry(root, i)) implies pdpt_ok(
                        m,
                        frame_address(m.entry(root, i)),
                    ) by {
                    if i < i4 {
                        let p = frame_address(e4.0);
                        assert(m.entry(root, i) == s00.mapper.entry(root, i));
                        let t3 = frame_address(m.entry(root, i));
                        assert(s00.owner@[t3] == (root, i));
                        assert(s00.pdpts@.contains(t3));
                        if present(e4.0) {
                            assert(s00.owner@[p] == (root, i4 as u64));
                        }
                        let keep = |t: u64| t != root && (!present(e4.0) || (t != p && !(s00.pds@.contains(t) && s00.owner@[t].0 == p)));
                        assert forall|j: u64|
                            #![trigger s00.mapper.entry(t3, j)]
                            j < 512 && link(s00.mapper.entry(t3, j)) implies keep(frame_address(s00.mapper.entry(t3, j))) by {
                            assert(s00.owner@[frame_address(s00.mapper.entry(t3, j))] == (t3, j));
                        }
                        assert forall|j: u64, k: u64|
                            #![trigger s00.mapper.entry(frame_address(s00.mapper.entry(t3, j)), k)]
                            j < 512 && link(s00.mapper.entry(t3, j)) && k < 512
                                && link(s00.mapper.entry(frame_address(s00.mapper.entry(t3, j)), k))
                                implies keep(frame_address(s00.mapper.entry(frame_address(s00.mapper.entry(t3, j)), k))) by {
                            let t2 = frame_address(s00.mapper.entry(t3, j));
                            assert(s00.pds@.contains(t2));
                            assert(s00.pts@.contains(frame_address(s00.mapper.entry(t2, k))));
                        }
                        assert forall|t: u64, x: u64| keep(t) implies #[trigger] m.entry(t, x) == s00.mapper.entry(t, x) by {
                            if present(e4.0) {
                                assert(s1.mapper.entry(t, x) == s00.mapper.entry(t, x));
                            }
                        }
                        lemma_pdpt_ok_kept(s00.mapper, m, t3, keep);
                    }
                }
            }
            i4 = i4 + 1;
        }
    }

    /// Clears the lower half of the PML4 (slots 0..256, the user half):
    /// afterwards no address whose PML4 index is below 256 is mapped; the
    /// upper half is unchanged. No table is freed.
    pub fn clear_lower_half(&mut self)
        requires
            old(self).inv(),
        ensures
            final(self).inv(),
            final(self).root_frame() == old(self).root_frame(),
            final(self).frames_in_use() == old(self).frames_in_use(),
            forall|va: u64| #[trigger]
                final(self).translation(va) == if l4_index(va) < 256 {
                    None
                } else {
                    old(self).translation(va)
                },
    {
        let mut i: usize = 0;
        let ghost root = self.root.base.0;
        while i < 256
            invariant
                i <= 256,
                self.inv(),
                self.root.base.0 == root,
                root == old(self).root_frame(),
                self.frames_in_use() == old(self).frames_in_use(),
                forall|va: u64| #[trigger]
                    self.translation(va) == if l4_index(va) < i {
                        None
                    } else {
                        old(self).translation(va)
                    },
            decreases 256 - i,
        {
            let ghost m1 = self.mapper;
            let ghost before = *self;
            self.mapper.write_entry(self.root, i, Pml4Entry::zero().0);
            proof {
                lemma_write4(m1, self.mapper, root, self.pdpts@, self.pds@, self.pts@, i as u64, 0);
                lemma_owned_nonlink(m1, self.mapper, root, self.pdpts@, self.pds@, self.owner@, root, i as u64, 0);
                assert(!get_flag(0u64, 0));
                assert forall|va: u64| #[trigger]
                    self.translation(va) == if l4_index(va) < i + 1 {
                        None
                    } else {
                        old(self).translation(va)
                    } by {
                    assert(before.translation(va) == if l4_index(va) < i {
                        None
                    } else {
                        old(self).translation(va)
                    });
                }
            }
            i = i + 1;
        }
    }
}

} // verus!
