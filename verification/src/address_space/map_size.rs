//! # Page-size specific mapping steps
//!
//! [`AddressSpace::map_one`] is generic over the page size. [`MapSize`]
//! gives each size its two steps:
//!
//! - `ensure_chain_for`: make sure the non-leaf chain for a virtual address
//!   exists down to the table that holds the leaf for this size (PDPT for
//!   1 GiB, PD for 2 MiB, PT for 4 KiB), allocating and zeroing missing
//!   tables and splitting a larger leaf that is in the way into leaves of
//!   the next size that map the same memory;
//! - `set_leaf`: write the leaf entry into that table.

use crate::address_space::{
    chain_ok, leaf_entry_of, leaf_set, leaf_table, leaf_walk_kept, level_index, links_kept_all,
    links_made_with, links_only_kept, lost, new_links_with, same_prefix, upper_kept, walk_leaf,
    AddressSpace,
};
use crate::addresses::{
    PageSize, PhysicalAddress, PhysicalPage, Size1G, Size2M, Size4K, VirtualAddress, SIZE_1G,
    SIZE_2M, SIZE_4K,
};
use crate::bits::VirtualMemoryPageBits;
use crate::page_entry_bits::fits_phys;
use crate::phys::{PhysFrameAlloc, PhysMapper};
use vstd::prelude::*;

verus! {

/// No frame could be allocated for a table of the chain.
#[derive(Debug, Copy, Clone, PartialEq, Eq, Structural)]
pub enum MapSizeEnsureChainError {
    /// No frame for a new PDPT.
    OomPdpt,
    /// No frame for a new PD.
    OomPd,
    /// No frame for a new PT.
    OomPt,
}

impl MapSizeEnsureChainError {
    /// A description of the error.
    pub fn as_str(&self) -> (r: &'static str)
        ensures
            r@ == match self {
                MapSizeEnsureChainError::OomPdpt => "out of memory (PDPT)"@,
                MapSizeEnsureChainError::OomPd => "out of memory (PD)"@,
                MapSizeEnsureChainError::OomPt => "out of memory (PT)"@,
            },
    {
        match self {
            MapSizeEnsureChainError::OomPdpt => "out of memory (PDPT)",
            MapSizeEnsureChainError::OomPd => "out of memory (PD)",
            MapSizeEnsureChainError::OomPt => "out of memory (PT)",
        }
    }
}

/// The mapping steps of one page size.
pub trait MapSize: PageSize {
    /// The level of the table that holds a leaf of this size
    /// (1: PDPT, 2: PD, 3: PT).
    spec fn leaf_level() -> nat;

    /// The leaf level matches the page size.
    proof fn lemma_leaf_level()
        ensures
            1 <= Self::leaf_level() <= 3,
            Self::size_spec() == crate::address_space::level_page_size(Self::leaf_level()),
    ;

    /// Makes sure the chain of tables for `va` exists down to the table that
    /// holds the leaf of this size, and returns that table.
    fn ensure_chain_for<A: PhysFrameAlloc, M: PhysMapper>(
        aspace: &mut AddressSpace<M>,
        alloc: &mut A,
        va: VirtualAddress,
        nonleaf_flags: VirtualMemoryPageBits,
    ) -> (r: Result<PhysicalPage<Size4K>, MapSizeEnsureChainError>)
        requires
            old(aspace).inv(),
            old(alloc).free_frames().disjoint(old(aspace).frames_in_use()),
        ensures
            chain_ok(
                *old(aspace),
                *final(aspace),
                old(alloc).free_frames(),
                final(alloc).free_frames(),
                va.0,
                Self::leaf_level(),
                r,
            ),
            r is Ok ==> new_links_with(
                old(aspace).memory(),
                final(aspace).memory(),
                old(aspace).root_frame(),
                va.0,
                Self::leaf_level(),
                nonleaf_flags,
            ),
            forall|x: u64|
                !lost(old(aspace).memory(), old(aspace).root_frame(), va.0, x, Self::leaf_level())
                    ==> #[trigger] leaf_walk_kept(
                    old(aspace).memory(),
                    final(aspace).memory(),
                    old(aspace).root_frame(),
                    x,
                ),
            links_made_with(
                old(aspace).memory(),
                final(aspace).memory(),
                old(aspace).root_frame(),
                nonleaf_flags,
            ),
            links_kept_all(old(aspace).memory(), final(aspace).memory(), old(aspace).root_frame()),
    ;

    /// Writes the leaf for `va` → `pa` into `leaf_tbl_page`, the table that
    /// the chain for `va` ends in.
    fn set_leaf<M: PhysMapper>(
        aspace: &mut AddressSpace<M>,
        leaf_tbl_page: PhysicalPage<Size4K>,
        va: VirtualAddress,
        pa: PhysicalAddress,
        leaf_flags: VirtualMemoryPageBits,
    )
        requires
            old(aspace).inv(),
            leaf_table(old(aspace).memory(), old(aspace).root_frame(), va.0, Self::leaf_level())
                == Some(leaf_tbl_page.base.0),
            pa.0 % Self::size_spec() == 0,
            fits_phys(pa.0),
        ensures
            leaf_set(*old(aspace), *final(aspace), va.0, pa.0, Self::leaf_level()),
            leaf_entry_of(
                leaf_flags,
                walk_leaf(final(aspace).memory(), final(aspace).root_frame(), va.0, Self::leaf_level()),
                pa.0,
                Self::leaf_level(),
            ),
            upper_kept(
                old(aspace).memory(),
                final(aspace).memory(),
                old(aspace).root_frame(),
                va.0,
                Self::leaf_level(),
            ),
            forall|x: u64|
                !same_prefix(va.0, x, Self::leaf_level()) ==> #[trigger] leaf_walk_kept(
                    old(aspace).memory(),
                    final(aspace).memory(),
                    old(aspace).root_frame(),
                    x,
                ),
            links_only_kept(old(aspace).memory(), final(aspace).memory(), old(aspace).root_frame()),
            forall|t: u64, j: u64| #[trigger]
                final(aspace).memory().entry(t, j) == old(aspace).memory().entry(t, j) || (t
                    == leaf_tbl_page.base.0 && j == level_index(va.0, Self::leaf_level())),
    ;
}

impl MapSize for Size1G {
    open spec fn leaf_level() -> nat {
        1
    }

    proof fn lemma_leaf_level() {
    }

    fn ensure_chain_for<A: PhysFrameAlloc, M: PhysMapper>(
        aspace: &mut AddressSpace<M>,
        alloc: &mut A,
        va: VirtualAddress,
        nonleaf_flags: VirtualMemoryPageBits,
    ) -> (r: Result<PhysicalPage<Size4K>, MapSizeEnsureChainError>) {
        aspace.ensure_pdpt(alloc, va, nonleaf_flags)
    }

    fn set_leaf<M: PhysMapper>(
        aspace: &mut AddressSpace<M>,
        leaf_tbl_page: PhysicalPage<Size4K>,
        va: VirtualAddress,
        pa: PhysicalAddress,
        leaf_flags: VirtualMemoryPageBits,
    ) {
        aspace.set_leaf_1g(leaf_tbl_page, va, pa, leaf_flags)
    }
}

impl MapSize for Size2M {
    open spec fn leaf_level() -> nat {
        2
    }

    proof fn lemma_leaf_level() {
    }

    fn ensure_chain_for<A: PhysFrameAlloc, M: PhysMapper>(
        aspace: &mut AddressSpace<M>,
        alloc: &mut A,
        va: VirtualAddress,
        nonleaf_flags: VirtualMemoryPageBits,
    ) -> (r: Result<PhysicalPage<Size4K>, MapSizeEnsureChainError>) {
        aspace.ensure_pd(alloc, va, nonleaf_flags)
    }

    fn set_leaf<M: PhysMapper>(
        aspace: &mut AddressSpace<M>,
        leaf_tbl_page: PhysicalPage<Size4K>,
        va: VirtualAddress,
        pa: PhysicalAddress,
        leaf_flags: VirtualMemoryPageBits,
    ) {
        aspace.set_leaf_2m(leaf_tbl_page, va, pa, leaf_flags)
    }
}

impl MapSize for Size4K {
    open spec fn leaf_level() -> nat {
        3
    }

    proof fn lemma_leaf_level() {
    }

    fn ensure_chain_for<A: PhysFrameAlloc, M: PhysMapper>(
        aspace: &mut AddressSpace<M>,
        alloc: &mut A,
        va: VirtualAddress,
        nonleaf_flags: VirtualMemoryPageBits,
    ) -> (r: Result<PhysicalPage<Size4K>, MapSizeEnsureChainError>) {
        aspace.ensure_pt(alloc, va, nonleaf_flags)
    }

    fn set_leaf<M: PhysMapper>(
        aspace: &mut AddressSpace<M>,
        leaf_tbl_page: PhysicalPage<Size4K>,
        va: VirtualAddress,
        pa: PhysicalAddress,
        leaf_flags: VirtualMemoryPageBits,
    ) {
        aspace.set_leaf_4k(leaf_tbl_page, va, pa, leaf_flags)
    }
}

} // verus!
