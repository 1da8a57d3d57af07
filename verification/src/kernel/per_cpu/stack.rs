//! # A CPU stack in its window
//!
//! A stack window starts with a 4 KiB guard page; the stack occupies the
//! bytes after it, and its top is aligned down to 16 bytes as the ABI wants.

use crate::address_space::{
    chain_stops, changed_only_in, frame_stranded, frames_accounted, fresh_frames, lemma_block,
    lemma_same_page, links_made_with, pages_len, pt_leaf_with, range_present, same_prefix,
    AddressSpace, MapFreshError,
};
use crate::addresses::{Size4K, VirtualAddress, VirtualPage, SIZE_4K};
use crate::bits::VirtualMemoryPageBits;
use crate::phys::{PhysFrameAlloc, PhysMapper};
use vstd::prelude::*;

verus! {

/// A mapped stack: its lowest address, its (16-byte aligned) top, and its
/// length.
#[derive(Copy, Clone, Debug)]
pub struct CpuStack {
    pub base: VirtualAddress,
    pub top: VirtualAddress,
    pub len: u64,
}

/// The stack of `stack_bytes` bytes in the window that starts at `slot`:
/// it begins after the guard page.
pub fn stack_in_slot(slot: VirtualPage<Size4K>, stack_bytes: u64) -> (r: CpuStack)
    requires
        slot.base.0 + SIZE_4K + stack_bytes <= u64::MAX,
    ensures
        r.base.0 == slot.base.0 + SIZE_4K,
        r.top.0 == ((slot.base.0 + SIZE_4K + stack_bytes) as u64) & !0xFu64,
        r.len == stack_bytes,
{
    let base = VirtualAddress::new(slot.base().as_u64() + SIZE_4K);
    let top = VirtualAddress::new((base.as_u64() + stack_bytes) & !0xFu64);
    CpuStack { base, top, len: stack_bytes }
}

/// The flags of a stack page: present, writable, not executable, global,
/// kernel only.
pub open spec fn stack_page_flags() -> VirtualMemoryPageBits {
    VirtualMemoryPageBits {
        present: true,
        writable: true,
        no_execute: true,
        global: true,
        ..VirtualMemoryPageBits::empty()
    }
}

/// The flags of a table link made for a stack: present, writable, kernel
/// only.
pub open spec fn stack_table_flags() -> VirtualMemoryPageBits {
    VirtualMemoryPageBits { present: true, writable: true, ..VirtualMemoryPageBits::empty() }
}

/// The flags a stack is mapped with: tables present and writable for the
/// kernel; pages present, writable, not executable, global.
pub fn stack_mapping_flags() -> (r: (VirtualMemoryPageBits, VirtualMemoryPageBits))
    ensures
        r.0 == stack_table_flags(),
        r.1 == stack_page_flags(),
{
    let nonleaf = VirtualMemoryPageBits::new().with_present(true).with_writable(true).with_user(false);
    let leaf = VirtualMemoryPageBits::new().with_present(true).with_writable(true).with_no_execute(
        true,
    ).with_user(false).with_global(true);
    (nonleaf, leaf)
}

/// Maps a kernel stack of `stack_bytes` bytes (rounded up to whole pages)
/// into the window that starts at `slot`: the first page is left as it was
/// (never mapped here) as a guard, the stack pages above it get fresh
/// frames from `alloc`,
/// writable, not executable, global and kernel only.
///
/// # Errors
/// A frame for a page or a table could not be allocated: the error of
/// [`AddressSpace::map_fresh_4k`], handed back as it is.
pub fn map_kernel_stack<M: PhysMapper, A: PhysFrameAlloc>(
    aspace: &mut AddressSpace<M>,
    alloc: &mut A,
    slot: VirtualPage<Size4K>,
    stack_bytes: u64,
) -> (r: Result<CpuStack, MapFreshError>)
    requires
        old(aspace).inv(),
        old(alloc).free_frames().disjoint(old(aspace).frames_in_use()),
        slot.wf(),
        slot.base.0 + SIZE_4K + stack_bytes <= u64::MAX,
        stack_bytes <= 0x1_0000_0000_0000,
    ensures
        final(aspace).inv(),
        final(aspace).root_frame() == old(aspace).root_frame(),
        old(aspace).frames_in_use().subset_of(final(aspace).frames_in_use()),
        final(aspace).frames_in_use().subset_of(
            old(aspace).frames_in_use().union(old(alloc).free_frames()),
        ),
        final(alloc).free_frames().subset_of(old(alloc).free_frames()),
        final(alloc).free_frames().disjoint(final(aspace).frames_in_use()),
        match r {
            Ok(s) => {
                &&& s.base.0 == slot.base.0 + SIZE_4K
                &&& s.top.0 == ((slot.base.0 + SIZE_4K + stack_bytes) as u64) & !0xFu64
                &&& s.len == stack_bytes
                &&& range_present(*final(aspace), s.base.0, pages_len(stack_bytes))
                &&& fresh_frames(
                    *final(aspace),
                    old(alloc).free_frames(),
                    final(alloc).free_frames(),
                    s.base.0,
                    pages_len(stack_bytes),
                )
                &&& forall|va: u64|
                    s.base.0 <= va < s.base.0 + pages_len(stack_bytes) ==> #[trigger] pt_leaf_with(
                        *final(aspace),
                        va,
                        stack_page_flags(),
                    )
            },
            Err(e) => exists|done: int|
                0 <= done < pages_len(stack_bytes) && done % (SIZE_4K as int) == 0 && #[trigger] fresh_frames(
                    *final(aspace),
                    old(alloc).free_frames(),
                    final(alloc).free_frames(),
                    (slot.base.0 + SIZE_4K) as u64,
                    done,
                ) && (forall|va: u64|
                    slot.base.0 + SIZE_4K <= va < slot.base.0 + SIZE_4K + done ==> #[trigger] pt_leaf_with(
                        *final(aspace),
                        va,
                        stack_page_flags(),
                    )) && match e {
                    MapFreshError::NoFrame => frames_accounted(
                        *final(aspace),
                        old(alloc).free_frames(),
                        final(alloc).free_frames(),
                        (slot.base.0 + SIZE_4K) as u64,
                        done,
                    ),
                    MapFreshError::OutOfMemory(c) => frame_stranded(
                        *final(aspace),
                        old(alloc).free_frames(),
                        final(alloc).free_frames(),
                        (slot.base.0 + SIZE_4K) as u64,
                        done,
                    ) && chain_stops(
                        final(aspace).memory(),
                        final(aspace).root_frame(),
                        (slot.base.0 + SIZE_4K + done) as u64,
                        c,
                    ),
                },
        },
        stack_bytes == 0 ==> r is Ok,
        links_made_with(
            old(aspace).memory(),
            final(aspace).memory(),
            old(aspace).root_frame(),
            stack_table_flags(),
        ),
        changed_only_in(*old(aspace), *final(aspace), (slot.base.0 + SIZE_4K) as u64, pages_len(stack_bytes)),
        stack_bytes + 2 * SIZE_4K <= 0x1_0000_0000_0000 ==> forall|g: u64|
            slot.base.0 <= g < slot.base.0 + SIZE_4K ==> #[trigger] final(aspace).translation(g)
                == old(aspace).translation(g),
{
    let (nonleaf, leaf) = stack_mapping_flags();
    let start = VirtualAddress::new(slot.base().as_u64() + SIZE_4K);
    proof {
        assert(start.0 % SIZE_4K == 0);
    }
    let r = aspace.map_fresh_4k(alloc, start, stack_bytes, nonleaf, leaf);
    proof {
        if stack_bytes + 2 * SIZE_4K <= 0x1_0000_0000_0000 {
            assert forall|g: u64|
                slot.base.0 <= g < slot.base.0 + SIZE_4K implies #[trigger] aspace.translation(g)
                    == old(aspace).translation(g) by {
                lemma_same_page(slot.base.0, g);
                assert forall|va3: u64|
                    start.0 <= va3 < start.0 + pages_len(stack_bytes) implies !#[trigger] same_prefix(
                        va3,
                        g,
                        3,
                    ) by {
                    lemma_block(slot.base.0, va3, 3);
                }
            }
        }
    }
    match r {
        Ok(()) => {},
        Err(e) => {
            return Err(e);
        },
    }
    Ok(stack_in_slot(slot, stack_bytes))
}

/// Maps an IST stack of `ist_bytes` bytes into the window that starts at
/// `slot`, as [`map_kernel_stack`] does; returns its base and its 16-byte
/// aligned top.
///
/// # Errors
/// A frame for a page or a table could not be allocated: the error of
/// [`AddressSpace::map_fresh_4k`], handed back as it is.
pub fn map_ist_stack<M: PhysMapper, A: PhysFrameAlloc>(
    aspace: &mut AddressSpace<M>,
    alloc: &mut A,
    slot: VirtualPage<Size4K>,
    ist_bytes: u64,
) -> (r: Result<(VirtualAddress, VirtualAddress), MapFreshError>)
    requires
        old(aspace).inv(),
        old(alloc).free_frames().disjoint(old(aspace).frames_in_use()),
        slot.wf(),
        slot.base.0 + SIZE_4K + ist_bytes <= u64::MAX,
        ist_bytes <= 0x1_0000_0000_0000,
    ensures
        final(aspace).inv(),
        final(aspace).root_frame() == old(aspace).root_frame(),
        old(aspace).frames_in_use().subset_of(final(aspace).frames_in_use()),
        final(aspace).frames_in_use().subset_of(
            old(aspace).frames_in_use().union(old(alloc).free_frames()),
        ),
        final(alloc).free_frames().subset_of(old(alloc).free_frames()),
        final(alloc).free_frames().disjoint(final(aspace).frames_in_use()),
        match r {
            Ok((base, top)) => {
                &&& base.0 == slot.base.0 + SIZE_4K
                &&& top.0 == ((slot.base.0 + SIZE_4K + ist_bytes) as u64) & !0xFu64
                &&& range_present(*final(aspace), base.0, pages_len(ist_bytes))
                &&& fresh_frames(
                    *final(aspace),
                    old(alloc).free_frames(),
                    final(alloc).free_frames(),
                    base.0,
                    pages_len(ist_bytes),
                )
                &&& forall|va: u64|
                    base.0 <= va < base.0 + pages_len(ist_bytes) ==> #[trigger] pt_leaf_with(
                        *final(aspace),
                        va,
                        stack_page_flags(),
                    )
            },
            Err(e) => exists|done: int|
                0 <= done < pages_len(ist_bytes) && done % (SIZE_4K as int) == 0 && #[trigger] fresh_frames(
                    *final(aspace),
                    old(alloc).free_frames(),
                    final(alloc).free_frames(),
                    (slot.base.0 + SIZE_4K) as u64,
                    done,
                ) && (forall|va: u64|
                    slot.base.0 + SIZE_4K <= va < slot.base.0 + SIZE_4K + done ==> #[trigger] pt_leaf_with(
                        *final(aspace),
                        va,
                        stack_page_flags(),
                    )) && match e {
                    MapFreshError::NoFrame => frames_accounted(
                        *final(aspace),
                        old(alloc).free_frames(),
                        final(alloc).free_frames(),
                        (slot.base.0 + SIZE_4K) as u64,
                        done,
                    ),
                    MapFreshError::OutOfMemory(c) => frame_stranded(
                        *final(aspace),
                        old(alloc).free_frames(),
                        final(alloc).free_frames(),
                        (slot.base.0 + SIZE_4K) as u64,
                        done,
                    ) && chain_stops(
                        final(aspace).memory(),
                        final(aspace).root_frame(),
                        (slot.base.0 + SIZE_4K + done) as u64,
                        c,
                    ),
                },
        },
        ist_bytes == 0 ==> r is Ok,
        links_made_with(
            old(aspace).memory(),
            final(aspace).memory(),
            old(aspace).root_frame(),
            stack_table_flags(),
        ),
        changed_only_in(*old(aspace), *final(aspace), (slot.base.0 + SIZE_4K) as u64, pages_len(ist_bytes)),
        ist_bytes + 2 * SIZE_4K <= 0x1_0000_0000_0000 ==> forall|g: u64|
            slot.base.0 <= g < slot.base.0 + SIZE_4K ==> #[trigger] final(aspace).translation(g)
                == old(aspace).translation(g),
{
    match map_kernel_stack(aspace, alloc, slot, ist_bytes) {
        Ok(s) => Ok((s.base, s.top)),
        Err(e) => Err(e),
    }
}

} // verus!
