use kernel_vmem::address_space::map_size::MapSizeEnsureChainError;
use kernel_vmem::address_space::{
    AddressSpace, AddressSpaceError, AddressSpaceMapOneError, AddressSpaceMapRegionError,
    AddressSpaceUnmapError, WalkResult,
};
use kernel_vmem::addresses::{PhysicalAddress, PhysicalPage, Size1G, Size2M, Size4K, VirtualAddress};
use kernel_vmem::bits::VirtualMemoryPageBits;
use kernel_vmem::kernel::vm_debug::{
    clear_parent_xd_for_exec, dump_walk, promote_pml4_user_bit, FlushTlb, PromoteOutcome, WalkEnd,
};
use kernel_vmem::phys::{FrameMemory, FrameStack, PhysFrameAlloc, PhysMapper};
use kernel_vmem::address_space::MapFreshError;
use kernel_vmem::kernel::interrupts::ist::Ist;
use kernel_vmem::kernel::per_cpu::ist_stacks::ist_slot_for_cpu;
use kernel_vmem::kernel::per_cpu::kernel_stacks::kstack_slot_for_cpu;
use kernel_vmem::kernel::per_cpu::stack::{map_ist_stack, map_kernel_stack};

const ROOT: u64 = 0x10_0000;

fn flags() -> VirtualMemoryPageBits {
    VirtualMemoryPageBits::new().with_present(true).with_writable(true)
}

fn fresh(frames: u64) -> (AddressSpace<FrameMemory>, FrameStack) {
    let root = PhysicalPage::<Size4K>::from_addr(PhysicalAddress::new(ROOT));
    let aspace = AddressSpace::from_root(FrameMemory::new(), root);
    (aspace, FrameStack::new_range(0x20_0000, frames))
}

fn q(a: &AddressSpace<FrameMemory>, va: u64) -> Option<u64> {
    a.query(VirtualAddress::new(va)).map(|p| p.as_u64())
}

fn walk_entries(a: &AddressSpace<FrameMemory>, va: u64) -> [u64; 4] {
    let m = a.mapper();
    let page = |x: u64| PhysicalPage::<Size4K>::from_addr(PhysicalAddress::new(x & 0x000f_ffff_ffff_f000));
    let e4 = m.read_entry(page(ROOT), ((va >> 39) & 0x1ff) as usize);
    let e3 = m.read_entry(page(e4), ((va >> 30) & 0x1ff) as usize);
    let e2 = m.read_entry(page(e3), ((va >> 21) & 0x1ff) as usize);
    let e1 = m.read_entry(page(e2), ((va >> 12) & 0x1ff) as usize);
    [e4, e3, e2, e1]
}

fn count_free(alloc: &mut FrameStack) -> usize {
    let mut taken = Vec::new();
    while let Some(p) = alloc.alloc_4k() {
        taken.push(p);
    }
    let n = taken.len();
    for p in taken {
        alloc.free_4k(p);
    }
    n
}

#[test]
fn map_one_4k_reads_back_and_unmaps() {
    let (mut a, mut alloc) = fresh(16);
    let va = VirtualAddress::new(0x0000_4000_1234_5000);
    let pa = PhysicalAddress::new(0x7_7000);
    assert_eq!(a.map_one::<_, Size4K>(&mut alloc, va, pa, flags(), flags()), Ok(()));
    assert_eq!(q(&a, 0x0000_4000_1234_5abc), Some(0x7_7abc));
    assert_eq!(q(&a, 0x0000_4000_1234_6000), None);
    assert_eq!(q(&a, 0x0000_4000_1234_4fff), None);
    assert_eq!(a.unmap_one(va), Ok(()));
    assert_eq!(q(&a, 0x0000_4000_1234_5abc), None);
    assert_eq!(a.unmap_one(va), Err(AddressSpaceUnmapError::MissingPte));
}

#[test]
fn map_one_2m_and_1g_leaves() {
    let (mut a, mut alloc) = fresh(16);
    let va2 = VirtualAddress::new(0x4000_0000);
    let pa2 = PhysicalAddress::new(0x8000_0000);
    assert_eq!(a.map_one::<_, Size2M>(&mut alloc, va2, pa2, flags(), flags()), Ok(()));
    assert_eq!(q(&a, 0x4012_3456), Some(0x8012_3456));
    assert_eq!(q(&a, 0x4020_0000), None);
    assert_eq!(a.unmap_one(va2), Err(AddressSpaceUnmapError::Found2MiBLeaf));

    let va1 = VirtualAddress::new(0x80_0000_0000);
    let pa1 = PhysicalAddress::new(0x1_0000_0000);
    assert_eq!(a.map_one::<_, Size1G>(&mut alloc, va1, pa1, flags(), flags()), Ok(()));
    assert_eq!(q(&a, 0x80_1234_5678), Some(0x1_1234_5678));
    assert_eq!(a.unmap_one(va1), Err(AddressSpaceUnmapError::Found1GiBLeaf));
    assert_eq!(
        a.unmap_one(VirtualAddress::new(0x1000_0000_0000)),
        Err(AddressSpaceUnmapError::MissingChain)
    );
}

#[test]
fn map_one_4k_inside_a_1g_leaf_splits_it() {
    let (mut a, mut alloc) = fresh(16);
    let va1 = VirtualAddress::new(0x4000_0000);
    assert_eq!(
        a.map_one::<_, Size1G>(&mut alloc, va1, PhysicalAddress::new(0x1_0000_0000), flags(), flags()),
        Ok(())
    );
    assert_eq!(q(&a, 0x4000_5000), Some(0x1_0000_5000));
    let leaf_1g = walk_entries(&a, 0x4000_0000)[1];
    let va = VirtualAddress::new(0x4000_3000);
    assert_eq!(
        a.map_one::<_, Size4K>(&mut alloc, va, PhysicalAddress::new(0x9000), flags(), flags()),
        Ok(())
    );
    assert_eq!(q(&a, 0x4000_3010), Some(0x9010));
    // the rest of the former 1 GiB page keeps its translation
    assert_eq!(q(&a, 0x4000_5000), Some(0x1_0000_5000));
    assert_eq!(q(&a, 0x4000_2fff), Some(0x1_0000_2fff));
    assert_eq!(q(&a, 0x4020_0045), Some(0x1_0020_0045));
    assert_eq!(q(&a, 0x7fff_ffff), Some(0x1_3fff_ffff));
    assert!(matches!(a.walk(VirtualAddress::new(0x4000_5000)), WalkResult::L1 { .. }));
    assert!(matches!(a.walk(VirtualAddress::new(0x4020_0000)), WalkResult::Leaf2M { .. }));
    assert!(matches!(a.walk(VirtualAddress::new(0x8000_0000)), WalkResult::Missing));
    // the split leaves keep the flags of the 1 GiB leaf
    let leaf_2m = |j: u64| (leaf_1g & 0xffff_ffff_c01f_ffff) | (j << 21);
    assert_eq!(walk_entries(&a, 0x4020_0000)[2], leaf_2m(1));
    let first = leaf_2m(0);
    let pte5 = (first & 0xfff0_0000_0000_0f7f) | ((first & 0x1000) >> 5) | (first & 0x000f_ffff_ffe0_0000) | (5 << 12);
    assert_eq!(walk_entries(&a, 0x4000_5000)[3], pte5);
}

#[test]
fn map_one_2m_inside_a_1g_leaf_splits_it() {
    let (mut a, mut alloc) = fresh(16);
    assert_eq!(
        a.map_one::<_, Size1G>(
            &mut alloc,
            VirtualAddress::new(0x4000_0000),
            PhysicalAddress::new(0x8000_0000),
            flags(),
            flags()
        ),
        Ok(())
    );
    assert_eq!(
        a.map_one::<_, Size2M>(
            &mut alloc,
            VirtualAddress::new(0x4040_0000),
            PhysicalAddress::new(0x20_0000),
            flags(),
            flags()
        ),
        Ok(())
    );
    assert_eq!(q(&a, 0x4040_1234), Some(0x20_1234));
    assert_eq!(q(&a, 0x4020_1234), Some(0x8020_1234));
    assert_eq!(q(&a, 0x4060_0000), Some(0x8060_0000));
}

#[test]
fn map_one_runs_out_of_frames() {
    let (mut a, mut alloc) = fresh(2);
    let r = a.map_one::<_, Size4K>(
        &mut alloc,
        VirtualAddress::new(0x1000),
        PhysicalAddress::new(0x5000),
        flags(),
        flags(),
    );
    assert_eq!(r, Err(AddressSpaceMapOneError::OutOfMemory(MapSizeEnsureChainError::OomPt)));
    let (mut b, mut none) = fresh(0);
    let r = b.map_one::<_, Size1G>(
        &mut none,
        VirtualAddress::new(0),
        PhysicalAddress::new(0),
        flags(),
        flags(),
    );
    assert_eq!(r, Err(AddressSpaceMapOneError::OutOfMemory(MapSizeEnsureChainError::OomPdpt)));
    // one frame: the PDPT is made, the PD is not
    let (mut c, mut one) = fresh(1);
    let r = c.map_one::<_, Size2M>(
        &mut one,
        VirtualAddress::new(0x20_0000),
        PhysicalAddress::new(0x40_0000),
        flags(),
        flags(),
    );
    assert_eq!(r, Err(AddressSpaceMapOneError::OutOfMemory(MapSizeEnsureChainError::OomPd)));
    assert_eq!(q(&c, 0x20_0000), None);
}

#[test]
fn map_region_maps_every_byte_with_large_pages() {
    let (mut a, mut alloc) = fresh(32);
    let vs = 0x4000_0000u64;
    let ps = 0x1_0020_0000u64;
    let len = 0x40_2001u64;
    let r = a.map_region(
        &mut alloc,
        VirtualAddress::new(vs),
        PhysicalAddress::new(ps),
        len,
        flags(),
        flags(),
    );
    assert_eq!(r, Ok(()));
    for off in [0u64, 0x1234, 0x1f_ffff, 0x20_0000, 0x3f_ffff, 0x40_0000, 0x40_1fff, 0x40_2000, 0x40_2fff] {
        assert_eq!(q(&a, vs + off), Some(ps + off), "offset {off:#x}");
    }
    assert_eq!(q(&a, vs + 0x40_3000), None);
    // the first two pages are 2 MiB leaves
    assert_eq!(a.unmap_one(VirtualAddress::new(vs)), Err(AddressSpaceUnmapError::Found2MiBLeaf));
    assert_eq!(a.unmap_one(VirtualAddress::new(vs + 0x40_0000)), Ok(()));
}

#[test]
fn map_region_rejects_unaligned_starts() {
    let (mut a, mut alloc) = fresh(8);
    let r = a.map_region(
        &mut alloc,
        VirtualAddress::new(0x1001),
        PhysicalAddress::new(0x2000),
        0x1000,
        flags(),
        flags(),
    );
    assert_eq!(
        r,
        Err(AddressSpaceMapRegionError::Unaligned(
            VirtualAddress::new(0x1001),
            PhysicalAddress::new(0x2000)
        ))
    );
    assert_eq!(q(&a, 0x1001), None);
    let empty = a.map_region(
        &mut alloc,
        VirtualAddress::new(0x1001),
        PhysicalAddress::new(0x2000),
        0,
        flags(),
        flags(),
    );
    assert_eq!(empty, Ok(()));
}

#[test]
fn map_region_out_of_memory_keeps_earlier_pages() {
    let (mut a, mut alloc) = fresh(3);
    let r = a.map_region(
        &mut alloc,
        VirtualAddress::new(0x1f_f000),
        PhysicalAddress::new(0x50_0000),
        0x2000,
        flags(),
        flags(),
    );
    assert_eq!(
        r,
        Err(AddressSpaceMapRegionError::OutOfMemory(MapSizeEnsureChainError::OomPt))
    );
    assert_eq!(q(&a, 0x1f_f123), Some(0x50_0123));
}

#[test]
fn unmap_region_then_collapse_gives_frames_back() {
    let (mut a, mut alloc) = fresh(16);
    let vs = 0x7000_0000_0000u64;
    assert_eq!(
        a.map_region(&mut alloc, VirtualAddress::new(vs), PhysicalAddress::new(0x30_0000), 0x3000, flags(), flags()),
        Ok(())
    );
    assert_eq!(count_free(&mut alloc), 13);
    a.unmap_region(VirtualAddress::new(vs), 0x3000);
    for off in [0u64, 0x1000, 0x2fff] {
        assert_eq!(q(&a, vs + off), None);
    }
    a.collapse_empty_tables(&mut alloc);
    assert_eq!(count_free(&mut alloc), 16);
    assert_eq!(q(&a, vs), None);
}

#[test]
fn collapse_keeps_tables_in_use() {
    let (mut a, mut alloc) = fresh(16);
    assert_eq!(
        a.map_one::<_, Size4K>(&mut alloc, VirtualAddress::new(0x5000), PhysicalAddress::new(0x9000), flags(), flags()),
        Ok(())
    );
    a.collapse_empty_tables(&mut alloc);
    assert_eq!(q(&a, 0x5008), Some(0x9008));
    assert_eq!(count_free(&mut alloc), 13);
}

#[test]
fn clear_lower_half_keeps_the_kernel_half() {
    let (mut a, mut alloc) = fresh(16);
    let low = 0x0000_1000_0000_0000u64;
    let high = 0xFFFF_8000_0000_0000u64;
    assert_eq!(
        a.map_one::<_, Size4K>(&mut alloc, VirtualAddress::new(low), PhysicalAddress::new(0x6000), flags(), flags()),
        Ok(())
    );
    assert_eq!(
        a.map_one::<_, Size4K>(&mut alloc, VirtualAddress::new(high), PhysicalAddress::new(0x7000), flags(), flags()),
        Ok(())
    );
    a.clear_lower_half();
    assert_eq!(q(&a, low), None);
    assert_eq!(q(&a, high + 8), Some(0x7008));
}

#[test]
fn new_space_shares_the_kernel_half() {
    let (mut k, mut alloc) = fresh(32);
    let high = 0xFFFF_8000_0010_0000u64;
    let low = 0x40_0000u64;
    assert_eq!(
        k.map_one::<_, Size4K>(&mut alloc, VirtualAddress::new(high), PhysicalAddress::new(0xA000), flags(), flags()),
        Ok(())
    );
    assert_eq!(
        k.map_one::<_, Size4K>(&mut alloc, VirtualAddress::new(low), PhysicalAddress::new(0xB000), flags(), flags()),
        Ok(())
    );
    let kernel_root = k.root_page();
    let mem = k.into_mapper();
    let user = AddressSpace::new(mem, &mut alloc, kernel_root).expect("a frame is free");
    assert_ne!(user.root_page().base().as_u64(), ROOT);
    assert_eq!(q(&user, high + 0x10), Some(0xA010));
    assert_eq!(q(&user, low), None);
}

#[test]
fn new_space_without_frames_fails() {
    let (k, _) = fresh(0);
    let kernel_root = k.root_page();
    let mut none = FrameStack::new_range(0x90_0000, 0);
    let r = AddressSpace::new(k.into_mapper(), &mut none, kernel_root);
    assert_eq!(r.err(), Some(AddressSpaceError::OutOfMemory));
}

#[test]
fn walk_dump_and_bit_fixes() {
    let (mut a, mut alloc) = fresh(16);
    let va = 0x4020_3000u64;
    let nx = flags().with_no_execute(true);
    assert_eq!(
        a.map_one::<_, Size4K>(&mut alloc, VirtualAddress::new(va), PhysicalAddress::new(0xC000), nx, flags()),
        Ok(())
    );
    let mut mem = a.into_mapper();
    let d = dump_walk(&mem, ROOT, VirtualAddress::new(va));
    assert_eq!(d.end, WalkEnd::ReachedL1);
    assert_eq!((d.l4i, d.l3i, d.l2i, d.l1i), (0, 1, 1, 3));
    assert!(d.pdpte.unwrap().nx());
    assert_eq!(d.pte.unwrap().addr(), 0xC000);
    assert!(!d.pml4e.us());

    assert_eq!(
        promote_pml4_user_bit(&mut mem, ROOT, VirtualAddress::new(va)),
        PromoteOutcome::Promoted { slot: 0, old: d.pml4e.0, new: d.pml4e.0 | 4 }
    );
    assert_eq!(
        promote_pml4_user_bit(&mut mem, ROOT, VirtualAddress::new(va)),
        PromoteOutcome::AlreadyUser { slot: 0 }
    );
    assert_eq!(
        promote_pml4_user_bit(&mut mem, ROOT, VirtualAddress::new(0xFFFF_8000_0000_0000)),
        PromoteOutcome::NotPresent { slot: 256 }
    );

    clear_parent_xd_for_exec(&mut mem, ROOT, VirtualAddress::new(va));
    let d2 = dump_walk(&mem, ROOT, VirtualAddress::new(va));
    assert!(!d2.pdpte.unwrap().nx());
    assert!(!d2.pde.unwrap().nx());
    assert!(d2.pml4e.us());

    let missing = dump_walk(&mem, ROOT, VirtualAddress::new(0x1000_0000_0000));
    assert_eq!(missing.end, WalkEnd::NotPresentL4);
    assert_eq!(mem.read_entry(PhysicalPage::<Size4K>::from_addr(PhysicalAddress::new(ROOT)), 1), 0);
}

#[test]
fn flush_policy() {
    assert!(!FlushTlb::Never.should_flush(true));
    assert!(FlushTlb::OnSuccess.should_flush(true));
    assert!(!FlushTlb::OnSuccess.should_flush(false));
    assert!(FlushTlb::Always.should_flush(false));
}

#[test]
fn kernel_and_ist_stacks_are_mapped_above_a_guard() {

    let (mut a, mut alloc) = fresh(32);
    let slot = kstack_slot_for_cpu(1);
    let s = map_kernel_stack(&mut a, &mut alloc, slot, 0x4000).unwrap();
    let guard = slot.base().as_u64();
    assert_eq!(s.base.as_u64(), guard + 0x1000);
    assert_eq!(s.top.as_u64(), guard + 0x5000);
    assert_eq!(s.len, 0x4000);
    assert_eq!(q(&a, guard), None);
    for off in [0u64, 0x1fff, 0x3ff8] {
        assert!(q(&a, s.base.as_u64() + off).is_some());
    }
    assert_eq!(q(&a, guard + 0x5000), None);
    // stack pages: present, writable, global, not executable, kernel only
    for off in [0u64, 0x3000] {
        let e1 = walk_entries(&a, s.base.as_u64() + off)[3];
        assert_eq!(e1 & 0x1ff, 0b1_0000_0011);
        assert_eq!(e1 >> 63, 1);
    }
    // every page got its own frame
    let p0 = q(&a, s.base.as_u64()).unwrap();
    let p1 = q(&a, s.base.as_u64() + 0x1000).unwrap();
    assert_ne!(p0 & !0xfff, p1 & !0xfff);

    let (base, top) = map_ist_stack(&mut a, &mut alloc, ist_slot_for_cpu(0, Ist::Ist1), 0x2000).unwrap();
    assert_eq!(top.as_u64() - base.as_u64(), 0x2000);
    assert!(q(&a, base.as_u64()).is_some());
    assert_eq!(q(&a, base.as_u64() - 0x1000), None);

    // a mapping already in the guard page is left as it was
    let (mut g, mut galloc) = fresh(32);
    let gslot = kstack_slot_for_cpu(2);
    let gva = VirtualAddress::new(gslot.base().as_u64());
    assert_eq!(
        g.map_one::<_, Size4K>(&mut galloc, gva, PhysicalAddress::new(0x9000_0000), flags(), flags()),
        Ok(())
    );
    let gs = map_kernel_stack(&mut g, &mut galloc, gslot, 0x2000).unwrap();
    assert_eq!(q(&g, gva.as_u64() + 0x10), Some(0x9000_0010));
    assert!(q(&g, gs.base.as_u64()).is_some());
    assert_ne!(q(&g, gs.base.as_u64()).unwrap() & !0xfff, 0x9000_0000);

    let (mut b, mut none) = fresh(0);
    let r = map_kernel_stack(&mut b, &mut none, kstack_slot_for_cpu(0), 0x1000);
    assert_eq!(r.err(), Some(MapFreshError::NoFrame));
    // one frame for the page, then only two for the three tables
    let (mut c, mut few) = fresh(3);
    let r = map_kernel_stack(&mut c, &mut few, kstack_slot_for_cpu(0), 0x1000);
    assert_eq!(r.err(), Some(MapFreshError::OutOfMemory(MapSizeEnsureChainError::OomPt)));
}

#[test]
fn unmap_region_clears_large_leaves_inside_only() {
    let (mut a, mut alloc) = fresh(16);
    let va = VirtualAddress::new(0x4000_0000);
    assert_eq!(
        a.map_one::<_, Size2M>(&mut alloc, va, PhysicalAddress::new(0x8000_0000), flags(), flags()),
        Ok(())
    );
    // a range inside the 2 MiB page does not clear it
    a.unmap_region(VirtualAddress::new(0x4000_1000), 0x1000);
    assert_eq!(q(&a, 0x4000_1000), Some(0x8000_1000));
    // a range that covers the page does
    a.unmap_region(va, 0x20_0000);
    assert_eq!(q(&a, 0x4000_1000), None);
    assert_eq!(q(&a, 0x401f_ffff), None);
}

#[test]
fn unmap_region_from_unaligned_start_clears_whole_pages() {
    let (mut a, mut alloc) = fresh(16);
    for i in 1..4u64 {
        let va = VirtualAddress::new(i * 0x1000);
        let pa = PhysicalAddress::new(0x7000_0000 + i * 0x1000);
        assert_eq!(a.map_one::<_, Size4K>(&mut alloc, va, pa, flags(), flags()), Ok(()));
    }
    let big = VirtualAddress::new(0x4000_0000);
    assert_eq!(
        a.map_one::<_, Size2M>(&mut alloc, big, PhysicalAddress::new(0x8000_0000), flags(), flags()),
        Ok(())
    );
    // one step from 0x1800: the whole page at 0x1000 goes, 0x2000 stays
    a.unmap_region(VirtualAddress::new(0x1800), 0x1000);
    assert_eq!(q(&a, 0x1000), None);
    assert_eq!(q(&a, 0x1fff), None);
    assert_eq!(q(&a, 0x2000), Some(0x7000_2000));
    // two steps from 0x2001 reach the pages at 0x2000 and 0x3000
    a.unmap_region(VirtualAddress::new(0x2001), 0x1001);
    assert_eq!(q(&a, 0x2000), None);
    assert_eq!(q(&a, 0x3000), None);
    // an unaligned start never clears a large page
    a.unmap_region(VirtualAddress::new(0x4000_0800), 0x20_0000);
    assert_eq!(q(&a, 0x4000_0800), Some(0x8000_0800));
}

#[test]
fn map_one_writes_the_callers_flags() {
    let (mut a, mut alloc) = fresh(8);
    let nonleaf = VirtualMemoryPageBits::new().with_writable(true);
    let leaf = VirtualMemoryPageBits::new().with_user(true).with_no_execute(true).with_global(true);
    let va = VirtualAddress::new(0x0000_7f00_0020_3000);
    let pa = PhysicalAddress::new(0x1234_5000);
    assert_eq!(a.map_one::<_, Size4K>(&mut alloc, va, pa, nonleaf, leaf), Ok(()));
    let [e4, e3, e2, e1] = walk_entries(&a, va.as_u64());
    // new tables: present and writable, nothing else the caller did not ask for
    for e in [e4, e3, e2] {
        assert_eq!(e & 0xfff, 0b11);
        assert_eq!(e >> 63, 0);
    }
    // the leaf: present, user, global, not executable, not writable
    assert_eq!(e1 & 0x1ff, 0b1_0000_0101);
    assert_eq!(e1 >> 63, 1);
    assert_eq!(e1 & 0x000f_ffff_ffff_f000, 0x1234_5000);
}

#[test]
fn map_region_leaves_carry_the_callers_flags() {
    let (mut a, mut alloc) = fresh(16);
    let leaf = VirtualMemoryPageBits::new().with_writable(true).with_user(true).with_no_execute(true);
    let r = a.map_region(
        &mut alloc,
        VirtualAddress::new(0x1f_f000),
        PhysicalAddress::new(0x81f_f000),
        0x20_2000,
        flags(),
        leaf,
    );
    assert_eq!(r, Ok(()));
    // the 4 KiB pages at either end
    for va in [0x1f_f000u64, 0x40_0000] {
        let e1 = walk_entries(&a, va)[3];
        assert_eq!(e1 & 0x1ff, 0b0_0000_0111);
        assert_eq!(e1 >> 63, 1);
        assert_eq!(e1 & 0x000f_ffff_ffff_f000, 0x800_0000 + va);
    }
    // the 2 MiB page in the middle: a PD entry with the page-size bit
    let e2 = walk_entries(&a, 0x20_0000)[2];
    assert_eq!(e2 & 0x1ff, 0b0_1000_0111);
    assert_eq!(e2 >> 63, 1);
    assert_eq!(e2 & 0x000f_ffff_ffe0_0000, 0x820_0000);
}

#[test]
fn collapse_leaves_no_empty_table_reachable() {
    let (mut a, mut alloc) = fresh(16);
    // two pages under one PD, in different PTs
    let keep = 0x4000_0000u64;
    let gone = 0x4020_0000u64;
    for (va, pa) in [(keep, 0x9000u64), (gone, 0xA000)] {
        assert_eq!(
            a.map_one::<_, Size4K>(&mut alloc, VirtualAddress::new(va), PhysicalAddress::new(pa), flags(), flags()),
            Ok(())
        );
    }
    assert_eq!(count_free(&mut alloc), 12);
    a.unmap_one(VirtualAddress::new(gone)).unwrap();
    a.collapse_empty_tables(&mut alloc);
    // only the emptied PT went back
    assert_eq!(count_free(&mut alloc), 13);
    assert_eq!(q(&a, keep + 8), Some(0x9008));
    // its PD slot is cleared; the PD, PDPT and PML4 links of the kept page stay
    let [e4, e3, e2, _] = walk_entries(&a, gone);
    assert_eq!(e4 & 1, 1);
    assert_eq!(e3 & 1, 1);
    assert_eq!(e2, 0);
}

#[test]
fn frame_stack_hands_out_the_top_frame() {
    let mut s = FrameStack::new_range(0x1000, 2);
    assert_eq!(s.alloc_4k().map(|p| p.base().as_u64()), Some(0x2000));
    let p = s.alloc_4k().unwrap();
    assert_eq!(p.base().as_u64(), 0x1000);
    assert!(s.alloc_4k().is_none());
    s.free_4k(p);
    // a frame given back twice is on the stack once
    s.free_4k(p);
    assert_eq!(s.alloc_4k().map(|p| p.base().as_u64()), Some(0x1000));
    assert!(s.alloc_4k().is_none());
}

#[test]
fn map_region_picks_page_size_by_alignment() {
    let (mut a, mut alloc) = fresh(16);
    let r = a.map_region(
        &mut alloc,
        VirtualAddress::new(0x20_0000),
        PhysicalAddress::new(0x20_0000),
        0x20_1000,
        flags(),
        flags(),
    );
    assert_eq!(r, Ok(()));
    assert!(matches!(a.walk(VirtualAddress::new(0x20_0000)), WalkResult::Leaf2M { .. }));
    assert!(matches!(a.walk(VirtualAddress::new(0x3f_f000)), WalkResult::Leaf2M { .. }));
    assert!(matches!(a.walk(VirtualAddress::new(0x40_0000)), WalkResult::L1 { .. }));
    assert_eq!(q(&a, 0x40_0fff), Some(0x40_0fff));
    assert_eq!(q(&a, 0x40_1000), None);
}

#[test]
fn unmap_region_keeps_a_large_leaf_it_only_partly_covers() {
    let (mut a, mut alloc) = fresh(16);
    assert_eq!(
        a.map_one::<_, Size2M>(
            &mut alloc,
            VirtualAddress::new(0x20_0000),
            PhysicalAddress::new(0x60_0000),
            flags(),
            flags()
        ),
        Ok(())
    );
    a.unmap_region(VirtualAddress::new(0x20_0000), 0x1000);
    assert_eq!(q(&a, 0x20_0123), Some(0x60_0123));
    a.unmap_region(VirtualAddress::new(0x20_0000), 0x20_0000);
    assert_eq!(q(&a, 0x20_0123), None);
}

#[test]
fn collapse_twice_changes_nothing_the_second_time() {
    let (mut a, mut alloc) = fresh(16);
    assert_eq!(
        a.map_one::<_, Size4K>(&mut alloc, VirtualAddress::new(0x5000), PhysicalAddress::new(0x9000), flags(), flags()),
        Ok(())
    );
    assert_eq!(
        a.map_one::<_, Size4K>(&mut alloc, VirtualAddress::new(0x4000_0000), PhysicalAddress::new(0xa000), flags(), flags()),
        Ok(())
    );
    a.unmap_one(VirtualAddress::new(0x4000_0000)).unwrap();
    a.collapse_empty_tables(&mut alloc);
    let after_first = count_free(&mut alloc);
    let entries = walk_entries(&a, 0x5000);
    a.collapse_empty_tables(&mut alloc);
    assert_eq!(count_free(&mut alloc), after_first);
    assert_eq!(walk_entries(&a, 0x5000), entries);
    assert_eq!(q(&a, 0x5008), Some(0x9008));
}
