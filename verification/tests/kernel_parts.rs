use kernel_vmem::addresses::{PhysicalAddress, PhysicalPage, Size4K, VirtualAddress, VirtualPage};
use kernel_vmem::kernel::allocator::{FreeBlock, FreeListAllocator, KernelAllocator, LIST_NODE_SIZE};
use kernel_vmem::kernel::cpuid::leaf01h::Leaf1Ebx;
use kernel_vmem::kernel::cpuid::ranges::CpuVendor;
use kernel_vmem::kernel::cpuid::{CpuidRanges, CpuidResult, Leaf01h, Leaf15h, Leaf16};
use kernel_vmem::kernel::elf::helpers::{pie_bias, segment_file_bytes, VmFlags};
use kernel_vmem::kernel::elf::{elf64_view, ElfErr, PFlags, ET_DYN, ET_EXEC, PT_LOAD};
use kernel_vmem::kernel::framebuffer::{fill_solid, solid_pixel, BootPixelFormat, FramebufferInfo};
use kernel_vmem::kernel::gdt::descriptors::Desc64;
use kernel_vmem::kernel::gdt::selectors::{SegmentSelectorRaw, Table};
use kernel_vmem::kernel::gdt::tss_desc::TssDesc64;
use kernel_vmem::kernel::gdt::{
    kernel_cs_sel, kernel_ds_sel, tss_sys_sel, user_cs_sel, user_ds_sel, Gdt, Selectors, KERNEL_CS,
};
use kernel_vmem::kernel::interrupts::bp::{BreakpointInterrupt, BP_VECTOR};
use kernel_vmem::kernel::interrupts::ist::Ist;
use kernel_vmem::kernel::interrupts::page_fault::{PageFaultError, PageFaultInterrupt, PAGE_FAULT_VECTOR};
use kernel_vmem::kernel::interrupts::timer::{TimerInterrupt, LAPIC_TIMER_VECTOR};
use kernel_vmem::kernel::interrupts::{GateType, Idt, IdtEntry, IdtGateAttr};
use kernel_vmem::kernel::msr::is_canonical;
use kernel_vmem::kernel::per_cpu::ist_stacks::{ist_slot_for_cpu, ist_top_for, max_ist_bytes, IST_BASE};
use kernel_vmem::kernel::per_cpu::kernel_stacks::{kstack_slot_for_cpu, max_kstack_bytes, KSTACK_BASE};
use kernel_vmem::kernel::per_cpu::stack::{stack_in_slot, stack_mapping_flags};
use kernel_vmem::kernel::privilege::{Dpl, Rpl};
use kernel_vmem::kernel::apic::{calibration_deadline, calibration_lvt, divider_multiplier, lapic_hz_from_count, lvt_with_mask, periodic_initial_count, periodic_lvt, svr_value, ticks_per_second, x2apic_enabled_base, x2apic_id_of, x2apic_mode, DIV_1, DIV_128, DIV_16, DIV_2,};
use kernel_vmem::kernel::framebuffer::{framebuffer_mapping_flags, framebuffer_window, VGA_LIKE_OFFSET};
use kernel_vmem::bits::VirtualMemoryPageBits;

// ---------------------------------------------------------------- allocator

#[test]
fn free_list_first_fit_and_coalescing() {
    let mut a = FreeListAllocator::new();
    assert!(!a.initialized());
    a.init(0x1000, 0x1000);
    assert!(a.initialized());
    assert_eq!(a.free_blocks(), &vec![FreeBlock { addr: 0x1000, size: 0x1000 - LIST_NODE_SIZE }]);

    let p = a.find_region(100, 8);
    assert_eq!(p, 0x1010);
    // the tail goes back as a block whose header starts where the allocation ends
    assert_eq!(a.free_blocks(), &vec![FreeBlock { addr: 0x1074, size: 0xf7c }]);

    let q = a.find_region(64, 64);
    assert_eq!(q, 0x10c0);
    // the 60 bytes before the aligned start come back as a block of their own
    assert_eq!(
        a.free_blocks(),
        &vec![FreeBlock { addr: 0x1074, size: 0x2c }, FreeBlock { addr: 0x1100, size: 0xef0 }]
    );

    a.deallocate(p, 100, 8);
    // the freed block merges with the head block that follows it
    assert_eq!(
        a.free_blocks(),
        &vec![FreeBlock { addr: 0x1000, size: 0xa0 }, FreeBlock { addr: 0x1100, size: 0xef0 }]
    );
    a.deallocate(0, 8, 8);
    assert_eq!(a.free_blocks().len(), 2);
}

#[test]
fn free_list_refuses_what_does_not_fit() {
    let mut a = FreeListAllocator::new();
    a.init(0x1000, 0x100);
    assert_eq!(a.find_region(0x1000, 8), 0);
    assert_eq!(a.free_blocks().len(), 1);
    // a region smaller than a header is dropped
    a.add_free_region(0x5000, 8);
    assert_eq!(a.free_blocks().len(), 1);
    a.add_free_region(0x5000, 0x40);
    assert_eq!(a.free_blocks()[1], FreeBlock { addr: 0x5000, size: 0x40 - LIST_NODE_SIZE });
}

#[test]
fn free_list_merges_neighbours() {
    let mut a = FreeListAllocator::new();
    a.init(0x1000, 0x20);
    a.add_free_region(0x1040, 0x20);
    assert_eq!(a.free_blocks().len(), 2);
    a.add_free_region(0x1020, 0x20);
    assert_eq!(a.free_blocks(), &vec![FreeBlock { addr: 0x1000, size: 0x60 - LIST_NODE_SIZE }]);
}

#[test]
fn kernel_allocator_takes_the_heap_on_first_use() {
    let mut k = KernelAllocator::new(0x10_0000, 0x1_0000);
    let p = k.allocate(0, 1);
    assert_eq!(p, 0x10_0010);
    assert_eq!(p % 8, 0);
    let big = k.allocate(0x2_0000, 8);
    assert_eq!(big, 0);
    k.dealloc(p, 1, 8);
    k.dealloc(0, 16, 8);
    let again = k.allocate(4, 4096);
    assert_eq!(again % 4096, 0);
}

// ---------------------------------------------------------------- ELF

fn put16(b: &mut [u8], at: usize, v: u16) {
    b[at..at + 2].copy_from_slice(&v.to_le_bytes());
}
fn put32(b: &mut [u8], at: usize, v: u32) {
    b[at..at + 4].copy_from_slice(&v.to_le_bytes());
}
fn put64(b: &mut [u8], at: usize, v: u64) {
    b[at..at + 8].copy_from_slice(&v.to_le_bytes());
}

/// (type, flags, offset, vaddr, filesz, memsz, align)
type Ph = (u32, u32, u64, u64, u64, u64, u64);

fn image(e_type: u16, entry: u64, phs: &[Ph]) -> Vec<u8> {
    let mut b = vec![0u8; 64 + 56 * phs.len() + 32];
    b[0..4].copy_from_slice(b"\x7fELF");
    b[4] = 2;
    b[5] = 1;
    put16(&mut b, 16, e_type);
    put16(&mut b, 18, 62);
    put32(&mut b, 20, 1);
    put64(&mut b, 24, entry);
    put64(&mut b, 32, 64);
    put16(&mut b, 52, 64);
    put16(&mut b, 54, 56);
    put16(&mut b, 56, phs.len() as u16);
    for (k, ph) in phs.iter().enumerate() {
        let o = 64 + 56 * k;
        put32(&mut b, o, ph.0);
        put32(&mut b, o + 4, ph.1);
        put64(&mut b, o + 8, ph.2);
        put64(&mut b, o + 16, ph.3);
        put64(&mut b, o + 32, ph.4);
        put64(&mut b, o + 40, ph.5);
        put64(&mut b, o + 48, ph.6);
    }
    b
}

#[test]
fn elf_view_reads_header_and_program_headers() {
    let phs = [
        (PT_LOAD, 5, 0, 0x40_1000, 0x10, 0x20, 0x1000),
        (4, 4, 0, 0, 0, 0, 0),
        (PT_LOAD, 6, 0x40, 0x40_3000, 0x8, 0x1000, 0),
    ];
    let img = image(ET_EXEC, 0x40_1000, &phs);
    let v = elf64_view(&img).expect("a valid image");
    assert_eq!(v.entry(), VirtualAddress::new(0x40_1000));
    assert!(!v.is_pie());
    assert_eq!(v.eh.e_phnum, 3);
    let loads = v.iter_pt_load();
    assert_eq!(loads.len(), 2);
    assert_eq!(loads[0].p_vaddr, VirtualAddress::new(0x40_1000));
    assert_eq!(loads[1].p_align, 1, "a stored 0 reads as 1");
    let mut it = v.iter_ph();
    assert_eq!(it.size_hint(), (3, Some(3)));
    assert_eq!(it.next().map(|p| p.p_type), Some(PT_LOAD));
    assert_eq!(it.next().map(|p| p.p_type), Some(4));
    assert_eq!(it.next().map(|p| p.p_flags), Some(PFlags::from_bits(6)));
    assert!(it.next().is_none());
    assert_eq!(pie_bias(&v), Some(0));
}

#[test]
fn elf_pie_bias_is_the_aligned_lowest_load() {
    let phs = [
        (PT_LOAD, 5, 0, 0x20_5000, 0, 0, 0x1000),
        (PT_LOAD, 6, 0, 0x20_3000, 0, 0, 0x20_0000),
    ];
    let img = image(ET_DYN, 0x20_5000, &phs);
    let v = elf64_view(&img).unwrap();
    assert!(v.is_pie());
    assert_eq!(pie_bias(&v), Some(0x20_0000));
    let none = image(ET_DYN, 0, &[(4, 0, 0, 0, 0, 0, 0)]);
    assert_eq!(pie_bias(&elf64_view(&none).unwrap()), None);
    // a load at the top of the address space still counts
    let top = image(ET_DYN, 0, &[(PT_LOAD, 4, 0, u64::MAX, 0, 0, 0x1000)]);
    assert_eq!(pie_bias(&elf64_view(&top).unwrap()), Some(u64::MAX & !0xfff));
}

#[test]
fn elf_each_refusal() {
    let good = image(ET_EXEC, 0, &[]);
    assert!(elf64_view(&good).is_ok());
    assert_eq!(elf64_view(&good[..63]).err(), Some(ElfErr::TooShort));
    let mut b = good.clone();
    b[1] = b'X';
    assert_eq!(elf64_view(&b).err(), Some(ElfErr::BadMagic));
    let mut b = good.clone();
    b[4] = 1;
    assert_eq!(elf64_view(&b).err(), Some(ElfErr::BadClass));
    let mut b = good.clone();
    b[5] = 2;
    assert_eq!(elf64_view(&b).err(), Some(ElfErr::BadHeader));
    let mut b = good.clone();
    put16(&mut b, 16, 1);
    assert_eq!(elf64_view(&b).err(), Some(ElfErr::BadHeader));
    let mut b = good.clone();
    put16(&mut b, 18, 3);
    assert_eq!(elf64_view(&b).err(), Some(ElfErr::BadMachine));
    let mut b = good.clone();
    put32(&mut b, 20, 2);
    assert_eq!(elf64_view(&b).err(), Some(ElfErr::BadHeader));
    let mut b = good.clone();
    put16(&mut b, 54, 32);
    assert_eq!(elf64_view(&b).err(), Some(ElfErr::BadHeader));
    let mut b = good.clone();
    put16(&mut b, 56, 4);
    assert_eq!(elf64_view(&b).err(), Some(ElfErr::Oob));
}

#[test]
fn elf_segment_bytes_and_flags() {
    let phs = [(PT_LOAD, 7, 0x10, 0x1000, 0x20, 0x20, 0x1000)];
    let img = image(ET_EXEC, 0, &phs);
    let v = elf64_view(&img).unwrap();
    let ph = v.iter_pt_load()[0];
    let s = segment_file_bytes(&img, &ph).unwrap();
    assert_eq!(s, &img[0x10..0x30]);
    let mut far = ph;
    far.p_offset = img.len() as u64;
    assert_eq!(segment_file_bytes(&img, &far).err(), Some(ElfErr::Oob));

    let rx = VmFlags::from(PFlags::from_bits(5));
    assert!(rx.user() && rx.execute() && !rx.write());
    let rw = VmFlags::from(PFlags::from_bits(6));
    assert!(rw.user() && rw.write() && !rw.execute());
    assert_eq!(rw, VmFlags(3));
}

// ---------------------------------------------------------------- GDT

#[test]
fn gdt_selectors_and_descriptors() {
    assert_eq!(kernel_cs_sel().encode(), 0x08);
    assert_eq!(kernel_ds_sel().encode(), 0x10);
    assert_eq!(user_ds_sel().encode(), 0x1b);
    assert_eq!(user_cs_sel().encode(), 0x23);
    assert_eq!(tss_sys_sel().encode(), 0x28);
    let s = Selectors::new();
    assert_eq!(s.kernel_cs.encode(), KERNEL_CS);

    assert_eq!(Desc64::from_code_dpl(0).to_u64(), 0x0020_9A00_0000_0000);
    assert_eq!(Desc64::from_code_dpl(3).to_u64(), 0x0020_FA00_0000_0000);
    assert_eq!(Desc64::from_data_dpl(0).to_u64(), 0x0000_9200_0000_0000);
    assert_eq!(Desc64::from_data_dpl(3).to_u64(), 0x0000_F200_0000_0000);
    assert_eq!(Desc64::from_code_dpl(7).as_code().dpl(), 3);

    let raw = SegmentSelectorRaw::new_with(5, Table::Ldt, Rpl::Ring2);
    assert_eq!(raw.to_u16(), (5 << 3) | 4 | 2);
    assert_eq!(raw.index(), 5);
    assert_eq!(raw.ti(), Table::Ldt);
    assert_eq!(raw.rpl(), Rpl::Ring2);
    assert_eq!(Rpl::from_bits(7), Rpl::Ring3);
    assert_eq!(Dpl::from_bits(6).into_bits(), 2);

    let tss = TssDesc64::new(VirtualAddress::new(0xFFFF_8000_1234_5678), 0x67);
    assert_eq!(tss.low.limit_lo(), 0x67);
    assert_eq!(tss.low.base_lo(), 0x5678);
    assert_eq!(tss.low.base_mid(), 0x34);
    assert_eq!(tss.low.base_hi(), 0x12);
    assert_eq!(tss.high.base_upper(), 0xFFFF_8000);
    assert_eq!(tss.low.typ(), 0x9);
    assert!(tss.low.p());
    let g = Gdt::new_with_tss(tss);
    assert_eq!(g.null.to_u64(), 0);
    assert_eq!(g.ucode.to_u64(), 0x0020_FA00_0000_0000);
}

// ---------------------------------------------------------------- IDT

#[test]
fn idt_gates() {
    assert_eq!(IdtGateAttr::interrupt_gate().into_bits(), 0x0E00);
    assert_eq!(IdtGateAttr::trap_gate().into_bits(), 0x0F00);
    let e = IdtEntry::missing()
        .set_handler(0x1234_5678_9abc_def0, KERNEL_CS)
        .present(true)
        .user_callable()
        .gate_type(GateType::TrapGate)
        .ist(2)
        .build();
    assert_eq!(e.offset_lo, 0xdef0);
    assert_eq!(e.offset_mid, 0x9abc);
    assert_eq!(e.offset_hi, 0x1234_5678);
    assert_eq!(e.selector, KERNEL_CS);
    assert_eq!(e.ist_type, 0xEF02);

    let mut idt = Idt::new();
    assert_eq!(idt.get(0), IdtEntry::missing());
    idt.init_timer_gate(0xffff_8000_0000_1000);
    assert_eq!(idt.get(LAPIC_TIMER_VECTOR as usize).ist_type, 0x8E00);
    idt.init_breakpoint_gate(0xffff_8000_0000_2000);
    assert_eq!(idt.get(BP_VECTOR).ist_type, 0xEE00);
    idt.init_page_fault_gate_ist(0xffff_8000_0000_3000, Ist::Ist1);
    assert_eq!(idt.get(PAGE_FAULT_VECTOR).ist_type, 0x8E01);
    assert_eq!(idt.get(PAGE_FAULT_VECTOR).offset_lo, 0x3000);
}

#[test]
fn ist_slots() {
    assert_eq!(Ist::from_bits(3), Ist::Ist3);
    assert_eq!(Ist::from_bits(0), Ist::NoSwitch);
    assert_eq!(Ist::from_bits(9), Ist::NoSwitch);
    assert_eq!(Ist::Ist7.into_bits(), 7);
    assert_eq!(Ist::Ist1.tss_index(), Some(0));
    assert_eq!(Ist::NoSwitch.tss_index(), None);
    assert_eq!(Ist::Ist4.gate_index(), 4);
}

#[test]
fn page_fault_explanations() {
    assert_eq!(
        PageFaultError::from_bits(0).explain(),
        "Non-present page (page not mapped or swapped out)"
    );
    assert_eq!(
        PageFaultError::from_bits(0b1_0101).explain(),
        "User-mode instruction fetch on protected page (likely NX or SMEP)"
    );
    assert_eq!(
        PageFaultError::from_bits(0b1_0001).explain(),
        "Kernel instruction fetch on protected page"
    );
    assert_eq!(PageFaultError::from_bits(0b11).explain(), "Write access to protected page");
    assert_eq!(PageFaultError::from_bits(0b1).explain(), "Read access to protected page");
    let e = PageFaultError::new().with_present(true).with_write(true);
    assert_eq!(e.into_bits(), 3);
}

// ---------------------------------------------------------------- CPUID

#[test]
fn cpuid_decoding() {
    // family 6, model 0x9E (ext model 9), stepping 10
    let l1 = Leaf01h::from(CpuidResult { eax: 0x0009_06EA, ebx: 0x0310_0800, ecx: 0x1C20_0000, edx: 0 });
    assert_eq!(l1.family(), 6);
    assert_eq!(l1.model(), 0x9E);
    assert_eq!(l1.stepping(), 0xA);
    assert!(l1.has_x2apic());
    assert!(l1.avx_usable());
    assert_eq!(l1.initial_apic_id(), 3);
    assert_eq!(l1.logical_cpus_legacy(), 0x10);
    assert_eq!(Leaf1Ebx(0x0000_0800).clflush_line_bytes(), 64);
    // family 0xF with extended family 1
    let amd = Leaf01h::from(CpuidResult { eax: 0x0010_0F00, ebx: 0, ecx: 0, edx: 0 });
    assert_eq!(amd.family(), 0x10);

    let l15 = Leaf15h::from(CpuidResult { eax: 2, ebx: 176, ecx: 24_000_000, edx: 0 });
    assert_eq!(l15.tsc_hz(), Some(2_112_000_000));
    assert_eq!(Leaf15h::from(CpuidResult { eax: 0, ebx: 1, ecx: 1, edx: 0 }).tsc_hz(), None);
    let l16 = Leaf16::from(CpuidResult { eax: 3000, ebx: 4000, ecx: 100, edx: 0 });
    assert_eq!(l16.base_hz(), Some(3_000_000_000));
    assert_eq!(l16.max_hz(), Some(4_000_000_000));
    assert_eq!(l16.bus_hz(), Some(100_000_000));
    assert_eq!(l16.tsc_hz_from_ratio(2, 60), Some(3_000_000_000));
    assert_eq!(l16.tsc_hz_from_ratio(0, 60), None);

    let intel = CpuidRanges::from_results(
        CpuidResult { eax: 0x16, ebx: 0x756e_6547, ecx: 0x6c65_746e, edx: 0x4965_6e69 },
        CpuidResult { eax: 0x8000_0008, ebx: 0, ecx: 0, edx: 0 },
    );
    assert_eq!(intel.vendor, CpuVendor::Intel);
    assert_eq!(intel.vendor.as_str(), "Intel");
    assert!(intel.has_basic(0x15));
    assert!(!intel.has_basic(0x17));
    assert!(intel.has_ext(0x8000_0001));
    assert!(!intel.has_ext(0x15));
    assert_eq!(CpuVendor::from_id_regs(0x6874_7541, 0x6974_6e65, 0x444d_4163), CpuVendor::Amd);
    assert_eq!(CpuVendor::from_id_regs(0, 0, 0).as_str(), "Other");
}

// ---------------------------------------------------------------- per-CPU stacks

#[test]
fn per_cpu_stack_windows() {
    let k0 = kstack_slot_for_cpu(0);
    let k2 = kstack_slot_for_cpu(2);
    assert_eq!(k0.base().as_u64(), KSTACK_BASE);
    assert_eq!(k2.base().as_u64(), KSTACK_BASE + 0x20_0000);
    assert_eq!(max_kstack_bytes(), 0x10_0000 - 0x1000);
    let i = ist_slot_for_cpu(1, Ist::Ist2);
    assert_eq!(i.base().as_u64(), IST_BASE + 0x10_0000 + 0x2_0000);
    assert_eq!(max_ist_bytes(), 0x2_0000 - 0x1000);
    assert_eq!(
        ist_top_for(0x4001, VirtualAddress::new(0x1000)).as_u64(),
        (0x1000 + 0x1000 + 0x4001) & !0xF
    );
    let s = stack_in_slot(k2, 0x8008);
    assert_eq!(s.base.as_u64(), KSTACK_BASE + 0x20_1000);
    assert_eq!(s.top.as_u64(), KSTACK_BASE + 0x20_1000 + 0x8000);
    assert_eq!(s.len, 0x8008);
    let (nonleaf, leaf) = stack_mapping_flags();
    assert!(nonleaf.present && nonleaf.writable && !nonleaf.user);
    assert!(leaf.no_execute && leaf.global && !leaf.user);
    let page = VirtualPage::<Size4K>::from_addr(VirtualAddress::new(KSTACK_BASE + 0x123));
    assert_eq!(page.base().as_u64(), KSTACK_BASE);
}

// ---------------------------------------------------------------- framebuffer, MSR

#[test]
fn framebuffer_fill_plan() {
    assert_eq!(solid_pixel(BootPixelFormat::Rgb, 0x11, 0x22, 0x33), Some(0xFF33_2211));
    assert_eq!(solid_pixel(BootPixelFormat::Bgr, 0x11, 0x22, 0x33), Some(0xFF11_2233));
    assert_eq!(solid_pixel(BootPixelFormat::Bitmask, 1, 2, 3), None);
    let fb = FramebufferInfo {
        framebuffer_format: BootPixelFormat::Rgb,
        framebuffer_stride: 1024,
        framebuffer_width: 1000,
        framebuffer_height: 600,
    };
    let plan = fill_solid(&fb, 0, 0, 0xFF).unwrap();
    assert_eq!(plan.px, 0xFFFF_0000);
    assert_eq!((plan.start_x, plan.end_x, plan.start_y, plan.end_y), (250, 750, 150, 450));
    assert_eq!(plan.stride, 1024);
    let blt = FramebufferInfo { framebuffer_format: BootPixelFormat::BltOnly, ..fb };
    assert!(fill_solid(&blt, 1, 2, 3).is_none());
    let zero = FramebufferInfo { framebuffer_stride: 0, ..fb };
    assert!(fill_solid(&zero, 1, 2, 3).is_none());
}

#[test]
fn canonical_addresses() {
    assert!(is_canonical(0));
    assert!(is_canonical(0x0000_7FFF_FFFF_FFFF));
    assert!(!is_canonical(0x0000_8000_0000_0000));
    assert!(!is_canonical(0xFFFF_7FFF_FFFF_FFFF));
    assert!(is_canonical(0xFFFF_8000_0000_0000));
    assert!(is_canonical(u64::MAX));
}

#[test]
fn physical_pages_and_offsets() {
    let a = PhysicalAddress::new(0x1234_5678);
    let p = PhysicalPage::<Size4K>::from_addr(a);
    assert_eq!(p.base().as_u64(), 0x1234_5000);
    assert_eq!(p.join(a.offset::<Size4K>()).as_u64(), 0x1234_5678);
    assert!(p.base().is_aligned_to(0x1000));
}

// ---------------------------------------------------------------- APIC arithmetic

#[test]
fn apic_register_values() {
    assert_eq!(x2apic_enabled_base(0xFEE0_0000), 0xFEE0_0C00);
    assert!(x2apic_mode(0xFEE0_0C00));
    assert!(!x2apic_mode(0xFEE0_0800));
    assert_eq!(x2apic_id_of(0x1234_5678_0000_0007), 7);
    assert_eq!(svr_value(0xFF), 0x1FF);
    assert_eq!(periodic_lvt(0xE0), 0x3_00E0);
    assert_eq!(lvt_with_mask(0x3_00E0, false), 0x2_00E0);
    assert_eq!(lvt_with_mask(0x2_00E0, true), 0x3_00E0);
    assert_eq!(calibration_lvt(), 0x1_00FF);
    assert_eq!(divider_multiplier(DIV_1), 1);
    assert_eq!(divider_multiplier(DIV_2), 2);
    assert_eq!(divider_multiplier(DIV_128), 128);
    assert_eq!(divider_multiplier(0b0111), 16);
    assert_eq!(calibration_deadline(1_000, 2_000_000_000, 100_000), 1_000 + 2_000 * 100_000);
    // 0xFFFF_FFFF - cur = 625_000 ticks in 100 ms at divide-by-16: 100 MHz
    assert_eq!(lapic_hz_from_count(0xFFFF_FFFF - 625_000, 100_000, DIV_16), 100_000_000);
    assert_eq!(periodic_initial_count(100_000_000), 6_250);
    assert_eq!(ticks_per_second(100, 200), 1_000);
    assert_eq!(ticks_per_second(200, 100), 0);
    assert_eq!(ticks_per_second(0, u64::MAX), u64::MAX);
}

#[test]
fn framebuffer_window_keeps_the_page_offset() {
    let (base, ptr) = framebuffer_window(0xFFFF_8000_0000_0000, 0x8000_0123);
    assert_eq!(base, 0xFFFF_8000_0000_0000 + VGA_LIKE_OFFSET);
    assert_eq!(ptr, base + 0x123);
    let f = framebuffer_mapping_flags();
    assert!(f.writable && f.cache_disable && f.pat_bit2 && f.global && f.no_execute);
    assert!(!f.present && !f.write_through && !f.user);
}

// ---------------------------------------------------------------- laws on concrete values

#[test]
fn virtual_address_is_its_indices_and_offset() {
    let va = 0x0000_7A5B_C3D4_E5F6u64;
    let (i4, i3, i2, i1) = kernel_vmem::page_table::split_indices(VirtualAddress::new(va));
    let back = ((i4.as_usize() as u64) << 39)
        | ((i3.as_usize() as u64) << 30)
        | ((i2.as_usize() as u64) << 21)
        | ((i1.as_usize() as u64) << 12)
        | (va & 0xfff);
    assert_eq!(back, va);
}

#[test]
fn flags_survive_an_entry() {
    type F = VirtualMemoryPageBits;
    let page = PhysicalPage::<Size4K>::from_addr(PhysicalAddress::new(0x1234_5000));
    let f = F::new()
        .with_present(true)
        .with_writable(true)
        .with_no_execute(true)
        .with_protection_key(0x1f)
        .with_os_available_low(0xff)
        .with_global(true)
        .with_dirty(true);
    let leaf = F::from_pte_4k(&f.to_pte_4k(page));
    assert_eq!(leaf, F { protection_key: 0xf, os_available_low: 7, ..f });
    let table = F::from_pde(&f.to_pde(page));
    assert_eq!(table, F { protection_key: 0xf, os_available_low: 7, dirty: false, global: false, ..f });
}

#[test]
fn vendor_registers_spell_the_id_string() {
    let b = b"GenuineIntel";
    let w = |k: usize| u32::from_le_bytes([b[k], b[k + 1], b[k + 2], b[k + 3]]);
    assert_eq!(CpuVendor::from_id_regs(w(0), w(4), w(8)), CpuVendor::Intel);
    let a = b"AuthenticAMD";
    let v = |k: usize| u32::from_le_bytes([a[k], a[k + 1], a[k + 2], a[k + 3]]);
    assert_eq!(CpuVendor::from_id_regs(v(0), v(4), v(8)), CpuVendor::Amd);
}

#[test]
fn levels_round_trip() {
    for r in [Rpl::Ring0, Rpl::Ring1, Rpl::Ring2, Rpl::Ring3] {
        assert_eq!(Rpl::from_bits(r.into_bits()), r);
    }
    for i in [Ist::NoSwitch, Ist::Ist1, Ist::Ist5, Ist::Ist7] {
        assert_eq!(Ist::from_bits(i.into_bits()), i);
    }
}

#[test]
fn stack_windows_do_not_overlap() {
    let a = ist_slot_for_cpu(0, Ist::Ist7).base().as_u64();
    let b = ist_slot_for_cpu(1, Ist::Ist1).base().as_u64();
    assert!(a + 0x2_0000 <= b);
    let k = kstack_slot_for_cpu(0xFFFF).base().as_u64();
    assert!(k + 0x10_0000 <= IST_BASE);
}

#[test]
fn flags_in_range_come_back_whole_from_a_pte() {
    type F = VirtualMemoryPageBits;
    let page = PhysicalPage::<Size4K>::from_addr(PhysicalAddress::new(0x7_7000));
    let f = F {
        present: true,
        writable: true,
        user: true,
        write_through: true,
        cache_disable: false,
        accessed: true,
        dirty: true,
        global: true,
        no_execute: true,
        protection_key: 0xa,
        os_available_low: 5,
        os_available_high: 0x55,
        pat_bit2: true,
    };
    assert_eq!(F::from_pte_4k(&f.to_pte_4k(page)), f);
}

#[test]
fn returned_region_covers_exactly_its_bytes() {
    let mut a = FreeListAllocator::new();
    a.add_free_region(0x1000, 0x100);
    a.add_free_region(0x1100, 0x80);
    a.add_free_region(0x2000, 8);
    let covered: usize = a.free_blocks().iter().map(|b| 16 + b.size).sum();
    assert_eq!(covered, 0x180);
}
