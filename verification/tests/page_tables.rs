use kernel_vmem::addresses::{PhysicalAddress, PhysicalPage, Size1G, Size2M, Size4K, VirtualAddress};
use kernel_vmem::page_entry_bits::PageEntryBits;
use kernel_vmem::page_table;
use kernel_vmem::page_table::pd::{Pde, Pde2M, PdEntry, PdEntryKind};
use kernel_vmem::page_table::pdpt::{PdptEntry, PdptEntryKind, Pdpte, Pdpte1G};
use kernel_vmem::page_table::pml4::Pml4Entry;
use kernel_vmem::page_table::pt::PtEntry;
use kernel_vmem::table2;

#[test]
fn page_table_indices_ok() {
    let va = VirtualAddress::new(0xFFFF_8888_0123_4567);
    let (i4, i3, i2, i1) = page_table::split_indices(va);
    assert!(i4.as_usize() < 512);
    assert!(i3.as_usize() < 512);
    assert!(i2.as_usize() < 512);
    assert!(i1.as_usize() < 512);
}

#[test]
fn pd_pd_table_vs_2m() {
    let pt = PhysicalPage::<Size4K>::from_addr(PhysicalAddress::new(0x3000_0000));
    let e_tbl = PdEntry::present_next_with(Pde::new_common_rw().into(), pt);
    match e_tbl.kind().unwrap() {
        PdEntryKind::NextPageTable(p, f) => {
            assert_eq!(p.base().as_u64(), 0x3000_0000);
            assert_eq!(f.into_bits() & (1 << 7), 0, "must be PS=0");
        }
        _ => panic!("expected next PT"),
    }

    let m2 = PhysicalPage::<Size2M>::from_addr(PhysicalAddress::new(0x4000_0000));
    let e_2m = PdEntry::present_leaf_with(Pde2M::new_common_rw().into(), m2);
    match e_2m.kind().unwrap() {
        PdEntryKind::Leaf2MiB(p, f) => {
            assert_eq!(p.base().as_u64(), 0x4000_0000);
            assert_ne!(f.into_bits() & (1 << 7), 0, "must be PS=1");
        }
        _ => panic!("expected 2MiB leaf"),
    }
}

#[test]
fn pdpt_pdpt_table_vs_1g() {
    let pd = PhysicalPage::<Size4K>::from_addr(PhysicalAddress::new(0x2000_0000));
    let e_tbl = PdptEntry::make_next(pd, Pdpte::new_common_rw());
    match e_tbl.kind().unwrap() {
        PdptEntryKind::NextPageDirectory(p, f) => {
            assert_eq!(p.base().as_u64(), 0x2000_0000);
            assert_eq!(f.into_bits() & (1 << 7), 0, "must be PS=0");
        }
        _ => panic!("expected next PD"),
    }

    let g1 = PhysicalPage::<Size1G>::from_addr(PhysicalAddress::new(0x8000_0000));
    let e_1g = PdptEntry::make_1g(g1, Pdpte1G::new_common_rw());
    match e_1g.kind().unwrap() {
        PdptEntryKind::Leaf1GiB(p, f) => {
            assert_eq!(p.base().as_u64(), 0x8000_0000);
            assert_ne!(f.into_bits() & (1 << 7), 0, "must be PS=1");
        }
        _ => panic!("expected 1GiB leaf"),
    }
}

#[test]
fn pml4_pml4_points_to_pdpt() {
    let pdpt_page = PhysicalPage::<Size4K>::from_addr(PhysicalAddress::new(0x1234_5000));
    let f = Pml4Entry::new().with_writable(true).with_user(false);
    let e = Pml4Entry::present_with(f.into(), pdpt_page);
    assert!(e.present());
    assert_eq!(e.next_table().unwrap().base().as_u64(), 0x1234_5000);
}

#[test]
fn pt_pte_4k_leaf() {
    let k4 = PhysicalPage::<Size4K>::from_addr(PhysicalAddress::new(0x5555_0000));
    let e = PtEntry::make_4k(k4, PageEntryBits::new_user_ro_nx());
    let (p, fl) = e.page_4k().unwrap();
    assert_eq!(p.base().as_u64(), 0x5555_0000);
    assert!(!fl.large_page());
    assert!(fl.no_execute());
    assert!(fl.user_access());
    assert!(!fl.writable());
}

#[test]
fn table2_indices_ok() {
    let va = VirtualAddress::new(0xFFFF_8888_0123_4567);
    let (i4, i3, i2, i1) = table2::split_indices(va);
    assert!(i4.as_usize() < 512);
    assert!(i3.as_usize() < 512);
    assert!(i2.as_usize() < 512);
    assert!(i1.as_usize() < 512);
}

#[test]
fn table2_pml4_points_to_pdpt() {
    let pdpt_page = PhysicalPage::<Size4K>::from_addr(PhysicalAddress::new(0x1234_5000));
    let mut f = PageEntryBits::new();
    f.set_writable(true);
    f.set_user_access(false);
    let e = table2::Pml4Entry::make(pdpt_page, f);
    assert!(e.is_present());
    assert!(!e.flags().large_page());
    assert_eq!(e.next_table().unwrap().base().as_u64(), 0x1234_5000);
}

#[test]
fn table2_pdpt_table_vs_1g() {
    let pd = PhysicalPage::<Size4K>::from_addr(PhysicalAddress::new(0x2000_0000));
    let e_tbl = table2::PdptEntry::make_next(pd, PageEntryBits::new_common_rw());
    match e_tbl.kind().unwrap() {
        table2::PdptEntryKind::NextPageDirectory(p, f) => {
            assert_eq!(p.base().as_u64(), 0x2000_0000);
            assert!(!f.large_page());
        }
        _ => panic!("expected next PD"),
    }

    let g1 = PhysicalPage::<Size1G>::from_addr(PhysicalAddress::new(0x8000_0000));
    let e_1g = table2::PdptEntry::make_1g(g1, PageEntryBits::new_common_rw());
    match e_1g.kind().unwrap() {
        table2::PdptEntryKind::Leaf1GiB(p, f) => {
            assert_eq!(p.base().as_u64(), 0x8000_0000);
            assert!(f.large_page());
        }
        _ => panic!("expected 1GiB leaf"),
    }
}

#[test]
fn table2_pd_table_vs_2m() {
    let pt = PhysicalPage::<Size4K>::from_addr(PhysicalAddress::new(0x3000_0000));
    let e_tbl = table2::PdEntry::make_next(pt, PageEntryBits::new_common_rw());
    match e_tbl.kind().unwrap() {
        table2::PdEntryKind::NextPageTable(p, f) => {
            assert_eq!(p.base().as_u64(), 0x3000_0000);
            assert!(!f.large_page());
        }
        _ => panic!("expected next PT"),
    }

    let m2 = PhysicalPage::<Size2M>::from_addr(PhysicalAddress::new(0x4000_0000));
    let e_2m = table2::PdEntry::make_2m(m2, PageEntryBits::new_common_rw());
    match e_2m.kind().unwrap() {
        table2::PdEntryKind::Leaf2MiB(p, f) => {
            assert_eq!(p.base().as_u64(), 0x4000_0000);
            assert!(f.large_page());
        }
        _ => panic!("expected 2MiB leaf"),
    }
}

#[test]
fn table2_pte_4k_leaf() {
    let k4 = PhysicalPage::<Size4K>::from_addr(PhysicalAddress::new(0x5555_0000));
    let e = table2::PtEntry::make_4k(k4, PageEntryBits::new_user_ro_nx());
    let (p, fl) = e.page_4k().unwrap();
    assert_eq!(p.base().as_u64(), 0x5555_0000);
    assert!(!fl.large_page());
    assert!(fl.no_execute());
    assert!(fl.user_access());
    assert!(!fl.writable());
}

#[test]
fn pdpt_make_next_forces_table_kind() {
    let pd = PhysicalPage::<Size4K>::from_addr(PhysicalAddress::new(0x2000_0000));
    let e = PdptEntry::make_next(pd, Pdpte::from_bits(1 << 7));
    assert_eq!(e.into_bits(), 0x2000_0001);
    match e.kind().unwrap() {
        PdptEntryKind::NextPageDirectory(p, _) => assert_eq!(p.base().as_u64(), 0x2000_0000),
        _ => panic!("expected next PD"),
    }
}
