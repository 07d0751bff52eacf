use mikanos_kernel::address::{PhysicalAddress, VirtualAddress};
use mikanos_kernel::paging::{as_phys_addr, as_virt_addr, PageTables, IDENTITY_WINDOW};

#[test]
fn physical_addresses_have_52_bits() {
    assert_eq!(PhysicalAddress::try_new(0).unwrap().as_u64(), 0);
    assert_eq!(
        PhysicalAddress::try_new(0x000f_ffff_ffff_ffff).unwrap().as_u64(),
        0x000f_ffff_ffff_ffff
    );
    assert!(PhysicalAddress::try_new(0x0010_0000_0000_0000).is_none());
    assert!(PhysicalAddress::try_new(u64::MAX).is_none());
    assert_eq!(PhysicalAddress::new(0x1234_5000).as_u64(), 0x1234_5000);
}

#[test]
fn virtual_addresses_are_canonical() {
    assert_eq!(VirtualAddress::try_new(0).unwrap().as_u64(), 0);
    assert_eq!(
        VirtualAddress::try_new(0x0000_7fff_ffff_ffff).unwrap().as_u64(),
        0x0000_7fff_ffff_ffff
    );
    assert!(VirtualAddress::try_new(0x0000_8000_0000_0000).is_none());
    assert!(VirtualAddress::try_new(0xffff_7fff_ffff_ffff).is_none());
    assert_eq!(
        VirtualAddress::try_new(0xffff_8000_0000_0000).unwrap().as_u64(),
        0xffff_8000_0000_0000
    );
    assert_eq!(VirtualAddress::try_new(u64::MAX).unwrap().as_u64(), u64::MAX);
}

#[test]
fn identity_mapping_round_trips_inside_window() {
    for p in [0u64, 1, 0x1000, 0x1234_5678, 0x4000_0000, IDENTITY_WINDOW - 1] {
        let physical = PhysicalAddress::try_new(p).unwrap();
        let mapped = as_virt_addr(physical).unwrap();
        assert_eq!(mapped.as_u64(), p);
        let back = as_phys_addr(mapped).unwrap();
        assert_eq!(back.as_u64(), p);
        assert_eq!(back, physical);
    }
}

#[test]
fn translation_fails_outside_window() {
    for p in [IDENTITY_WINDOW, IDENTITY_WINDOW + 1, 0x0000_7fff_ffff_f000] {
        assert!(as_virt_addr(PhysicalAddress::try_new(p).unwrap()).is_none());
        assert!(as_phys_addr(VirtualAddress::try_new(p).unwrap()).is_none());
    }
    assert!(as_phys_addr(VirtualAddress::try_new(0xffff_8000_0000_0000).unwrap()).is_none());
    assert!(as_virt_addr(PhysicalAddress::try_new(0x000f_ffff_ffff_ffff).unwrap()).is_none());
}

#[test]
fn window_is_64_gib() {
    assert_eq!(IDENTITY_WINDOW, 64 * 1024 * 1024 * 1024);
}

/// Walks the tables as the processor does, for tables placed at the given
/// addresses.
fn walk(tables: &PageTables, pdp_at: u64, directories_at: u64, v: u64) -> Option<u64> {
    let top = tables.pml4()[((v >> 39) & 0x1ff) as usize];
    if top & 1 == 0 || top & 0x000f_ffff_ffff_f000 != pdp_at {
        return None;
    }
    let second = tables.pdp()[((v >> 30) & 0x1ff) as usize];
    if second & 1 == 0 || second & 0x80 != 0 {
        return None;
    }
    let target = second & 0x000f_ffff_ffff_f000;
    if target < directories_at || (target - directories_at) % 4096 != 0 {
        return None;
    }
    let d = ((target - directories_at) / 4096) as usize;
    if d >= 64 {
        return None;
    }
    let entry = tables.directory(d)[((v >> 21) & 0x1ff) as usize];
    if entry & 1 == 0 || entry & 0x80 == 0 {
        return None;
    }
    Some((entry & 0x000f_ffff_ffe0_0000) | (v & 0x1f_ffff))
}

#[test]
fn page_tables_hold_the_identity_mapping() {
    let pdp_at = 0x20_1000u64;
    let directories_at = 0x20_2000u64;
    let tables = PageTables::new(
        PhysicalAddress::try_new(pdp_at).unwrap(),
        PhysicalAddress::try_new(directories_at).unwrap(),
    );
    assert_eq!(tables.pml4()[0], pdp_at | 0x3);
    assert!(tables.pml4()[1..].iter().all(|e| *e == 0));
    for i in 0..64u64 {
        assert_eq!(tables.pdp()[i as usize], (directories_at + i * 4096) | 0x3);
    }
    assert!(tables.pdp()[64..].iter().all(|e| *e == 0));
    assert_eq!(tables.directory(0)[0], 0x83);
    assert_eq!(tables.directory(0)[1], 0x20_0000 | 0x83);
    assert_eq!(tables.directory(1)[0], 0x4000_0000 | 0x83);
    assert_eq!(tables.directory(63)[511], (63 * 0x4000_0000u64 + 511 * 0x20_0000) | 0x83);
    for v in [0u64, 0xfff, 0x20_0000, 0x1234_5678, 0x4000_0000, 0xf_ffff_ffff] {
        assert_eq!(walk(&tables, pdp_at, directories_at, v), Some(v));
    }
    for v in [0x10_0000_0000u64, 0x80_0000_0000, 0x7fff_ffff_f000] {
        assert_eq!(walk(&tables, pdp_at, directories_at, v), None);
    }
}
