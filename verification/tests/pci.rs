use mikanos_kernel::pci::{
    configure_found, configure_msi, configure_msi_fixed_destination, configure_msix_register,
    enable_msi, find_capabilities, find_xhc, fixed_destination_message, has_ehci,
    is_single_function_device, note_capability, read_msi_capability, scan_all_bus,
    switch_ehci_to_xhci, write_msi_capability, CapabilityHeader, ConfigAddress, Device, Devices,
    FoundCapabilities, MsiCapability, MsiDeliveryMode, MsiTriggerMode,
};
use std::cell::RefCell;
use std::collections::HashMap;

/// Configuration space in memory: registers that were not set read as all
/// ones, as registers of absent devices do.
struct Space {
    registers: RefCell<HashMap<u32, u32>>,
    written: RefCell<Vec<(u32, u32)>>,
}

fn address(bus: u8, device: u8, function: u8, reg: u8) -> u32 {
    0x8000_0000 | (bus as u32) << 16 | (device as u32) << 11 | (function as u32) << 8 | reg as u32
}

impl Space {
    fn new() -> Space {
        Space { registers: RefCell::new(HashMap::new()), written: RefCell::new(Vec::new()) }
    }

    fn set(&self, bus: u8, device: u8, function: u8, reg: u8, value: u32) {
        self.registers.borrow_mut().insert(address(bus, device, function, reg), value);
    }

    fn add(&self, bus: u8, device: u8, function: u8, vendor: u16, class: u32, header: u8) {
        self.set(bus, device, function, 0x00, 0x1234_0000 | vendor as u32);
        self.set(bus, device, function, 0x08, class);
        self.set(bus, device, function, 0x0c, (header as u32) << 16 | 0xab00_00cd);
    }

    fn read(&self, address: u32) -> u32 {
        *self.registers.borrow().get(&address).unwrap_or(&0xffff_ffff)
    }

    fn write(&self, address: u32, value: u32) {
        self.registers.borrow_mut().insert(address, value);
        self.written.borrow_mut().push((address, value));
    }
}

fn device(bus: u8, device: u8, function: u8) -> Device {
    Device { bus, device, function, vendor_id: 0x8086, class_code: 0x0c03_3000, header_type: 0 }
}

#[test]
fn config_address_packs_its_fields() {
    assert_eq!(ConfigAddress::new(0, 0, 0, 0).get(), 0x8000_0000);
    assert_eq!(ConfigAddress::new(0xff, 31, 7, 0xfc).get(), 0x80ff_fffc);
    assert_eq!(ConfigAddress::new(1, 2, 3, 4).get(), 0x8001_1304);
    assert_eq!(ConfigAddress::new(0xa5, 0x15, 0x5, 0x34).get(), address(0xa5, 0x15, 0x5, 0x34));
    assert_eq!(device(3, 4, 5).addr(0x10).get(), address(3, 4, 5, 0x10));
}

#[test]
fn header_type_bit_7_means_several_functions() {
    assert!(is_single_function_device(0x00));
    assert!(is_single_function_device(0x7f));
    assert!(!is_single_function_device(0x80));
    assert!(!is_single_function_device(0x81));
}

#[test]
fn registers_are_read_and_written_at_their_address() {
    let space = Space::new();
    let d = device(2, 3, 1);
    space.set(2, 3, 1, 0x40, 0xdead_beef);
    assert_eq!(d.read_conf_reg(0x40, &|a| space.read(a)), 0xdead_beef);
    d.write_conf_reg(0x44, 77, &|a, v| space.write(a, v));
    assert_eq!(*space.written.borrow(), vec![(address(2, 3, 1, 0x44), 77)]);
}

#[test]
fn base_addresses_have_32_or_64_bits() {
    let space = Space::new();
    let d = device(0, 1, 0);
    space.set(0, 1, 0, 0x10, 0xfebf_0000);
    space.set(0, 1, 0, 0x14, 0x0000_fe04);
    space.set(0, 1, 0, 0x18, 0x0000_0012);
    space.set(0, 1, 0, 0x24, 0x8000_0004);
    let read = |a| space.read(a);
    assert_eq!(d.read_bar(0, &read), Ok(0xfebf_0000));
    assert_eq!(d.read_bar(1, &read), Ok(0x0000_0012_0000_fe04));
    assert_eq!(d.read_bar(2, &read), Ok(0x12));
    assert_eq!(d.read_bar(3, &read), Ok(0xffff_ffff_ffff_ffff));
    assert_eq!(d.read_bar(5, &read), Err(()));
    assert_eq!(d.read_bar(6, &read), Err(()));
    assert_eq!(d.read_bar(255, &read), Err(()));
    space.set(0, 1, 0, 0x24, 0x8000_0000);
    assert_eq!(d.read_bar(5, &|a| space.read(a)), Ok(0x8000_0000));
}

#[test]
fn scan_finds_functions_and_follows_bridges() {
    let space = Space::new();
    // Host bridge, single function.
    space.add(0, 0, 0, 0x8086, 0x0600_0000, 0x00);
    // A device with functions 0 and 2.
    space.add(0, 3, 0, 0x1b36, 0x0c03_3001, 0x80);
    space.add(0, 3, 2, 0x1b36, 0x0200_0000, 0x80);
    // A bridge to bus 5.
    space.add(0, 4, 0, 0x8086, 0x0604_0000, 0x01);
    space.set(0, 4, 0, 0x18, 0x00aa_0500);
    space.add(5, 1, 0, 0x10de, 0x0300_0000, 0x00);
    space.add(0, 31, 0, 0x8086, 0x0c03_2000, 0x00);
    let devices = scan_all_bus(&|a| space.read(a)).unwrap();
    let found: Vec<(u8, u8, u8, u16, u32, u8)> = (0..devices.len())
        .map(|i| devices.get(i).unwrap())
        .map(|d| (d.bus, d.device, d.function, d.vendor_id, d.class_code, d.header_type))
        .collect();
    assert_eq!(found, vec![
        (0, 0, 0, 0x8086, 0x0600_0000, 0x00),
        (0, 3, 0, 0x1b36, 0x0c03_3001, 0x80),
        (0, 3, 2, 0x1b36, 0x0200_0000, 0x80),
        (0, 4, 0, 0x8086, 0x0604_0000, 0x01),
        (5, 1, 0, 0x10de, 0x0300_0000, 0x00),
        (0, 31, 0, 0x8086, 0x0c03_2000, 0x00),
    ]);
    assert_eq!(devices.get(6), None);
}

#[test]
fn host_bridge_with_several_functions_has_a_bus_for_each() {
    let space = Space::new();
    space.add(0, 0, 0, 0x8086, 0x0600_0000, 0x80);
    space.add(0, 0, 1, 0x8086, 0x0600_0000, 0x80);
    space.add(0, 0, 3, 0x8086, 0x0600_0000, 0x80);
    // Bus 0 is not scanned; the buses 1 and 3 are, bus 2 is not.
    space.add(0, 5, 0, 0x1111, 0x0100_0000, 0x00);
    space.add(1, 2, 0, 0x2222, 0x0200_0000, 0x00);
    space.add(2, 2, 0, 0x3333, 0x0200_0000, 0x00);
    space.add(3, 7, 0, 0x4444, 0x0c03_3000, 0x80);
    space.add(3, 7, 7, 0x4444, 0x0c03_2000, 0x80);
    let devices = scan_all_bus(&|a| space.read(a)).unwrap();
    let found: Vec<(u8, u8, u8, u16)> = (0..devices.len())
        .map(|i| devices.get(i).unwrap())
        .map(|d| (d.bus, d.device, d.function, d.vendor_id))
        .collect();
    assert_eq!(found, vec![(1, 2, 0, 0x2222), (3, 7, 0, 0x4444), (3, 7, 7, 0x4444)]);
}

#[test]
fn scan_fails_when_more_than_32_functions_are_found() {
    let space = Space::new();
    for d in 0..32 {
        space.add(0, d, 0, 0x8086, 0x0200_0000, 0x00);
    }
    assert_eq!(scan_all_bus(&|a| space.read(a)).unwrap().len(), 32);
    space.add(0, 31, 0, 0x8086, 0x0200_0000, 0x80);
    space.add(0, 31, 1, 0x8086, 0x0200_0000, 0x80);
    assert!(scan_all_bus(&|a| space.read(a)).is_err());
    // A bridge whose secondary bus is its own bus ends when the list is full.
    let looped = Space::new();
    looped.add(0, 0, 0, 0x8086, 0x0604_0000, 0x01);
    looped.set(0, 0, 0, 0x18, 0x0000_0000);
    assert!(scan_all_bus(&|a| looped.read(a)).is_err());
}

#[test]
fn device_list_holds_32() {
    let mut devices = Devices::new();
    for i in 0..32 {
        assert_eq!(devices.try_push(device(0, i, 0)), Ok(()));
    }
    assert_eq!(devices.try_push(device(1, 0, 0)), Err(()));
    assert_eq!(devices.len(), 32);
    assert_eq!(devices.get(31), Some(device(0, 31, 0)));
    assert_eq!(devices.get(32), None);
}

fn list(entries: &[(u16, u32)]) -> Devices {
    let mut devices = Devices::new();
    for (i, (vendor_id, class_code)) in entries.iter().enumerate() {
        let d = Device {
            bus: 0,
            device: i as u8,
            function: 0,
            vendor_id: *vendor_id,
            class_code: *class_code,
            header_type: 0,
        };
        devices.try_push(d).unwrap();
    }
    devices
}

#[test]
fn intel_xhc_is_preferred_and_else_the_last() {
    let xhci = 0x0c03_30ff;
    let ehci = 0x0c03_2000;
    assert_eq!(find_xhc(&list(&[])), None);
    assert_eq!(find_xhc(&list(&[(0x8086, ehci), (0x8086, 0x0c04_3000)])), None);
    assert_eq!(find_xhc(&list(&[(1, xhci), (2, ehci), (3, xhci)])), Some(2));
    assert_eq!(find_xhc(&list(&[(1, xhci), (0x8086, xhci), (3, xhci), (0x8086, xhci)])), Some(1));
    assert_eq!(find_xhc(&list(&[(0x8086, xhci)])), Some(0));
    assert!(has_ehci(&list(&[(1, xhci), (2, ehci)])));
    assert!(!has_ehci(&list(&[(1, xhci), (2, 0x0c03_1000)])));
    assert!(list(&[(1, xhci)]).get(0).unwrap().is_usb_controller(0x30));
    assert!(list(&[(1, 0x0604_0000)]).get(0).unwrap().is_pci_bridge());
    assert!(!list(&[(1, 0x0600_0000)]).get(0).unwrap().is_pci_bridge());
}

#[test]
fn ports_are_switched_only_beside_an_ehci_controller() {
    let space = Space::new();
    let xhc = device(0, 20, 0);
    space.set(0, 20, 0, 0xdc, 0x0f);
    space.set(0, 20, 0, 0xd4, 0x3ff);
    let read = |a| space.read(a);
    let write = |a, v| space.write(a, v);
    assert_eq!(switch_ehci_to_xhci(&xhc, &list(&[(1, 0x0c03_3000)]), &read, &write), None);
    assert!(space.written.borrow().is_empty());
    let devices = list(&[(1, 0x0c03_3000), (1, 0x0c03_2000)]);
    assert_eq!(switch_ehci_to_xhci(&xhc, &devices, &read, &write), Some((0x0f, 0x3ff)));
    assert_eq!(*space.written.borrow(), vec![
        (address(0, 20, 0, 0xd8), 0x0f),
        (address(0, 20, 0, 0xd0), 0x3ff),
    ]);
}

#[test]
fn delivery_modes_have_their_codes() {
    let modes = [
        MsiDeliveryMode::Fixed,
        MsiDeliveryMode::LowestPriority,
        MsiDeliveryMode::Smi,
        MsiDeliveryMode::Nmi,
        MsiDeliveryMode::Init,
        MsiDeliveryMode::ExtInt,
    ];
    assert_eq!(modes.iter().map(|m| m.as_u8()).collect::<Vec<u8>>(), vec![0, 1, 2, 4, 5, 7]);
    assert_eq!(modes.iter().map(|m| m.as_u32()).collect::<Vec<u32>>(), vec![0, 1, 2, 4, 5, 7]);
}

#[test]
fn capability_header_is_a_register() {
    let header = CapabilityHeader::from_u32(0x0186_a005);
    assert_eq!(header, CapabilityHeader { cap_id: 0x05, next_ptr: 0xa0, cap: 0x0186 });
    assert_eq!(header.as_u32(), 0x0186_a005);
    assert_eq!(CapabilityHeader::from_u32(0xffff_ffff).as_u32(), 0xffff_ffff);
    assert_eq!(header.multi_msg_capable(), 3);
    assert!(header.addr_64_capable());
    assert!(header.per_vector_mask_capable());
    let plain = CapabilityHeader { cap_id: 5, next_ptr: 0, cap: 0x0008 };
    assert_eq!(plain.multi_msg_capable(), 4);
    assert!(!plain.addr_64_capable());
    assert!(!plain.per_vector_mask_capable());
    let mut header = header;
    header.set_msi_enable(true);
    assert_eq!(header.cap, 0x0187);
    header.set_multi_msg_enable(0b101);
    assert_eq!(header.cap, 0x01d7);
    header.set_multi_msg_enable(0);
    header.set_msi_enable(false);
    assert_eq!(header.cap, 0x0186);
}

#[test]
fn message_for_fixed_destination() {
    assert_eq!(
        fixed_destination_message(0, MsiTriggerMode::Level, MsiDeliveryMode::Fixed, 0x40),
        (0xfee0_0000, 0xc040)
    );
    assert_eq!(
        fixed_destination_message(3, MsiTriggerMode::Edge, MsiDeliveryMode::Nmi, 0x41),
        (0xfee0_3000, 0x0441)
    );
    assert_eq!(
        fixed_destination_message(0xff, MsiTriggerMode::Level, MsiDeliveryMode::ExtInt, 0xff),
        (0xfeef_f000, 0xc7ff)
    );
}

#[test]
fn enabling_msi_uses_no_more_vectors_than_the_function_can() {
    let capability = MsiCapability {
        header: CapabilityHeader { cap_id: 5, next_ptr: 0x70, cap: 0x0184 },
        msg_addr: 1,
        msg_upper_addr: 2,
        msg_data: 3,
        mask_bits: 4,
        pending_bits: 5,
    };
    let enabled = enable_msi(capability, 0xfee0_0000, 0xc040, 0);
    assert_eq!(enabled.header, CapabilityHeader { cap_id: 5, next_ptr: 0x70, cap: 0x0185 });
    assert_eq!((enabled.msg_addr, enabled.msg_data), (0xfee0_0000, 0xc040));
    assert_eq!((enabled.msg_upper_addr, enabled.mask_bits, enabled.pending_bits), (2, 4, 5));
    assert_eq!(enable_msi(capability, 0, 0, 1).header.cap, 0x0195);
    assert_eq!(enable_msi(capability, 0, 0, 2).header.cap, 0x01a5);
    assert_eq!(enable_msi(capability, 0, 0, 7).header.cap, 0x01a5);
    assert_eq!(enable_msi(capability, 0, 0, 255).header.cap, 0x01a5);
}

fn msi_space(cap: u16) -> Space {
    let space = Space::new();
    space.set(0, 1, 0, 0x34, 0xffff_ff60);
    space.set(0, 1, 0, 0x60, 0x0000_7001);
    space.set(0, 1, 0, 0x70, (cap as u32) << 16 | 0x9005);
    for (i, reg) in (0x74..0x88).step_by(4).enumerate() {
        space.set(0, 1, 0, reg, 0x100 + i as u32);
    }
    space.set(0, 1, 0, 0x90, 0x0000_0011);
    space
}

#[test]
fn msi_capability_layout_depends_on_its_header() {
    let d = device(0, 1, 0);
    let wide = msi_space(0x0180);
    let capability = read_msi_capability(&d, 0x70, &|a| wide.read(a));
    assert_eq!(capability, MsiCapability {
        header: CapabilityHeader { cap_id: 5, next_ptr: 0x90, cap: 0x0180 },
        msg_addr: 0x100,
        msg_upper_addr: 0x101,
        msg_data: 0x102,
        mask_bits: 0x103,
        pending_bits: 0x104,
    });
    let narrow = msi_space(0x0000);
    let capability = read_msi_capability(&d, 0x70, &|a| narrow.read(a));
    assert_eq!(capability, MsiCapability {
        header: CapabilityHeader { cap_id: 5, next_ptr: 0x90, cap: 0 },
        msg_addr: 0x100,
        msg_upper_addr: 0,
        msg_data: 0x101,
        mask_bits: 0,
        pending_bits: 0,
    });
    let masked = msi_space(0x0100);
    let capability = read_msi_capability(&d, 0x70, &|a| masked.read(a));
    assert_eq!((capability.msg_data, capability.mask_bits, capability.pending_bits),
        (0x101, 0x102, 0x103));
    write_msi_capability(&d, 0x70, capability, &|a, v| masked.write(a, v));
    assert_eq!(*masked.written.borrow(), vec![
        (address(0, 1, 0, 0x70), 0x0100_9005),
        (address(0, 1, 0, 0x74), 0x100),
        (address(0, 1, 0, 0x78), 0x101),
        (address(0, 1, 0, 0x7c), 0x102),
        (address(0, 1, 0, 0x80), 0x103),
    ]);
}

#[test]
fn capability_list_is_walked_to_its_end() {
    let d = device(0, 1, 0);
    let space = msi_space(0x0180);
    let found = find_capabilities(&d, &|a| space.read(a));
    assert_eq!(found, FoundCapabilities { msi: Some(0x70), msix: Some(0x90) });
    // A list that points back at itself is left after 64 steps.
    space.set(0, 1, 0, 0x90, 0x0000_6011);
    let found = find_capabilities(&d, &|a| space.read(a));
    assert_eq!(found, FoundCapabilities { msi: Some(0x70), msix: Some(0x90) });
    // An offset that is no multiple of 4 ends the walk.
    space.set(0, 1, 0, 0x60, 0x0000_7201);
    let found = find_capabilities(&d, &|a| space.read(a));
    assert_eq!(found, FoundCapabilities { msi: None, msix: None });
    let none = FoundCapabilities { msi: None, msix: None };
    assert_eq!(note_capability(none, 0x40, 0x05).msi, Some(0x40));
    assert_eq!(note_capability(none, 0x40, 0x11).msix, Some(0x40));
    assert_eq!(note_capability(none, 0x40, 0x10), none);
}

#[test]
fn msi_is_configured_through_its_capability() {
    let d = device(0, 1, 0);
    let space = msi_space(0x0186);
    let read = |a| space.read(a);
    let write = |a, v| space.write(a, v);
    let result = configure_msi_fixed_destination(
        &d,
        0,
        MsiTriggerMode::Level,
        MsiDeliveryMode::Fixed,
        0x40,
        0,
        &read,
        &write,
    );
    assert_eq!(result, Ok(()));
    assert_eq!(*space.written.borrow(), vec![
        (address(0, 1, 0, 0x70), 0x0187_9005),
        (address(0, 1, 0, 0x74), 0xfee0_0000),
        (address(0, 1, 0, 0x78), 0x101),
        (address(0, 1, 0, 0x7c), 0xc040),
        (address(0, 1, 0, 0x80), 0x103),
        (address(0, 1, 0, 0x84), 0x104),
    ]);
}

#[test]
fn msi_cannot_be_configured_without_its_capability() {
    let d = device(0, 1, 0);
    let space = Space::new();
    space.set(0, 1, 0, 0x34, 0);
    let read = |a| space.read(a);
    let write = |a, v| space.write(a, v);
    assert_eq!(configure_msi(&d, 1, 2, 0, &read, &write), Err(()));
    // Only the extended capability.
    space.set(0, 1, 0, 0x34, 0x90);
    space.set(0, 1, 0, 0x90, 0x0000_0011);
    assert_eq!(configure_msi(&d, 1, 2, 0, &read, &write), Err(()));
    assert!(space.written.borrow().is_empty());
    assert_eq!(configure_msix_register(&d, 0x90, 1, 2, 0), Err(()));
    // A capability that would end outside the configuration space.
    let outside = FoundCapabilities { msi: Some(0xec), msix: None };
    assert_eq!(configure_found(&d, outside, 1, 2, 0, &read, &write), Err(()));
    let unaligned = FoundCapabilities { msi: Some(0x42), msix: None };
    assert_eq!(configure_found(&d, unaligned, 1, 2, 0, &read, &write), Err(()));
    assert!(space.written.borrow().is_empty());
}
