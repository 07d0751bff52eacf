//! PCI configuration space: addresses, devices, and message signalled
//! interrupts.
//!
//! The configuration registers are reached through two I/O ports. Port
//! I/O is not done here: every function that reads or writes registers
//! takes the two accesses as function values, `read(address)` and
//! `write(address, value)`, where `address` is the word for the address
//! port. What a function decides on the values that were read is stated
//! for every value.

use arrayvec::ArrayVec;
use vstd::prelude::*;
use crate::bits::{
    bits_u16,
    get_bit_u16,
    get_bits_u16,
    set_bit_u16,
    set_bit_u32,
    set_bits_u16,
    set_bits_u32,
    with_bit_u16,
    with_bit_u32,
    with_bits_u16,
    with_bits_u32,
};

verus! {

/// The word for the address port that selects a configuration register:
/// the enable bit, then the bus, the device, the function and the
/// register's offset.
pub open spec fn config_address(bus: u8, device: u8, function: u8, reg_addr: u8) -> u32 {
    0x8000_0000u32 | ((bus as u32) << 16) | ((device as u32) << 11) | ((function as u32) << 8) | (
    reg_addr as u32)
}

/// The parts of an address can be packed: the device number has 5 bits,
/// the function number 3, and registers are addressed in steps of 4.
pub open spec fn addressable(device: u8, function: u8, reg_addr: u8) -> bool {
    device < 32 && function < 8 && reg_addr % 4 == 0
}

/// Address of a configuration register.
#[derive(Debug, Clone, Copy, PartialEq, Eq, Structural)]
pub struct ConfigAddress(u32);

impl ConfigAddress {
    /// The word for the address port.
    pub closed spec fn value(self) -> u32 {
        self.0
    }

    /// The address of register `reg_addr` of a function of a device on a
    /// bus.
    pub fn new(bus: u8, device: u8, function: u8, reg_addr: u8) -> (address: ConfigAddress)
        requires
            addressable(device, function, reg_addr),
        ensures
            address.value() == config_address(bus, device, function, reg_addr),
    {
        assert(reg_addr & 0x3 == 0) by (bit_vector)
            requires
                reg_addr % 4 == 0,
        ;
        assert(crate::bits::fits_u32(reg_addr as u32, 8) && crate::bits::fits_u32(
            function as u32,
            3,
        ) && crate::bits::fits_u32(device as u32, 5) && crate::bits::fits_u32(bus as u32, 8)
            && crate::bits::fits_u32(0, 7)) by (bit_vector)
            requires
                device < 32,
                function < 8,
        ;
        let value = 0u32;
        let value = set_bits_u32(value, 0, 8, reg_addr as u32);
        let value = set_bits_u32(value, 8, 11, function as u32);
        let value = set_bits_u32(value, 11, 16, device as u32);
        let value = set_bits_u32(value, 16, 24, bus as u32);
        let value = set_bits_u32(value, 24, 31, 0);
        let value = set_bit_u32(value, 31, true);
        assert(value == config_address(bus, device, function, reg_addr)) by (bit_vector)
            requires
                device < 32,
                function < 8,
                value == with_bit_u32(
                    with_bits_u32(
                        with_bits_u32(
                            with_bits_u32(
                                with_bits_u32(
                                    with_bits_u32(0u32, 0, 8, reg_addr as u32),
                                    8,
                                    11,
                                    function as u32,
                                ),
                                11,
                                16,
                                device as u32,
                            ),
                            16,
                            24,
                            bus as u32,
                        ),
                        24,
                        31,
                        0,
                    ),
                    31,
                    true,
                ),
        ;
        ConfigAddress(value)
    }

    /// The word for the address port.
    pub fn get(&self) -> (value: u32)
        ensures
            value == self.value(),
    {
        self.0
    }
}

/// A function of a PCI device.
#[derive(Debug, Clone, Copy, PartialEq, Eq, Structural)]
pub struct Device {
    pub bus: u8,
    pub device: u8,
    pub function: u8,
    pub vendor_id: u16,
    pub class_code: u32,
    pub header_type: u8,
}

/// Whether the header type says that the device has one function only.
pub fn is_single_function_device(header_type: u8) -> (single: bool)
    ensures
        single == (header_type & 0x80 == 0),
{
    (header_type & 0x80) == 0
}

/// The base class of a class code: its highest byte.
pub open spec fn base_class(class_code: u32) -> u8 {
    ((class_code >> 24) & 0xff) as u8
}

/// The sub class of a class code: its second highest byte.
pub open spec fn sub_class(class_code: u32) -> u8 {
    ((class_code >> 16) & 0xff) as u8
}

/// The programming interface of a class code: its second lowest byte.
pub open spec fn interface(class_code: u32) -> u8 {
    ((class_code >> 8) & 0xff) as u8
}

/// The class code is that of a USB host controller with the given
/// programming interface.
pub open spec fn is_usb_controller(class_code: u32, programming_interface: u8) -> bool {
    base_class(class_code) == 0x0c && sub_class(class_code) == 0x03 && interface(class_code)
        == programming_interface
}

/// The class code is that of a bridge from one PCI bus to another.
pub open spec fn is_pci_bridge(class_code: u32) -> bool {
    base_class(class_code) == 0x06 && sub_class(class_code) == 0x04
}

/// Programming interface of an EHCI host controller.
pub const EHCI_INTERFACE: u8 = 0x20;

/// Programming interface of an xHCI host controller.
pub const XHCI_INTERFACE: u8 = 0x30;

/// Vendor id of Intel.
pub const INTEL_VENDOR_ID: u16 = 0x8086;

/// What a register reads as where there is no device.
pub const NO_DEVICE_VENDOR_ID: u16 = 0xffff;

impl Device {
    /// The device and function numbers fit the address of a register.
    pub open spec fn valid(&self) -> bool {
        self.device < 32 && self.function < 8
    }

    /// The address of a register of this function.
    pub fn addr(&self, reg_addr: u8) -> (address: ConfigAddress)
        requires
            self.valid(),
            reg_addr % 4 == 0,
        ensures
            address.value() == config_address(self.bus, self.device, self.function, reg_addr),
    {
        ConfigAddress::new(self.bus, self.device, self.function, reg_addr)
    }

    /// Whether the class code is that of a USB host controller with the
    /// given programming interface.
    pub fn is_usb_controller(&self, programming_interface: u8) -> (matches: bool)
        ensures
            matches == is_usb_controller(self.class_code, programming_interface),
    {
        let class_code = self.class_code;
        assert((class_code >> 24) & 0xff <= 0xff && (class_code >> 16) & 0xff <= 0xff && (class_code
            >> 8) & 0xff <= 0xff) by (bit_vector);
        ((class_code >> 24) & 0xff) as u8 == 0x0c && ((class_code >> 16) & 0xff) as u8 == 0x03 && ((
        class_code >> 8) & 0xff) as u8 == programming_interface
    }

    /// Whether the class code is that of a bridge from one PCI bus to
    /// another.
    pub fn is_pci_bridge(&self) -> (matches: bool)
        ensures
            matches == is_pci_bridge(self.class_code),
    {
        let class_code = self.class_code;
        assert((class_code >> 24) & 0xff <= 0xff && (class_code >> 16) & 0xff <= 0xff)
            by (bit_vector);
        ((class_code >> 24) & 0xff) as u8 == 0x06 && ((class_code >> 16) & 0xff) as u8 == 0x04
    }
}

/// Every register may be read with `read`.
pub open spec fn readable<R: Fn(u32) -> u32>(read: &R) -> bool {
    forall|address: u32| call_requires(*read, (address,))
}

/// Every register may be written with `write`.
pub open spec fn writable<W: Fn(u32, u32)>(write: &W) -> bool {
    forall|address: u32, value: u32| call_requires(*write, (address, value))
}

/// A read of the register at `address` with `read` can give `value`.
pub open spec fn reads<R: Fn(u32) -> u32>(read: &R, address: u32, value: u32) -> bool {
    call_ensures(*read, (address,), value)
}

/// A write of `value` to the register at `address` with `write` can
/// happen.
pub open spec fn writes<W: Fn(u32, u32)>(write: &W, address: u32, value: u32) -> bool {
    call_ensures(*write, (address, value), ())
}

/// Reads the register at `addr`.
pub fn read_data<R: Fn(u32) -> u32>(addr: ConfigAddress, read: &R) -> (value: u32)
    requires
        readable(read),
    ensures
        reads(read, addr.value(), value),
{
    read(addr.get())
}

/// Writes the register at `addr`.
pub fn write_data<W: Fn(u32, u32)>(addr: ConfigAddress, value: u32, write: &W)
    requires
        writable(write),
    ensures
        writes(write, addr.value(), value),
{
    write(addr.get(), value)
}

/// The vendor id in the value of register 0x00: its lower half.
pub open spec fn vendor_id_of(register: u32) -> u16 {
    (register & 0xffff) as u16
}

/// The header type in the value of register 0x0c: its third byte.
pub open spec fn header_type_of(register: u32) -> u8 {
    ((register >> 16) & 0xff) as u8
}

/// The number of the bus behind a bridge in the value of the bridge's
/// register 0x18: its second byte.
pub open spec fn secondary_bus_of(register: u32) -> u8 {
    ((register >> 8) & 0xff) as u8
}

/// Reads the vendor id of a function.
pub fn read_vendor_id<R: Fn(u32) -> u32>(bus: u8, device: u8, function: u8, read: &R) -> (vendor_id:
    u16)
    requires
        readable(read),
        addressable(device, function, 0),
    ensures
        exists|register: u32|
            #[trigger] reads(read, config_address(bus, device, function, 0x00), register)
                && vendor_id == vendor_id_of(register),
{
    let addr = ConfigAddress::new(bus, device, function, 0x00);
    let register = read_data(addr, read);
    assert(register & 0xffff <= 0xffff) by (bit_vector);
    (register & 0xffff) as u16
}

/// Reads the class code of a function.
pub fn read_class_code<R: Fn(u32) -> u32>(bus: u8, device: u8, function: u8, read: &R) -> (class_code:
    u32)
    requires
        readable(read),
        addressable(device, function, 0),
    ensures
        reads(read, config_address(bus, device, function, 0x08), class_code),
{
    let addr = ConfigAddress::new(bus, device, function, 0x08);
    read_data(addr, read)
}

/// Reads the header type of a function.
pub fn read_header_type<R: Fn(u32) -> u32>(bus: u8, device: u8, function: u8, read: &R) -> (header_type:
    u8)
    requires
        readable(read),
        addressable(device, function, 0),
    ensures
        exists|register: u32|
            #[trigger] reads(read, config_address(bus, device, function, 0x0c), register)
                && header_type == header_type_of(register),
{
    let addr = ConfigAddress::new(bus, device, function, 0x0c);
    let register = read_data(addr, read);
    assert((register >> 16) & 0xff <= 0xff) by (bit_vector);
    ((register >> 16) & 0xff) as u8
}

/// Reads the register of a bridge that holds its bus numbers.
pub fn read_bus_number<R: Fn(u32) -> u32>(bus: u8, device: u8, function: u8, read: &R) -> (bus_number:
    u32)
    requires
        readable(read),
        addressable(device, function, 0),
    ensures
        reads(read, config_address(bus, device, function, 0x18), bus_number),
{
    let addr = ConfigAddress::new(bus, device, function, 0x18);
    read_data(addr, read)
}

/// The register that holds the lower half of a base address.
pub open spec fn bar_register(bar_index: u8) -> u8 {
    (0x10 + 4 * bar_index) as u8
}

/// The lower half of a base address says that the address has 64 bits.
pub open spec fn bar_is_wide(low: u32) -> bool {
    low & 4 != 0
}

/// The base address `bar_index` of a function whose register for it reads
/// `low` and whose next register reads `high`. There are six base address
/// registers; a 64-bit address takes two of them, so the last register
/// alone cannot hold one.
pub open spec fn bar_of(bar_index: u8, low: u32, high: u32) -> Result<u64, ()> {
    if bar_index >= 6 {
        Err(())
    } else if !bar_is_wide(low) {
        Ok(low as u64)
    } else if bar_index >= 5 {
        Err(())
    } else {
        Ok((low as u64) | ((high as u64) << 32))
    }
}

impl Device {
    /// Reads a register of this function.
    pub fn read_conf_reg<R: Fn(u32) -> u32>(&self, reg_addr: u8, read: &R) -> (value: u32)
        requires
            readable(read),
            self.valid(),
            reg_addr % 4 == 0,
        ensures
            reads(read, config_address(self.bus, self.device, self.function, reg_addr), value),
    {
        let addr = ConfigAddress::new(self.bus, self.device, self.function, reg_addr);
        read_data(addr, read)
    }

    /// Writes a register of this function.
    pub fn write_conf_reg<W: Fn(u32, u32)>(&self, reg_addr: u8, value: u32, write: &W)
        requires
            writable(write),
            self.valid(),
            reg_addr % 4 == 0,
        ensures
            writes(write, config_address(self.bus, self.device, self.function, reg_addr), value),
    {
        let addr = ConfigAddress::new(self.bus, self.device, self.function, reg_addr);
        write_data(addr, value, write)
    }

    /// Reads base address `bar_index` of this function.
    pub fn read_bar<R: Fn(u32) -> u32>(&self, bar_index: u8, read: &R) -> (result: Result<u64, ()>)
        requires
            readable(read),
            self.valid(),
        ensures
            bar_index >= 6 ==> result is Err,
            bar_index < 6 ==> exists|low: u32, high: u32|
                {
                    &&& reads(
                        read,
                        config_address(
                            self.bus,
                            self.device,
                            self.function,
                            bar_register(bar_index),
                        ),
                        low,
                    )
                    &&& bar_is_wide(low) && bar_index < 5 ==> reads(
                        read,
                        config_address(
                            self.bus,
                            self.device,
                            self.function,
                            bar_register((bar_index + 1) as u8),
                        ),
                        high,
                    )
                    &&& result == #[trigger] bar_of(bar_index, low, high)
                },
    {
        if bar_index >= 6 {
            return Err(());
        }
        let addr = 0x10 + 4 * bar_index;
        let bar = read_data(self.addr(addr), read);
        // 32 bit address
        if (bar & 4) == 0 {
            assert(bar_of(bar_index, bar, 0) == Ok::<u64, ()>(bar as u64));
            return Ok(bar as u64);
        }
        // 64 bit address
        if bar_index >= 5 {
            assert(bar_of(bar_index, bar, 0) == Err::<u64, ()>(()));
            return Err(());
        }
        let bar_upper = read_data(self.addr(addr + 4), read);
        assert(bar_of(bar_index, bar, bar_upper) == Ok::<u64, ()>(
            (bar as u64) | ((bar_upper as u64) << 32),
        ));
        Ok((bar as u64) | ((bar_upper as u64) << 32))
    }
}

/// The most functions that a list of devices holds.
pub const MAX_DEVICES: usize = 32;

/// Makes the type `arrayvec::ArrayVec` known to the verifier. Nothing is
/// claimed of what is inside it.
#[verifier::external_type_specification]
#[verifier::external_body]
#[verifier::reject_recursive_types(T)]
pub struct ExArrayVec<T, const CAP: usize>(ArrayVec<T, CAP>);

/// The functions that a list of `arrayvec::ArrayVec` holds, in the order
/// in which they were pushed. What the list's methods do is stated over
/// this sequence.
pub uninterp spec fn listed(list: &ArrayVec<Device, 32>) -> Seq<Device>;

/// Calls `ArrayVec::new`. The contract claims that the new list is empty.
#[verifier::external_body]
fn list_new() -> (list: ArrayVec<Device, 32>)
    ensures
        listed(&list) == Seq::<Device>::empty(),
{
    ArrayVec::new()
}

/// Calls `ArrayVec::try_push`. The contract claims what the crate
/// documents: the element goes to the end if the list holds fewer than its
/// capacity of 32, and the list stays as it is, with an error, if it is
/// full.
#[verifier::external_body]
fn list_try_push(list: &mut ArrayVec<Device, 32>, device: Device) -> (pushed: bool)
    ensures
        pushed == (listed(old(list)).len() < MAX_DEVICES),
        listed(final(list)) == (if pushed {
            listed(old(list)).push(device)
        } else {
            listed(old(list))
        }),
    no_unwind
{
    match list.try_push(device) {
        Ok(_) => true,
        Err(_) => false,
    }
}

/// Calls `ArrayVec::as_slice`. The contract claims that the slice holds
/// the list's elements, which are never more than its capacity of 32.
#[verifier::external_body]
fn list_as_slice(list: &ArrayVec<Device, 32>) -> (slice: &[Device])
    ensures
        slice@ == listed(list),
        slice@.len() <= MAX_DEVICES,
{
    list.as_slice()
}

/// A list of at most 32 functions of PCI devices.
pub struct Devices {
    list: ArrayVec<Device, 32>,
}

impl View for Devices {
    type V = Seq<Device>;

    closed spec fn view(&self) -> Seq<Device> {
        listed(&self.list)
    }
}

impl Devices {
    /// An empty list.
    pub fn new() -> (devices: Devices)
        ensures
            devices@ == Seq::<Device>::empty(),
    {
        Devices { list: list_new() }
    }

    /// Appends a function if the list holds fewer than 32, and says so with
    /// `Ok`; leaves the list as it is if it is full.
    pub fn try_push(&mut self, device: Device) -> (result: Result<(), ()>)
        ensures
            result is Ok <==> old(self)@.len() < MAX_DEVICES,
            final(self)@ == (if result is Ok {
                old(self)@.push(device)
            } else {
                old(self)@
            }),
    {
        if list_try_push(&mut self.list, device) {
            Ok(())
        } else {
            Err(())
        }
    }

    /// The number of functions in the list.
    pub fn len(&self) -> (len: usize)
        ensures
            len == self@.len(),
            len <= MAX_DEVICES,
    {
        list_as_slice(&self.list).len()
    }

    /// The function at position `index`.
    pub fn get(&self, index: usize) -> (device: Option<Device>)
        ensures
            device == (if index < self@.len() {
                Some(self@[index as int])
            } else {
                None
            }),
    {
        let slice = list_as_slice(&self.list);
        if index < slice.len() {
            Some(slice[index])
        } else {
            None
        }
    }
}

/// The entry of a function in a list can come from a scan with `read`: the
/// function can be addressed, and its vendor id, class code and header
/// type are what its registers can read as.
pub open spec fn probed<R: Fn(u32) -> u32>(read: &R, found: Device) -> bool {
    &&& found.valid()
    &&& exists|register: u32|
        #[trigger] reads(
            read,
            config_address(found.bus, found.device, found.function, 0x00),
            register,
        ) && found.vendor_id == vendor_id_of(register)
    &&& reads(
        read,
        config_address(found.bus, found.device, found.function, 0x08),
        found.class_code,
    )
    &&& exists|register: u32|
        #[trigger] reads(
            read,
            config_address(found.bus, found.device, found.function, 0x0c),
            register,
        ) && found.header_type == header_type_of(register)
}

/// What a scan with `read` may have done to the list: functions were
/// appended, and the entry of each of them is what the scan found.
pub open spec fn extended<R: Fn(u32) -> u32>(read: &R, before: Seq<Device>, after: Seq<Device>) -> bool {
    &&& before.len() <= after.len() <= MAX_DEVICES
    &&& after.subrange(0, before.len() as int) == before
    &&& forall|i: int| before.len() <= i < after.len() ==> probed(read, #[trigger] after[i])
}

/// A scan that fails has filled the list.
pub open spec fn failed_when_full(result: Result<(), ()>, after: Seq<Device>) -> bool {
    result is Err ==> after.len() == MAX_DEVICES
}

/// A list extended twice is extended.
proof fn lemma_extended_transitive<R: Fn(u32) -> u32>(
    read: &R,
    a: Seq<Device>,
    b: Seq<Device>,
    c: Seq<Device>,
)
    requires
        extended(read, a, b),
        extended(read, b, c),
    ensures
        extended(read, a, c),
{
    assert(c.subrange(0, a.len() as int) =~= b.subrange(0, a.len() as int)) by {
        assert forall|i: int| 0 <= i < a.len() implies c.subrange(0, a.len() as int)[i]
            == b.subrange(0, a.len() as int)[i] by {
            assert(c.subrange(0, b.len() as int)[i] == b[i]);
        }
    }
    assert(b.subrange(0, a.len() as int) == a);
    assert forall|i: int| a.len() <= i < c.len() implies probed(read, #[trigger] c[i]) by {
        if i < b.len() {
            assert(c.subrange(0, b.len() as int)[i] == b[i]);
        }
    }
}

/// Entry `i` of the list is the entry of the given function.
pub open spec fn entry_for(list: Seq<Device>, i: int, bus: u8, device: u8, function: u8) -> bool {
    &&& 0 <= i < list.len()
    &&& list[i].bus == bus
    &&& list[i].device == device
    &&& list[i].function == function
}

/// The scan has dealt with a function: the function is listed, and, if
/// its entry is that of a bridge, the bus behind the bridge was scanned.
/// Bridges are followed `depth` deep.
pub open spec fn function_scanned<R: Fn(u32) -> u32>(
    read: &R,
    list: Seq<Device>,
    bus: u8,
    device: u8,
    function: u8,
    depth: nat,
) -> bool
    decreases depth, 0nat, 0nat,
{
    exists|i: int| #[trigger]
        entry_for(list, i, bus, device, function) && (depth > 0 && is_pci_bridge(
            list[i].class_code,
        ) ==> bridge_scanned(read, list, bus, device, function, (depth - 1) as nat))
}

/// The scan has looked at a function other than the first of a device: it
/// read the function's vendor id, and has dealt with the function unless
/// the vendor id said that there is none.
pub open spec fn function_probed<R: Fn(u32) -> u32>(
    read: &R,
    list: Seq<Device>,
    bus: u8,
    device: u8,
    function: u8,
    depth: nat,
) -> bool
    decreases depth, 1nat, 0nat,
{
    exists|register: u32| #[trigger]
        reads(read, config_address(bus, device, function, 0x00), register) && (vendor_id_of(
            register,
        ) != NO_DEVICE_VENDOR_ID ==> function_scanned(read, list, bus, device, function, depth))
}

/// The scan has looked at the functions 1 to `count` of a device.
pub open spec fn functions_probed<R: Fn(u32) -> u32>(
    read: &R,
    list: Seq<Device>,
    bus: u8,
    device: u8,
    count: nat,
    depth: nat,
) -> bool
    decreases depth, 2nat, count,
{
    count > 0 ==> functions_probed(read, list, bus, device, (count - 1) as nat, depth)
        && function_probed(read, list, bus, device, count as u8, depth)
}

/// The scan has dealt with a device: with its first function, and, if the
/// header type that it read for the device says that there are more, with
/// the functions 1 to 7.
pub open spec fn device_scanned<R: Fn(u32) -> u32>(
    read: &R,
    list: Seq<Device>,
    bus: u8,
    device: u8,
    depth: nat,
) -> bool
    decreases depth, 3nat, 0nat,
{
    &&& function_scanned(read, list, bus, device, 0, depth)
    &&& exists|register: u32| #[trigger]
        reads(read, config_address(bus, device, 0, 0x0c), register) && (header_type_of(register)
            & 0x80 != 0 ==> functions_probed(read, list, bus, device, 7, depth))
}

/// The scan has looked at a device: it read the vendor id of the device's
/// first function, and has dealt with the device unless the vendor id said
/// that there is none.
pub open spec fn device_probed<R: Fn(u32) -> u32>(
    read: &R,
    list: Seq<Device>,
    bus: u8,
    device: u8,
    depth: nat,
) -> bool
    decreases depth, 4nat, 0nat,
{
    exists|register: u32| #[trigger]
        reads(read, config_address(bus, device, 0, 0x00), register) && (vendor_id_of(register)
            != NO_DEVICE_VENDOR_ID ==> device_scanned(read, list, bus, device, depth))
}

/// The scan has looked at the devices 0 to `count - 1` of a bus.
pub open spec fn devices_probed<R: Fn(u32) -> u32>(
    read: &R,
    list: Seq<Device>,
    bus: u8,
    count: nat,
    depth: nat,
) -> bool
    decreases depth, 5nat, count,
{
    count > 0 ==> devices_probed(read, list, bus, (count - 1) as nat, depth) && device_probed(
        read,
        list,
        bus,
        (count - 1) as u8,
        depth,
    )
}

/// The scan has dealt with a bus: it has looked at each of its 32 devices.
pub open spec fn bus_scanned<R: Fn(u32) -> u32>(read: &R, list: Seq<Device>, bus: u8, depth: nat) -> bool
    decreases depth, 6nat, 0nat,
{
    devices_probed(read, list, bus, 32, depth)
}

/// The scan has followed a bridge: it read the number of the bus behind
/// it, and has dealt with that bus.
pub open spec fn bridge_scanned<R: Fn(u32) -> u32>(
    read: &R,
    list: Seq<Device>,
    bus: u8,
    device: u8,
    function: u8,
    depth: nat,
) -> bool
    decreases depth, 7nat, 0nat,
{
    exists|register: u32| #[trigger]
        reads(read, config_address(bus, device, function, 0x18), register) && bus_scanned(
            read,
            list,
            secondary_bus_of(register),
            depth,
        )
}

/// The scan has looked at a bus of the host bridge: it read the vendor id
/// of the host bridge's function with the number of the bus, and has dealt
/// with the bus unless the vendor id said that there is no such function.
pub open spec fn host_bus_probed<R: Fn(u32) -> u32>(read: &R, list: Seq<Device>, bus: u8, depth: nat) -> bool {
    exists|register: u32| #[trigger]
        reads(read, config_address(0, 0, bus, 0x00), register) && (vendor_id_of(register)
            != NO_DEVICE_VENDOR_ID ==> bus_scanned(read, list, bus, depth))
}

/// The scan is complete: it read the header type of the host bridge; if
/// the host bridge has one function, it has dealt with bus 0, and if it
/// has more, it has looked at the buses 1 to 7.
pub open spec fn all_scanned<R: Fn(u32) -> u32>(read: &R, list: Seq<Device>, depth: nat) -> bool {
    exists|register: u32| #[trigger]
        reads(read, config_address(0, 0, 0, 0x0c), register) && (if header_type_of(register) & 0x80
            == 0 {
            bus_scanned(read, list, 0, depth)
        } else {
            forall|bus: u8| 1 <= bus < 8 ==> #[trigger] host_bus_probed(read, list, bus, depth)
        })
}

/// The list `after` is the list `before` with entries appended.
pub open spec fn grown(before: Seq<Device>, after: Seq<Device>) -> bool {
    &&& before.len() <= after.len()
    &&& forall|i: int| 0 <= i < before.len() ==> #[trigger] after[i] == before[i]
}

/// What the scan has dealt with stays dealt with when the list grows.
proof fn lemma_function_scanned_grows<R: Fn(u32) -> u32>(
    read: &R,
    a: Seq<Device>,
    b: Seq<Device>,
    bus: u8,
    device: u8,
    function: u8,
    depth: nat,
)
    requires
        grown(a, b),
        function_scanned(read, a, bus, device, function, depth),
    ensures
        function_scanned(read, b, bus, device, function, depth),
    decreases depth, 0nat, 0nat,
{
    let i = choose|i: int| #[trigger]
        entry_for(a, i, bus, device, function) && (depth > 0 && is_pci_bridge(a[i].class_code)
            ==> bridge_scanned(read, a, bus, device, function, (depth - 1) as nat));
    assert(b[i] == a[i]);
    if depth > 0 && is_pci_bridge(a[i].class_code) {
        lemma_bridge_scanned_grows(read, a, b, bus, device, function, (depth - 1) as nat);
    }
    assert(entry_for(b, i, bus, device, function));
}

proof fn lemma_function_probed_grows<R: Fn(u32) -> u32>(
    read: &R,
    a: Seq<Device>,
    b: Seq<Device>,
    bus: u8,
    device: u8,
    function: u8,
    depth: nat,
)
    requires
        grown(a, b),
        function_probed(read, a, bus, device, function, depth),
    ensures
        function_probed(read, b, bus, device, function, depth),
    decreases depth, 1nat, 0nat,
{
    let register = choose|register: u32| #[trigger]
        reads(read, config_address(bus, device, function, 0x00), register) && (vendor_id_of(
            register,
        ) != NO_DEVICE_VENDOR_ID ==> function_scanned(read, a, bus, device, function, depth));
    if vendor_id_of(register) != NO_DEVICE_VENDOR_ID {
        lemma_function_scanned_grows(read, a, b, bus, device, function, depth);
    }
    assert(reads(read, config_address(bus, device, function, 0x00), register));
}

proof fn lemma_functions_probed_grows<R: Fn(u32) -> u32>(
    read: &R,
    a: Seq<Device>,
    b: Seq<Device>,
    bus: u8,
    device: u8,
    count: nat,
    depth: nat,
)
    requires
        grown(a, b),
        functions_probed(read, a, bus, device, count, depth),
    ensures
        functions_probed(read, b, bus, device, count, depth),
    decreases depth, 2nat, count,
{
    if count > 0 {
        lemma_functions_probed_grows(read, a, b, bus, device, (count - 1) as nat, depth);
        lemma_function_probed_grows(read, a, b, bus, device, count as u8, depth);
    }
}

proof fn lemma_device_scanned_grows<R: Fn(u32) -> u32>(
    read: &R,
    a: Seq<Device>,
    b: Seq<Device>,
    bus: u8,
    device: u8,
    depth: nat,
)
    requires
        grown(a, b),
        device_scanned(read, a, bus, device, depth),
    ensures
        device_scanned(read, b, bus, device, depth),
    decreases depth, 3nat, 0nat,
{
    lemma_function_scanned_grows(read, a, b, bus, device, 0, depth);
    let register = choose|register: u32| #[trigger]
        reads(read, config_address(bus, device, 0, 0x0c), register) && (header_type_of(register)
            & 0x80 != 0 ==> functions_probed(read, a, bus, device, 7, depth));
    if header_type_of(register) & 0x80 != 0 {
        lemma_functions_probed_grows(read, a, b, bus, device, 7, depth);
    }
    assert(reads(read, config_address(bus, device, 0, 0x0c), register));
}

proof fn lemma_device_probed_grows<R: Fn(u32) -> u32>(
    read: &R,
    a: Seq<Device>,
    b: Seq<Device>,
    bus: u8,
    device: u8,
    depth: nat,
)
    requires
        grown(a, b),
        device_probed(read, a, bus, device, depth),
    ensures
        device_probed(read, b, bus, device, depth),
    decreases depth, 4nat, 0nat,
{
    let register = choose|register: u32| #[trigger]
        reads(read, config_address(bus, device, 0, 0x00), register) && (vendor_id_of(register)
            != NO_DEVICE_VENDOR_ID ==> device_scanned(read, a, bus, device, depth));
    if vendor_id_of(register) != NO_DEVICE_VENDOR_ID {
        lemma_device_scanned_grows(read, a, b, bus, device, depth);
    }
    assert(reads(read, config_address(bus, device, 0, 0x00), register));
}

proof fn lemma_devices_probed_grows<R: Fn(u32) -> u32>(
    read: &R,
    a: Seq<Device>,
    b: Seq<Device>,
    bus: u8,
    count: nat,
    depth: nat,
)
    requires
        grown(a, b),
        devices_probed(read, a, bus, count, depth),
    ensures
        devices_probed(read, b, bus, count, depth),
    decreases depth, 5nat, count,
{
    if count > 0 {
        lemma_devices_probed_grows(read, a, b, bus, (count - 1) as nat, depth);
        lemma_device_probed_grows(read, a, b, bus, (count - 1) as u8, depth);
    }
}

proof fn lemma_bus_scanned_grows<R: Fn(u32) -> u32>(
    read: &R,
    a: Seq<Device>,
    b: Seq<Device>,
    bus: u8,
    depth: nat,
)
    requires
        grown(a, b),
        bus_scanned(read, a, bus, depth),
    ensures
        bus_scanned(read, b, bus, depth),
    decreases depth, 6nat, 0nat,
{
    lemma_devices_probed_grows(read, a, b, bus, 32, depth);
}

proof fn lemma_bridge_scanned_grows<R: Fn(u32) -> u32>(
    read: &R,
    a: Seq<Device>,
    b: Seq<Device>,
    bus: u8,
    device: u8,
    function: u8,
    depth: nat,
)
    requires
        grown(a, b),
        bridge_scanned(read, a, bus, device, function, depth),
    ensures
        bridge_scanned(read, b, bus, device, function, depth),
    decreases depth, 7nat, 0nat,
{
    let register = choose|register: u32| #[trigger]
        reads(read, config_address(bus, device, function, 0x18), register) && bus_scanned(
            read,
            a,
            secondary_bus_of(register),
            depth,
        );
    lemma_bus_scanned_grows(read, a, b, secondary_bus_of(register), depth);
    assert(reads(read, config_address(bus, device, function, 0x18), register));
}

/// A list that a scan has extended has grown.
proof fn lemma_extended_grown<R: Fn(u32) -> u32>(read: &R, a: Seq<Device>, b: Seq<Device>)
    requires
        extended(read, a, b),
    ensures
        grown(a, b),
{
    assert forall|i: int| 0 <= i < a.len() implies #[trigger] b[i] == a[i] by {
        assert(b.subrange(0, a.len() as int)[i] == b[i]);
    }
}

/// A bus that the scan has dealt with: the scan has looked at each of its
/// devices.
pub proof fn lemma_bus_scanned_devices<R: Fn(u32) -> u32>(
    read: &R,
    list: Seq<Device>,
    bus: u8,
    depth: nat,
    device: u8,
)
    requires
        bus_scanned(read, list, bus, depth),
        device < 32,
    ensures
        device_probed(read, list, bus, device, depth),
{
    lemma_devices_probed_each(read, list, bus, 32, depth, device);
}

proof fn lemma_devices_probed_each<R: Fn(u32) -> u32>(
    read: &R,
    list: Seq<Device>,
    bus: u8,
    count: nat,
    depth: nat,
    device: u8,
)
    requires
        devices_probed(read, list, bus, count, depth),
        device < count <= 32,
    ensures
        device_probed(read, list, bus, device, depth),
    decreases count,
{
    if device < count - 1 {
        lemma_devices_probed_each(read, list, bus, (count - 1) as nat, depth, device);
    }
}

/// What the scan has looked at on the buses of the host bridge stays
/// looked at when the list grows.
proof fn lemma_host_bus_probed_grows<R: Fn(u32) -> u32>(
    read: &R,
    a: Seq<Device>,
    b: Seq<Device>,
    bus: u8,
    depth: nat,
)
    requires
        grown(a, b),
        host_bus_probed(read, a, bus, depth),
    ensures
        host_bus_probed(read, b, bus, depth),
{
    let register = choose|register: u32| #[trigger]
        reads(read, config_address(0, 0, bus, 0x00), register) && (vendor_id_of(register)
            != NO_DEVICE_VENDOR_ID ==> bus_scanned(read, a, bus, depth));
    if vendor_id_of(register) != NO_DEVICE_VENDOR_ID {
        lemma_bus_scanned_grows(read, a, b, bus, depth);
    }
    assert(reads(read, config_address(0, 0, bus, 0x00), register));
}

/// Adds a function to the list, and, if it is a bridge to another bus,
/// the functions found on that bus.
pub fn scan_function<R: Fn(u32) -> u32>(
    devices: &mut Devices,
    bus: u8,
    device: u8,
    function: u8,
    read: &R,
) -> (result: Result<(), ()>)
    requires
        readable(read),
        device < 32,
        function < 8,
    ensures
        extended(read, old(devices)@, final(devices)@),
        failed_when_full(result, final(devices)@),
        result is Ok ==> final(devices)@.len() > old(devices)@.len() && {
            let found = final(devices)@[old(devices)@.len() as int];
            found.bus == bus && found.device == device && found.function == function
        },
        result is Ok ==> forall|depth: nat|
            function_scanned(read, final(devices)@, bus, device, function, depth),
    decreases MAX_DEVICES - old(devices)@.len(), 0int,
{
    let _ = devices.len();
    let vendor_id = read_vendor_id(bus, device, function, read);
    let class_code = read_class_code(bus, device, function, read);
    let header_type = read_header_type(bus, device, function, read);
    let found = Device { bus, device, function, vendor_id, class_code, header_type };
    match devices.try_push(found) {
        Ok(_) => {},
        Err(_) => {
            assert(devices@.subrange(0, devices@.len() as int) =~= devices@);
            return Err(());
        },
    }
    let ghost pushed = devices@;
    let ghost place = old(devices)@.len() as int;
    proof {
        assert(pushed.subrange(0, place) =~= old(devices)@);
        assert(probed(read, found));
        assert(pushed[place] == found);
        assert(extended(read, old(devices)@, pushed));
    }
    if found.is_pci_bridge() {
        // standard PCI-PCI bridge
        let bus_number = read_bus_number(bus, device, function, read);
        assert((bus_number >> 8) & 0xff <= 0xff) by (bit_vector);
        let secondary_bus = ((bus_number >> 8) & 0xff) as u8;
        let result = scan_bus(devices, secondary_bus, read);
        proof {
            lemma_extended_transitive(read, old(devices)@, pushed, devices@);
            lemma_extended_grown(read, pushed, devices@);
            assert(devices@[place] == pushed[place]);
            if result is Ok {
                assert forall|depth: nat|
                    function_scanned(read, devices@, bus, device, function, depth) by {
                    if depth > 0 {
                        assert(bus_scanned(read, devices@, secondary_bus, (depth - 1) as nat));
                        assert(reads(
                            read,
                            config_address(bus, device, function, 0x18),
                            bus_number,
                        ));
                        assert(bridge_scanned(
                            read,
                            devices@,
                            bus,
                            device,
                            function,
                            (depth - 1) as nat,
                        ));
                    }
                    assert(entry_for(devices@, place, bus, device, function));
                }
            }
        }
        return result;
    }
    proof {
        assert forall|depth: nat| function_scanned(read, devices@, bus, device, function, depth) by {
            assert(entry_for(devices@, place, bus, device, function));
        }
    }
    Ok(())
}

/// Adds the functions of a device to the list.
pub fn scan_device<R: Fn(u32) -> u32>(devices: &mut Devices, bus: u8, device: u8, read: &R) -> (result:
    Result<(), ()>)
    requires
        readable(read),
        device < 32,
    ensures
        extended(read, old(devices)@, final(devices)@),
        failed_when_full(result, final(devices)@),
        result is Ok ==> forall|depth: nat| device_scanned(read, final(devices)@, bus, device, depth),
    decreases MAX_DEVICES - old(devices)@.len(), 1int,
{
    let _ = devices.len();
    match scan_function(devices, bus, device, 0, read) {
        Ok(_) => {},
        Err(_) => {
            return Err(());
        },
    }
    let header_type = read_header_type(bus, device, 0, read);
    let ghost header = choose|register: u32| #[trigger]
        reads(read, config_address(bus, device, 0, 0x0c), register) && header_type
            == header_type_of(register);
    if is_single_function_device(header_type) {
        proof {
            assert forall|depth: nat| device_scanned(read, devices@, bus, device, depth) by {
                assert(function_scanned(read, devices@, bus, device, 0, depth));
                assert(reads(read, config_address(bus, device, 0, 0x0c), header));
            }
        }
        return Ok(());
    }
    let mut function: u8 = 1;
    let ghost mut done: nat = 0;
    while function < 8
        invariant
            1 <= function <= 8,
            done == function - 1,
            readable(read),
            device < 32,
            extended(read, old(devices)@, devices@),
            reads(read, config_address(bus, device, 0, 0x0c), header),
            header_type_of(header) & 0x80 != 0,
            forall|depth: nat| function_scanned(read, devices@, bus, device, 0, depth),
            forall|depth: nat| functions_probed(read, devices@, bus, device, done, depth),
        decreases 8 - function,
    {
        let ghost before = devices@;
        let ghost next: nat = done + 1;
        let vendor_id = read_vendor_id(bus, device, function, read);
        let ghost vendor = choose|register: u32| #[trigger]
            reads(read, config_address(bus, device, function, 0x00), register) && vendor_id
                == vendor_id_of(register);
        if vendor_id != NO_DEVICE_VENDOR_ID {
            let result = scan_function(devices, bus, device, function, read);
            proof {
                lemma_extended_transitive(read, old(devices)@, before, devices@);
                lemma_extended_grown(read, before, devices@);
            }
            match result {
                Ok(_) => {},
                Err(_) => {
                    return Err(());
                },
            }
        }
        proof {
            assert(grown(before, devices@));
            assert forall|depth: nat| function_scanned(read, devices@, bus, device, 0, depth) by {
                lemma_function_scanned_grows(read, before, devices@, bus, device, 0, depth);
            }
            assert forall|depth: nat|
                functions_probed(read, devices@, bus, device, next, depth) by {
                lemma_functions_probed_grows(read, before, devices@, bus, device, done, depth);
                assert(reads(read, config_address(bus, device, function, 0x00), vendor));
                if vendor_id != NO_DEVICE_VENDOR_ID {
                    assert(function_scanned(read, devices@, bus, device, function, depth));
                }
                assert(function_probed(read, devices@, bus, device, function, depth));
                assert(next as u8 == function);
            }
            done = next;
        }
        function = function + 1;
    }
    proof {
        assert forall|depth: nat| device_scanned(read, devices@, bus, device, depth) by {
            assert(function_scanned(read, devices@, bus, device, 0, depth));
            assert(functions_probed(read, devices@, bus, device, 7, depth));
            assert(reads(read, config_address(bus, device, 0, 0x0c), header));
        }
    }
    Ok(())
}

/// Adds the functions of the devices on a bus to the list.
pub fn scan_bus<R: Fn(u32) -> u32>(devices: &mut Devices, bus: u8, read: &R) -> (result: Result<
    (),
    (),
>)
    requires
        readable(read),
    ensures
        extended(read, old(devices)@, final(devices)@),
        failed_when_full(result, final(devices)@),
        result is Ok ==> forall|depth: nat| bus_scanned(read, final(devices)@, bus, depth),
    decreases MAX_DEVICES - old(devices)@.len(), 2int,
{
    let _ = devices.len();
    assert(devices@.subrange(0, devices@.len() as int) =~= devices@);
    let mut device: u8 = 0;
    let ghost mut done: nat = 0;
    while device < 32
        invariant
            device <= 32,
            done == device,
            readable(read),
            extended(read, old(devices)@, devices@),
            forall|depth: nat| devices_probed(read, devices@, bus, done, depth),
        decreases 32 - device,
    {
        let ghost before = devices@;
        let ghost next: nat = done + 1;
        let vendor_id = read_vendor_id(bus, device, 0, read);
        let ghost vendor = choose|register: u32| #[trigger]
            reads(read, config_address(bus, device, 0, 0x00), register) && vendor_id
                == vendor_id_of(register);
        if vendor_id != NO_DEVICE_VENDOR_ID {
            let result = scan_device(devices, bus, device, read);
            proof {
                lemma_extended_transitive(read, old(devices)@, before, devices@);
                lemma_extended_grown(read, before, devices@);
            }
            match result {
                Ok(_) => {},
                Err(_) => {
                    return Err(());
                },
            }
        }
        proof {
            assert(grown(before, devices@));
            assert forall|depth: nat| devices_probed(read, devices@, bus, next, depth) by {
                lemma_devices_probed_grows(read, before, devices@, bus, done, depth);
                assert(reads(read, config_address(bus, device, 0, 0x00), vendor));
                if vendor_id != NO_DEVICE_VENDOR_ID {
                    assert(device_scanned(read, devices@, bus, device, depth));
                }
                assert(device_probed(read, devices@, bus, device, depth));
                assert((next - 1) as u8 == device);
            }
            done = next;
        }
        device = device + 1;
    }
    proof {
        assert forall|depth: nat| bus_scanned(read, devices@, bus, depth) by {
            assert(devices_probed(read, devices@, bus, 32, depth));
        }
    }
    Ok(())
}

/// Lists the functions of all devices that can be reached from the host
/// bridge. Fails if there are more than the list holds.
pub fn scan_all_bus<R: Fn(u32) -> u32>(read: &R) -> (result: Result<Devices, ()>)
    requires
        readable(read),
    ensures
        result matches Ok(devices) ==> extended(read, Seq::<Device>::empty(), devices@)
            && forall|depth: nat| all_scanned(read, devices@, depth),
        result is Err ==> exists|list: Seq<Device>| #[trigger]
            extended(read, Seq::<Device>::empty(), list) && list.len() == MAX_DEVICES,
{
    let mut devices = Devices::new();
    let header_type = read_header_type(0, 0, 0, read);
    let ghost header = choose|register: u32| #[trigger]
        reads(read, config_address(0, 0, 0, 0x0c), register) && header_type == header_type_of(
            register,
        );
    if is_single_function_device(header_type) {
        let result = scan_bus(&mut devices, 0, read);
        return match result {
            Ok(_) => {
                proof {
                    assert forall|depth: nat| all_scanned(read, devices@, depth) by {
                        assert(bus_scanned(read, devices@, 0, depth));
                        assert(reads(read, config_address(0, 0, 0, 0x0c), header));
                    }
                }
                Ok(devices)
            },
            Err(_) => Err(()),
        };
    }
    assert(devices@.subrange(0, 0) =~= Seq::<Device>::empty());
    let mut bus: u8 = 1;
    while bus < 8
        invariant
            1 <= bus <= 8,
            readable(read),
            extended(read, Seq::<Device>::empty(), devices@),
            reads(read, config_address(0, 0, 0, 0x0c), header),
            header_type_of(header) & 0x80 != 0,
            forall|depth: nat, b: u8|
                1 <= b < bus ==> #[trigger] host_bus_probed(read, devices@, b, depth),
        decreases 8 - bus,
    {
        let ghost before = devices@;
        let vendor_id = read_vendor_id(0, 0, bus, read);
        let ghost vendor = choose|register: u32| #[trigger]
            reads(read, config_address(0, 0, bus, 0x00), register) && vendor_id == vendor_id_of(
                register,
            );
        if vendor_id != NO_DEVICE_VENDOR_ID {
            let result = scan_bus(&mut devices, bus, read);
            proof {
                lemma_extended_transitive(read, Seq::<Device>::empty(), before, devices@);
                lemma_extended_grown(read, before, devices@);
            }
            match result {
                Ok(_) => {},
                Err(_) => {
                    return Err(());
                },
            }
        }
        proof {
            assert(grown(before, devices@));
            assert forall|depth: nat, b: u8| 1 <= b <= bus implies #[trigger] host_bus_probed(
                read,
                devices@,
                b,
                depth,
            ) by {
                if b < bus {
                    lemma_host_bus_probed_grows(read, before, devices@, b, depth);
                } else {
                    assert(reads(read, config_address(0, 0, bus, 0x00), vendor));
                }
            }
        }
        bus = bus + 1;
    }
    proof {
        assert forall|depth: nat| all_scanned(read, devices@, depth) by {
            assert(reads(read, config_address(0, 0, 0, 0x0c), header));
        }
    }
    Ok(devices)
}

/// Whether position `i` holds an xHCI host controller.
pub open spec fn is_xhc(devices: Seq<Device>, i: int) -> bool {
    0 <= i < devices.len() && is_usb_controller(devices[i].class_code, XHCI_INTERFACE)
}

/// The position of the xHCI host controller that the kernel uses: the
/// first one made by Intel if there is one, and the last one of any vendor
/// if there is none.
pub open spec fn chosen_xhc(devices: Seq<Device>, chosen: Option<int>) -> bool {
    match chosen {
        None => forall|i: int| !is_xhc(devices, i),
        Some(c) => {
            &&& is_xhc(devices, c)
            &&& if devices[c].vendor_id == INTEL_VENDOR_ID {
                forall|i: int| is_xhc(devices, i) && i < c ==> devices[i].vendor_id
                    != INTEL_VENDOR_ID
            } else {
                forall|i: int|
                    is_xhc(devices, i) ==> i <= c && devices[i].vendor_id != INTEL_VENDOR_ID
            }
        },
    }
}

/// Finds the xHCI host controller that the kernel uses.
pub fn find_xhc(devices: &Devices) -> (position: Option<usize>)
    ensures
        chosen_xhc(
            devices@,
            match position {
                Some(p) => Some(p as int),
                None => None,
            },
        ),
{
    let mut found: Option<usize> = None;
    let mut i: usize = 0;
    let len = devices.len();
    while i < len
        invariant
            i <= len,
            len == devices@.len(),
            match found {
                None => forall|k: int| is_xhc(devices@, k) ==> k >= i,
                Some(c) => {
                    &&& c < i
                    &&& is_xhc(devices@, c as int)
                    &&& forall|k: int|
                        is_xhc(devices@, k) && k < i ==> k <= c && devices@[k].vendor_id
                            != INTEL_VENDOR_ID
                },
            },
        decreases len - i,
    {
        match devices.get(i) {
            Some(device) => {
                if device.is_usb_controller(XHCI_INTERFACE) {
                    found = Some(i);
                    if device.vendor_id == INTEL_VENDOR_ID {
                        return found;
                    }
                }
            },
            None => {},
        }
        i = i + 1;
    }
    found
}

/// Whether the list holds an EHCI host controller.
pub fn has_ehci(devices: &Devices) -> (found: bool)
    ensures
        found == exists|i: int|
            0 <= i < devices@.len() && is_usb_controller(
                (#[trigger] devices@[i]).class_code,
                EHCI_INTERFACE,
            ),
{
    let mut i: usize = 0;
    let len = devices.len();
    while i < len
        invariant
            i <= len,
            len == devices@.len(),
            forall|k: int|
                0 <= k < i ==> !is_usb_controller((#[trigger] devices@[k]).class_code, EHCI_INTERFACE),
        decreases len - i,
    {
        match devices.get(i) {
            Some(device) => {
                if device.is_usb_controller(EHCI_INTERFACE) {
                    return true;
                }
            },
            None => {},
        }
        i = i + 1;
    }
    false
}

/// Hands the USB ports of an Intel chipset over from its EHCI controller
/// to its xHCI controller, if the list holds an EHCI controller. The ports
/// that can be handed over are read from the xHCI controller's registers
/// 0xdc and 0xd4 and written to its registers 0xd8 and 0xd0; the two
/// values are returned.
pub fn switch_ehci_to_xhci<R: Fn(u32) -> u32, W: Fn(u32, u32)>(
    xhc_device: &Device,
    devices: &Devices,
    read: &R,
    write: &W,
) -> (switched: Option<(u32, u32)>)
    requires
        readable(read),
        writable(write),
        xhc_device.valid(),
    ensures
        switched is Some <==> exists|i: int|
            0 <= i < devices@.len() && is_usb_controller(
                (#[trigger] devices@[i]).class_code,
                EHCI_INTERFACE,
            ),
        switched matches Some((supported_ports, ehci2xhci_ports)) ==> {
            &&& reads(
                read,
                config_address(xhc_device.bus, xhc_device.device, xhc_device.function, 0xdc),
                supported_ports,
            )
            &&& writes(
                write,
                config_address(xhc_device.bus, xhc_device.device, xhc_device.function, 0xd8),
                supported_ports,
            )
            &&& reads(
                read,
                config_address(xhc_device.bus, xhc_device.device, xhc_device.function, 0xd4),
                ehci2xhci_ports,
            )
            &&& writes(
                write,
                config_address(xhc_device.bus, xhc_device.device, xhc_device.function, 0xd0),
                ehci2xhci_ports,
            )
        },
{
    if !has_ehci(devices) {
        return None;
    }
    // USB3PRM
    let supported_ports = xhc_device.read_conf_reg(0xdc, read);
    // USB3_PSSEN
    xhc_device.write_conf_reg(0xd8, supported_ports, write);
    // XUSB2PRM
    let ehci2xhci_ports = xhc_device.read_conf_reg(0xd4, read);
    // XUSB2PR
    xhc_device.write_conf_reg(0xd0, ehci2xhci_ports, write);
    Some((supported_ports, ehci2xhci_ports))
}

/// How an interrupt is signalled.
#[derive(Debug, Clone, Copy, PartialEq, Eq, Structural)]
pub enum MsiTriggerMode {
    Edge,
    Level,
}

/// How an interrupt is delivered.
#[derive(Debug, Clone, Copy, PartialEq, Eq, Structural)]
pub enum MsiDeliveryMode {
    Fixed,
    LowestPriority,
    Smi,
    Nmi,
    Init,
    ExtInt,
}

/// The number that stands for a delivery mode in a message.
pub open spec fn delivery_code(mode: MsiDeliveryMode) -> u8 {
    match mode {
        MsiDeliveryMode::Fixed => 0,
        MsiDeliveryMode::LowestPriority => 1,
        MsiDeliveryMode::Smi => 2,
        MsiDeliveryMode::Nmi => 4,
        MsiDeliveryMode::Init => 5,
        MsiDeliveryMode::ExtInt => 7,
    }
}

impl MsiDeliveryMode {
    /// The number that stands for the mode in a message.
    pub fn as_u8(self) -> (code: u8)
        ensures
            code == delivery_code(self),
    {
        match self {
            MsiDeliveryMode::Fixed => 0,
            MsiDeliveryMode::LowestPriority => 1,
            MsiDeliveryMode::Smi => 2,
            MsiDeliveryMode::Nmi => 4,
            MsiDeliveryMode::Init => 5,
            MsiDeliveryMode::ExtInt => 7,
        }
    }

    /// The number that stands for the mode in a message.
    pub fn as_u32(self) -> (code: u32)
        ensures
            code == delivery_code(self),
    {
        self.as_u8() as u32
    }
}

/// Id of the capability for message signalled interrupts.
pub const CAPABILITY_MSI: u8 = 0x05;

/// Id of the capability for extended message signalled interrupts.
pub const CAPABILITY_MSIX: u8 = 0x11;

/// The highest offset at which a capability for message signalled
/// interrupts, which takes up to 24 bytes, fits the 256 bytes of the
/// configuration space.
pub const LAST_CAPABILITY_OFFSET: u8 = 232;

/// The first register of a capability: its id, the offset of the next
/// capability, and 16 bits of its own.
#[derive(Debug, Clone, Copy, PartialEq, Eq, Structural)]
pub struct CapabilityHeader {
    pub cap_id: u8,
    pub next_ptr: u8,
    pub cap: u16,
}

/// The header that a register's value stands for: the id in the lowest
/// byte, the offset of the next capability in the second, the
/// capability's own bits in the upper half.
pub open spec fn header_of(value: u32) -> CapabilityHeader {
    CapabilityHeader {
        cap_id: (value & 0xff) as u8,
        next_ptr: ((value >> 8) & 0xff) as u8,
        cap: (value >> 16) as u16,
    }
}

/// The register's value that stands for a header.
pub open spec fn header_value(header: CapabilityHeader) -> u32 {
    (header.cap_id as u32) | ((header.next_ptr as u32) << 8) | ((header.cap as u32) << 16)
}

/// A header and the register's value that stands for it determine each
/// other.
pub proof fn lemma_header_round_trip(value: u32, header: CapabilityHeader)
    ensures
        header_value(header_of(value)) == value,
        header_of(header_value(header)) == header,
{
    assert(((value & 0xff) as u8 as u32) | ((((value >> 8) & 0xff) as u8 as u32) << 8) | (((value
        >> 16) as u16 as u32) << 16) == value) by (bit_vector);
    let id = header.cap_id;
    let next = header.next_ptr;
    let cap = header.cap;
    let packed = (id as u32) | ((next as u32) << 8) | ((cap as u32) << 16);
    assert((packed & 0xff) as u8 == id && ((packed >> 8) & 0xff) as u8 == next && (packed >> 16)
        as u16 == cap) by (bit_vector)
        requires
            packed == (id as u32) | ((next as u32) << 8) | ((cap as u32) << 16),
    ;
}

impl CapabilityHeader {
    /// The header that a register's value stands for.
    pub fn from_u32(value: u32) -> (header: CapabilityHeader)
        ensures
            header == header_of(value),
    {
        assert(value & 0xff <= 0xff && (value >> 8) & 0xff <= 0xff && value >> 16 <= 0xffff)
            by (bit_vector);
        CapabilityHeader {
            cap_id: (value & 0xff) as u8,
            next_ptr: ((value >> 8) & 0xff) as u8,
            cap: (value >> 16) as u16,
        }
    }

    /// The register's value that stands for the header.
    pub fn as_u32(self) -> (value: u32)
        ensures
            value == header_value(self),
    {
        (self.cap_id as u32) | ((self.next_ptr as u32) << 8) | ((self.cap as u32) << 16)
    }

    /// Sets whether message signalled interrupts are enabled: bit 0.
    pub fn set_msi_enable(&mut self, value: bool)
        ensures
            final(self).cap == with_bit_u16(old(self).cap, 0, value),
            final(self).cap_id == old(self).cap_id,
            final(self).next_ptr == old(self).next_ptr,
    {
        self.cap = set_bit_u16(self.cap, 0, value);
    }

    /// How many vectors the function can use, as a power of two: bits 1 to
    /// 3.
    pub fn multi_msg_capable(self) -> (exponent: u8)
        ensures
            exponent == bits_u16(self.cap, 1, 4),
            exponent < 8,
    {
        let bits = get_bits_u16(self.cap, 1, 4);
        let cap = self.cap;
        assert(bits_u16(cap, 1, 4) < 8) by (bit_vector);
        bits as u8
    }

    /// Sets how many vectors the function uses, as a power of two: bits 4
    /// to 6.
    pub fn set_multi_msg_enable(&mut self, value: u8)
        requires
            value < 8,
        ensures
            final(self).cap == with_bits_u16(old(self).cap, 4, 7, value as u16),
            final(self).cap_id == old(self).cap_id,
            final(self).next_ptr == old(self).next_ptr,
    {
        assert(crate::bits::fits_u16(value as u16, 3)) by (bit_vector)
            requires
                value < 8,
        ;
        self.cap = set_bits_u16(self.cap, 4, 7, value as u16);
    }

    /// Whether the message address has 64 bits: bit 7.
    pub fn addr_64_capable(self) -> (capable: bool)
        ensures
            capable == (self.cap & 0x80 != 0),
    {
        let capable = get_bit_u16(self.cap, 7);
        let cap = self.cap;
        assert((cap & (1u16 << 7u16) != 0) == (cap & 0x80 != 0)) by (bit_vector);
        capable
    }

    /// Whether single vectors can be masked: bit 8.
    pub fn per_vector_mask_capable(self) -> (capable: bool)
        ensures
            capable == (self.cap & 0x100 != 0),
    {
        let capable = get_bit_u16(self.cap, 8);
        let cap = self.cap;
        assert((cap & (1u16 << 8u16) != 0) == (cap & 0x100 != 0)) by (bit_vector);
        capable
    }
}

/// The registers of a capability for message signalled interrupts.
#[derive(Debug, Clone, Copy, PartialEq, Eq, Structural)]
pub struct MsiCapability {
    pub header: CapabilityHeader,
    pub msg_addr: u32,
    pub msg_upper_addr: u32,
    pub msg_data: u32,
    pub mask_bits: u32,
    pub pending_bits: u32,
}

/// The offset, from the start of the capability, of the register for the
/// message data: it follows the message address, which takes one or two
/// registers.
pub open spec fn data_offset(header: CapabilityHeader) -> int {
    if header.cap & 0x80 != 0 {
        12
    } else {
        8
    }
}

/// A capability can lie at offset `cap_addr`: the offset is a multiple of
/// 4, and the capability ends inside the configuration space.
pub open spec fn capability_at(cap_addr: u8) -> bool {
    cap_addr % 4 == 0 && cap_addr <= LAST_CAPABILITY_OFFSET
}

/// The address of the register at offset `cap_addr + offset` of a
/// function.
pub open spec fn register_at(device: &Device, cap_addr: u8, offset: int) -> u32 {
    config_address(device.bus, device.device, device.function, (cap_addr + offset) as u8)
}

/// The registers of the capability at offset `cap_addr` of a function can
/// read as `capability`. Registers that the capability does not have, by
/// its header, count as 0.
pub open spec fn capability_read<R: Fn(u32) -> u32>(
    device: &Device,
    cap_addr: u8,
    read: &R,
    capability: MsiCapability,
) -> bool {
    &&& reads(read, register_at(device, cap_addr, 0), header_value(capability.header))
    &&& reads(read, register_at(device, cap_addr, 4), capability.msg_addr)
    &&& if capability.header.cap & 0x80 != 0 {
        reads(read, register_at(device, cap_addr, 8), capability.msg_upper_addr)
    } else {
        capability.msg_upper_addr == 0
    }
    &&& reads(
        read,
        register_at(device, cap_addr, data_offset(capability.header)),
        capability.msg_data,
    )
    &&& if capability.header.cap & 0x100 != 0 {
        &&& reads(
            read,
            register_at(device, cap_addr, data_offset(capability.header) + 4),
            capability.mask_bits,
        )
        &&& reads(
            read,
            register_at(device, cap_addr, data_offset(capability.header) + 8),
            capability.pending_bits,
        )
    } else {
        capability.mask_bits == 0 && capability.pending_bits == 0
    }
}

/// The registers that the capability at offset `cap_addr` of a function
/// has, by the header of `capability`, can be written with the values of
/// `capability`.
pub open spec fn capability_written<W: Fn(u32, u32)>(
    device: &Device,
    cap_addr: u8,
    write: &W,
    capability: MsiCapability,
) -> bool {
    &&& writes(write, register_at(device, cap_addr, 0), header_value(capability.header))
    &&& writes(write, register_at(device, cap_addr, 4), capability.msg_addr)
    &&& capability.header.cap & 0x80 != 0 ==> writes(
        write,
        register_at(device, cap_addr, 8),
        capability.msg_upper_addr,
    )
    &&& writes(
        write,
        register_at(device, cap_addr, data_offset(capability.header)),
        capability.msg_data,
    )
    &&& capability.header.cap & 0x100 != 0 ==> writes(
        write,
        register_at(device, cap_addr, data_offset(capability.header) + 4),
        capability.mask_bits,
    ) && writes(
        write,
        register_at(device, cap_addr, data_offset(capability.header) + 8),
        capability.pending_bits,
    )
}

/// Message signalled interrupts of a function can have been enabled
/// through its capability at offset `cap_addr`: the capability's registers
/// can read as some values, and can be written with those values enabled
/// for the given message.
pub open spec fn msi_enabled<R: Fn(u32) -> u32, W: Fn(u32, u32)>(
    device: &Device,
    cap_addr: u8,
    msg_addr: u32,
    msg_data: u32,
    num_vector_exponent: u8,
    read: &R,
    write: &W,
) -> bool {
    exists|capability: MsiCapability|
        #[trigger] capability_read(device, cap_addr, read, capability) && capability_written(
            device,
            cap_addr,
            write,
            enabled(capability, msg_addr, msg_data, num_vector_exponent),
        )
}

/// Reads the header of the capability at offset `cap_addr`.
pub fn read_capability_header<R: Fn(u32) -> u32>(device: &Device, cap_addr: u8, read: &R) -> (header:
    CapabilityHeader)
    requires
        readable(read),
        device.valid(),
        cap_addr % 4 == 0,
    ensures
        reads(read, register_at(device, cap_addr, 0), header_value(header)),
{
    let value = device.read_conf_reg(cap_addr, read);
    proof {
        lemma_header_round_trip(value, header_of(value));
    }
    CapabilityHeader::from_u32(value)
}

/// Reads the registers of the capability for message signalled interrupts
/// at offset `cap_addr`. Registers that the capability does not have read
/// as 0.
pub fn read_msi_capability<R: Fn(u32) -> u32>(device: &Device, cap_addr: u8, read: &R) -> (capability:
    MsiCapability)
    requires
        readable(read),
        device.valid(),
        capability_at(cap_addr),
    ensures
        capability_read(device, cap_addr, read, capability),
{
    let header = read_capability_header(device, cap_addr, read);
    let msg_addr = device.read_conf_reg(cap_addr + 4, read);
    let msg_upper_addr;
    let msg_data_addr;
    if header.addr_64_capable() {
        msg_upper_addr = device.read_conf_reg(cap_addr + 8, read);
        msg_data_addr = cap_addr + 12;
    } else {
        msg_upper_addr = 0;
        msg_data_addr = cap_addr + 8;
    }
    let msg_data = device.read_conf_reg(msg_data_addr, read);
    let mask_bits;
    let pending_bits;
    if header.per_vector_mask_capable() {
        mask_bits = device.read_conf_reg(msg_data_addr + 4, read);
        pending_bits = device.read_conf_reg(msg_data_addr + 8, read);
    } else {
        mask_bits = 0;
        pending_bits = 0;
    }
    MsiCapability { header, msg_addr, msg_upper_addr, msg_data, mask_bits, pending_bits }
}

/// Writes the registers of the capability for message signalled
/// interrupts at offset `cap_addr`; the registers that the capability does
/// not have are passed over.
pub fn write_msi_capability<W: Fn(u32, u32)>(
    device: &Device,
    cap_addr: u8,
    msi_cap: MsiCapability,
    write: &W,
)
    requires
        writable(write),
        device.valid(),
        capability_at(cap_addr),
    ensures
        capability_written(device, cap_addr, write, msi_cap),
{
    device.write_conf_reg(cap_addr, msi_cap.header.as_u32(), write);
    device.write_conf_reg(cap_addr + 4, msi_cap.msg_addr, write);
    let msg_data_addr;
    if msi_cap.header.addr_64_capable() {
        device.write_conf_reg(cap_addr + 8, msi_cap.msg_upper_addr, write);
        msg_data_addr = cap_addr + 12;
    } else {
        msg_data_addr = cap_addr + 8;
    }
    device.write_conf_reg(msg_data_addr, msi_cap.msg_data, write);
    if msi_cap.header.per_vector_mask_capable() {
        device.write_conf_reg(msg_data_addr + 4, msi_cap.mask_bits, write);
        device.write_conf_reg(msg_data_addr + 8, msi_cap.pending_bits, write);
    }
}

/// The capability with message signalled interrupts enabled: it uses as
/// many vectors as asked for, or as many as it can if that is fewer, and
/// sends the given message.
pub open spec fn enabled(
    capability: MsiCapability,
    msg_addr: u32,
    msg_data: u32,
    num_vector_exponent: u8,
) -> MsiCapability {
    let capable = bits_u16(capability.header.cap, 1, 4);
    let exponent = if capable <= num_vector_exponent {
        capable
    } else {
        num_vector_exponent as u16
    };
    MsiCapability {
        header: CapabilityHeader {
            cap: with_bit_u16(with_bits_u16(capability.header.cap, 4, 7, exponent), 0, true),
            ..capability.header
        },
        msg_addr,
        msg_data,
        ..capability
    }
}

/// Enables message signalled interrupts in the registers of a capability.
pub fn enable_msi(
    capability: MsiCapability,
    msg_addr: u32,
    msg_data: u32,
    num_vector_exponent: u8,
) -> (result: MsiCapability)
    ensures
        result == enabled(capability, msg_addr, msg_data, num_vector_exponent),
{
    let mut msi_cap = capability;
    let capable = msi_cap.header.multi_msg_capable();
    let multi_msg_enable = if capable <= num_vector_exponent {
        capable
    } else {
        num_vector_exponent
    };
    let mut header = msi_cap.header;
    header.set_multi_msg_enable(multi_msg_enable);
    header.set_msi_enable(true);
    msi_cap.header = header;
    msi_cap.msg_addr = msg_addr;
    msi_cap.msg_data = msg_data;
    msi_cap
}

/// Enables message signalled interrupts of a function through its
/// capability at offset `cap_addr`: reads the capability's registers and
/// writes them back enabled.
pub fn configure_msi_register<R: Fn(u32) -> u32, W: Fn(u32, u32)>(
    device: &Device,
    cap_addr: u8,
    msg_addr: u32,
    msg_data: u32,
    num_vector_exponent: u8,
    read: &R,
    write: &W,
) -> (result: Result<(), ()>)
    requires
        readable(read),
        writable(write),
        device.valid(),
        capability_at(cap_addr),
    ensures
        result is Ok,
        msi_enabled(device, cap_addr, msg_addr, msg_data, num_vector_exponent, read, write),
{
    let msi_cap = read_msi_capability(device, cap_addr, read);
    let msi_cap = enable_msi(msi_cap, msg_addr, msg_data, num_vector_exponent);
    write_msi_capability(device, cap_addr, msi_cap, write);
    Ok(())
}

/// Extended message signalled interrupts are not supported.
pub fn configure_msix_register(
    _device: &Device,
    _cap_addr: u8,
    _msg_addr: u32,
    _msg_data: u32,
    _num_vector_exponent: u8,
) -> (result: Result<(), ()>)
    ensures
        result is Err,
{
    Err(())
}

/// The capabilities for interrupts that a walk of the capability list has
/// found.
#[derive(Debug, Clone, Copy, PartialEq, Eq, Structural)]
pub struct FoundCapabilities {
    /// Offset of the capability for message signalled interrupts.
    pub msi: Option<u8>,
    /// Offset of the capability for extended message signalled
    /// interrupts.
    pub msix: Option<u8>,
}

/// What was found, with the capability at offset `cap_addr` taken note
/// of. Of two capabilities of one kind the later one counts.
pub open spec fn noted(found: FoundCapabilities, cap_addr: u8, cap_id: u8) -> FoundCapabilities {
    if cap_id == CAPABILITY_MSI {
        FoundCapabilities { msi: Some(cap_addr), ..found }
    } else if cap_id == CAPABILITY_MSIX {
        FoundCapabilities { msix: Some(cap_addr), ..found }
    } else {
        found
    }
}

/// Takes note of the capability at offset `cap_addr`.
pub fn note_capability(found: FoundCapabilities, cap_addr: u8, cap_id: u8) -> (result:
    FoundCapabilities)
    ensures
        result == noted(found, cap_addr, cap_id),
{
    if cap_id == CAPABILITY_MSI {
        FoundCapabilities { msi: Some(cap_addr), msix: found.msix }
    } else if cap_id == CAPABILITY_MSIX {
        FoundCapabilities { msi: found.msi, msix: Some(cap_addr) }
    } else {
        found
    }
}

/// A capability with the id `cap_id` lies at offset `cap_addr` of a
/// function: the offset is a multiple of 4 other than 0, and the register
/// there can read as a header with that id.
pub open spec fn heads<R: Fn(u32) -> u32>(device: &Device, read: &R, cap_addr: u8, cap_id: u8) -> bool {
    &&& cap_addr % 4 == 0
    &&& cap_addr != 0
    &&& exists|value: u32|
        #[trigger] reads(read, register_at(device, cap_addr, 0), value) && header_of(value).cap_id
            == cap_id
}

/// Nothing found.
pub open spec fn nothing_found() -> FoundCapabilities {
    FoundCapabilities { msi: None, msix: None }
}

/// The walk of a capability list goes on at offset `cap_addr`: the offset
/// is not 0, which marks the end of the list, and is a multiple of 4.
pub open spec fn walk_goes_on(cap_addr: u8) -> bool {
    cap_addr != 0 && cap_addr % 4 == 0
}

/// The longest walk of a capability list: more capabilities than the
/// configuration space holds.
pub const MAX_WALK: u8 = 64;

/// The offset of capability `i` of a list that starts at offset `start` and
/// whose headers read as `headers`: the first lies at `start`, each
/// further one where the header before it points.
pub open spec fn walk_offset(start: u8, headers: Seq<u32>, i: int) -> u8 {
    if i <= 0 {
        start
    } else {
        header_of(headers[i - 1]).next_ptr
    }
}

/// What the first `n` capabilities of a list hold for interrupts.
pub open spec fn walk_found(start: u8, headers: Seq<u32>, n: int) -> FoundCapabilities
    decreases n,
{
    if n <= 0 {
        nothing_found()
    } else {
        noted(
            walk_found(start, headers, n - 1),
            walk_offset(start, headers, n - 1),
            header_of(headers[n - 1]).cap_id,
        )
    }
}

/// Step `i` of a walk: the walk goes on at the offset of capability `i`,
/// and the register there can read as header `i`.
pub open spec fn walk_step<R: Fn(u32) -> u32>(
    device: &Device,
    read: &R,
    start: u8,
    headers: Seq<u32>,
    i: int,
) -> bool {
    &&& walk_goes_on(walk_offset(start, headers, i))
    &&& reads(read, register_at(device, walk_offset(start, headers, i), 0), headers[i])
}

/// `headers` are the headers of a walk of the capability list of a
/// function, whose register 0x34 read as `first`: the list starts at the
/// offset in the lowest byte of `first`; each header was read where the
/// walk went on; and the walk ended where it does not go on, or after
/// [`MAX_WALK`] capabilities.
pub open spec fn is_walk<R: Fn(u32) -> u32>(
    device: &Device,
    read: &R,
    first: u32,
    headers: Seq<u32>,
) -> bool {
    let start = (first & 0xff) as u8;
    &&& reads(read, config_address(device.bus, device.device, device.function, 0x34), first)
    &&& headers.len() <= MAX_WALK
    &&& forall|i: int| 0 <= i < headers.len() ==> #[trigger] walk_step(device, read, start, headers, i)
    &&& headers.len() < MAX_WALK ==> !walk_goes_on(
        walk_offset(start, headers, headers.len() as int),
    )
}

/// `found` is what a walk of the capability list of a function finds.
pub open spec fn walked<R: Fn(u32) -> u32>(device: &Device, read: &R, found: FoundCapabilities) -> bool {
    exists|first: u32, headers: Seq<u32>| #[trigger]
        is_walk(device, read, first, headers) && found == walk_found(
            (first & 0xff) as u8,
            headers,
            headers.len() as int,
        )
}

/// What the first capabilities of a list hold does not depend on the
/// headers that follow them.
proof fn lemma_walk_found_prefix(start: u8, headers: Seq<u32>, more: u32, n: int)
    requires
        0 <= n <= headers.len(),
    ensures
        walk_found(start, headers.push(more), n) == walk_found(start, headers, n),
    decreases n,
{
    if n > 0 {
        lemma_walk_found_prefix(start, headers, more, n - 1);
        assert(headers.push(more)[n - 1] == headers[n - 1]);
        if n - 1 > 0 {
            assert(headers.push(more)[n - 2] == headers[n - 2]);
        }
    }
}

/// Walks the capability list of a function, which starts at the offset in
/// register 0x34, and takes note of its capabilities for interrupts. The
/// walk ends at offset 0, at an offset that is no multiple of 4, and after
/// 64 capabilities, which is more than the configuration space holds.
pub fn find_capabilities<R: Fn(u32) -> u32>(device: &Device, read: &R) -> (found: FoundCapabilities)
    requires
        readable(read),
        device.valid(),
    ensures
        walked(device, read, found),
        found.msi matches Some(cap_addr) ==> heads(device, read, cap_addr, CAPABILITY_MSI),
        found.msix matches Some(cap_addr) ==> heads(device, read, cap_addr, CAPABILITY_MSIX),
{
    let first = device.read_conf_reg(0x34, read);
    assert(first & 0xff <= 0xff) by (bit_vector);
    let mut cap_addr = (first & 0xff) as u8;
    let ghost start = cap_addr;
    let ghost mut headers: Seq<u32> = Seq::empty();
    let mut found = FoundCapabilities { msi: None, msix: None };
    let mut steps: u8 = 0;
    while cap_addr != 0 && cap_addr % 4 == 0 && steps < MAX_WALK
        invariant
            readable(read),
            device.valid(),
            steps <= MAX_WALK,
            headers.len() == steps,
            cap_addr == walk_offset(start, headers, steps as int),
            found == walk_found(start, headers, steps as int),
            forall|i: int|
                0 <= i < headers.len() ==> #[trigger] walk_step(device, read, start, headers, i),
            found.msi matches Some(a) ==> heads(device, read, a, CAPABILITY_MSI),
            found.msix matches Some(a) ==> heads(device, read, a, CAPABILITY_MSIX),
        decreases MAX_WALK - steps,
    {
        let header = read_capability_header(device, cap_addr, read);
        let ghost value = header_value(header);
        let ghost longer = headers.push(value);
        proof {
            lemma_header_round_trip(value, header);
            assert(reads(read, register_at(device, cap_addr, 0), value));
            lemma_walk_found_prefix(start, headers, value, steps as int);
            assert(longer[steps as int] == value);
            assert forall|i: int| 0 <= i < longer.len() implies #[trigger] walk_step(
                device,
                read,
                start,
                longer,
                i,
            ) by {
                if i < steps {
                    assert(walk_step(device, read, start, headers, i));
                    assert(longer[i] == headers[i]);
                    if i > 0 {
                        assert(longer[i - 1] == headers[i - 1]);
                    }
                    assert(walk_offset(start, longer, i) == walk_offset(start, headers, i));
                } else {
                    if i > 0 {
                        assert(longer[i - 1] == headers[i - 1]);
                    }
                    assert(walk_offset(start, longer, i) == cap_addr);
                }
            }
        }
        found = note_capability(found, cap_addr, header.cap_id);
        cap_addr = header.next_ptr;
        steps = steps + 1;
        proof {
            headers = longer;
        }
    }
    proof {
        assert(is_walk(device, read, first, headers));
    }
    found
}

/// What enabling message signalled interrupts of a function with the
/// given message comes to: a walk of the function's capability list finds
/// its capabilities for interrupts; the result is `Ok` exactly if
/// interrupts can be enabled through what was found; and then they were
/// enabled through the capability for message signalled interrupts that
/// was found.
pub open spec fn msi_configured<R: Fn(u32) -> u32, W: Fn(u32, u32)>(
    device: &Device,
    msg_addr: u32,
    msg_data: u32,
    num_vector_exponent: u8,
    read: &R,
    write: &W,
    result: Result<(), ()>,
) -> bool {
    exists|found: FoundCapabilities| #[trigger]
        walked(device, read, found) && (result is Ok <==> can_configure(found)) && (result is Ok
            ==> heads(device, read, found.msi->Some_0, CAPABILITY_MSI) && msi_enabled(
            device,
            found.msi->Some_0,
            msg_addr,
            msg_data,
            num_vector_exponent,
            read,
            write,
        ))
}

/// Enables message signalled interrupts of a function with the given
/// message. Fails if the function has no capability for them, or only the
/// extended one, or one that does not fit the configuration space.
pub fn configure_msi<R: Fn(u32) -> u32, W: Fn(u32, u32)>(
    device: &Device,
    msg_addr: u32,
    msg_data: u32,
    num_vector_exponent: u8,
    read: &R,
    write: &W,
) -> (result: Result<(), ()>)
    requires
        readable(read),
        writable(write),
        device.valid(),
    ensures
        msi_configured(device, msg_addr, msg_data, num_vector_exponent, read, write, result),
{
    let found = find_capabilities(device, read);
    configure_found(device, found, msg_addr, msg_data, num_vector_exponent, read, write)
}

/// Whether interrupts can be enabled through the capabilities that were
/// found: there is one for message signalled interrupts, and it fits the
/// configuration space.
pub open spec fn can_configure(found: FoundCapabilities) -> bool {
    found.msi matches Some(cap_addr) && capability_at(cap_addr)
}

/// Enables message signalled interrupts of a function through the
/// capabilities that a walk has found.
pub fn configure_found<R: Fn(u32) -> u32, W: Fn(u32, u32)>(
    device: &Device,
    found: FoundCapabilities,
    msg_addr: u32,
    msg_data: u32,
    num_vector_exponent: u8,
    read: &R,
    write: &W,
) -> (result: Result<(), ()>)
    requires
        readable(read),
        writable(write),
        device.valid(),
    ensures
        result is Ok <==> can_configure(found),
        result is Ok ==> msi_enabled(
            device,
            found.msi->Some_0,
            msg_addr,
            msg_data,
            num_vector_exponent,
            read,
            write,
        ),
{
    match found.msi {
        Some(cap_addr) => {
            if cap_addr % 4 != 0 || cap_addr > LAST_CAPABILITY_OFFSET {
                return Err(());
            }
            return configure_msi_register(
                device,
                cap_addr,
                msg_addr,
                msg_data,
                num_vector_exponent,
                read,
                write,
            );
        },
        None => {},
    }
    match found.msix {
        Some(cap_addr) => {
            return configure_msix_register(
                device,
                cap_addr,
                msg_addr,
                msg_data,
                num_vector_exponent,
            );
        },
        None => {},
    }
    Err(())
}

/// The address that a message for the processor with the given APIC id is
/// sent to.
pub open spec fn message_address(apic_id: u32) -> u32 {
    0xfee0_0000u32 | (apic_id << 12)
}

/// The data of a message that raises `vector`.
pub open spec fn message_data(
    trigger_mode: MsiTriggerMode,
    delivery_mode: MsiDeliveryMode,
    vector: u32,
) -> u32 {
    let data = ((delivery_code(delivery_mode) as u32) << 8) | vector;
    if trigger_mode == MsiTriggerMode::Level {
        data | 0xc000
    } else {
        data
    }
}

/// The address and the data of the message that raises `vector` on the
/// processor with the given APIC id.
pub fn fixed_destination_message(
    apic_id: u32,
    trigger_mode: MsiTriggerMode,
    delivery_mode: MsiDeliveryMode,
    vector: u32,
) -> (message: (u32, u32))
    ensures
        message.0 == message_address(apic_id),
        message.1 == message_data(trigger_mode, delivery_mode, vector),
{
    let msg_addr = 0xfee0_0000u32 | (apic_id << 12);
    let mut msg_data = (delivery_mode.as_u32() << 8) | vector;
    match trigger_mode {
        MsiTriggerMode::Level => {
            msg_data = msg_data | 0xc000;
        },
        MsiTriggerMode::Edge => {},
    }
    (msg_addr, msg_data)
}

/// Enables message signalled interrupts of a function so that they raise
/// `vector` on the processor with the given APIC id.
pub fn configure_msi_fixed_destination<R: Fn(u32) -> u32, W: Fn(u32, u32)>(
    device: &Device,
    apic_id: u32,
    trigger_mode: MsiTriggerMode,
    delivery_mode: MsiDeliveryMode,
    vector: u32,
    num_vector_exponent: u8,
    read: &R,
    write: &W,
) -> (result: Result<(), ()>)
    requires
        readable(read),
        writable(write),
        device.valid(),
    ensures
        msi_configured(
            device,
            message_address(apic_id),
            message_data(trigger_mode, delivery_mode, vector),
            num_vector_exponent,
            read,
            write,
            result,
        ),
{
    let message = fixed_destination_message(apic_id, trigger_mode, delivery_mode, vector);
    configure_msi(device, message.0, message.1, num_vector_exponent, read, write)
}

} // verus!
