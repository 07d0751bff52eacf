use mikanos_kernel::frame::{BitmapMemoryManager, FrameId};
use mikanos_kernel::memory::{
    init, is_trackable, parse_descriptor, parse_memory_map, MemoryDescriptor, MemoryType,
};

fn region(memory_type: MemoryType, start: u64, pages: u64) -> MemoryDescriptor {
    MemoryDescriptor {
        memory_type,
        physical_start: start,
        virtual_start: 0,
        number_of_pages: pages,
        attribute: 0xf,
    }
}

fn encode(descriptor: &MemoryDescriptor, raw_type: u32, stride: usize) -> Vec<u8> {
    let mut bytes = Vec::new();
    bytes.extend_from_slice(&raw_type.to_le_bytes());
    bytes.extend_from_slice(&[0xaa; 4]);
    bytes.extend_from_slice(&descriptor.physical_start.to_le_bytes());
    bytes.extend_from_slice(&descriptor.virtual_start.to_le_bytes());
    bytes.extend_from_slice(&descriptor.number_of_pages.to_le_bytes());
    bytes.extend_from_slice(&descriptor.attribute.to_le_bytes());
    bytes.resize(stride, 0x55);
    bytes
}

fn allocated_in(manager: &BitmapMemoryManager, from: u64, to: u64) -> Vec<u64> {
    (from..to).filter(|i| manager.get_bit(FrameId::new(*i))).collect()
}

#[test]
fn memory_types_have_the_firmware_numbers() {
    assert_eq!(MemoryType::from_raw(0), Some(MemoryType::EfiReservedMemoryType));
    assert_eq!(MemoryType::from_raw(3), Some(MemoryType::EfiBootServicesCode));
    assert_eq!(MemoryType::from_raw(4), Some(MemoryType::EfiBootServicesData));
    assert_eq!(MemoryType::from_raw(7), Some(MemoryType::EfiConventionalMemory));
    assert_eq!(MemoryType::from_raw(11), Some(MemoryType::EfiMemoryMappedIO));
    assert_eq!(MemoryType::from_raw(15), Some(MemoryType::EfiMaxMemoryType));
    assert_eq!(MemoryType::from_raw(16), None);
    assert_eq!(MemoryType::from_raw(u32::MAX), None);
}

#[test]
fn three_memory_types_are_available() {
    let available: Vec<u32> =
        (0..16).filter(|raw| MemoryType::from_raw(*raw).unwrap().is_available()).collect();
    assert_eq!(available, vec![3, 4, 7]);
}

#[test]
fn descriptor_end_and_trackability() {
    let d = region(MemoryType::EfiConventionalMemory, 0x10_0000, 16);
    assert_eq!(d.physical_end(), 0x10_0000 + 16 * 4096);
    assert!(d.is_trackable());
    assert!(region(MemoryType::EfiConventionalMemory, 0, 0x200_0000).is_trackable());
    assert!(!region(MemoryType::EfiConventionalMemory, 0, 0x200_0001).is_trackable());
    assert!(!region(MemoryType::EfiConventionalMemory, 0x20_0000_0000, 1).is_trackable());
    assert!(!region(MemoryType::EfiMemoryMappedIO, u64::MAX - 4095, 1).is_trackable());
    assert!(!region(MemoryType::EfiMemoryMappedIO, 0, u64::MAX).is_trackable());
    assert!(is_trackable(&[d, region(MemoryType::EfiLoaderData, 0x1000, 2)]));
    assert!(!is_trackable(&[d, region(MemoryType::EfiLoaderData, 0x20_0000_0000, 2)]));
}

#[test]
fn descriptors_are_read_little_endian() {
    let d = MemoryDescriptor {
        memory_type: MemoryType::EfiConventionalMemory,
        physical_start: 0x0123_4567_89ab_cdef,
        virtual_start: 0xfedc_ba98_7654_3210,
        number_of_pages: 0x1_0000_0001,
        attribute: 0x8000_0000_0000_000f,
    };
    let mut buffer = vec![0x11u8; 3];
    buffer.extend(encode(&d, 7, 40));
    assert_eq!(parse_descriptor(&buffer, 3), Some(d));
    let mut unknown = encode(&d, 0x100, 40);
    assert_eq!(parse_descriptor(&unknown, 0), None);
    unknown[1] = 0;
    unknown[0] = 16;
    assert_eq!(parse_descriptor(&unknown, 0), None);
}

#[test]
fn memory_map_is_read_by_stride() {
    let first = region(MemoryType::EfiLoaderCode, 0x1000, 3);
    let second = region(MemoryType::EfiConventionalMemory, 0x4000, 10);
    let mut buffer = encode(&first, 1, 48);
    buffer.extend(encode(&second, 7, 48));
    buffer.extend(vec![0xffu8; 20]);
    assert_eq!(parse_memory_map(&buffer, 96, 48), Some(vec![first, second]));
    // A map size that is no multiple of the stride: the rest is no descriptor.
    assert_eq!(parse_memory_map(&buffer, 100, 48), Some(vec![first, second]));
    assert_eq!(parse_memory_map(&buffer, 95, 48), Some(vec![first]));
    assert_eq!(parse_memory_map(&buffer, 0, 48), Some(vec![]));
    // The map does not fit the buffer, or the stride is too short.
    assert_eq!(parse_memory_map(&buffer, 117, 48), None);
    assert_eq!(parse_memory_map(&buffer, 96, 39), None);
    assert_eq!(parse_memory_map(&buffer, 96, 0), None);
    // An unknown type in the second descriptor.
    buffer[48] = 200;
    assert_eq!(parse_memory_map(&buffer, 96, 48), None);
    assert_eq!(parse_memory_map(&buffer, 48, 48), Some(vec![first]));
}

#[test]
fn survey_reserves_what_is_not_available() {
    let map = [
        region(MemoryType::EfiBootServicesCode, 0, 1),
        region(MemoryType::EfiConventionalMemory, 0x1000, 3),
        region(MemoryType::EfiLoaderData, 0x4000, 2),
        region(MemoryType::EfiBootServicesData, 0x6000, 2),
        // Frames 8 and 9 are reported by no descriptor.
        region(MemoryType::EfiConventionalMemory, 0xa000, 6),
        region(MemoryType::EfiACPIMemoryNVS, 0x10000, 1),
        region(MemoryType::EfiMemoryMappedIO, 0x20000, 2),
    ];
    let mut manager = BitmapMemoryManager::new();
    init(&mut manager, &map);
    assert_eq!(allocated_in(&manager, 0, 64), vec![4, 5, 8, 9, 16, 17, 18, 19, 20, 21, 22, 23, 24,
        25, 26, 27, 28, 29, 30, 31, 32, 33]);
    assert_eq!(manager.begin().get(), 1);
    assert_eq!(manager.end().get(), 16);
    assert_eq!(manager.allocate(4).unwrap().get(), 10);
    assert_eq!(manager.allocate(3).unwrap().get(), 1);
    assert_eq!(manager.allocate(2).unwrap().get(), 6);
    assert_eq!(manager.allocate(2).unwrap().get(), 14);
    assert!(manager.allocate(1).is_err());
}

#[test]
fn survey_of_empty_map_leaves_nothing_to_allocate() {
    let mut manager = BitmapMemoryManager::new();
    init(&mut manager, &[]);
    assert_eq!(manager.begin().get(), 1);
    assert_eq!(manager.end().get(), 0);
    assert!(manager.allocate(1).is_err());
    assert_eq!(allocated_in(&manager, 0, 64), Vec::<u64>::new());
}

#[test]
fn survey_keeps_earlier_marks() {
    let mut manager = BitmapMemoryManager::new();
    manager.set_bit(FrameId::new(2), true);
    init(&mut manager, &[region(MemoryType::EfiConventionalMemory, 0, 8)]);
    assert_eq!(allocated_in(&manager, 0, 64), vec![2]);
    assert_eq!(manager.end().get(), 8);
}
