use mikanos_kernel::segments::{
    kernel_gdt, DescriptorType, SegmentDescriptor, GDT_ENTRIES, GDT_LIMIT, KERNEL_CS, KERNEL_SS,
};

#[test]
fn kernel_table_has_null_code_and_data_segments() {
    let table = kernel_gdt();
    assert_eq!(table.len(), GDT_ENTRIES);
    assert_eq!(table[0].get(), 0);
    assert_eq!(table[1].get(), 0x0020_9a00_0000_0000);
    assert_eq!(table[2].get(), 0x0040_9200_0000_0000);
    assert_eq!(GDT_LIMIT as usize, GDT_ENTRIES * 8 - 1);
    assert_eq!((KERNEL_CS, KERNEL_SS), (1 << 3, 2 << 3));
}

#[test]
fn privilege_level_goes_to_bits_45_and_46() {
    let mut code = SegmentDescriptor::new();
    code.initialize_code_segment(3);
    assert_eq!(code.get(), 0x0020_fa00_0000_0000);
    let mut data = SegmentDescriptor::new();
    data.initialize_data_segment(1);
    assert_eq!(data.get(), 0x0040_b200_0000_0000);
    // Initialising again replaces the fields.
    data.initialize_code_segment(0);
    assert_eq!(data.get(), 0x0020_9a00_0000_0000);
}

#[test]
fn descriptor_types_have_their_bits() {
    let types = [
        DescriptorType::Upper8Bytes,
        DescriptorType::LDT,
        DescriptorType::TSSAvailable,
        DescriptorType::ExecuteRead,
        DescriptorType::TSSBusy,
        DescriptorType::CallGate,
        DescriptorType::InterruptGate,
        DescriptorType::TrapGate,
    ];
    let bits: Vec<u64> = types.iter().map(|t| t.bits()).collect();
    assert_eq!(bits, vec![0, 2, 9, 10, 11, 12, 14, 15]);
}
