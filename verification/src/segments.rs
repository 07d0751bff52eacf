//! Segment descriptors of the global descriptor table.
//!
//! A descriptor is a 64-bit word. Of its fields the kernel sets the type
//! (bits 40 to 43), whether the segment is one for code or data (bit 44),
//! the privilege level (bits 45 and 46), whether it is present (bit 47),
//! whether it is a 64-bit code segment (bit 53), and the default operation
//! size (bit 54). Base and limit stay 0: in long mode they are not used.

use vstd::prelude::*;

verus! {

/// Number of descriptors in the kernel's table: the null descriptor, the
/// code segment, the data segment.
pub const GDT_ENTRIES: usize = 3;

/// Selector of the kernel's code segment: descriptor 1.
pub const KERNEL_CS: u16 = 8;

/// Selector of the kernel's stack segment: descriptor 2.
pub const KERNEL_SS: u16 = 16;

/// The limit of a table of `GDT_ENTRIES` descriptors of 8 bytes: its size
/// less one.
pub const GDT_LIMIT: u16 = 23;

/// The type of a segment.
#[derive(Debug, Clone, Copy, PartialEq, Eq, Structural)]
pub enum DescriptorType {
    Upper8Bytes,
    LDT,
    TSSAvailable,
    ExecuteRead,
    TSSBusy,
    CallGate,
    InterruptGate,
    TrapGate,
}

/// The four bits that stand for a type in a descriptor.
pub open spec fn type_bits(descriptor_type: DescriptorType) -> u64 {
    match descriptor_type {
        DescriptorType::Upper8Bytes => 0,
        DescriptorType::LDT => 2,
        DescriptorType::TSSAvailable => 9,
        DescriptorType::ExecuteRead => 10,
        DescriptorType::TSSBusy => 11,
        DescriptorType::CallGate => 12,
        DescriptorType::InterruptGate => 14,
        DescriptorType::TrapGate => 15,
    }
}

impl DescriptorType {
    /// The four bits that stand for the type in a descriptor.
    pub fn bits(self) -> (bits: u64)
        ensures
            bits == type_bits(self),
            bits < 16,
    {
        match self {
            DescriptorType::Upper8Bytes => 0,
            DescriptorType::LDT => 2,
            DescriptorType::TSSAvailable => 9,
            DescriptorType::ExecuteRead => 10,
            DescriptorType::TSSBusy => 11,
            DescriptorType::CallGate => 12,
            DescriptorType::InterruptGate => 14,
            DescriptorType::TrapGate => 15,
        }
    }
}

/// A descriptor with base and limit 0 and the given fields.
pub open spec fn descriptor(
    descriptor_type: DescriptorType,
    privilege_level: u8,
    long_mode: bool,
    default_operation_size: bool,
) -> u64 {
    (type_bits(descriptor_type) << 40) | (1u64 << 44) | ((privilege_level as u64) << 45) | (1u64
        << 47) | (if long_mode {
        1u64 << 53
    } else {
        0
    }) | (if default_operation_size {
        1u64 << 54
    } else {
        0
    })
}

/// One entry of the global descriptor table.
#[derive(Debug, Clone, Copy, PartialEq, Eq, Structural)]
pub struct SegmentDescriptor(u64);

impl SegmentDescriptor {
    /// The descriptor as a 64-bit word.
    pub closed spec fn value(self) -> u64 {
        self.0
    }

    /// The null descriptor.
    pub fn new() -> (null: SegmentDescriptor)
        ensures
            null.value() == 0,
    {
        SegmentDescriptor(0)
    }

    /// The descriptor as a 64-bit word.
    pub fn get(&self) -> (value: u64)
        ensures
            value == self.value(),
    {
        self.0
    }

    /// Keeps base and limit and sets the other fields.
    fn initialize(
        &mut self,
        descriptor_type: DescriptorType,
        privilege_level: u8,
        long_mode: bool,
        default_operation_size: bool,
    )
        requires
            privilege_level < 4,
        ensures
            final(self).value() == (old(self).value() & 0xff8f_00ff_ffff_ffff) | descriptor(
                descriptor_type,
                privilege_level,
                long_mode,
                default_operation_size,
            ),
    {
        let kept = self.0 & 0xff8f_00ff_ffff_ffff;
        let mut fields = (descriptor_type.bits() << 40) | (1u64 << 44) | ((privilege_level as u64)
            << 45) | (1u64 << 47);
        if long_mode {
            fields = fields | (1u64 << 53);
        }
        if default_operation_size {
            fields = fields | (1u64 << 54);
        }
        let ghost bits = type_bits(descriptor_type);
        let ghost level = privilege_level as u64;
        assert(fields == descriptor(
            descriptor_type,
            privilege_level,
            long_mode,
            default_operation_size,
        )) by {
            let a = (bits << 40) | (1u64 << 44) | (level << 45) | (1u64 << 47);
            assert(a | 0 == a) by (bit_vector);
            assert((a | (1u64 << 53)) | 0 == a | (1u64 << 53)) by (bit_vector);
            assert((a | (1u64 << 53)) | (1u64 << 54) == a | (1u64 << 53) | (1u64 << 54))
                by (bit_vector);
            assert(a | (1u64 << 54) == a | 0 | (1u64 << 54)) by (bit_vector);
        }
        self.0 = kept | fields;
    }

    /// Makes the descriptor one of a 64-bit code segment that can be
    /// executed and read.
    pub fn initialize_code_segment(&mut self, descriptor_privilege_level: u8)
        requires
            descriptor_privilege_level < 4,
        ensures
            final(self).value() == (old(self).value() & 0xff8f_00ff_ffff_ffff) | descriptor(
                DescriptorType::ExecuteRead,
                descriptor_privilege_level,
                true,
                false,
            ),
    {
        self.initialize(DescriptorType::ExecuteRead, descriptor_privilege_level, true, false);
    }

    /// Makes the descriptor one of a data segment that can be read and
    /// written.
    pub fn initialize_data_segment(&mut self, descriptor_privilege_level: u8)
        requires
            descriptor_privilege_level < 4,
        ensures
            final(self).value() == (old(self).value() & 0xff8f_00ff_ffff_ffff) | descriptor(
                DescriptorType::LDT,
                descriptor_privilege_level,
                false,
                true,
            ),
    {
        self.initialize(DescriptorType::LDT, descriptor_privilege_level, false, true);
    }
}

/// The kernel's table: the null descriptor, the code segment and the data
/// segment, both of privilege level 0.
pub fn kernel_gdt() -> (table: [SegmentDescriptor; 3])
    ensures
        table@[0].value() == 0,
        table@[1].value() == 0x0020_9a00_0000_0000,
        table@[2].value() == 0x0040_9200_0000_0000,
{
    let mut code = SegmentDescriptor::new();
    code.initialize_code_segment(0);
    let mut data = SegmentDescriptor::new();
    data.initialize_data_segment(0);
    let code_value = code.get();
    let data_value = data.get();
    assert(code_value == 0x0020_9a00_0000_0000) by (bit_vector)
        requires
            code_value == (0u64 & 0xff8f_00ff_ffff_ffff) | ((10u64 << 40) | (1u64 << 44) | ((0u8
                as u64) << 45) | (1u64 << 47) | (1u64 << 53) | 0),
    ;
    assert(data_value == 0x0040_9200_0000_0000) by (bit_vector)
        requires
            data_value == (0u64 & 0xff8f_00ff_ffff_ffff) | ((2u64 << 40) | (1u64 << 44) | ((0u8
                as u64) << 45) | (1u64 << 47) | 0 | (1u64 << 54)),
    ;
    [SegmentDescriptor::new(), code, data]
}

} // verus!
