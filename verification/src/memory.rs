//! The firmware's memory map: its layout in the buffer that the loader
//! hands over, and the survey that tells the frame allocator which memory
//! the kernel may use.

use vstd::prelude::*;
use crate::frame::{BitmapMemoryManager, FrameId, FrameSpace, FRAME_SIZE, MIN_FRAME};

verus! {

/// Size in bytes of a page of the firmware.
pub const UEFI_PAGE_SIZE: u64 = 4096;

/// Number of bytes that the fields of one descriptor take in the buffer.
pub const DESCRIPTOR_BYTES: usize = 40;

/// One past the highest physical address that the frame bitmap tracks:
/// 128 GiB.
pub const MAX_PHYSICAL_MEMORY_BYTES: u64 = 0x20_0000_0000;

/// What a region of memory is used for, as the firmware reports it.
#[derive(Debug, Clone, Copy, PartialEq, Eq, Structural)]
pub enum MemoryType {
    EfiReservedMemoryType,
    EfiLoaderCode,
    EfiLoaderData,
    EfiBootServicesCode,
    EfiBootServicesData,
    EfiRuntimeServicesCode,
    EfiRuntimeServicesData,
    EfiConventionalMemory,
    EfiUnusableMemory,
    EfiACPIReclaimMemory,
    EfiACPIMemoryNVS,
    EfiMemoryMappedIO,
    EfiMemoryMappedIOPortSpace,
    EfiPalCode,
    EfiPersistentMemory,
    EfiMaxMemoryType,
}

/// The memory type with the given number in the firmware's encoding.
pub open spec fn memory_type_of(raw: u32) -> Option<MemoryType> {
    if raw == 0 {
        Some(MemoryType::EfiReservedMemoryType)
    } else if raw == 1 {
        Some(MemoryType::EfiLoaderCode)
    } else if raw == 2 {
        Some(MemoryType::EfiLoaderData)
    } else if raw == 3 {
        Some(MemoryType::EfiBootServicesCode)
    } else if raw == 4 {
        Some(MemoryType::EfiBootServicesData)
    } else if raw == 5 {
        Some(MemoryType::EfiRuntimeServicesCode)
    } else if raw == 6 {
        Some(MemoryType::EfiRuntimeServicesData)
    } else if raw == 7 {
        Some(MemoryType::EfiConventionalMemory)
    } else if raw == 8 {
        Some(MemoryType::EfiUnusableMemory)
    } else if raw == 9 {
        Some(MemoryType::EfiACPIReclaimMemory)
    } else if raw == 10 {
        Some(MemoryType::EfiACPIMemoryNVS)
    } else if raw == 11 {
        Some(MemoryType::EfiMemoryMappedIO)
    } else if raw == 12 {
        Some(MemoryType::EfiMemoryMappedIOPortSpace)
    } else if raw == 13 {
        Some(MemoryType::EfiPalCode)
    } else if raw == 14 {
        Some(MemoryType::EfiPersistentMemory)
    } else if raw == 15 {
        Some(MemoryType::EfiMaxMemoryType)
    } else {
        None
    }
}

/// Memory of this type is free for the kernel once the firmware's boot
/// services have ended.
pub open spec fn is_available(memory_type: MemoryType) -> bool {
    ||| memory_type == MemoryType::EfiBootServicesCode
    ||| memory_type == MemoryType::EfiBootServicesData
    ||| memory_type == MemoryType::EfiConventionalMemory
}

impl MemoryType {
    /// The memory type with the given number, if there is one.
    pub fn from_raw(raw: u32) -> (memory_type: Option<MemoryType>)
        ensures
            memory_type == memory_type_of(raw),
    {
        match raw {
            0 => Some(MemoryType::EfiReservedMemoryType),
            1 => Some(MemoryType::EfiLoaderCode),
            2 => Some(MemoryType::EfiLoaderData),
            3 => Some(MemoryType::EfiBootServicesCode),
            4 => Some(MemoryType::EfiBootServicesData),
            5 => Some(MemoryType::EfiRuntimeServicesCode),
            6 => Some(MemoryType::EfiRuntimeServicesData),
            7 => Some(MemoryType::EfiConventionalMemory),
            8 => Some(MemoryType::EfiUnusableMemory),
            9 => Some(MemoryType::EfiACPIReclaimMemory),
            10 => Some(MemoryType::EfiACPIMemoryNVS),
            11 => Some(MemoryType::EfiMemoryMappedIO),
            12 => Some(MemoryType::EfiMemoryMappedIOPortSpace),
            13 => Some(MemoryType::EfiPalCode),
            14 => Some(MemoryType::EfiPersistentMemory),
            15 => Some(MemoryType::EfiMaxMemoryType),
            _ => None,
        }
    }

    /// Whether memory of this type is free for the kernel.
    pub fn is_available(&self) -> (available: bool)
        ensures
            available == is_available(*self),
    {
        match self {
            MemoryType::EfiBootServicesCode => true,
            MemoryType::EfiBootServicesData => true,
            MemoryType::EfiConventionalMemory => true,
            _ => false,
        }
    }
}

/// One region of the firmware's memory map.
#[derive(Debug, Clone, Copy, PartialEq, Eq, Structural)]
pub struct MemoryDescriptor {
    pub memory_type: MemoryType,
    pub physical_start: u64,
    pub virtual_start: u64,
    pub number_of_pages: u64,
    pub attribute: u64,
}

impl MemoryDescriptor {
    /// One past the last physical address of the region.
    pub open spec fn end(self) -> int {
        self.physical_start + self.number_of_pages * UEFI_PAGE_SIZE
    }

    /// The region lies below the highest address the frame bitmap tracks.
    pub open spec fn trackable(self) -> bool {
        self.end() <= MAX_PHYSICAL_MEMORY_BYTES
    }

    /// Whether the region lies below the highest address the frame bitmap
    /// tracks.
    pub fn is_trackable(&self) -> (trackable: bool)
        ensures
            trackable == self.trackable(),
    {
        self.physical_start <= MAX_PHYSICAL_MEMORY_BYTES && self.number_of_pages <= (
        MAX_PHYSICAL_MEMORY_BYTES - self.physical_start) / UEFI_PAGE_SIZE
    }

    /// One past the last physical address of the region.
    pub fn physical_end(&self) -> (end: u64)
        requires
            self.end() <= u64::MAX,
        ensures
            end == self.end(),
    {
        self.physical_start + self.number_of_pages * UEFI_PAGE_SIZE
    }
}

/// The number that `width` bytes of `bytes` from position `at` on stand
/// for, least significant byte first.
pub open spec fn little_endian(bytes: Seq<u8>, at: int, width: nat) -> int
    decreases width,
{
    if width == 0 {
        0
    } else {
        bytes[at] + 256 * little_endian(bytes, at + 1, (width - 1) as nat)
    }
}

/// The descriptor whose fields lie in `bytes` from position `at` on: the
/// type in 4 bytes, 4 bytes of padding, then the physical start, the
/// virtual start, the number of pages and the attributes in 8 bytes each.
/// `None` where the type's number names no memory type.
pub open spec fn descriptor_at(bytes: Seq<u8>, at: int) -> Option<MemoryDescriptor> {
    match memory_type_of(little_endian(bytes, at, 4) as u32) {
        Some(memory_type) => Some(
            MemoryDescriptor {
                memory_type,
                physical_start: little_endian(bytes, at + 8, 8) as u64,
                virtual_start: little_endian(bytes, at + 16, 8) as u64,
                number_of_pages: little_endian(bytes, at + 24, 8) as u64,
                attribute: little_endian(bytes, at + 32, 8) as u64,
            },
        ),
        None => None,
    }
}

fn read_u32(buffer: &[u8], at: usize) -> (value: u32)
    requires
        at + 4 <= buffer.len(),
    ensures
        value == little_endian(buffer@, at as int, 4),
{
    proof {
        reveal_with_fuel(little_endian, 5);
    }
    let b0 = buffer[at] as u32;
    let b1 = buffer[at + 1] as u32;
    let b2 = buffer[at + 2] as u32;
    let b3 = buffer[at + 3] as u32;
    b0 + 256 * (b1 + 256 * (b2 + 256 * b3))
}

fn read_u64(buffer: &[u8], at: usize) -> (value: u64)
    requires
        at + 8 <= buffer.len(),
    ensures
        value == little_endian(buffer@, at as int, 8),
{
    proof {
        reveal_with_fuel(little_endian, 9);
    }
    let b0 = buffer[at] as u64;
    let b1 = buffer[at + 1] as u64;
    let b2 = buffer[at + 2] as u64;
    let b3 = buffer[at + 3] as u64;
    let b4 = buffer[at + 4] as u64;
    let b5 = buffer[at + 5] as u64;
    let b6 = buffer[at + 6] as u64;
    let b7 = buffer[at + 7] as u64;
    b0 + 256 * (b1 + 256 * (b2 + 256 * (b3 + 256 * (b4 + 256 * (b5 + 256 * (b6 + 256 * b7))))))
}

/// Reads the descriptor that lies in `buffer` from position `at` on.
pub fn parse_descriptor(buffer: &[u8], at: usize) -> (descriptor: Option<MemoryDescriptor>)
    requires
        at + DESCRIPTOR_BYTES <= buffer.len(),
    ensures
        descriptor == descriptor_at(buffer@, at as int),
{
    match MemoryType::from_raw(read_u32(buffer, at)) {
        Some(memory_type) => Some(
            MemoryDescriptor {
                memory_type,
                physical_start: read_u64(buffer, at + 8),
                virtual_start: read_u64(buffer, at + 16),
                number_of_pages: read_u64(buffer, at + 24),
                attribute: read_u64(buffer, at + 32),
            },
        ),
        None => None,
    }
}

/// A map of `map_size` bytes with a descriptor every `descriptor_size`
/// bytes fits a buffer of `length` bytes.
pub open spec fn layout_ok(length: nat, map_size: usize, descriptor_size: usize) -> bool {
    descriptor_size >= DESCRIPTOR_BYTES && map_size <= length
}

/// The descriptors of a memory map of `map_size` bytes that holds one
/// descriptor every `descriptor_size` bytes, or `None` where that layout
/// does not fit the buffer or a descriptor's type is unknown.
pub open spec fn memory_map_of(bytes: Seq<u8>, map_size: usize, descriptor_size: usize) -> Option<
    Seq<MemoryDescriptor>,
> {
    let count = map_size as int / descriptor_size as int;
    if layout_ok(bytes.len(), map_size, descriptor_size) && forall|i: int|
        0 <= i < count ==> (#[trigger] descriptor_at(bytes, i * descriptor_size)) is Some {
        Some(Seq::new(count as nat, |i: int| descriptor_at(bytes, i * descriptor_size)->Some_0))
    } else {
        None
    }
}

/// Reads the memory map that the loader left in `buffer`.
pub fn parse_memory_map(buffer: &[u8], map_size: usize, descriptor_size: usize) -> (map: Option<
    Vec<MemoryDescriptor>,
>)
    ensures
        match memory_map_of(buffer@, map_size, descriptor_size) {
            Some(descriptors) => map matches Some(parsed) && parsed@ == descriptors,
            None => map is None,
        },
{
    if descriptor_size < DESCRIPTOR_BYTES || map_size > buffer.len() {
        return None;
    }
    let count = map_size / descriptor_size;
    let mut descriptors: Vec<MemoryDescriptor> = Vec::new();
    let mut i: usize = 0;
    while i < count
        invariant
            i <= count,
            count == map_size as int / descriptor_size as int,
            descriptor_size >= DESCRIPTOR_BYTES,
            map_size <= buffer.len(),
            descriptors@.len() == i,
            forall|k: int|
                0 <= k < i ==> (#[trigger] descriptor_at(buffer@, k * descriptor_size)) == Some(
                    descriptors@[k],
                ),
        decreases count - i,
    {
        assert(i * descriptor_size + descriptor_size <= map_size) by (nonlinear_arith)
            requires
                i < count,
                count == map_size as int / descriptor_size as int,
                descriptor_size > 0,
        ;
        match parse_descriptor(buffer, i * descriptor_size) {
            Some(descriptor) => {
                descriptors.push(descriptor);
            },
            None => {
                assert(descriptor_at(buffer@, i * descriptor_size) is None);
                return None;
            },
        }
        i = i + 1;
    }
    proof {
        let expected = memory_map_of(buffer@, map_size, descriptor_size);
        assert(expected is Some);
        assert(descriptors@ =~= expected->Some_0);
    }
    Some(descriptors)
}

/// What the survey of a memory map has found so far.
pub struct Survey {
    /// The frame state with the reserved regions marked.
    pub space: FrameSpace,
    /// One past the last address of the last available region seen.
    pub available_end: int,
}

/// The frame that contains the physical address `addr`.
pub open spec fn frame_of(addr: int) -> int {
    addr / (FRAME_SIZE as int)
}

/// The number of whole frames in `bytes` bytes.
pub open spec fn whole_frames(bytes: int) -> int {
    bytes / (FRAME_SIZE as int)
}

/// The survey after one more descriptor.
///
/// Memory between the end of the last available region and the start of
/// this one is reported by no descriptor and is marked allocated. The
/// region itself becomes the new end of available memory if its type is
/// available, and is marked allocated if it is not.
pub open spec fn survey_step(before: Survey, descriptor: MemoryDescriptor) -> Survey {
    let start = descriptor.physical_start as int;
    let skipped = if before.available_end < start {
        before.space.mark(frame_of(before.available_end), whole_frames(start - before.available_end))
    } else {
        before.space
    };
    if is_available(descriptor.memory_type) {
        Survey { space: skipped, available_end: descriptor.end() }
    } else {
        Survey {
            space: skipped.mark(frame_of(start), whole_frames(descriptor.end() - start)),
            available_end: before.available_end,
        }
    }
}

/// The survey of a whole memory map, begun with the frame state `space`.
pub open spec fn survey(space: FrameSpace, map: Seq<MemoryDescriptor>) -> Survey
    decreases map.len(),
{
    if map.len() == 0 {
        Survey { space, available_end: 0 }
    } else {
        survey_step(survey(space, map.drop_last()), map.last())
    }
}

/// Every region of the map lies below the highest address the frame bitmap
/// tracks.
pub open spec fn all_trackable(map: Seq<MemoryDescriptor>) -> bool {
    forall|i: int| 0 <= i < map.len() ==> (#[trigger] map[i]).trackable()
}

/// The frame state after the boot-time survey of `map`: the reserved
/// regions are marked, and the allocation range runs from the first
/// allocatable frame to the end of the last available region.
pub open spec fn surveyed(space: FrameSpace, map: Seq<MemoryDescriptor>) -> FrameSpace {
    survey(space, map).space.with_range(
        MIN_FRAME as int,
        frame_of(survey(space, map).available_end),
    )
}

/// Whether every region of the map lies below the highest address the
/// frame bitmap tracks.
pub fn is_trackable(map: &[MemoryDescriptor]) -> (trackable: bool)
    ensures
        trackable == all_trackable(map@),
{
    let mut i: usize = 0;
    while i < map.len()
        invariant
            i <= map.len(),
            forall|k: int| 0 <= k < i ==> (#[trigger] map@[k]).trackable(),
        decreases map.len() - i,
    {
        if !map[i].is_trackable() {
            return false;
        }
        i = i + 1;
    }
    true
}

/// Tells the frame allocator what the firmware's memory map says: marks
/// as allocated all memory that the map reports as in use or does not
/// report at all, and lets the allocator hand out frames up to the end of
/// the last available region.
pub fn init(manager: &mut BitmapMemoryManager, map: &[MemoryDescriptor])
    requires
        all_trackable(map@),
    ensures
        final(manager)@.bounded(),
        final(manager)@ == surveyed(old(manager)@, map@),
{
    let mut available_end: u64 = 0;
    let mut i: usize = 0;
    proof {
        assert(map@.subrange(0, 0) =~= Seq::<MemoryDescriptor>::empty());
    }
    while i < map.len()
        invariant
            i <= map.len(),
            all_trackable(map@),
            available_end == survey(old(manager)@, map@.subrange(0, i as int)).available_end,
            manager@ == survey(old(manager)@, map@.subrange(0, i as int)).space,
            available_end <= MAX_PHYSICAL_MEMORY_BYTES,
        decreases map.len() - i,
    {
        let descriptor = map[i];
        proof {
            assert(descriptor.trackable());
            assert(map@.subrange(0, i + 1).drop_last() =~= map@.subrange(0, i as int));
            assert(map@.subrange(0, i + 1).last() == descriptor);
        }
        let start = descriptor.physical_start;
        let end = descriptor.physical_end();
        if available_end < start {
            manager.mark_allocated_in_bytes(
                &FrameId::new(available_end / FRAME_SIZE),
                start - available_end,
            );
        }
        if descriptor.memory_type.is_available() {
            available_end = end;
        } else {
            manager.mark_allocated_in_bytes(&FrameId::new(start / FRAME_SIZE), end - start);
        }
        i = i + 1;
    }
    proof {
        assert(map@.subrange(0, map@.len() as int) =~= map@);
    }
    manager.set_memory_range(FrameId::min(), FrameId::new(available_end / FRAME_SIZE));
}

/// The end of the last available region of the map; 0 if it has none.
pub open spec fn last_available_end(map: Seq<MemoryDescriptor>) -> int
    decreases map.len(),
{
    if map.len() == 0 {
        0
    } else if is_available(map.last().memory_type) {
        map.last().end()
    } else {
        last_available_end(map.drop_last())
    }
}

/// The survey only ever marks frames: what was allocated before it stays
/// allocated.
pub proof fn lemma_survey_keeps_allocated(space: FrameSpace, map: Seq<MemoryDescriptor>, frame: int)
    requires
        space.allocated.contains(frame),
    ensures
        survey(space, map).space.allocated.contains(frame),
    decreases map.len(),
{
    if map.len() > 0 {
        lemma_survey_keeps_allocated(space, map.drop_last(), frame);
    }
}

/// After the survey every frame of every region that is not available is
/// allocated, and the allocation range ends with the last available
/// region.
pub proof fn lemma_survey_reserves(space: FrameSpace, map: Seq<MemoryDescriptor>, i: int, frame: int)
    requires
        0 <= i < map.len(),
        !is_available(map[i].memory_type),
        frame_of(map[i].physical_start as int) <= frame < frame_of(map[i].physical_start as int)
            + map[i].number_of_pages,
    ensures
        surveyed(space, map).allocated.contains(frame),
        surveyed(space, map).end == frame_of(last_available_end(map)),
    decreases map.len(),
{
    lemma_survey_ends_with_last_available(space, map);
    if i == map.len() - 1 {
        let d = map.last();
        assert(whole_frames(d.end() - d.physical_start) == d.number_of_pages) by (nonlinear_arith)
            requires
                d.end() - d.physical_start == d.number_of_pages * 4096,
                whole_frames(d.end() - d.physical_start) == (d.end() - d.physical_start) / 4096,
        ;
    } else {
        assert(map.drop_last()[i] == map[i]);
        lemma_survey_reserves(space, map.drop_last(), i, frame);
    }
}

/// The survey's end of available memory is the end of the last available
/// region.
pub proof fn lemma_survey_ends_with_last_available(space: FrameSpace, map: Seq<MemoryDescriptor>)
    ensures
        survey(space, map).available_end == last_available_end(map),
    decreases map.len(),
{
    if map.len() > 0 {
        lemma_survey_ends_with_last_available(space, map.drop_last());
    }
}

} // verus!
