use mikanos_kernel::address::VirtualAddress;
use mikanos_kernel::frame::{AllocError, BitmapMemoryManager, FrameId};
use mikanos_kernel::heap::{block_size, AllocationMode, KernelAllocator, WINDOW_FRAME_COUNT};

fn frames(begin: u64, end: u64) -> BitmapMemoryManager {
    let mut manager = BitmapMemoryManager::new();
    manager.set_memory_range(FrameId::new(begin), FrameId::new(end));
    manager
}

#[test]
fn requests_are_classified_by_size_and_alignment() {
    assert_eq!(AllocationMode::classify(0, 1), AllocationMode::Block(0));
    assert_eq!(AllocationMode::classify(1, 1), AllocationMode::Block(0));
    assert_eq!(AllocationMode::classify(8, 8), AllocationMode::Block(0));
    assert_eq!(AllocationMode::classify(9, 8), AllocationMode::Block(1));
    assert_eq!(AllocationMode::classify(16, 8), AllocationMode::Block(1));
    assert_eq!(AllocationMode::classify(17, 8), AllocationMode::Block(2));
    assert_eq!(AllocationMode::classify(1, 64), AllocationMode::Block(3));
    assert_eq!(AllocationMode::classify(100, 256), AllocationMode::Block(5));
    assert_eq!(AllocationMode::classify(2048, 8), AllocationMode::Block(8));
    assert_eq!(AllocationMode::classify(2049, 8), AllocationMode::Frame(1));
    assert_eq!(AllocationMode::classify(4096, 8), AllocationMode::Frame(1));
    assert_eq!(AllocationMode::classify(4097, 8), AllocationMode::Frame(2));
    assert_eq!(AllocationMode::classify(8, 4096), AllocationMode::Frame(1));
    assert_eq!(AllocationMode::classify(3 * 4096, 8192), AllocationMode::Frame(3));
}

#[test]
fn block_sizes_double_from_8_to_2048() {
    let sizes: Vec<u64> = (0..9).map(block_size).collect();
    assert_eq!(sizes, vec![8, 16, 32, 64, 128, 256, 512, 1024, 2048]);
}

#[test]
fn heap_round_trip_at_boundary_sizes() {
    let mut manager = frames(1, 1024);
    let mut heap = KernelAllocator::new();
    let mut size = 8usize;
    while size <= 2048 {
        for request in [size, size + 1] {
            let first = heap.allocate(&mut manager, request, 8).unwrap();
            heap.deallocate(&mut manager, first, request, 8);
            let second = heap.allocate(&mut manager, request, 8).unwrap();
            assert_eq!(second, first, "size {}", request);
            heap.deallocate(&mut manager, second, request, 8);
        }
        size *= 2;
    }
}

#[test]
fn empty_class_is_seeded_from_one_frame() {
    let mut manager = frames(3, 16);
    let mut heap = KernelAllocator::new();
    let first = heap.allocate(&mut manager, 1024, 8).unwrap();
    assert_eq!(first.as_u64(), 3 * 4096);
    assert!(manager.get_bit(FrameId::new(3)));
    assert!(!manager.get_bit(FrameId::new(4)));
    assert_eq!(heap.free_blocks(7), 3);
    assert_eq!(heap.allocate(&mut manager, 1024, 8).unwrap().as_u64(), 3 * 4096 + 1024);
    assert_eq!(heap.allocate(&mut manager, 1000, 8).unwrap().as_u64(), 3 * 4096 + 2048);
    assert_eq!(heap.allocate(&mut manager, 513, 8).unwrap().as_u64(), 3 * 4096 + 3072);
    assert_eq!(heap.free_blocks(7), 0);
    // The class is empty again: the next request takes the next frame.
    assert_eq!(heap.allocate(&mut manager, 1024, 8).unwrap().as_u64(), 4 * 4096);
    assert!(manager.get_bit(FrameId::new(4)));
    // Other classes have lists and frames of their own.
    assert_eq!(heap.allocate(&mut manager, 8, 8).unwrap().as_u64(), 5 * 4096);
    assert_eq!(heap.free_blocks(0), 511);
    assert_eq!(heap.allocate(&mut manager, 8, 8).unwrap().as_u64(), 5 * 4096 + 8);
}

#[test]
fn freed_blocks_are_reused_last_in_first_out() {
    let mut manager = frames(1, 16);
    let mut heap = KernelAllocator::new();
    let a = heap.allocate(&mut manager, 64, 8).unwrap();
    let b = heap.allocate(&mut manager, 64, 8).unwrap();
    let c = heap.allocate(&mut manager, 64, 8).unwrap();
    assert_eq!((a.as_u64(), b.as_u64(), c.as_u64()), (4096, 4096 + 64, 4096 + 128));
    heap.deallocate(&mut manager, a, 64, 8);
    heap.deallocate(&mut manager, c, 64, 8);
    assert_eq!(heap.allocate(&mut manager, 64, 8).unwrap(), c);
    assert_eq!(heap.allocate(&mut manager, 64, 8).unwrap(), a);
    assert_eq!(heap.allocate(&mut manager, 64, 8).unwrap().as_u64(), 4096 + 192);
}

#[test]
fn large_requests_take_and_return_whole_frames() {
    let mut manager = frames(1, 16);
    let mut heap = KernelAllocator::new();
    let big = heap.allocate(&mut manager, 3 * 4096 + 1, 8).unwrap();
    assert_eq!(big.as_u64(), 4096);
    for frame in 1..5 {
        assert!(manager.get_bit(FrameId::new(frame)));
    }
    assert!(!manager.get_bit(FrameId::new(5)));
    let next = heap.allocate(&mut manager, 4096, 4096).unwrap();
    assert_eq!(next.as_u64(), 5 * 4096);
    heap.deallocate(&mut manager, big, 3 * 4096 + 1, 8);
    for frame in 1..5 {
        assert!(!manager.get_bit(FrameId::new(frame)));
    }
    assert!(manager.get_bit(FrameId::new(5)));
    assert_eq!(heap.allocate(&mut manager, 2 * 4096, 8).unwrap().as_u64(), 4096);
}

#[test]
fn exhaustion_is_out_of_memory_and_changes_nothing() {
    let mut manager = frames(1, 3);
    let mut heap = KernelAllocator::new();
    assert_eq!(heap.allocate(&mut manager, 3 * 4096, 8), Err(AllocError::OutOfMemory));
    assert!(!manager.get_bit(FrameId::new(1)));
    assert!(!manager.get_bit(FrameId::new(2)));
    assert_eq!(heap.allocate(&mut manager, 2 * 4096, 8).unwrap().as_u64(), 4096);
    assert_eq!(heap.allocate(&mut manager, 16, 8), Err(AllocError::OutOfMemory));
    assert_eq!(heap.free_blocks(1), 0);
    assert_eq!(heap.allocate(&mut manager, 4096, 8), Err(AllocError::OutOfMemory));
}

#[test]
fn block_given_back_to_an_empty_class_is_handed_out_again() {
    let mut manager = frames(1, 16);
    let mut heap = KernelAllocator::new();
    let foreign = VirtualAddress::try_new(0x9000).unwrap();
    heap.deallocate(&mut manager, foreign, 32, 8);
    assert_eq!(heap.free_blocks(2), 1);
    assert_eq!(heap.allocate(&mut manager, 32, 8).unwrap(), foreign);
    assert!(!manager.get_bit(FrameId::new(1)));
}

#[test]
fn heap_works_on_a_fresh_frame_allocator() {
    let mut manager = BitmapMemoryManager::new();
    let mut heap = KernelAllocator::new();
    assert!(heap.can_allocate(&manager, 8, 8));
    assert_eq!(heap.allocate(&mut manager, 8, 8).unwrap().as_u64(), 0x1000);
    assert_eq!(heap.allocate(&mut manager, 8, 8).unwrap().as_u64(), 0x1008);
    assert!(manager.get_bit(FrameId::new(1)));
    assert!(!manager.get_bit(FrameId::new(2)));
}

#[test]
fn round_trip_of_9_bytes_keeps_the_list_intact() {
    let mut manager = BitmapMemoryManager::new();
    let mut heap = KernelAllocator::new();
    let p = heap.allocate(&mut manager, 9, 1).unwrap();
    heap.deallocate(&mut manager, p, 9, 1);
    let q = heap.allocate(&mut manager, 9, 1).unwrap();
    assert_eq!((p.as_u64(), q.as_u64()), (0x1000, 0x1000));
    assert_eq!(heap.allocate(&mut manager, 9, 1).unwrap().as_u64(), 0x1010);
}

#[test]
fn round_trip_of_2049_bytes_leaves_the_bitmap_empty() {
    let mut manager = BitmapMemoryManager::new();
    let mut heap = KernelAllocator::new();
    let p = heap.allocate(&mut manager, 2049, 1).unwrap();
    assert_eq!(p.as_u64(), 0x1000);
    assert!(manager.get_bit(FrameId::new(1)));
    heap.deallocate(&mut manager, p, 2049, 1);
    assert!((0..64).all(|i| !manager.get_bit(FrameId::new(i))));
    for class in 0..9 {
        assert_eq!(heap.free_blocks(class), 0);
    }
}

#[test]
fn requests_are_served_while_their_frames_start_inside_the_window() {
    // The range ends above the window, the frames handed out lie inside it.
    let mut manager = frames(WINDOW_FRAME_COUNT - 2, WINDOW_FRAME_COUNT + 8);
    let mut heap = KernelAllocator::new();
    assert!(heap.can_allocate(&manager, 64, 8));
    let first = heap.allocate(&mut manager, 64, 8).unwrap();
    assert_eq!(first.as_u64(), (WINDOW_FRAME_COUNT - 2) * 4096);
    assert!(heap.can_allocate(&manager, 5000, 8));
    let big = heap.allocate(&mut manager, 5000, 8).unwrap();
    assert_eq!(big.as_u64(), (WINDOW_FRAME_COUNT - 1) * 4096);
    // The next frame lies outside the window: only requests that take no frame can be served.
    assert!(!heap.can_allocate(&manager, 4096, 8));
    assert!(!heap.can_allocate(&manager, 8, 8));
    assert!(heap.can_allocate(&manager, 64, 8));
    assert_eq!(heap.allocate(&mut manager, 64, 8).unwrap().as_u64(), first.as_u64() + 64);
}

#[test]
fn exhausted_frame_allocator_above_the_window_is_out_of_memory() {
    let mut manager = frames(WINDOW_FRAME_COUNT + 4, WINDOW_FRAME_COUNT + 4);
    let mut heap = KernelAllocator::new();
    assert!(heap.can_allocate(&manager, 8, 8));
    assert_eq!(heap.allocate(&mut manager, 8, 8), Err(AllocError::OutOfMemory));
    assert!(heap.can_allocate(&manager, 8192, 8));
    assert_eq!(heap.allocate(&mut manager, 8192, 8), Err(AllocError::OutOfMemory));
}
