use mikanos_kernel::address::PhysicalAddress;
use mikanos_kernel::frame::{AllocError, BitmapMemoryManager, FrameId, FRAME_COUNT};

fn small_universe() -> BitmapMemoryManager {
    let mut manager = BitmapMemoryManager::new();
    manager.set_memory_range(FrameId::new(1), FrameId::new(8));
    manager
}

fn allocated_in(manager: &BitmapMemoryManager, from: u64, to: u64) -> Vec<u64> {
    (from..to).filter(|i| manager.get_bit(FrameId::new(*i))).collect()
}

#[test]
fn new_manager_has_every_frame_free() {
    let manager = BitmapMemoryManager::new();
    assert_eq!(manager.begin().get(), 1);
    assert_eq!(manager.end().get(), FRAME_COUNT);
    assert!(!manager.get_bit(FrameId::new(0)));
    assert!(!manager.get_bit(FrameId::new(63)));
    assert!(!manager.get_bit(FrameId::new(64)));
    assert!(!manager.get_bit(FrameId::new(FRAME_COUNT - 1)));
}

#[test]
fn set_bit_changes_one_frame_only() {
    let mut manager = BitmapMemoryManager::new();
    manager.set_bit(FrameId::new(64), true);
    assert_eq!(allocated_in(&manager, 0, 200), vec![64]);
    manager.set_bit(FrameId::new(63), true);
    manager.set_bit(FrameId::new(127), true);
    assert_eq!(allocated_in(&manager, 0, 200), vec![63, 64, 127]);
    manager.set_bit(FrameId::new(64), false);
    assert_eq!(allocated_in(&manager, 0, 200), vec![63, 127]);
    manager.set_bit(FrameId::new(64), false);
    assert_eq!(allocated_in(&manager, 0, 200), vec![63, 127]);
}

#[test]
fn allocate_returns_lowest_sufficient_run() {
    let mut manager = small_universe();
    manager.set_bit(FrameId::new(0), true);
    manager.mark_allocated(&FrameId::new(2), 2);
    assert_eq!(allocated_in(&manager, 0, 8), vec![0, 2, 3]);
    let frame = manager.allocate(2).unwrap();
    assert_eq!(frame.get(), 4);
    assert_eq!(allocated_in(&manager, 0, 8), vec![0, 2, 3, 4, 5]);
}

#[test]
fn allocate_single_frame_takes_gap_before_larger_run() {
    let mut manager = small_universe();
    manager.mark_allocated(&FrameId::new(2), 2);
    assert_eq!(manager.allocate(1).unwrap().get(), 1);
    assert_eq!(manager.allocate(1).unwrap().get(), 4);
}

#[test]
fn allocate_fails_without_partial_reservation() {
    let mut manager = small_universe();
    manager.set_bit(FrameId::new(4), true);
    // Free frames are 1, 2, 3 and 5, 6, 7: no run of four.
    assert_eq!(manager.allocate(4), Err(AllocError::OutOfMemory));
    assert_eq!(allocated_in(&manager, 0, 16), vec![4]);
    // More frames than the whole range holds.
    assert_eq!(manager.allocate(8), Err(AllocError::OutOfMemory));
    assert_eq!(allocated_in(&manager, 0, 16), vec![4]);
    assert_eq!(manager.allocate(3).unwrap().get(), 1);
    assert_eq!(manager.allocate(3).unwrap().get(), 5);
    assert_eq!(manager.allocate(1), Err(AllocError::OutOfMemory));
}

#[test]
fn allocate_uses_whole_range_up_to_its_end() {
    let mut manager = small_universe();
    assert_eq!(manager.allocate(7).unwrap().get(), 1);
    assert_eq!(allocated_in(&manager, 0, 16), vec![1, 2, 3, 4, 5, 6, 7]);
    assert_eq!(manager.allocate(1), Err(AllocError::OutOfMemory));
}

#[test]
fn allocate_of_no_frames_changes_nothing() {
    let mut manager = small_universe();
    assert_eq!(manager.allocate(0).unwrap().get(), 1);
    assert_eq!(allocated_in(&manager, 0, 16), Vec::<u64>::new());
}

#[test]
fn allocate_never_hands_out_frame_zero() {
    let mut manager = BitmapMemoryManager::new();
    assert_eq!(manager.allocate(1).unwrap().get(), 1);
    assert!(!manager.get_bit(FrameId::new(0)));
}

#[test]
fn free_releases_exactly_the_run() {
    let mut manager = small_universe();
    let first = manager.allocate(2).unwrap();
    let second = manager.allocate(3).unwrap();
    assert_eq!((first.get(), second.get()), (1, 3));
    manager.free(first, 2);
    assert_eq!(allocated_in(&manager, 0, 16), vec![3, 4, 5]);
    assert_eq!(manager.allocate(1).unwrap().get(), 1);
    assert_eq!(manager.allocate(2).unwrap().get(), 6);
    manager.free(second, 3);
    assert_eq!(allocated_in(&manager, 0, 16), vec![1, 6, 7]);
}

#[test]
fn allocated_set_is_union_of_outstanding_allocations() {
    let mut manager = BitmapMemoryManager::new();
    manager.set_memory_range(FrameId::new(1), FrameId::new(40));
    let mut outstanding: Vec<(u64, u64)> = Vec::new();
    let sizes = [3u64, 1, 5, 2, 7, 4, 1, 6];
    for (round, size) in sizes.iter().enumerate() {
        let frame = manager.allocate(*size).unwrap();
        outstanding.push((frame.get(), *size));
        if round % 3 == 2 {
            let (start, count) = outstanding.remove(round / 3);
            manager.free(FrameId::new(start), count);
        }
        let mut expected: Vec<u64> = Vec::new();
        for (start, count) in &outstanding {
            for i in *start..*start + *count {
                assert!(!expected.contains(&i), "frame {} handed out twice", i);
                expected.push(i);
            }
        }
        expected.sort();
        assert_eq!(allocated_in(&manager, 0, 64), expected);
    }
}

#[test]
fn mark_allocated_in_bytes_marks_whole_frames() {
    let mut manager = BitmapMemoryManager::new();
    manager.mark_allocated_in_bytes(&FrameId::new(10), 3 * 4096 + 4095);
    assert_eq!(allocated_in(&manager, 0, 32), vec![10, 11, 12]);
    manager.mark_allocated_in_bytes(&FrameId::new(20), 4095);
    assert_eq!(allocated_in(&manager, 0, 32), vec![10, 11, 12]);
}

#[test]
fn set_memory_range_bounds_the_search() {
    let mut manager = BitmapMemoryManager::new();
    manager.set_memory_range(FrameId::new(5), FrameId::new(7));
    assert_eq!(manager.begin().get(), 5);
    assert_eq!(manager.end().get(), 7);
    assert_eq!(manager.allocate(3), Err(AllocError::OutOfMemory));
    assert_eq!(manager.allocate(2).unwrap().get(), 5);
}

#[test]
fn frame_and_physical_address_convert() {
    let addr = PhysicalAddress::try_new(5 * 4096 + 17).unwrap();
    let frame = FrameId::from_physical_address(addr);
    assert_eq!(frame.get(), 5);
    assert_eq!(frame.to_physical_address().as_u64(), 5 * 4096);
    assert_eq!(FrameId::min().get(), 1);
    assert_eq!(FrameId::max().get(), FRAME_COUNT);
    assert_eq!(FrameId::SIZE, 4096);
}

#[test]
fn find_free_run_searches_without_marking() {
    let mut manager = small_universe();
    manager.mark_allocated(&FrameId::new(2), 2);
    assert_eq!(manager.find_free_run(2).unwrap().get(), 4);
    assert_eq!(manager.find_free_run(1).unwrap().get(), 1);
    assert_eq!(manager.find_free_run(5), None);
    assert_eq!(allocated_in(&manager, 0, 8), vec![2, 3]);
    assert_eq!(manager.allocate(2).unwrap().get(), 4);
    assert_eq!(manager.find_free_run(2).unwrap().get(), 6);
}
