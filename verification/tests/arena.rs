use mikanos_kernel::arena::BumpArena;

#[test]
fn arena_hands_out_aligned_pieces_in_order() {
    let mut arena = BumpArena::new(0x1003, 0x100);
    assert_eq!(arena.used(), 0);
    assert_eq!(arena.allocate(5, 1), Some(0x1003));
    assert_eq!(arena.allocate(8, 8), Some(0x1008));
    assert_eq!(arena.allocate(1, 64), Some(0x1040));
    assert_eq!(arena.allocate(0, 1), Some(0x1041));
    assert_eq!(arena.allocate(3, 3), Some(0x1041));
    assert_eq!(arena.used(), 0x41);
}

#[test]
fn arena_refuses_what_does_not_fit_and_stays_as_it_is() {
    let mut arena = BumpArena::new(0x1000, 0x20);
    assert_eq!(arena.allocate(0x21, 1), None);
    assert_eq!(arena.allocate(0x18, 16), Some(0x1000));
    assert_eq!(arena.allocate(1, 16), None);
    assert_eq!(arena.allocate(9, 1), None);
    assert_eq!(arena.used(), 0x18);
    assert_eq!(arena.allocate(8, 8), Some(0x1018));
    assert_eq!(arena.allocate(0, 1), Some(0x1020));
    assert_eq!(arena.allocate(1, 1), None);
}

#[test]
fn arena_knows_its_addresses() {
    let arena = BumpArena::new(0x1000, 0x20);
    assert!(!arena.contains(0xfff));
    assert!(arena.contains(0x1000));
    assert!(arena.contains(0x101f));
    assert!(!arena.contains(0x1020));
}

#[test]
fn arena_at_the_top_of_the_address_space() {
    let mut arena = BumpArena::new(u64::MAX - 0x10, 0x100);
    assert!(arena.contains(u64::MAX - 1));
    assert!(!arena.contains(u64::MAX));
    assert_eq!(arena.allocate(1, 8), Some(u64::MAX - 0xf));
    assert_eq!(arena.allocate(0x10, 1), None);
    assert_eq!(arena.allocate(1, u64::MAX), None);
    assert_eq!(arena.allocate(0, u64::MAX), Some(u64::MAX));
    assert_eq!(arena.allocate(1, 1), None);
}
