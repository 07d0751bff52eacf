use mikanos_kernel::queue::{EventQueue, QueueEvent, QueueEventType, EVENT_QUEUE_SIZE};

fn event() -> QueueEvent {
    QueueEvent { event_type: QueueEventType::InterruptXHCI }
}

#[test]
fn queue_is_first_in_first_out() {
    let mut queue = EventQueue::new();
    assert!(queue.is_empty());
    assert!(queue.push(event()));
    assert!(queue.push(event()));
    assert!(queue.push(event()));
    assert_eq!(queue.len(), 3);
    assert_eq!(queue.pop(), Some(event()));
    assert_eq!(queue.pop(), Some(event()));
    assert_eq!(queue.len(), 1);
    assert_eq!(queue.pop(), Some(event()));
    assert!(queue.is_empty());
}

#[test]
fn pop_of_empty_queue_is_none() {
    let mut queue = EventQueue::new();
    assert_eq!(queue.pop(), None);
    assert_eq!(queue.pop(), None);
    assert_eq!(queue.len(), 0);
}

#[test]
fn push_onto_full_queue_drops_the_event() {
    let mut queue = EventQueue::new();
    for _ in 0..EVENT_QUEUE_SIZE {
        assert!(queue.push(event()));
    }
    assert_eq!(queue.len(), 100);
    assert!(!queue.push(event()));
    assert_eq!(queue.len(), 100);
    assert_eq!(queue.pop(), Some(event()));
    assert!(queue.push(event()));
    assert!(!queue.push(event()));
}

#[test]
fn small_queue_wraps_around() {
    let mut queue = EventQueue::with_capacity(2);
    for _ in 0..5 {
        assert!(queue.push(event()));
        assert!(queue.push(event()));
        assert!(!queue.push(event()));
        assert_eq!(queue.pop(), Some(event()));
        assert_eq!(queue.pop(), Some(event()));
        assert_eq!(queue.pop(), None);
    }
}
