//! The event queue: deferred work that interrupt handlers leave for the
//! main loop.
//!
//! The queue is a ring of fixed capacity from the `crossbeam_queue` crate.
//! An interrupt handler pushes one event and returns; the main loop pops
//! the events in the order in which they were pushed. A push onto a full
//! queue drops the event.

use vstd::prelude::*;
use crossbeam_queue::ArrayQueue;

verus! {

/// Capacity of the kernel's event queue.
pub const EVENT_QUEUE_SIZE: usize = 100;

/// The largest capacity a queue can be made with. The ring refuses a
/// capacity of 0, and one so large that its size in bytes cannot be
/// counted; this bound keeps well below the second on every machine.
pub const MAX_QUEUE_CAPACITY: usize = 0x100_0000;

/// What happened.
#[derive(Debug, Clone, Copy, PartialEq, Eq, Structural)]
pub enum QueueEventType {
    /// The xHCI host controller raised its interrupt.
    InterruptXHCI,
}

/// One piece of deferred work.
#[derive(Debug, Clone, Copy, PartialEq, Eq, Structural)]
pub struct QueueEvent {
    pub event_type: QueueEventType,
}

/// Makes the type `crossbeam_queue::ArrayQueue` known to the verifier.
/// Nothing is claimed of what is inside it.
#[verifier::external_type_specification]
#[verifier::external_body]
#[verifier::reject_recursive_types(T)]
pub struct ExArrayQueue<T>(ArrayQueue<T>);

/// The events that a ring of `crossbeam_queue::ArrayQueue` holds, oldest
/// first. What the ring's methods do is stated over this sequence.
pub uninterp spec fn ring_contents(ring: &ArrayQueue<QueueEvent>) -> Seq<QueueEvent>;

/// The capacity that a ring of `crossbeam_queue::ArrayQueue` was made
/// with.
pub uninterp spec fn ring_capacity(ring: &ArrayQueue<QueueEvent>) -> nat;

/// The contents of a ring of the given capacity after a push: the event is
/// appended where there is room, and dropped where there is none.
pub open spec fn after_push(contents: Seq<QueueEvent>, capacity: nat, event: QueueEvent) -> Seq<
    QueueEvent,
> {
    if contents.len() < capacity {
        contents.push(event)
    } else {
        contents
    }
}

/// The contents of a ring after a pop: the oldest event is gone.
pub open spec fn after_pop(contents: Seq<QueueEvent>) -> Seq<QueueEvent> {
    if contents.len() > 0 {
        contents.drop_first()
    } else {
        contents
    }
}

/// What a pop returns: the oldest event, if there is one.
pub open spec fn popped(contents: Seq<QueueEvent>) -> Option<QueueEvent> {
    if contents.len() > 0 {
        Some(contents[0])
    } else {
        None
    }
}

/// Calls `ArrayQueue::new`. The contract claims that the new ring is empty
/// and has the capacity asked for; the crate panics for capacity zero and
/// for one too large to allocate, which `requires` leaves out.
#[verifier::external_body]
fn ring_new(capacity: usize) -> (ring: ArrayQueue<QueueEvent>)
    requires
        0 < capacity <= MAX_QUEUE_CAPACITY,
    ensures
        ring_contents(&ring) == Seq::<QueueEvent>::empty(),
        ring_capacity(&ring) == capacity,
{
    ArrayQueue::new(capacity)
}

/// Calls `ArrayQueue::push`. The contract claims what the crate documents
/// of a ring that nobody else is using: the event goes to the back if the
/// ring is not full, and comes back as the error if it is.
#[verifier::external_body]
fn ring_push(ring: &mut ArrayQueue<QueueEvent>, event: QueueEvent) -> (result: Result<(), QueueEvent>)
    ensures
        ring_capacity(final(ring)) == ring_capacity(old(ring)),
        ring_contents(final(ring)) == after_push(
            ring_contents(old(ring)),
            ring_capacity(old(ring)),
            event,
        ),
        result is Ok <==> ring_contents(old(ring)).len() < ring_capacity(old(ring)),
        result matches Err(returned) ==> returned == event,
    no_unwind
{
    ring.push(event)
}

/// Calls `ArrayQueue::pop`. The contract claims what the crate documents
/// of a ring that nobody else is using: the oldest event comes out, or
/// `None` if the ring is empty.
#[verifier::external_body]
fn ring_pop(ring: &mut ArrayQueue<QueueEvent>) -> (result: Option<QueueEvent>)
    ensures
        ring_capacity(final(ring)) == ring_capacity(old(ring)),
        ring_contents(final(ring)) == after_pop(ring_contents(old(ring))),
        result == popped(ring_contents(old(ring))),
    no_unwind
{
    ring.pop()
}

/// Calls `ArrayQueue::len`. The contract claims that it is the number of
/// events in the ring.
#[verifier::external_body]
fn ring_len(ring: &ArrayQueue<QueueEvent>) -> (len: usize)
    ensures
        len == ring_contents(ring).len(),
{
    ring.len()
}

/// Calls `ArrayQueue::is_empty`. The contract claims that it tells whether
/// the ring holds no event.
#[verifier::external_body]
fn ring_is_empty(ring: &ArrayQueue<QueueEvent>) -> (empty: bool)
    ensures
        empty == (ring_contents(ring).len() == 0),
{
    ring.is_empty()
}

/// Fixed-capacity first-in, first-out queue of events.
pub struct EventQueue {
    ring: ArrayQueue<QueueEvent>,
}

impl View for EventQueue {
    type V = Seq<QueueEvent>;

    /// The pending events, oldest first.
    closed spec fn view(&self) -> Seq<QueueEvent> {
        ring_contents(&self.ring)
    }
}

impl EventQueue {
    #[verifier::type_invariant]
    spec fn inv(&self) -> bool {
        &&& 0 < ring_capacity(&self.ring) <= MAX_QUEUE_CAPACITY
        &&& ring_contents(&self.ring).len() <= ring_capacity(&self.ring)
    }

    /// The number of events the queue can hold.
    pub closed spec fn capacity(&self) -> nat {
        ring_capacity(&self.ring)
    }

    /// An empty queue that holds up to [`EVENT_QUEUE_SIZE`] events.
    pub fn new() -> (queue: EventQueue)
        ensures
            queue@ == Seq::<QueueEvent>::empty(),
            queue.capacity() == EVENT_QUEUE_SIZE,
    {
        EventQueue { ring: ring_new(EVENT_QUEUE_SIZE) }
    }

    /// An empty queue that holds up to `capacity` events.
    pub fn with_capacity(capacity: usize) -> (queue: EventQueue)
        requires
            0 < capacity <= MAX_QUEUE_CAPACITY,
        ensures
            queue@ == Seq::<QueueEvent>::empty(),
            queue.capacity() == capacity,
    {
        EventQueue { ring: ring_new(capacity) }
    }

    /// Appends `event` if the queue is not full and says so with `true`;
    /// drops it, leaving the queue as it is, if the queue is full.
    pub fn push(&mut self, event: QueueEvent) -> (pushed: bool)
        ensures
            final(self).capacity() == old(self).capacity(),
            final(self)@ == after_push(old(self)@, old(self).capacity(), event),
            pushed == (old(self)@.len() < old(self).capacity()),
            final(self)@.len() <= final(self).capacity(),
    {
        proof {
            use_type_invariant(&*self);
        }
        match ring_push(&mut self.ring, event) {
            Ok(_) => true,
            Err(_) => false,
        }
    }

    /// Takes the oldest event out of the queue; `None` if there is none.
    pub fn pop(&mut self) -> (event: Option<QueueEvent>)
        ensures
            final(self).capacity() == old(self).capacity(),
            final(self)@ == after_pop(old(self)@),
            event == popped(old(self)@),
    {
        proof {
            use_type_invariant(&*self);
        }
        ring_pop(&mut self.ring)
    }

    /// Whether no event is pending.
    pub fn is_empty(&self) -> (empty: bool)
        ensures
            empty == (self@.len() == 0),
    {
        ring_is_empty(&self.ring)
    }

    /// The number of pending events.
    pub fn len(&self) -> (len: usize)
        ensures
            len == self@.len(),
            len <= self.capacity(),
    {
        proof {
            use_type_invariant(self);
        }
        ring_len(&self.ring)
    }
}

/// The contents of an empty ring after the events of `events` were pushed
/// in order.
pub open spec fn pushed_all(capacity: nat, events: Seq<QueueEvent>) -> Seq<QueueEvent>
    decreases events.len(),
{
    if events.len() == 0 {
        Seq::empty()
    } else {
        after_push(pushed_all(capacity, events.drop_last()), capacity, events.last())
    }
}

/// The contents after `count` pops.
pub open spec fn popped_times(contents: Seq<QueueEvent>, count: nat) -> Seq<QueueEvent>
    decreases count,
{
    if count == 0 {
        contents
    } else {
        after_pop(popped_times(contents, (count - 1) as nat))
    }
}

/// First in, first out: events pushed onto an empty queue that has room
/// for them all come out in the order in which they went in, and after
/// the last of them the queue is empty again.
pub proof fn lemma_first_in_first_out(capacity: nat, events: Seq<QueueEvent>, k: nat)
    requires
        events.len() <= capacity,
        k <= events.len(),
    ensures
        pushed_all(capacity, events) == events,
        popped_times(events, k) == events.subrange(k as int, events.len() as int),
        k < events.len() ==> popped(popped_times(events, k)) == Some(events[k as int]),
        k == events.len() ==> popped(popped_times(events, k)) is None,
    decreases events.len() + k,
{
    if events.len() > 0 {
        lemma_first_in_first_out(capacity, events.drop_last(), 0);
        assert(events.drop_last().push(events.last()) =~= events);
    } else {
        assert(pushed_all(capacity, events) =~= events);
    }
    if k > 0 {
        lemma_first_in_first_out(capacity, events, (k - 1) as nat);
        assert(events.subrange(k - 1, events.len() as int).drop_first() =~= events.subrange(
            k as int,
            events.len() as int,
        ));
    } else {
        assert(events.subrange(0, events.len() as int) =~= events);
    }
}

} // verus!
