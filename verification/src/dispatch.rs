//! One turn of the main loop.
//!
//! The loop runs each turn with interrupts disabled for as long as it
//! looks at the queue: were an event pushed between the look and the halt,
//! the processor would sleep on pending work. What is to be done with
//! interrupts enabled again, the turn hands back as an action.

use vstd::prelude::*;
use crate::queue::{after_pop, popped, EventQueue, QueueEvent, QueueEventType};

verus! {

/// What the main loop does after it has looked at the queue.
#[derive(Debug, Clone, Copy, PartialEq, Eq, Structural)]
pub enum LoopAction {
    /// Enable interrupts and halt until the next one.
    Halt,
    /// Enable interrupts and do the work that the event asks for.
    Dispatch(QueueEvent),
}

/// The work that an event asks the main loop to do.
#[derive(Debug, Clone, Copy, PartialEq, Eq, Structural)]
pub enum Work {
    /// Process the events of the xHCI host controller until it has none
    /// left.
    DrainHostController,
}

/// The action for a queue with the given contents.
pub open spec fn action_for(contents: Seq<QueueEvent>) -> LoopAction {
    match popped(contents) {
        Some(event) => LoopAction::Dispatch(event),
        None => LoopAction::Halt,
    }
}

/// Looks at the queue, takes the oldest event if there is one, and says
/// what to do. To be called with interrupts disabled.
pub fn next_action(queue: &mut EventQueue) -> (action: LoopAction)
    ensures
        action == action_for(old(queue)@),
        final(queue)@ == after_pop(old(queue)@),
        final(queue).capacity() == old(queue).capacity(),
{
    if queue.is_empty() {
        return LoopAction::Halt;
    }
    match queue.pop() {
        Some(event) => LoopAction::Dispatch(event),
        None => LoopAction::Halt,
    }
}

/// The work that `event` asks for.
pub fn work_for(event: &QueueEvent) -> (work: Work)
    ensures
        work == Work::DrainHostController,
{
    match event.event_type {
        QueueEventType::InterruptXHCI => Work::DrainHostController,
    }
}

} // verus!
