//! Interrupt vectors and what their handlers do.
//!
//! A handler runs with other interrupts masked and may not take a lock
//! that the interrupted code could hold. So the handler of the device
//! interrupt does no work of its own: it leaves one event in the queue and
//! acknowledges the interrupt. The real work is done later by the main
//! loop.

use vstd::prelude::*;
use crate::queue::{after_push, EventQueue, QueueEvent, QueueEventType};

verus! {

/// Vector of the xHCI host controller's interrupt.
pub const XHCI_VECTOR: u8 = 0x40;

/// The interrupts for which the kernel installs a handler.
#[derive(Debug, Clone, Copy, PartialEq, Eq, Structural)]
pub enum Interrupt {
    Breakpoint,
    DoubleFault,
    SegmentNotPresent,
    GeneralProtectionFault,
    PageFault,
    /// The xHCI host controller has events.
    Xhci,
}

/// What the handler has decided once it is done.
#[derive(Debug, Clone, Copy, PartialEq, Eq, Structural)]
pub enum HandlerOutcome {
    /// Return to the interrupted code.
    Return,
    /// Signal the end of the interrupt to the interrupt controller, then
    /// return to the interrupted code.
    Acknowledge,
    /// Report the fault and halt: there is no way back.
    Halt,
}

/// The vector that the processor or the device raises for an interrupt.
pub open spec fn vector_of(interrupt: Interrupt) -> u8 {
    match interrupt {
        Interrupt::Breakpoint => 3,
        Interrupt::DoubleFault => 8,
        Interrupt::SegmentNotPresent => 11,
        Interrupt::GeneralProtectionFault => 13,
        Interrupt::PageFault => 14,
        Interrupt::Xhci => XHCI_VECTOR,
    }
}

/// The interrupt that is raised on a vector, if the kernel handles that
/// vector.
pub open spec fn interrupt_on(vector: u8) -> Option<Interrupt> {
    if vector == 3 {
        Some(Interrupt::Breakpoint)
    } else if vector == 8 {
        Some(Interrupt::DoubleFault)
    } else if vector == 11 {
        Some(Interrupt::SegmentNotPresent)
    } else if vector == 13 {
        Some(Interrupt::GeneralProtectionFault)
    } else if vector == 14 {
        Some(Interrupt::PageFault)
    } else if vector == XHCI_VECTOR {
        Some(Interrupt::Xhci)
    } else {
        None
    }
}

/// What the handler of an interrupt decides.
pub open spec fn outcome_of(interrupt: Interrupt) -> HandlerOutcome {
    match interrupt {
        Interrupt::DoubleFault => HandlerOutcome::Halt,
        Interrupt::Xhci => HandlerOutcome::Acknowledge,
        _ => HandlerOutcome::Return,
    }
}

/// The event that the handler of an interrupt leaves for the main loop, if
/// it leaves one.
pub open spec fn event_of(interrupt: Interrupt) -> Option<QueueEvent> {
    match interrupt {
        Interrupt::Xhci => Some(QueueEvent { event_type: QueueEventType::InterruptXHCI }),
        _ => None,
    }
}

impl Interrupt {
    /// The vector the interrupt is raised on.
    pub fn vector(&self) -> (vector: u8)
        ensures
            vector == vector_of(*self),
            interrupt_on(vector) == Some(*self),
    {
        match self {
            Interrupt::Breakpoint => 3,
            Interrupt::DoubleFault => 8,
            Interrupt::SegmentNotPresent => 11,
            Interrupt::GeneralProtectionFault => 13,
            Interrupt::PageFault => 14,
            Interrupt::Xhci => XHCI_VECTOR,
        }
    }

    /// What the interrupt's handler decides once it is done.
    pub fn outcome(&self) -> (outcome: HandlerOutcome)
        ensures
            outcome == outcome_of(*self),
    {
        match self {
            Interrupt::DoubleFault => HandlerOutcome::Halt,
            Interrupt::Xhci => HandlerOutcome::Acknowledge,
            _ => HandlerOutcome::Return,
        }
    }

    /// The interrupt raised on `vector`, if the kernel handles that vector.
    pub fn from_vector(vector: u8) -> (interrupt: Option<Interrupt>)
        ensures
            interrupt == interrupt_on(vector),
            interrupt matches Some(i) ==> vector_of(i) == vector,
    {
        if vector == 3 {
            Some(Interrupt::Breakpoint)
        } else if vector == 8 {
            Some(Interrupt::DoubleFault)
        } else if vector == 11 {
            Some(Interrupt::SegmentNotPresent)
        } else if vector == 13 {
            Some(Interrupt::GeneralProtectionFault)
        } else if vector == 14 {
            Some(Interrupt::PageFault)
        } else if vector == XHCI_VECTOR {
            Some(Interrupt::Xhci)
        } else {
            None
        }
    }
}

/// The whole of what a handler does to the kernel's state.
///
/// The device interrupt leaves one event in the queue, or none if the
/// queue is full, and is acknowledged. A double fault is fatal. Every
/// other fault returns with nothing done.
pub fn handle_interrupt(queue: &mut EventQueue, interrupt: Interrupt) -> (outcome: HandlerOutcome)
    ensures
        outcome == outcome_of(interrupt),
        final(queue).capacity() == old(queue).capacity(),
        final(queue)@ == (match event_of(interrupt) {
            Some(event) => after_push(old(queue)@, old(queue).capacity(), event),
            None => old(queue)@,
        }),
{
    match interrupt {
        Interrupt::Xhci => {
            let _ = queue.push(QueueEvent { event_type: QueueEventType::InterruptXHCI });
        },
        _ => {},
    }
    interrupt.outcome()
}

} // verus!
