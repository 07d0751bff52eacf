//! Memory and interrupt-event core of a single-address-space x86-64 kernel,
//! with the display and PCI code around it.
//!
//! The library holds what the kernel decides and computes; it touches no
//! hardware. The kernel around it reads the firmware's tables, does port
//! and memory-mapped I/O, and runs the main loop.
//!
//! Memory:
//! - [`address`]: physical and virtual addresses.
//! - [`frame`]: the bitmap frame allocator; [`accounting`] proves that it
//!   keeps its books.
//! - [`memory`]: the firmware's memory map and the survey that sets the
//!   frame allocator up.
//! - [`paging`]: the identity mapping and its page tables.
//! - [`heap`]: the segregated free-list heap.
//! - [`arena`]: the bump arena for what is needed before the heap works.
//! - [`segments`]: segment descriptors.
//!
//! Interrupts and events:
//! - [`queue`]: the event queue.
//! - [`interrupt`]: what each interrupt's handler does.
//! - [`dispatch`]: one turn of the main loop.
//!
//! Display:
//! - [`fonts`], [`canvas`], [`graphics`], [`window`], [`layer`],
//!   [`console`], [`mouse`], [`desktop`], [`logger`].
//!
//! Devices:
//! - [`bits`]: bit fields; [`pci`]: configuration space, bus scan, message
//!   signalled interrupts.

pub mod accounting;
pub mod address;
pub mod arena;
pub mod bits;
pub mod canvas;
pub mod console;
pub mod desktop;
pub mod dispatch;
pub mod fonts;
pub mod frame;
pub mod graphics;
pub mod heap;
pub mod interrupt;
pub mod layer;
pub mod logger;
pub mod memory;
pub mod mouse;
pub mod paging;
pub mod pci;
pub mod queue;
pub mod segments;
pub mod window;
