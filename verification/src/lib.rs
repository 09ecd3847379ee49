//! Core library of a bare-metal kernel for a single-board ARM64 computer.
//!
//! The heart of the library is an interval-set based physical memory
//! allocator: the [`range`] module tracks free memory as a fixed-capacity,
//! sorted, maximally-merged set of inclusive address ranges, the [`mutex`]
//! module models the fair ticket lock that guards it, and the [`mm`] module
//! implements the allocation and deallocation logic on top of both.
//!
//! The [`globals`] module holds the singleton service object that owns the
//! lock-protected shared state, and the [`fdt`] module parses the parts of
//! the devicetree blob that describe the memory layout. The remaining
//! modules hold the computational parts of the device drivers:
//! register-value encoding and decoding. The memory-mapped I/O itself, and
//! every other interaction with the hardware, is performed by the
//! surrounding program with the values computed here.

pub mod cpu;
pub mod errors;
pub mod fdt;
pub mod globals;
pub mod gpio;
pub mod intc;
pub mod local_intc;
pub mod mailbox;
pub mod mm;
pub mod mmio;
pub mod mutex;
pub mod print;
pub mod ptr;
pub mod range;
pub mod system_timer;
pub mod systimer;
pub mod uart;
