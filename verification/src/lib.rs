//! Core of a minimal x86-64 kernel, specified and verified.
//!
//! The library holds the logic of the kernel: the physical bump allocator,
//! the model/inference format, the transactional action engine with its
//! journal, the xHCI ring protocol and USB enumeration state, the HID and
//! scancode decoders, and the small parsers (CPIO initrd, PCI config words,
//! descriptor walks). Everything here is pure state over plain values; the
//! surrounding binary performs the MMIO, port I/O and interrupt plumbing and
//! mirrors ring memory into and out of these models.

pub mod action;
pub mod agent;
pub mod bootinfo;
pub mod counters;
pub mod engine;
pub mod initrd;
pub mod journal;
pub mod keyboard;
pub mod model;
pub mod pci;
pub mod pmm;
pub mod ramfs;
pub mod shell;
pub mod task;
pub mod telemetry;
pub mod vga;
pub mod xhci;
