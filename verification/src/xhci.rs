//! xHCI driver core: ring protocol, register map, and enumeration state.
//!
//! The controller is driven through three kinds of state, all modeled as
//! plain values: TRB rings whose contents the binary mirrors into DMA
//! memory, memory-mapped register addresses computed from the capability
//! header, and the driver's own bookkeeping of completions and endpoints.
//! The binary performs the volatile loads and stores; every address, every
//! TRB, and every decision is decided and proved here.

pub mod driver;
pub mod hid;
pub mod regs;
pub mod ring;
