use vstd::prelude::*;

pub use crate::bus::{Bus, CLINT_BASE, CLINT_END, DRAM_BASE, DRAM_END, PLIC_BASE, PLIC_END};
pub use crate::devices::Clint;

verus! {

/// The machine's physical-memory front end, as the CPU loop sees it: the system bus.
pub type Mmu = Bus;

} // verus!
