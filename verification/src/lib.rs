pub mod bus;
pub mod cpu;
pub mod debugger;
pub mod devices;
pub mod disas;
pub mod dtb;
pub mod emulator;
pub mod kernel;
pub mod laws;
pub mod memory;
pub mod mmu;
pub mod sbi;
pub mod traps;
pub mod uart;
pub mod virtio;
pub mod vm;
pub mod word;

pub use bus::Bus;
pub use cpu::{Cpu, StepResult};
