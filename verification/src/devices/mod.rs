use vstd::prelude::*;

pub mod plic;
pub mod timer;

pub use plic::Plic;
pub use timer::Clint;

verus! {

/// Common interface for all memory-mapped I/O peripherals.
///
/// Implementors only need to provide `read32` and `write32`.
/// The byte and 64-bit variants are derived from those two by default.
pub trait Device: Sized {
    /// What a 32-bit read at `offset` returns.
    spec fn spec_read32(&self, offset: u64) -> u32;

    /// The device after a 32-bit write of `val` at `offset`.
    spec fn spec_write32(&self, offset: u64, val: u32) -> Self;

    fn read32(&self, offset: u64) -> (r: u32)
        ensures
            r == self.spec_read32(offset),
    ;

    fn write32(&mut self, offset: u64, val: u32)
        ensures
            *final(self) == old(self).spec_write32(offset, val),
    ;

    fn read8(&self, offset: u64) -> (r: u8)
        ensures
            r == self.spec_read32(offset) as u8,
    {
        self.read32(offset) as u8
    }

    fn write8(&mut self, offset: u64, val: u8)
        ensures
            *final(self) == old(self).spec_write32(offset, val as u32),
    {
        self.write32(offset, val as u32);
    }

    fn read64(&self, offset: u64) -> (r: u64)
        requires
            offset <= u64::MAX - 4,
        default_ensures
            r == (self.spec_read32(offset) as u64) | ((self.spec_read32((offset + 4) as u64) as u64) << 32u64),
    {
        (self.read32(offset) as u64) | ((self.read32(offset + 4) as u64) << 32)
    }

    fn write64(&mut self, offset: u64, val: u64)
        requires
            offset <= u64::MAX - 4,
        default_ensures
            *final(self) == old(self).spec_write32(offset, val as u32).spec_write32(
                (offset + 4) as u64,
                (val >> 32u64) as u32,
            ),
    {
        self.write32(offset, val as u32);
        self.write32(offset + 4, (val >> 32) as u32);
    }
}

} // verus!
