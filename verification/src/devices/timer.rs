use vstd::prelude::*;
use super::Device;
use crate::word::{hi32, lo32, set_high, set_low, spec_hi32, spec_lo32, spec_set_high, spec_set_low};

verus! {

// CLINT register offsets relative to CLINT_BASE
pub const MTIMECMP_LO: u64 = 0x4000;
pub const MTIMECMP_HI: u64 = 0x4004;
pub const MTIME_LO: u64 = 0xBFF8;
pub const MTIME_HI: u64 = 0xBFFC;

/// CLINT, the core-local interruptor: a free-running `mtime` and its comparator.
/// A timer interrupt is pending while mtime >= mtimecmp.
#[derive(Clone, Copy, PartialEq, Eq, Structural)]
pub struct Clint {
    pub mtime: u64,
    pub mtimecmp: u64,
}

impl Clint {
    pub fn new() -> (c: Self)
        ensures
            c.mtime == 0,
            c.mtimecmp == u64::MAX,
    {
        Self { mtime: 0, mtimecmp: u64::MAX }
    }

    /// Advances mtime by one (wrapping).
    pub fn tick(&mut self)
        ensures
            final(self).mtime == old(self).mtime.wrapping_add(1),
            final(self).mtimecmp == old(self).mtimecmp,
    {
        self.mtime = self.mtime.wrapping_add(1);
    }

    pub fn timer_pending(&self) -> (r: bool)
        ensures
            r == (self.mtime >= self.mtimecmp),
    {
        self.mtime >= self.mtimecmp
    }

    /// What a 64-bit read at `offset` returns: the whole register at its low offset, else 0.
    pub open spec fn spec_read64(&self, offset: u64) -> u64 {
        if offset == MTIMECMP_LO {
            self.mtimecmp
        } else if offset == MTIME_LO {
            self.mtime
        } else {
            0
        }
    }

    /// The timer after a 64-bit write at `offset`: the whole register at its low offset.
    pub open spec fn spec_write64(&self, offset: u64, val: u64) -> Clint {
        if offset == MTIMECMP_LO {
            Clint { mtimecmp: val, ..*self }
        } else if offset == MTIME_LO {
            Clint { mtime: val, ..*self }
        } else {
            *self
        }
    }
}

impl Device for Clint {
    open spec fn spec_read32(&self, offset: u64) -> u32 {
        if offset == MTIMECMP_LO {
            spec_lo32(self.mtimecmp)
        } else if offset == MTIMECMP_HI {
            spec_hi32(self.mtimecmp)
        } else if offset == MTIME_LO {
            spec_lo32(self.mtime)
        } else if offset == MTIME_HI {
            spec_hi32(self.mtime)
        } else {
            0
        }
    }

    open spec fn spec_write32(&self, offset: u64, val: u32) -> Clint {
        if offset == MTIMECMP_LO {
            Clint { mtimecmp: spec_set_low(self.mtimecmp, val), ..*self }
        } else if offset == MTIMECMP_HI {
            Clint { mtimecmp: spec_set_high(self.mtimecmp, val), ..*self }
        } else if offset == MTIME_LO {
            Clint { mtime: spec_set_low(self.mtime, val), ..*self }
        } else if offset == MTIME_HI {
            Clint { mtime: spec_set_high(self.mtime, val), ..*self }
        } else {
            *self
        }
    }

    fn read32(&self, offset: u64) -> (r: u32) {
        match offset {
            MTIMECMP_LO => lo32(self.mtimecmp),
            MTIMECMP_HI => hi32(self.mtimecmp),
            MTIME_LO => lo32(self.mtime),
            MTIME_HI => hi32(self.mtime),
            _ => 0,
        }
    }

    fn write32(&mut self, offset: u64, val: u32) {
        match offset {
            MTIMECMP_LO => self.mtimecmp = set_low(self.mtimecmp, val),
            MTIMECMP_HI => self.mtimecmp = set_high(self.mtimecmp, val),
            MTIME_LO => self.mtime = set_low(self.mtime, val),
            MTIME_HI => self.mtime = set_high(self.mtime, val),
            _ => {},
        }
    }

    // The CLINT has proper 64-bit registers.
    fn read64(&self, offset: u64) -> (r: u64)
        ensures
            r == self.spec_read64(offset),
    {
        match offset {
            MTIMECMP_LO => self.mtimecmp,
            MTIME_LO => self.mtime,
            _ => 0,
        }
    }

    fn write64(&mut self, offset: u64, val: u64)
        ensures
            *final(self) == old(self).spec_write64(offset, val),
    {
        match offset {
            MTIMECMP_LO => self.mtimecmp = val,
            MTIME_LO => self.mtime = val,
            _ => {},
        }
    }
}

} // verus!
