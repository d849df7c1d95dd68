use vstd::prelude::*;
use crate::devices::{Clint, Device, Plic};
use crate::memory::{copy_bytes, dram_fits, dram_image, mem_read16, mem_read32, mem_read64, mem_read8, mem_write, min_len, Memory};
use crate::traps::TrapCause;
use crate::uart::{Uart, UartView};

pub use crate::memory::{DRAM_BASE, DRAM_SIZE};
pub use crate::uart::{UART_BASE, UART_END};

verus! {

// Memory map
pub const DRAM_END: u64 = 0x8800_0000;
pub const CLINT_BASE: u64 = 0x0200_0000;
pub const CLINT_END: u64 = 0x020F_FFFF;
pub const PLIC_BASE: u64 = 0x0C00_0000;
pub const PLIC_END: u64 = 0x0FFF_FFFF;

pub open spec fn in_dram(a: u64) -> bool {
    DRAM_BASE <= a < DRAM_END
}

pub open spec fn in_clint(a: u64) -> bool {
    CLINT_BASE <= a <= CLINT_END
}

pub open spec fn in_plic(a: u64) -> bool {
    PLIC_BASE <= a <= PLIC_END
}

pub open spec fn in_uart(a: u64) -> bool {
    UART_BASE <= a <= UART_END
}

/// Abstract state of the system bus: DRAM bytes and the devices.
#[verifier::ext_equal]
pub struct BusView {
    pub dram: Seq<u8>,
    pub clint: Clint,
    pub plic: Plic,
    pub uart: UartView,
}

impl BusView {
    /// A byte load. DRAM answers from its bytes, the CLINT and PLIC with the low byte of their 32-bit register, the UART with
    /// its byte register; any other address is an access fault.
    pub open spec fn read8(self, a: u64) -> Result<u8, TrapCause> {
        if in_dram(a) {
            match mem_read8(self.dram, a) {
                Some(v) => Ok(v),
                None => Err(TrapCause::LoadAccessFault),
            }
        } else if in_clint(a) {
            Ok(self.clint.spec_read32((a - CLINT_BASE) as u64) as u8)
        } else if in_plic(a) {
            Ok(self.plic.spec_read32((a - PLIC_BASE) as u64) as u8)
        } else if in_uart(a) {
            Ok(self.uart.read8((a - UART_BASE) as u64))
        } else {
            Err(TrapCause::LoadAccessFault)
        }
    }

    /// A halfword load: two byte loads, little-endian.
    pub open spec fn read16(self, a: u64) -> Result<u16, TrapCause> {
        match self.read8(a) {
            Err(e) => Err(e),
            Ok(lo) => match self.read8((a + 1) as u64) {
                Err(e) => Err(e),
                Ok(hi) => Ok((lo as u16) | ((hi as u16) << 8u16)),
            },
        }
    }

    /// A word load. The UART is not mapped for word accesses.
    pub open spec fn read32(self, a: u64) -> Result<u32, TrapCause> {
        if in_dram(a) {
            match mem_read32(self.dram, a) {
                Some(v) => Ok(v),
                None => Err(TrapCause::LoadAccessFault),
            }
        } else if in_clint(a) {
            Ok(self.clint.spec_read32((a - CLINT_BASE) as u64))
        } else if in_plic(a) {
            Ok(self.plic.spec_read32((a - PLIC_BASE) as u64))
        } else {
            Err(TrapCause::LoadAccessFault)
        }
    }

    /// A doubleword load: DRAM and the CLINT's 64-bit registers directly, anything else
    /// as two word loads.
    pub open spec fn read64(self, a: u64) -> Result<u64, TrapCause> {
        if in_dram(a) {
            match mem_read64(self.dram, a) {
                Some(v) => Ok(v),
                None => Err(TrapCause::LoadAccessFault),
            }
        } else if in_clint(a) {
            Ok(self.clint.spec_read64((a - CLINT_BASE) as u64))
        } else {
            match self.read32(a) {
                Err(e) => Err(e),
                Ok(lo) => match self.read32((a + 4) as u64) {
                    Err(e) => Err(e),
                    Ok(hi) => Ok((lo as u64) | ((hi as u64) << 32u64)),
                },
            }
        }
    }

    /// Whether a byte store at `a` succeeds.
    pub open spec fn store8_ok(a: u64) -> bool {
        in_dram(a) || in_clint(a) || in_plic(a) || in_uart(a)
    }

    /// Whether a word store at `a` succeeds: in DRAM all four bytes must lie in it.
    pub open spec fn store32_ok(a: u64) -> bool {
        if in_dram(a) { dram_fits(a, 4) } else { in_clint(a) || in_plic(a) }
    }

    /// The bus after a byte store. A store to DRAM that does not fit changes nothing.
    pub open spec fn write8(self, a: u64, v: u8) -> BusView {
        if in_dram(a) {
            BusView { dram: mem_write(self.dram, a, v as u64, 1), ..self }
        } else if in_clint(a) {
            BusView { clint: self.clint.spec_write32((a - CLINT_BASE) as u64, v as u32), ..self }
        } else if in_plic(a) {
            BusView { plic: self.plic.spec_write32((a - PLIC_BASE) as u64, v as u32), ..self }
        } else if in_uart(a) {
            BusView { uart: self.uart.write8((a - UART_BASE) as u64, v), ..self }
        } else {
            self
        }
    }

    /// The bus after a halfword store: two byte stores, the second only if the first succeeds.
    pub open spec fn write16(self, a: u64, v: u16) -> BusView {
        if !BusView::store8_ok(a) {
            self
        } else {
            self.write8(a, v as u8).write8((a + 1) as u64, (v >> 8u16) as u8)
        }
    }

    pub open spec fn write16_result(a: u64) -> Result<(), TrapCause> {
        if BusView::store8_ok(a) && BusView::store8_ok((a + 1) as u64) {
            Ok(())
        } else {
            Err(TrapCause::StoreAccessFault)
        }
    }

    pub open spec fn write32(self, a: u64, v: u32) -> BusView {
        if in_dram(a) {
            BusView { dram: mem_write(self.dram, a, v as u64, 4), ..self }
        } else if in_clint(a) {
            BusView { clint: self.clint.spec_write32((a - CLINT_BASE) as u64, v), ..self }
        } else if in_plic(a) {
            BusView { plic: self.plic.spec_write32((a - PLIC_BASE) as u64, v), ..self }
        } else {
            self
        }
    }

    /// The bus after a doubleword store: DRAM and the CLINT's 64-bit registers directly,
    /// anything else as two word stores, the second only if the first succeeds.
    pub open spec fn write64(self, a: u64, v: u64) -> BusView {
        if in_dram(a) {
            BusView { dram: mem_write(self.dram, a, v, 8), ..self }
        } else if in_clint(a) {
            BusView { clint: self.clint.spec_write64((a - CLINT_BASE) as u64, v), ..self }
        } else if !BusView::store32_ok(a) {
            self
        } else {
            self.write32(a, v as u32).write32((a + 4) as u64, (v >> 32u64) as u32)
        }
    }

    /// The result of a doubleword store: in DRAM all eight bytes must lie in it.
    pub open spec fn write64_result(a: u64) -> Result<(), TrapCause> {
        if in_dram(a) {
            BusView::store_result(dram_fits(a, 8))
        } else if in_clint(a) || (BusView::store32_ok(a) && BusView::store32_ok((a + 4) as u64)) {
            Ok(())
        } else {
            Err(TrapCause::StoreAccessFault)
        }
    }

    pub open spec fn store_result(ok: bool) -> Result<(), TrapCause> {
        if ok { Ok(()) } else { Err(TrapCause::StoreAccessFault) }
    }

    /// The bus after one timer tick.
    pub open spec fn tick(self) -> BusView {
        BusView { clint: Clint { mtime: self.clint.mtime.wrapping_add(1), ..self.clint }, ..self }
    }
}

/// The system bus: routes physical addresses to DRAM and the memory-mapped devices.
pub struct Bus {
    pub dram: Memory,
    pub clint: Clint,
    pub plic: Plic,
    pub uart: Uart,
}

impl View for Bus {
    type V = BusView;

    open spec fn view(&self) -> BusView {
        BusView { dram: self.dram@, clint: self.clint, plic: self.plic, uart: self.uart@ }
    }
}

impl Bus {
    /// DRAM holds exactly `DRAM_SIZE` bytes and the UART buffer is consistent.
    pub open spec fn wf(&self) -> bool {
        self.dram.wf() && self.uart.wf()
    }

    /// The devices right after reset.
    pub open spec fn devices_reset(v: BusView) -> bool {
        &&& v.clint.mtime == 0
        &&& v.clint.mtimecmp == u64::MAX
        &&& v.plic == Plic::new_spec()
        &&& v.uart == UartView::reset()
    }

    /// A bus whose DRAM holds `binary` at DRAM_BASE (cut to the DRAM size), zeros elsewhere.
    pub fn new(binary: &[u8]) -> (b: Self)
        ensures
            b.wf(),
            b@.dram == dram_image(binary@),
            Bus::devices_reset(b@),
    {
        Self { dram: Memory::load_binary(binary), clint: Clint::new(), plic: Plic::new(), uart: Uart::new() }
    }

    /// A bus whose DRAM is `data`, cut or zero-padded to the DRAM size.
    pub fn from_dram(data: Vec<u8>) -> (b: Self)
        ensures
            b.wf(),
            b@.dram == dram_image(data@),
            Bus::devices_reset(b@),
    {
        Self { dram: Memory::into_dram(data), clint: Clint::new(), plic: Plic::new(), uart: Uart::new() }
    }

    /// A bus whose DRAM holds `binary` at physical address `addr` (cut at the end of DRAM),
    /// zeros elsewhere.
    pub fn new_at(binary: Vec<u8>, addr: u64) -> (b: Self)
        requires
            DRAM_BASE <= addr <= DRAM_BASE + DRAM_SIZE,
        ensures
            b.wf(),
            b@.dram == copy_bytes(
                dram_image(Seq::empty()),
                addr - DRAM_BASE,
                binary@,
                0,
                min_len(binary@.len(), (DRAM_BASE + DRAM_SIZE - addr) as nat) as int,
            ),
            Bus::devices_reset(b@),
    {
        let mut dram = Memory::new();
        dram.write_bytes((addr - DRAM_BASE) as usize, binary.as_slice());
        Self { dram, clint: Clint::new(), plic: Plic::new(), uart: Uart::new() }
    }

    pub fn tick(&mut self)
        requires
            old(self).wf(),
        ensures
            final(self).wf(),
            final(self)@ == old(self)@.tick(),
    {
        self.clint.tick();
    }

    pub fn read8(&self, addr: u64) -> (r: Result<u8, TrapCause>)
        requires
            self.wf(),
        ensures
            r == self@.read8(addr),
    {
        if DRAM_BASE <= addr && addr < DRAM_END {
            match self.dram.read8(addr) {
                Some(v) => Ok(v),
                None => Err(TrapCause::LoadAccessFault),
            }
        } else if CLINT_BASE <= addr && addr <= CLINT_END {
            Ok(self.clint.read8(addr - CLINT_BASE))
        } else if PLIC_BASE <= addr && addr <= PLIC_END {
            Ok(self.plic.read8(addr - PLIC_BASE))
        } else if UART_BASE <= addr && addr <= UART_END {
            self.uart.read8(addr - UART_BASE)
        } else {
            Err(TrapCause::LoadAccessFault)
        }
    }

    pub fn read16(&self, addr: u64) -> (r: Result<u16, TrapCause>)
        requires
            self.wf(),
        ensures
            r == self@.read16(addr),
    {
        let lo = self.read8(addr)? as u16;
        let hi = self.read8(addr + 1)? as u16;
        Ok(lo | (hi << 8))
    }

    pub fn read32(&self, addr: u64) -> (r: Result<u32, TrapCause>)
        requires
            self.wf(),
        ensures
            r == self@.read32(addr),
    {
        if DRAM_BASE <= addr && addr < DRAM_END {
            match self.dram.read32(addr) {
                Some(v) => Ok(v),
                None => Err(TrapCause::LoadAccessFault),
            }
        } else if CLINT_BASE <= addr && addr <= CLINT_END {
            Ok(self.clint.read32(addr - CLINT_BASE))
        } else if PLIC_BASE <= addr && addr <= PLIC_END {
            Ok(self.plic.read32(addr - PLIC_BASE))
        } else {
            Err(TrapCause::LoadAccessFault)
        }
    }

    pub fn read64(&self, addr: u64) -> (r: Result<u64, TrapCause>)
        requires
            self.wf(),
        ensures
            r == self@.read64(addr),
    {
        if DRAM_BASE <= addr && addr < DRAM_END {
            match self.dram.read64(addr) {
                Some(v) => Ok(v),
                None => Err(TrapCause::LoadAccessFault),
            }
        } else if CLINT_BASE <= addr && addr <= CLINT_END {
            Ok(self.clint.read64(addr - CLINT_BASE))
        } else {
            let lo = self.read32(addr)? as u64;
            let hi = self.read32(addr + 4)? as u64;
            Ok(lo | (hi << 32))
        }
    }

    /// A doubleword read of physical memory, as the page-table walker does it.
    pub fn read_phys64(&self, addr: u64) -> (r: Result<u64, TrapCause>)
        requires
            self.wf(),
        ensures
            r == self@.read64(addr),
    {
        self.read64(addr)
    }

    pub fn write8(&mut self, addr: u64, val: u8) -> (r: Result<(), TrapCause>)
        requires
            old(self).wf(),
        ensures
            final(self).wf(),
            final(self)@ == old(self)@.write8(addr, val),
            r == BusView::store_result(BusView::store8_ok(addr)),
    {
        if DRAM_BASE <= addr && addr < DRAM_END {
            self.dram.write8(addr, val);
            Ok(())
        } else if CLINT_BASE <= addr && addr <= CLINT_END {
            self.clint.write8(addr - CLINT_BASE, val);
            Ok(())
        } else if PLIC_BASE <= addr && addr <= PLIC_END {
            self.plic.write8(addr - PLIC_BASE, val);
            Ok(())
        } else if UART_BASE <= addr && addr <= UART_END {
            self.uart.write8(addr - UART_BASE, val)
        } else {
            Err(TrapCause::StoreAccessFault)
        }
    }

    pub fn write16(&mut self, addr: u64, val: u16) -> (r: Result<(), TrapCause>)
        requires
            old(self).wf(),
        ensures
            final(self).wf(),
            final(self)@ == old(self)@.write16(addr, val),
            r == BusView::write16_result(addr),
    {
        self.write8(addr, val as u8)?;
        self.write8(addr + 1, (val >> 8) as u8)
    }

    pub fn write32(&mut self, addr: u64, val: u32) -> (r: Result<(), TrapCause>)
        requires
            old(self).wf(),
        ensures
            final(self).wf(),
            final(self)@ == old(self)@.write32(addr, val),
            r == BusView::store_result(BusView::store32_ok(addr)),
    {
        if DRAM_BASE <= addr && addr < DRAM_END {
            if addr <= DRAM_END - 4 {
                self.dram.write32(addr, val);
                Ok(())
            } else {
                Err(TrapCause::StoreAccessFault)
            }
        } else if CLINT_BASE <= addr && addr <= CLINT_END {
            self.clint.write32(addr - CLINT_BASE, val);
            Ok(())
        } else if PLIC_BASE <= addr && addr <= PLIC_END {
            self.plic.write32(addr - PLIC_BASE, val);
            Ok(())
        } else {
            Err(TrapCause::StoreAccessFault)
        }
    }

    pub fn write64(&mut self, addr: u64, val: u64) -> (r: Result<(), TrapCause>)
        requires
            old(self).wf(),
        ensures
            final(self).wf(),
            final(self)@ == old(self)@.write64(addr, val),
            r == BusView::write64_result(addr),
    {
        if DRAM_BASE <= addr && addr < DRAM_END {
            if addr <= DRAM_END - 8 {
                self.dram.write64(addr, val);
                Ok(())
            } else {
                Err(TrapCause::StoreAccessFault)
            }
        } else if CLINT_BASE <= addr && addr <= CLINT_END {
            self.clint.write64(addr - CLINT_BASE, val);
            Ok(())
        } else {
            self.write32(addr, val as u32)?;
            self.write32(addr + 4, (val >> 32) as u32)
        }
    }
}

} // verus!
