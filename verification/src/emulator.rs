//! A whole machine behind a small handle: load a flat binary, step it, inspect it.
use vstd::prelude::*;
use crate::bus::{Bus, BusView, DRAM_BASE};
use crate::cpu::csr::{Privilege, CSR_CYCLE, CSR_INSTRET, MIP_MTIP};
use crate::cpu::{reset_view, step_spec, Cpu, CpuView, StepResult};
use crate::memory::dram_image;
use crate::traps::TrapCause;
use crate::vm::{counters_ok, SYS_EXIT};

verus! {

broadcast use crate::cpu::csr::lemma_csr_file_wf;

/// Abstract state of the machine: the hart and the bus.
pub struct EmulatorView {
    pub cpu: CpuView,
    pub bus: BusView,
}

/// The machine after one step: the timer line drives mip.MTIP, the hart steps, and an M-mode
/// `exit` environment call (a7 = 93) halts the hart.
#[verifier::opaque]
pub open spec fn emu_step_spec(e: EmulatorView) -> EmulatorView {
    let c1 = CpuView { csr: e.cpu.csr.with_mip_bit(MIP_MTIP, e.bus.clint.mtime >= e.bus.clint.mtimecmp), ..e.cpu };
    let (c2, b2, r) = step_spec(c1, e.bus);
    if r == StepResult::Trap(TrapCause::EcallFromM) && c2.regs[17] == SYS_EXIT {
        EmulatorView { cpu: CpuView { halted: true, ..c2 }, bus: b2 }
    } else {
        EmulatorView { cpu: c2, bus: b2 }
    }
}

/// The machine after up to `n` steps, stopping once the hart has halted. `None` where a
/// counter would overflow on the way.
pub open spec fn emu_run_spec(e: EmulatorView, n: nat) -> Option<EmulatorView>
    decreases n,
{
    if n == 0 || e.cpu.halted {
        Some(e)
    } else if !counters_ok(e.cpu) {
        None
    } else {
        emu_run_spec(emu_step_spec(e), (n - 1) as nat)
    }
}

/// A machine: one hart and its bus.
pub struct EmulatorState {
    cpu: Cpu,
    bus: Bus,
}

impl View for EmulatorState {
    type V = EmulatorView;

    closed spec fn view(&self) -> EmulatorView {
        EmulatorView { cpu: self.cpu@, bus: self.bus@ }
    }
}

impl EmulatorState {
    /// The bus holds exactly the DRAM it should.
    pub closed spec fn wf(&self) -> bool {
        self.bus.wf()
    }

    /// A machine with `binary` loaded at DRAM_BASE and the hart reset to start there.
    pub fn new(binary: Vec<u8>) -> (s: Self)
        ensures
            s.wf(),
            s@.bus.dram == dram_image(binary@),
            Bus::devices_reset(s@.bus),
            s@.cpu == reset_view(DRAM_BASE),
    {
        let bus = Bus::new(binary.as_slice());
        let cpu = Cpu::new(DRAM_BASE);
        Self { cpu, bus }
    }

    /// Steps the machine once.
    pub fn step(&mut self)
        requires
            old(self).wf(),
            counters_ok(old(self)@.cpu),
        ensures
            final(self).wf(),
            final(self)@ == emu_step_spec(old(self)@),
    {
        reveal(emu_step_spec);
        if self.bus.clint.timer_pending() {
            self.cpu.csr.set_mip_timer();
        } else {
            self.cpu.csr.clear_mip_timer();
        }
        let r = self.cpu.step(&mut self.bus);
        if r == StepResult::Trap(TrapCause::EcallFromM) && self.cpu.regs[17] == SYS_EXIT {
            self.cpu.halted = true;
        }
    }

    /// Steps the machine up to `n` times, stopping once it has halted.
    pub fn run(&mut self, n: u32)
        requires
            old(self).wf(),
            emu_run_spec(old(self)@, n as nat) is Some,
        ensures
            final(self).wf(),
            final(self)@ == emu_run_spec(old(self)@, n as nat)->0,
    {
        let mut i: u32 = 0;
        while i < n && !self.cpu.halted
            invariant
                self.wf(),
                i <= n,
                emu_run_spec(self@, (n - i) as nat) == emu_run_spec(old(self)@, n as nat),
                emu_run_spec(old(self)@, n as nat) is Some,
            decreases n - i,
        {
            self.step();
            i = i + 1;
        }
    }

    pub fn pc(&self) -> (r: u64)
        ensures
            r == self@.cpu.pc,
    {
        self.cpu.pc
    }

    pub fn halted(&self) -> (r: bool)
        ensures
            r == self@.cpu.halted,
    {
        self.cpu.halted
    }

    /// The cycle counter.
    pub fn cycles(&self) -> (r: u64)
        ensures
            r == self@.cpu.csr.read(CSR_CYCLE, Privilege::M),
    {
        self.cpu.csr.read(CSR_CYCLE, Privilege::M)
    }

    /// The retired-instruction counter.
    pub fn instret(&self) -> (r: u64)
        ensures
            r == self@.cpu.csr.read(CSR_INSTRET, Privilege::M),
    {
        self.cpu.csr.read(CSR_INSTRET, Privilege::M)
    }

    /// Register `i`, or 0 for a number past x31.
    pub fn reg(&self, i: u32) -> (r: u64)
        ensures
            r == if i < 32 { self@.cpu.regs[i as int] } else { 0 },
    {
        if i < 32 {
            self.cpu.regs[i as usize]
        } else {
            0
        }
    }

    /// The 32-bit word at physical address `addr`, or 0xDEAD_BEEF where the read faults.
    pub fn read_mem32(&self, addr: u64) -> (r: u32)
        requires
            self.wf(),
        ensures
            r == match self@.bus.read32(addr) {
                Ok(v) => v,
                Err(_) => 0xDEAD_BEEFu32,
            },
    {
        match self.bus.read32(addr) {
            Ok(v) => v,
            Err(_) => 0xDEAD_BEEF,
        }
    }
}

} // verus!
