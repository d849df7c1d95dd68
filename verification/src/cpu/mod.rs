use vstd::prelude::*;

pub mod csr;
pub mod decoder;
pub mod executor;

use crate::bus::{Bus, BusView, DRAM_END};
use crate::traps::{interrupt_to_take, pending_interrupt, TrapCause};
use crate::cpu::csr::{
    CsrFile, CsrView, Privilege, CSR_CYCLE, CSR_INSTRET, CSR_MCAUSE, CSR_MEPC, CSR_MSTATUS, CSR_MTVAL,
    CSR_MTVEC, CSR_SATP, CSR_SCAUSE, CSR_SEPC, CSR_STVAL, CSR_STVEC, MSTATUS_MIE, MSTATUS_MPIE,
    MSTATUS_MPP, MSTATUS_SIE, MSTATUS_SPIE, MSTATUS_SPP,
};
use crate::cpu::decoder::{decode, decode_spec};
use crate::cpu::executor::{execute, exec_spec, is_leaf, spec_pte_ppn, vpn_spec, pte_addr, PTE_X};

verus! {

broadcast use crate::cpu::csr::lemma_csr_file_wf;

#[derive(Debug, Clone, Copy, PartialEq, Eq, Structural)]
pub enum StepResult {
    /// The step completed normally (an instruction retired or an interrupt was taken).
    Continue,
    Halted,
    Trap(TrapCause),
}

/// One RV64 hart: integer registers, pc, CSRs and the current privilege level.
pub struct Cpu {
    pub regs: [u64; 32],
    pub pc: u64,
    pub csr: CsrFile,
    pub halted: bool,
    pub priv_level: Privilege,
}

/// Abstract state of a hart.
pub struct CpuView {
    pub regs: Seq<u64>,
    pub pc: u64,
    pub csr: CsrView,
    pub halted: bool,
    pub priv_level: Privilege,
}

impl View for Cpu {
    type V = CpuView;

    open spec fn view(&self) -> CpuView {
        CpuView { regs: self.regs@, pc: self.pc, csr: self.csr@, halted: self.halted, priv_level: self.priv_level }
    }
}

/// mstatus after a trap into M-mode from privilege `p`: MPIE = MIE, MIE = 0, MPP = p.
pub open spec fn m_trap_mstatus(ms: u64, p: Privilege) -> u64 {
    (ms & !(MSTATUS_MIE | MSTATUS_MPIE | MSTATUS_MPP)) | (((ms & MSTATUS_MIE) >> 3u64) << 7u64) | (p.spec_bits() << 11u64)
}

/// mstatus after a trap into S-mode from privilege `p`: SPIE = SIE, SIE = 0, SPP = p's low bit.
pub open spec fn s_trap_mstatus(ms: u64, p: Privilege) -> u64 {
    (ms & !(MSTATUS_SIE | MSTATUS_SPIE | MSTATUS_SPP)) | (((ms & MSTATUS_SIE) >> 1u64) << 5u64)
        | ((p.spec_bits() & 1) << 8u64)
}

/// Where a trap handler starts: in vectored mode (low bit of the vector register set)
/// interrupts go to base + 4 * cause, everything else to the base.
pub open spec fn trap_target(tvec: u64, cause: TrapCause) -> u64 {
    if cause.spec_is_interrupt() && tvec & 1 == 1 {
        (tvec & !3u64).wrapping_add((4 * (cause.spec_code() & 0x7FFF_FFFF_FFFF_FFFF)) as u64)
    } else {
        tvec & !3u64
    }
}

/// The hart after taking a trap into M-mode: mepc = `pc`, mcause, mtval = `tval`, the
/// interrupt-enable stack pushed, pc at the handler, privilege M.
pub open spec fn take_trap_spec(c: CpuView, cause: TrapCause, pc: u64, tval: u64) -> CpuView {
    let c1 = c.csr.write(CSR_MEPC, pc, Privilege::M).write(CSR_MCAUSE, cause.spec_code(), Privilege::M).write(
        CSR_MTVAL,
        tval,
        Privilege::M,
    );
    let c2 = c1.write(CSR_MSTATUS, m_trap_mstatus(c1.reg(CSR_MSTATUS), c.priv_level), Privilege::M);
    CpuView { csr: c2, pc: trap_target(c2.read(CSR_MTVEC, Privilege::M), cause), priv_level: Privilege::M, ..c }
}

/// The hart after taking a trap into S-mode: sepc = `pc`, scause, stval = `tval`, the
/// supervisor interrupt-enable stack pushed, pc at the handler, privilege S.
pub open spec fn take_s_trap_spec(c: CpuView, cause: TrapCause, pc: u64, tval: u64) -> CpuView {
    let c1 = c.csr.write(CSR_SEPC, pc, Privilege::S).write(CSR_SCAUSE, cause.spec_code(), Privilege::S).write(
        CSR_STVAL,
        tval,
        Privilege::S,
    );
    let c2 = c1.write(CSR_MSTATUS, s_trap_mstatus(c1.reg(CSR_MSTATUS), c.priv_level), Privilege::M);
    CpuView { csr: c2, pc: trap_target(c2.read(CSR_STVEC, Privilege::S), cause), priv_level: Privilege::S, ..c }
}

/// The hart after an environment call, which its caller services: mepc holds the pc of the
/// call and mcause its cause; the pc, privilege and status are left alone.
pub open spec fn ecall_record(c: CpuView, cause: TrapCause, pc: u64) -> CpuView {
    CpuView {
        csr: c.csr.write(CSR_MEPC, pc, Privilege::M).write(CSR_MCAUSE, cause.spec_code(), Privilege::M),
        ..c
    }
}

/// Counter increment as the hart does it.
pub open spec fn bump(csr: CsrView, counter: usize) -> CsrView {
    csr.set_reg(counter, (csr.reg(counter) + 1) as u64)
}

/// The rest of an instruction-fetch page walk below the valid entry `pte` (see `fetch_pa_spec`).
pub open spec fn fetch_walk_from(bus: BusView, pte: u64, level: int, pc: u64) -> Result<u64, TrapCause>
    decreases level + 1,
{
    if is_leaf(pte) || level < 0 {
        if pte & PTE_X == 0 {
            Err(TrapCause::InstructionPageFault)
        } else {
            Ok((spec_pte_ppn(pte) << 12u64) | (pc & 0xFFF))
        }
    } else {
        match bus.read64(pte_addr(spec_pte_ppn(pte), vpn_spec(pc, level as u64))) {
            Err(_) => Err(TrapCause::InstructionPageFault),
            Ok(next) => if next & 1 == 0 {
                Err(TrapCause::InstructionPageFault)
            } else {
                fetch_walk_from(bus, next, level - 1, pc)
            },
        }
    }
}

/// Translation of an instruction address: identity in M-mode or when satp's mode is 0;
/// otherwise a three-level walk that must end in an executable leaf; the physical address
/// is the leaf's page number with the page offset of `pc`.
pub open spec fn fetch_pa_spec(pc: u64, p: Privilege, bus: BusView, satp: u64) -> Result<u64, TrapCause> {
    if p == Privilege::M || (satp >> 60u64) & 0xF == 0 {
        Ok(pc)
    } else {
        match bus.read64(pte_addr(satp & 0xFFF_FFFF_FFFF, vpn_spec(pc, 2))) {
            Err(_) => Err(TrapCause::InstructionPageFault),
            Ok(root) => if root & 1 == 0 {
                Err(TrapCause::InstructionPageFault)
            } else {
                fetch_walk_from(bus, root, 1, pc)
            },
        }
    }
}

/// One step of the hart, as `Cpu::step` performs it: the state of the hart and the bus after
/// it, and what it reports.
pub open spec fn step_spec(c: CpuView, bus: BusView) -> (CpuView, BusView, StepResult) {
    if c.halted {
        (c, bus, StepResult::Halted)
    } else {
        let bus1 = bus.tick();
        let c1 = CpuView { csr: bump(c.csr, CSR_CYCLE), ..c };
        let p = c.priv_level;
        match interrupt_to_take(
            c1.csr.reg(CSR_MSTATUS),
            c1.csr.reg(crate::cpu::csr::CSR_MIE),
            c1.csr.reg(crate::cpu::csr::CSR_MIP),
            p,
            c1.csr.reg(crate::cpu::csr::CSR_MIDELEG),
        ) {
            Some((irq, delegated)) => (
                if delegated && p != Privilege::M {
                    take_s_trap_spec(c1, irq, c.pc, 0)
                } else {
                    take_trap_spec(c1, irq, c.pc, 0)
                },
                bus1,
                StepResult::Continue,
            ),
            None => {
                let pa = match fetch_pa_spec(c.pc, p, bus1, c1.csr.read(CSR_SATP, Privilege::M)) {
                    Ok(pa) => pa,
                    Err(_) => c.pc,
                };
                match bus1.read32(pa) {
                    Err(_) => {
                        let cause = if p != Privilege::U {
                            TrapCause::InstructionAccessFault
                        } else {
                            TrapCause::InstructionPageFault
                        };
                        (take_trap_spec(c1, cause, c.pc, c.pc), bus1, StepResult::Trap(cause))
                    },
                    Ok(raw) => {
                        let o = exec_spec(decode_spec(raw), c.pc, c.regs, c1.csr, bus1, p);
                        let c2 = CpuView { regs: o.regs, csr: bump(o.csr, CSR_INSTRET), ..c };
                        if o.halt {
                            (CpuView { halted: true, ..c2 }, o.bus, StepResult::Halted)
                        } else if o.trap is Some {
                            let t = o.trap->0;
                            if t is EcallFromU || t is EcallFromS || t is EcallFromM {
                                (ecall_record(c2, t, c.pc), o.bus, StepResult::Trap(t))
                            } else {
                                let code = t.spec_code() & !crate::traps::INTERRUPT_BIT;
                                let delegate = p != Privilege::M
                                    && c2.csr.reg(crate::cpu::csr::CSR_MEDELEG) & (1u64 << code) != 0;
                                (
                                    if delegate {
                                        take_s_trap_spec(c2, t, c.pc, 0)
                                    } else {
                                        take_trap_spec(c2, t, c.pc, 0)
                                    },
                                    o.bus,
                                    StepResult::Trap(t),
                                )
                            }
                        } else {
                            (
                                CpuView {
                                    regs: o.regs.update(0, 0),
                                    pc: o.next_pc,
                                    priv_level: match o.new_priv {
                                        Some(np) => np,
                                        None => p,
                                    },
                                    ..c2
                                },
                                o.bus,
                                StepResult::Continue,
                            )
                        }
                    },
                }
            },
        }
    }
}

/// ABI name of each integer register.
pub open spec fn abi_name(r: usize) -> &'static str {
    if r == 0 { "zero" } else if r == 1 { "ra" } else if r == 2 { "sp" } else if r == 3 { "gp" }
    else if r == 4 { "tp" } else if r == 5 { "t0" } else if r == 6 { "t1" } else if r == 7 { "t2" }
    else if r == 8 { "s0" } else if r == 9 { "s1" } else if r == 10 { "a0" } else if r == 11 { "a1" }
    else if r == 12 { "a2" } else if r == 13 { "a3" } else if r == 14 { "a4" } else if r == 15 { "a5" }
    else if r == 16 { "a6" } else if r == 17 { "a7" } else if r == 18 { "s2" } else if r == 19 { "s3" }
    else if r == 20 { "s4" } else if r == 21 { "s5" } else if r == 22 { "s6" } else if r == 23 { "s7" }
    else if r == 24 { "s8" } else if r == 25 { "s9" } else if r == 26 { "s10" } else if r == 27 { "s11" }
    else if r == 28 { "t3" } else if r == 29 { "t4" } else if r == 30 { "t5" } else { "t6" }
}

/// A hart right after reset at `entry`: M-mode, registers zero except sp at the top of DRAM,
/// CSRs at their reset values, running.
pub open spec fn reset_view(entry: u64) -> CpuView {
    CpuView {
        regs: Seq::new(32, |i: int| if i == 2 { DRAM_END } else { 0u64 }),
        pc: entry,
        csr: CsrView::reset(),
        halted: false,
        priv_level: Privilege::M,
    }
}

impl Cpu {
    /// A hart at `entry` in M-mode with zeroed registers, except sp at the top of DRAM.
    pub fn new(entry: u64) -> (c: Self)
        ensures
            c@ == reset_view(entry),
            c@.regs == Seq::new(32, |i: int| if i == 2 { DRAM_END } else { 0u64 }),
            c@.pc == entry,
            c@.csr == CsrView::reset(),
            !c@.halted,
            c@.priv_level == Privilege::M,
    {
        let mut regs = [0u64; 32];
        regs[2] = DRAM_END;
        let c = Self { regs, pc: entry, csr: CsrFile::new(), halted: false, priv_level: Privilege::M };
        assert(c@.regs =~= Seq::new(32, |i: int| if i == 2 { DRAM_END } else { 0u64 }));
        c
    }

    fn take_trap(&mut self, cause: TrapCause, pc: u64, tval: u64)
        ensures
            final(self)@ == take_trap_spec(old(self)@, cause, pc, tval),
    {
        let code = cause.code();
        self.csr.write(CSR_MEPC, pc, Privilege::M);
        self.csr.write(CSR_MCAUSE, code, Privilege::M);
        self.csr.write(CSR_MTVAL, tval, Privilege::M);

        let mut ms = self.csr.mstatus();
        let mie = (ms & MSTATUS_MIE) >> 3;
        ms = ms & !(MSTATUS_MIE | MSTATUS_MPIE | MSTATUS_MPP);
        ms = ms | (mie << 7);
        ms = ms | (self.priv_level.bits() << 11);
        self.csr.write(CSR_MSTATUS, ms, Privilege::M);

        let mtvec = self.csr.read(CSR_MTVEC, Privilege::M);
        self.pc = vector_target(mtvec, cause);
        self.priv_level = Privilege::M;
    }

    fn take_s_trap(&mut self, cause: TrapCause, pc: u64, tval: u64)
        ensures
            final(self)@ == take_s_trap_spec(old(self)@, cause, pc, tval),
    {
        let code = cause.code();
        self.csr.write(CSR_SEPC, pc, Privilege::S);
        self.csr.write(CSR_SCAUSE, code, Privilege::S);
        self.csr.write(CSR_STVAL, tval, Privilege::S);

        let mut ms = self.csr.mstatus();
        let sie = (ms & MSTATUS_SIE) >> 1;
        ms = ms & !(MSTATUS_SIE | MSTATUS_SPIE | MSTATUS_SPP);
        ms = ms | (sie << 5);
        ms = ms | ((self.priv_level.bits() & 1) << 8);
        self.csr.write(CSR_MSTATUS, ms, Privilege::M);

        let stvec = self.csr.read(CSR_STVEC, Privilege::S);
        self.pc = vector_target(stvec, cause);
        self.priv_level = Privilege::S;
    }

    /// The ABI name of register `r`.
    pub fn reg_name(r: usize) -> (s: &'static str)
        requires
            r < 32,
        ensures
            s@ == abi_name(r)@,
    {
        if r == 0 { "zero" } else if r == 1 { "ra" } else if r == 2 { "sp" } else if r == 3 { "gp" }
        else if r == 4 { "tp" } else if r == 5 { "t0" } else if r == 6 { "t1" } else if r == 7 { "t2" }
        else if r == 8 { "s0" } else if r == 9 { "s1" } else if r == 10 { "a0" } else if r == 11 { "a1" }
        else if r == 12 { "a2" } else if r == 13 { "a3" } else if r == 14 { "a4" } else if r == 15 { "a5" }
        else if r == 16 { "a6" } else if r == 17 { "a7" } else if r == 18 { "s2" } else if r == 19 { "s3" }
        else if r == 20 { "s4" } else if r == 21 { "s5" } else if r == 22 { "s6" } else if r == 23 { "s7" }
        else if r == 24 { "s8" } else if r == 25 { "s9" } else if r == 26 { "s10" } else if r == 27 { "s11" }
        else if r == 28 { "t3" } else if r == 29 { "t4" } else if r == 30 { "t5" } else { "t6" }
    }
}

/// A number that tells register names apart: length, first and last character.
spec fn name_key(s: Seq<char>) -> int {
    s.len() * 65536 + (s[0] as int) * 256 + (s[s.len() - 1] as int)
}

/// `name_key` of the ABI name of register `r`.
spec fn reg_key(r: int) -> int {
    if r == 0 { 293487 } else if r == 1 { 160353 } else if r == 2 { 160624 } else if r == 3 { 157552 } else if r == 4 { 160880 } else if r == 5 { 160816 } else if r == 6 { 160817 } else if r == 7 { 160818 } else if r == 8 { 160560 } else if r == 9 { 160561 } else if r == 10 { 155952 } else if r == 11 { 155953 } else if r == 12 { 155954 } else if r == 13 { 155955 } else if r == 14 { 155956 } else if r == 15 { 155957 } else if r == 16 { 155958 } else if r == 17 { 155959 } else if r == 18 { 160562 } else if r == 19 { 160563 } else if r == 20 { 160564 } else if r == 21 { 160565 } else if r == 22 { 160566 } else if r == 23 { 160567 } else if r == 24 { 160568 } else if r == 25 { 160569 } else if r == 26 { 226096 } else if r == 27 { 226097 } else if r == 28 { 160819 } else if r == 29 { 160820 } else if r == 30 { 160821 } else { 160822 }
}

/// The ABI names of the 32 registers are pairwise distinct.
pub proof fn lemma_reg_names_distinct()
    ensures
        forall|i: usize, j: usize| i < 32 && j < 32 && i != j ==> abi_name(i)@ != abi_name(j)@,
{
    assert forall|r: usize| r < 32 implies name_key(#[trigger] abi_name(r)@) == reg_key(r as int) by {
        reveal_strlit("zero");
        reveal_strlit("ra");
        reveal_strlit("sp");
        reveal_strlit("gp");
        reveal_strlit("tp");
        reveal_strlit("t0");
        reveal_strlit("t1");
        reveal_strlit("t2");
        reveal_strlit("s0");
        reveal_strlit("s1");
        reveal_strlit("a0");
        reveal_strlit("a1");
        reveal_strlit("a2");
        reveal_strlit("a3");
        reveal_strlit("a4");
        reveal_strlit("a5");
        reveal_strlit("a6");
        reveal_strlit("a7");
        reveal_strlit("s2");
        reveal_strlit("s3");
        reveal_strlit("s4");
        reveal_strlit("s5");
        reveal_strlit("s6");
        reveal_strlit("s7");
        reveal_strlit("s8");
        reveal_strlit("s9");
        reveal_strlit("s10");
        reveal_strlit("s11");
        reveal_strlit("t3");
        reveal_strlit("t4");
        reveal_strlit("t5");
        reveal_strlit("t6");
    }
    assert forall|i: int, j: int| 0 <= i < 32 && 0 <= j < 32 && i != j implies #[trigger] reg_key(i) != #[trigger] reg_key(j) by {
    }
    assert forall|i: usize, j: usize| i < 32 && j < 32 && i != j implies abi_name(i)@ != abi_name(j)@ by {
        assert(name_key(abi_name(i)@) == reg_key(i as int));
        assert(name_key(abi_name(j)@) == reg_key(j as int));
    }
}

fn vector_target(tvec: u64, cause: TrapCause) -> (r: u64)
    ensures
        r == trap_target(tvec, cause),
{
    let code = cause.code();
    if cause.is_interrupt() && (tvec & 1 == 1) {
        proof {
            let x = code;
            assert(((crate::traps::INTERRUPT_BIT | 3) & 0x7FFF_FFFF_FFFF_FFFF == 3)
                && ((crate::traps::INTERRUPT_BIT | 7) & 0x7FFF_FFFF_FFFF_FFFF == 7)
                && ((crate::traps::INTERRUPT_BIT | 11) & 0x7FFF_FFFF_FFFF_FFFF == 11)) by (bit_vector);
        }
        (tvec & !3).wrapping_add(4 * (code & 0x7FFF_FFFF_FFFF_FFFF))
    } else {
        tvec & !3
    }
}

fn pte_slot(ppn: u64, idx: u64) -> (r: u64)
    requires
        ppn < 0x1000_0000_0000,
        idx < 512,
    ensures
        r == pte_addr(ppn, idx),
{
    proof {
        assert((ppn < 0x1000_0000_0000 ==> (ppn << 12u64) < 0x100_0000_0000_0000)
            && (idx < 512 ==> (idx << 3u64) < 0x1000)
            && (idx < 512 ==> idx * 8 == (idx << 3u64))) by (bit_vector);
    }
    (ppn << 12) + (idx * 8)
}

fn vpn_of(va: u64, level: u64) -> (r: u64)
    requires
        level <= 2,
    ensures
        r == vpn_spec(va, level),
        r < 512,
{
    let s = 12 + level * 9;
    proof {
        assert((va >> s) & 0x1FF < 512) by (bit_vector);
    }
    (va >> s) & 0x1FF
}

/// Translates the fetch address `pc` (see `fetch_pa_spec`).
fn translate_fetch(pc: u64, priv_level: Privilege, bus: &Bus, satp: u64) -> (r: Result<u64, TrapCause>)
    requires
        bus.wf(),
    ensures
        r == fetch_pa_spec(pc, priv_level, bus@, satp),
{
    if priv_level == Privilege::M {
        return Ok(pc);
    }
    let mode = (satp >> 60) & 0xF;
    if mode == 0 {
        return Ok(pc);
    }
    // Sv39 page walk for instruction fetch
    let offset = pc & 0xFFF;
    proof {
        assert((satp & 0xFFF_FFFF_FFFF < 0x1000_0000_0000)
            && ((1u64 << 44u64) == 0x1000_0000_0000)) by (bit_vector);
    }
    let root_ppn = satp & ((1u64 << 44) - 1);
    let mut pte_addr_v = pte_slot(root_ppn, vpn_of(pc, 2));
    let mut pte = match bus.read_phys64(pte_addr_v) {
        Ok(v) => v,
        Err(_) => return Err(TrapCause::InstructionPageFault),
    };
    if pte & 1 == 0 {
        return Err(TrapCause::InstructionPageFault);
    }
    let mut level: u64 = 2;
    while level > 0
        invariant
            bus.wf(),
            level <= 2,
            fetch_pa_spec(pc, priv_level, bus@, satp) == fetch_walk_from(bus@, pte, level - 1, pc),
        ensures
            level == 0 || is_leaf(pte),
            fetch_pa_spec(pc, priv_level, bus@, satp) == fetch_walk_from(bus@, pte, level - 1, pc),
        decreases level,
    {
        if pte & (crate::cpu::executor::PTE_R | crate::cpu::executor::PTE_W | PTE_X) != 0 {
            break;
        }
        level = level - 1;
        let ppn = (pte >> 10) & 0x00FF_FFFF_FFFF;
        proof {
            assert((pte >> 10u64) & 0x00FF_FFFF_FFFF < 0x100_0000_0000) by (bit_vector);
        }
        pte_addr_v = pte_slot(ppn, vpn_of(pc, level));
        pte = match bus.read_phys64(pte_addr_v) {
            Ok(v) => v,
            Err(_) => return Err(TrapCause::InstructionPageFault),
        };
        if pte & 1 == 0 {
            return Err(TrapCause::InstructionPageFault);
        }
    }
    if pte & PTE_X == 0 {
        return Err(TrapCause::InstructionPageFault);
    }
    let ppn = (pte >> 10) & 0x00FF_FFFF_FFFF;
    proof {
        assert((pte >> 10u64) & 0x00FF_FFFF_FFFF < 0x100_0000_0000) by (bit_vector);
    }
    Ok((ppn << 12) | offset)
}

impl Cpu {
    /// The counters can still count: neither cycle nor instret is at its maximum.
    pub open spec fn counters_ok(&self) -> bool {
        self.csr@.reg(CSR_CYCLE) < u64::MAX && self.csr@.reg(CSR_INSTRET) < u64::MAX
    }

    /// Advances the machine by one step: the timer ticks and the cycle counter counts; then
    /// either a pending, enabled interrupt is taken, or one instruction is fetched, decoded
    /// and executed, with exceptions other than environment calls trapping to M- or (when
    /// delegated) S-mode. Environment calls are reported without redirecting the pc; the
    /// caller handles them.
    pub fn step(&mut self, bus: &mut Bus) -> (r: StepResult)
        requires
            old(bus).wf(),
            old(self).counters_ok(),
        ensures
            final(bus).wf(),
            (final(self)@, final(bus)@, r) == step_spec(old(self)@, old(bus)@),
    {
        if self.halted {
            return StepResult::Halted;
        }

        bus.tick();
        self.csr.inc_cycle();

        // Check pending interrupts, both M and S level
        if let Some((irq, delegated)) = pending_interrupt(
            self.csr.mstatus(),
            self.csr.mie(),
            self.csr.mip(),
            self.priv_level,
            self.csr.mideleg(),
        ) {
            if delegated && self.priv_level != Privilege::M {
                // Delegate to S-mode
                self.take_s_trap(irq, self.pc, 0);
            } else {
                // Take in M-mode
                self.take_trap(irq, self.pc, 0);
            }
            return StepResult::Continue;
        }

        // Fetch with virtual memory translation
        let fetch_pa = match translate_fetch(self.pc, self.priv_level, bus, self.csr.read(CSR_SATP, Privilege::M)) {
            Ok(pa) => pa,
            Err(_) => self.pc,
        };

        let raw = match bus.read32(fetch_pa) {
            Ok(v) => v,
            Err(_e) => {
                let cause = if self.priv_level != Privilege::U {
                    TrapCause::InstructionAccessFault
                } else {
                    TrapCause::InstructionPageFault
                };
                self.take_trap(cause, self.pc, self.pc);
                return StepResult::Trap(cause);
            },
        };

        let result = execute(decode(raw), self.pc, &mut self.regs, &mut self.csr, bus, self.priv_level);
        proof {
            crate::cpu::executor::lemma_exec_keeps_counters(
                decode_spec(raw), old(self).pc, old(self).regs@, bump(old(self).csr@, CSR_CYCLE), old(bus)@.tick(),
                old(self).priv_level);
        }
        self.csr.inc_instret();

        if result.halt {
            self.halted = true;
            return StepResult::Halted;
        }

        if let Some(trap) = result.trap {
            // Environment calls do not redirect the pc: the caller services them, and finds
            // the pc of the call in mepc.
            match trap {
                TrapCause::EcallFromU | TrapCause::EcallFromS | TrapCause::EcallFromM => {
                    let code = trap.code();
                    self.csr.write(CSR_MEPC, self.pc, Privilege::M);
                    self.csr.write(CSR_MCAUSE, code, Privilege::M);
                },
                _ => {
                    let medeleg = self.csr.medeleg();
                    let exc_code = trap.exception_code();
                    let delegate = self.priv_level != Privilege::M && (medeleg & (1u64 << exc_code)) != 0;
                    if delegate {
                        self.take_s_trap(trap, self.pc, 0);
                    } else {
                        self.take_trap(trap, self.pc, 0);
                    }
                },
            }
            return StepResult::Trap(trap);
        }

        if let Some(new) = result.new_priv {
            self.priv_level = new;
        }
        self.regs[0] = 0;
        self.pc = result.next_pc;
        StepResult::Continue
    }
}

} // verus!
