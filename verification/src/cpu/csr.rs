use vstd::prelude::*;

verus! {

pub const CSR_MSTATUS: usize = 0x300;
pub const CSR_MISA: usize = 0x301;
pub const CSR_MEDELEG: usize = 0x302;
pub const CSR_MIDELEG: usize = 0x303;
pub const CSR_MIE: usize = 0x304;
pub const CSR_MTVEC: usize = 0x305;
pub const CSR_MENVCFG: usize = 0x30A;
pub const CSR_MEPC: usize = 0x341;
pub const CSR_MCAUSE: usize = 0x342;
pub const CSR_MTVAL: usize = 0x343;
pub const CSR_MIP: usize = 0x344;

pub const CSR_SSTATUS: usize = 0x100;
pub const CSR_SIE: usize = 0x104;
pub const CSR_STVEC: usize = 0x105;
pub const CSR_STIMECMP: usize = 0x14D;
pub const CSR_SEPC: usize = 0x141;
pub const CSR_SCAUSE: usize = 0x142;
pub const CSR_STVAL: usize = 0x143;
pub const CSR_SIP: usize = 0x144;
pub const CSR_SATP: usize = 0x180;

pub const CSR_CYCLE: usize = 0xC00;
pub const CSR_TIME: usize = 0xC01;
pub const CSR_INSTRET: usize = 0xC02;

pub const NUM_CSRS: usize = 4096;

pub const MENVCFG_STCE: u64 = 0x8000_0000_0000_0000;

pub const MSTATUS_MIE: u64 = 0x8;
pub const MSTATUS_MPIE: u64 = 0x80;
pub const MSTATUS_MPP: u64 = 0x1800;
pub const MSTATUS_SPP: u64 = 0x100;
pub const MSTATUS_SPIE: u64 = 0x20;
pub const MSTATUS_SIE: u64 = 0x2;
pub const MSTATUS_SUM: u64 = 0x4_0000;
pub const MSTATUS_MXR: u64 = 0x8_0000;
pub const MSTATUS_FS: u64 = 0x6000;
pub const MSTATUS_XS: u64 = 0x1_8000;
pub const MSTATUS_VS: u64 = 0x600;

/// The bits of mstatus that are visible through sstatus:
/// SPP, SPIE, SIE, FS, XS, VS, SUM and MXR.
pub const SSTATUS_MASK: u64 = 0xD_E722;

pub const MIP_SSIP: u64 = 0x2;
pub const MIP_STIP: u64 = 0x20;
pub const MIP_SEIP: u64 = 0x200;
pub const MIP_MSIP: u64 = 0x8;
pub const MIP_MTIP: u64 = 0x80;
pub const MIP_MEIP: u64 = 0x800;

pub const SATP_PPN: u64 = 0xFFF_FFFF_FFFF;
pub const SATP_MODE_BARE: u64 = 0;
pub const SATP_MODE_SV39: u64 = 8;

/// The reset value of misa: MXL = 2 (RV64) with the A, I and M extensions.
pub const MISA_RESET: u64 = 0x8000_0000_0000_1101;
/// The reset value of medeleg: breakpoint, U/S environment calls and page faults
/// are delegated to S-mode.
pub const MEDELEG_RESET: u64 = 0xB308;
/// The reset value of mideleg: the three supervisor interrupts.
pub const MIDELEG_RESET: u64 = 0x222;

/// Privilege level of the hart.
#[derive(Clone, Copy, PartialEq, Eq, PartialOrd, Debug, Structural)]
pub enum Privilege {
    U,
    S,
    M,
}

impl Privilege {
    /// The two-bit encoding of the level, as stored in mstatus.MPP.
    pub open spec fn spec_bits(self) -> u64 {
        match self {
            Privilege::U => 0,
            Privilege::S => 1,
            Privilege::M => 3,
        }
    }

    pub fn bits(self) -> (r: u64)
        ensures
            r == self.spec_bits(),
    {
        match self {
            Privilege::U => 0,
            Privilege::S => 1,
            Privilege::M => 3,
        }
    }

    /// The level encoded by a two-bit mstatus.MPP field (the reserved value 2 reads as M).
    pub open spec fn from_mpp(mpp: u64) -> Privilege {
        if mpp == 1 {
            Privilege::S
        } else if mpp == 0 {
            Privilege::U
        } else {
            Privilege::M
        }
    }
}

/// The operation a CSR instruction applies to the register.
#[derive(Clone, Copy, PartialEq, Eq, Structural)]
pub enum CsrOp {
    Write,
    SetBits,
    Clear,
}

/// The value written back by a CSR read-modify-write.
pub open spec fn csr_op_result(op: CsrOp, old: u64, val: u64) -> u64 {
    match op {
        CsrOp::Write => val,
        CsrOp::SetBits => old | val,
        CsrOp::Clear => old & !val,
    }
}

/// Abstract contents of the CSR file: the 4096 architectural registers and
/// the separately kept stimecmp.
pub struct CsrView {
    pub regs: Seq<u64>,
    pub s_timer_compare: u64,
}

impl CsrView {
    /// The register at `a`.
    pub open spec fn reg(self, a: usize) -> u64 {
        self.regs[a as int]
    }

    /// The file with the register at `a` replaced by `v`.
    pub open spec fn set_reg(self, a: usize, v: u64) -> CsrView {
        CsrView { regs: self.regs.update(a as int, v), s_timer_compare: self.s_timer_compare }
    }

    pub open spec fn wf(self) -> bool {
        self.regs.len() == NUM_CSRS
    }

    pub open spec fn sstc_enabled(self) -> bool {
        self.reg(CSR_MENVCFG) & MENVCFG_STCE != 0
    }

    /// What a CSR read at `addr` from privilege `p` returns.
    pub open spec fn read(self, addr: usize, p: Privilege) -> u64 {
        if addr >= NUM_CSRS {
            0
        } else if addr == CSR_SSTATUS {
            self.reg(CSR_MSTATUS) & SSTATUS_MASK
        } else if addr == CSR_SIE {
            self.reg(CSR_MIE) & self.reg(CSR_MIDELEG)
        } else if addr == CSR_SIP {
            self.reg(CSR_MIP) & self.reg(CSR_MIDELEG)
        } else if addr == CSR_SATP && p == Privilege::S {
            self.reg(CSR_SATP)
        } else if addr == CSR_TIME {
            self.reg(CSR_CYCLE)
        } else if addr == CSR_CYCLE || addr == CSR_INSTRET {
            self.reg(addr)
        } else if addr == CSR_STIMECMP && p != Privilege::M {
            if p == Privilege::S && !self.sstc_enabled() {
                0
            } else {
                self.s_timer_compare
            }
        } else if p != Privilege::M && 0x300 <= addr <= 0x3FF {
            0
        } else {
            self.reg(addr)
        }
    }

    /// The CSR file after a write of `val` to `addr` from privilege `p`.
    pub open spec fn write(self, addr: usize, val: u64, p: Privilege) -> CsrView {
        if addr >= NUM_CSRS {
            self
        } else if addr == CSR_CYCLE || addr == CSR_TIME || addr == CSR_INSTRET {
            self
        } else if addr == CSR_SSTATUS {
            let ms = self.reg(CSR_MSTATUS);
            self.set_reg(CSR_MSTATUS, (ms & !SSTATUS_MASK) | (val & SSTATUS_MASK))
        } else if addr == CSR_SIE {
            let mask = self.reg(CSR_MIDELEG) & (MIP_SSIP | MIP_STIP | MIP_SEIP);
            let mie = self.reg(CSR_MIE);
            self.set_reg(CSR_MIE, (mie & !mask) | (val & mask))
        } else if addr == CSR_SIP {
            let mask = self.reg(CSR_MIDELEG) & (MIP_SSIP | MIP_STIP | MIP_SEIP);
            let mip = self.reg(CSR_MIP);
            self.set_reg(CSR_MIP, (mip & !mask) | (val & mask))
        } else if addr == CSR_SATP && p == Privilege::S {
            self.set_reg(CSR_SATP, val)
        } else if addr == CSR_STIMECMP && p != Privilege::M {
            if p == Privilege::S && !self.sstc_enabled() {
                self
            } else {
                CsrView { s_timer_compare: val, ..self }
            }
        } else if 0x300 <= addr <= 0x3FF && p != Privilege::M {
            self
        } else {
            self.set_reg(addr, val)
        }
    }

    /// The file after the hardware sets (`on`) or clears a bit of mip.
    pub open spec fn with_mip_bit(self, bit: u64, on: bool) -> CsrView {
        let mip = self.reg(CSR_MIP);
        self.set_reg(CSR_MIP, if on { mip | bit } else { mip & !bit })
    }

    /// The CSR file right after reset.
    pub open spec fn reset() -> CsrView {
        CsrView {
            regs: Seq::new(NUM_CSRS as nat, |i: int|
                if i == CSR_MISA { MISA_RESET }
                else if i == CSR_MEDELEG { MEDELEG_RESET }
                else if i == CSR_MIDELEG { MIDELEG_RESET }
                else { 0u64 }),
            s_timer_compare: u64::MAX,
        }
    }
}

/// The control and status registers of one hart.
pub struct CsrFile {
    regs: [u64; 4096],
    s_timer_compare: u64,
}

impl View for CsrFile {
    type V = CsrView;

    closed spec fn view(&self) -> CsrView {
        CsrView { regs: self.regs@, s_timer_compare: self.s_timer_compare }
    }
}

/// Every CSR file holds exactly 4096 registers.
pub broadcast proof fn lemma_csr_file_wf(c: CsrFile)
    ensures
        (#[trigger] c@).wf(),
{
}

impl CsrFile {
    pub fn new() -> (s: Self)
        ensures
            s@ == CsrView::reset(),
    {
        let mut s = Self { regs: [0u64; 4096], s_timer_compare: u64::MAX };
        s.regs[CSR_MISA] = MISA_RESET;
        s.regs[CSR_MEDELEG] = MEDELEG_RESET;
        s.regs[CSR_MIDELEG] = MIDELEG_RESET;
        assert(s@.regs =~= CsrView::reset().regs);
        s
    }

    pub fn read(&self, addr: usize, priv_level: Privilege) -> (r: u64)
        ensures
            r == self@.read(addr, priv_level),
    {
        if addr >= NUM_CSRS {
            return 0;
        }
        if addr == CSR_SSTATUS {
            self.regs[CSR_MSTATUS] & SSTATUS_MASK
        } else if addr == CSR_SIE {
            self.regs[CSR_MIE] & self.regs[CSR_MIDELEG]
        } else if addr == CSR_SIP {
            self.regs[CSR_MIP] & self.regs[CSR_MIDELEG]
        } else if addr == CSR_SATP && priv_level == Privilege::S {
            self.regs[CSR_SATP]
        } else if addr == CSR_TIME {
            self.regs[CSR_CYCLE]
        } else if addr == CSR_CYCLE || addr == CSR_INSTRET {
            self.regs[addr]
        } else if addr == CSR_STIMECMP && priv_level != Privilege::M {
            if priv_level == Privilege::S && !self.sstc_enabled() {
                0
            } else {
                self.s_timer_compare
            }
        } else if priv_level != Privilege::M && 0x300 <= addr && addr <= 0x3FF {
            0
        } else {
            self.regs[addr]
        }
    }

    pub fn write(&mut self, addr: usize, val: u64, priv_level: Privilege)
        ensures
            final(self)@ == old(self)@.write(addr, val, priv_level),
    {
        if addr >= NUM_CSRS {
            return;
        }
        if addr == CSR_CYCLE || addr == CSR_TIME || addr == CSR_INSTRET {
        } else if addr == CSR_SSTATUS {
            self.regs[CSR_MSTATUS] = (self.regs[CSR_MSTATUS] & !SSTATUS_MASK) | (val & SSTATUS_MASK);
        } else if addr == CSR_SIE {
            let mask = self.regs[CSR_MIDELEG] & (MIP_SSIP | MIP_STIP | MIP_SEIP);
            let delegated = val & mask;
            self.regs[CSR_MIE] = (self.regs[CSR_MIE] & !mask) | delegated;
        } else if addr == CSR_SIP {
            let mask = self.regs[CSR_MIDELEG] & (MIP_SSIP | MIP_STIP | MIP_SEIP);
            let delegated = val & mask;
            self.regs[CSR_MIP] = (self.regs[CSR_MIP] & !mask) | delegated;
        } else if addr == CSR_SATP && priv_level == Privilege::S {
            self.regs[CSR_SATP] = val;
        } else if addr == CSR_STIMECMP && priv_level != Privilege::M {
            if priv_level == Privilege::S && !self.sstc_enabled() {
                return;
            }
            self.s_timer_compare = val;
        } else if 0x300 <= addr && addr <= 0x3FF && priv_level != Privilege::M {
            return;
        } else {
            self.regs[addr] = val;
        }
        assert(self@.regs =~= old(self)@.write(addr, val, priv_level).regs);
    }

    /// Reads the CSR, writes back the value `op` computes from it, and returns the old value.
    pub fn read_write(&mut self, addr: usize, val: u64, op: CsrOp, priv_level: Privilege) -> (r: u64)
        ensures
            r == old(self)@.read(addr, priv_level),
            final(self)@ == old(self)@.write(addr, csr_op_result(op, r, val), priv_level),
    {
        let old = self.read(addr, priv_level);
        let new = match op {
            CsrOp::Write => val,
            CsrOp::SetBits => old | val,
            CsrOp::Clear => old & !val,
        };
        self.write(addr, new, priv_level);
        old
    }

    pub fn mstatus(&self) -> (r: u64)
        ensures
            r == self@.reg(CSR_MSTATUS),
    {
        self.regs[CSR_MSTATUS]
    }

    pub fn mie(&self) -> (r: u64)
        ensures
            r == self@.reg(CSR_MIE),
    {
        self.regs[CSR_MIE]
    }

    pub fn mip(&self) -> (r: u64)
        ensures
            r == self@.reg(CSR_MIP),
    {
        self.regs[CSR_MIP]
    }

    pub fn set_mip_timer(&mut self)
        ensures
            final(self)@ == old(self)@.with_mip_bit(MIP_MTIP, true),
    {
        self.regs[CSR_MIP] = self.regs[CSR_MIP] | MIP_MTIP;
        assert(self@.regs =~= old(self)@.with_mip_bit(MIP_MTIP, true).regs);
    }

    pub fn clear_mip_timer(&mut self)
        ensures
            final(self)@ == old(self)@.with_mip_bit(MIP_MTIP, false),
    {
        self.regs[CSR_MIP] = self.regs[CSR_MIP] & !MIP_MTIP;
        assert(self@.regs =~= old(self)@.with_mip_bit(MIP_MTIP, false).regs);
    }

    pub fn set_mip_stimer(&mut self)
        ensures
            final(self)@ == old(self)@.with_mip_bit(MIP_STIP, true),
    {
        self.regs[CSR_MIP] = self.regs[CSR_MIP] | MIP_STIP;
        assert(self@.regs =~= old(self)@.with_mip_bit(MIP_STIP, true).regs);
    }

    pub fn clear_mip_stimer(&mut self)
        ensures
            final(self)@ == old(self)@.with_mip_bit(MIP_STIP, false),
    {
        self.regs[CSR_MIP] = self.regs[CSR_MIP] & !MIP_STIP;
        assert(self@.regs =~= old(self)@.with_mip_bit(MIP_STIP, false).regs);
    }

    pub fn set_mip_seip(&mut self)
        ensures
            final(self)@ == old(self)@.with_mip_bit(MIP_SEIP, true),
    {
        self.regs[CSR_MIP] = self.regs[CSR_MIP] | MIP_SEIP;
        assert(self@.regs =~= old(self)@.with_mip_bit(MIP_SEIP, true).regs);
    }

    pub fn clear_mip_seip(&mut self)
        ensures
            final(self)@ == old(self)@.with_mip_bit(MIP_SEIP, false),
    {
        self.regs[CSR_MIP] = self.regs[CSR_MIP] & !MIP_SEIP;
        assert(self@.regs =~= old(self)@.with_mip_bit(MIP_SEIP, false).regs);
    }

    pub fn set_mip_ssip(&mut self)
        ensures
            final(self)@ == old(self)@.with_mip_bit(MIP_SSIP, true),
    {
        self.regs[CSR_MIP] = self.regs[CSR_MIP] | MIP_SSIP;
        assert(self@.regs =~= old(self)@.with_mip_bit(MIP_SSIP, true).regs);
    }

    pub fn clear_mip_ssip(&mut self)
        ensures
            final(self)@ == old(self)@.with_mip_bit(MIP_SSIP, false),
    {
        self.regs[CSR_MIP] = self.regs[CSR_MIP] & !MIP_SSIP;
        assert(self@.regs =~= old(self)@.with_mip_bit(MIP_SSIP, false).regs);
    }

    /// Counts one cycle.
    pub fn inc_cycle(&mut self)
        requires
            old(self)@.regs[CSR_CYCLE as int] < u64::MAX,
        ensures
            final(self)@ == (CsrView {
                regs: old(self)@.regs.update(CSR_CYCLE as int, (old(self)@.regs[CSR_CYCLE as int] + 1) as u64),
                ..old(self)@
            }),
    {
        self.regs[CSR_CYCLE] = self.regs[CSR_CYCLE] + 1;
        assert(self@.regs =~= old(self)@.regs.update(CSR_CYCLE as int, (old(self)@.regs[CSR_CYCLE as int] + 1) as u64));
    }

    /// Counts one retired instruction.
    pub fn inc_instret(&mut self)
        requires
            old(self)@.regs[CSR_INSTRET as int] < u64::MAX,
        ensures
            final(self)@ == (CsrView {
                regs: old(self)@.regs.update(CSR_INSTRET as int, (old(self)@.regs[CSR_INSTRET as int] + 1) as u64),
                ..old(self)@
            }),
    {
        self.regs[CSR_INSTRET] = self.regs[CSR_INSTRET] + 1;
        assert(self@.regs =~= old(self)@.regs.update(CSR_INSTRET as int, (old(self)@.regs[CSR_INSTRET as int] + 1) as u64));
    }

    pub fn medeleg(&self) -> (r: u64)
        ensures
            r == self@.reg(CSR_MEDELEG),
    {
        self.regs[CSR_MEDELEG]
    }

    pub fn mideleg(&self) -> (r: u64)
        ensures
            r == self@.reg(CSR_MIDELEG),
    {
        self.regs[CSR_MIDELEG]
    }

    pub fn sstc_enabled(&self) -> (r: bool)
        ensures
            r == self@.sstc_enabled(),
    {
        (self.regs[CSR_MENVCFG] & MENVCFG_STCE) != 0
    }

    pub fn stimecmp(&self) -> (r: u64)
        ensures
            r == self@.s_timer_compare,
    {
        self.s_timer_compare
    }
}

/// Whether privilege level `p` may access the CSR at `addr`.
pub open spec fn csr_access_allowed(addr: usize, p: Privilege) -> bool {
    if p == Privilege::M {
        true
    } else if 0x100 <= addr <= 0x1FF {
        p == Privilege::S
    } else if 0x300 <= addr <= 0x3FF {
        false
    } else {
        (0xC00 <= addr <= 0xC1F) || (0xC80 <= addr <= 0xC9F)
    }
}

pub fn csr_access_ok(addr: usize, priv_level: Privilege) -> (r: bool)
    ensures
        r == csr_access_allowed(addr, priv_level),
{
    if priv_level == Privilege::M {
        return true;
    }
    if 0x100 <= addr && addr <= 0x1FF {
        priv_level == Privilege::S
    } else if 0x300 <= addr && addr <= 0x3FF {
        false
    } else if 0xC00 <= addr && addr <= 0xC1F {
        true
    } else if 0xC80 <= addr && addr <= 0xC9F {
        true
    } else {
        false
    }
}

/// No CSR write changes the cycle or instret counters.
pub proof fn lemma_write_keeps_counters(v: CsrView, addr: usize, val: u64, p: Privilege)
    requires
        v.wf(),
    ensures
        v.write(addr, val, p).reg(CSR_CYCLE) == v.reg(CSR_CYCLE),
        v.write(addr, val, p).reg(CSR_INSTRET) == v.reg(CSR_INSTRET),
        v.write(addr, val, p).wf(),
{
}

} // verus!
