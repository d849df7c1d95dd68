use vstd::prelude::*;
use crate::bus::{Bus, BusView};
use crate::cpu::csr::{
    csr_access_allowed, csr_access_ok, csr_op_result, CsrFile, CsrOp, CsrView, Privilege, CSR_MEPC,
    CSR_MSTATUS, CSR_SATP, CSR_SEPC, MSTATUS_MIE, MSTATUS_MPIE, MSTATUS_MPP, MSTATUS_SIE, MSTATUS_SPIE,
    MSTATUS_SPP, SATP_MODE_BARE, SATP_MODE_SV39, SATP_PPN,
};
use crate::cpu::decoder::Inst;
use crate::traps::TrapCause;

verus! {

// ===== Integer semantics =====

/// A 32-bit result sign-extended to 64 bits.
pub open spec fn sext32_spec(x: u32) -> u64 {
    x as i32 as i64 as u64
}

fn sext32(x: u32) -> (r: u64)
    ensures
        r == sext32_spec(x),
{
    (x as i32) as i64 as u64
}

pub open spec fn abs_int(x: int) -> int {
    if x < 0 { -x } else { x }
}

/// Division rounding toward zero.
pub open spec fn trunc_div(a: int, b: int) -> int {
    let q = abs_int(a) / abs_int(b);
    if (a < 0) == (b < 0) { q } else { -q }
}

/// The remainder of division rounding toward zero; it has the sign of the dividend.
pub open spec fn trunc_rem(a: int, b: int) -> int {
    let r = abs_int(a) % abs_int(b);
    if a < 0 { -r } else { r }
}

fn div_trunc64(a: i64, b: i64) -> (r: (i64, i64))
    requires
        b != 0,
    ensures
        r.0 == trunc_div(a as int, b as int) as i64,
        r.1 == trunc_rem(a as int, b as int) as i64,
{
    let ua: u64 = if a < 0 { (-(a as i128)) as u64 } else { a as u64 };
    let ub: u64 = if b < 0 { (-(b as i128)) as u64 } else { b as u64 };
    let q = (ua / ub) as i128;
    let m = (ua % ub) as i128;
    let qs: i128 = if (a < 0) == (b < 0) { q } else { -q };
    let ms: i128 = if a < 0 { -m } else { m };
    (qs as i64, ms as i64)
}

fn div_trunc32(a: i32, b: i32) -> (r: (i32, i32))
    requires
        b != 0,
    ensures
        r.0 == trunc_div(a as int, b as int) as i32,
        r.1 == trunc_rem(a as int, b as int) as i32,
{
    let ua: u32 = if a < 0 { (-(a as i64)) as u32 } else { a as u32 };
    let ub: u32 = if b < 0 { (-(b as i64)) as u32 } else { b as u32 };
    let q = (ua / ub) as i64;
    let m = (ua % ub) as i64;
    let qs: i64 = if (a < 0) == (b < 0) { q } else { -q };
    let ms: i64 = if a < 0 { -m } else { m };
    (qs as i32, ms as i32)
}

/// The high 64 bits of a 128-bit product, as a floor division by 2^64.
pub open spec fn high64(p: int) -> u64 {
    (p / 0x1_0000_0000_0000_0000int) as u64
}

// ===== Architectural state =====

pub struct ExecResult {
    pub next_pc: u64,
    pub trap: Option<TrapCause>,
    pub halt: bool,
    pub new_priv: Option<Privilege>,
}

pub open spec fn xreg(regs: Seq<u64>, r: u8) -> u64 {
    regs[r as int]
}

/// The register file after writing `v` to `rd`; writes to x0 are discarded.
pub open spec fn write_reg(regs: Seq<u64>, rd: u8, v: u64) -> Seq<u64> {
    if rd == 0 { regs } else { regs.update(rd as int, v) }
}

fn set_reg(regs: &mut [u64; 32], rd: u8, v: u64)
    requires
        rd < 32,
    ensures
        final(regs)@ == write_reg(old(regs)@, rd, v),
{
    if rd != 0 {
        regs[rd as usize] = v;
    }
}

fn satp_ppn(satp: u64) -> (r: u64)
    ensures
        r == satp & SATP_PPN,
        r < 0x1000_0000_0000,
{
    proof {
        assert(satp & 0xFFF_FFFF_FFFF < 0x1000_0000_0000) by (bit_vector);
    }
    satp & SATP_PPN
}

fn satp_mode(satp: u64) -> (r: u64)
    ensures
        r == (satp >> 60u64) & 0xF,
{
    (satp >> 60) & 0xF
}

pub open spec fn spec_pte_ppn(pte: u64) -> u64 {
    (pte >> 10u64) & 0x00FF_FFFF_FFFF
}

fn pte_ppn(pte: u64) -> (r: u64)
    ensures
        r == spec_pte_ppn(pte),
        r < 0x100_0000_0000,
{
    proof {
        assert((pte >> 10u64) & 0x00FF_FFFF_FFFF < 0x100_0000_0000) by (bit_vector);
    }
    (pte >> 10) & 0x00FF_FFFF_FFFF
}

fn csr_satp(csr: &CsrFile) -> (r: u64)
    ensures
        r == csr@.read(CSR_SATP, Privilege::M),
{
    csr.read(CSR_SATP, Privilege::M)
}

fn csr_mstatus(csr: &CsrFile) -> (r: u64)
    ensures
        r == csr@.reg(CSR_MSTATUS),
{
    csr.mstatus()
}

// ===== Sv39 address translation for loads and stores =====

pub const PTE_V: u64 = 0x1;
pub const PTE_R: u64 = 0x2;
pub const PTE_W: u64 = 0x4;
pub const PTE_X: u64 = 0x8;
pub const PTE_U: u64 = 0x10;
pub const PTE_A: u64 = 0x40;
pub const PTE_D: u64 = 0x80;

#[derive(Clone, Copy, PartialEq, Eq, Structural)]
pub enum AccessType {
    Read,
    Write,
}

/// Index of `va` in the page table of `level` (2 is the root).
pub open spec fn vpn_spec(va: u64, level: u64) -> u64 {
    (va >> (12 + level * 9) as u64) & 0x1FF
}

fn vpn(va: u64, level: u64) -> (r: u64)
    requires
        level <= 2,
    ensures
        r == vpn_spec(va, level),
        r < 512,
{
    proof {
        let s = (12 + level * 9) as u64;
        assert((va >> s) & 0x1FF < 512) by (bit_vector);
    }
    (va >> (12 + level * 9)) & 0x1FF
}

/// Address of the PTE for index `idx` in the table at physical page number `ppn`.
pub open spec fn pte_addr(ppn: u64, idx: u64) -> u64 {
    ((ppn << 12u64) + (idx << 3u64)) as u64
}

proof fn lemma_pte_addr_fits(ppn: u64, idx: u64)
    requires
        ppn < 0x1000_0000_0000,
        idx < 512,
    ensures
        (ppn << 12u64) + (idx << 3u64) < 0x1_0000_0000_0000_0000,
{
    assert(ppn < 0x1000_0000_0000 ==> (ppn << 12u64) < 0x100_0000_0000_0000) by (bit_vector);
    assert(idx < 512 ==> (idx << 3u64) < 0x1000) by (bit_vector);
}

pub open spec fn is_leaf(pte: u64) -> bool {
    pte & (PTE_R | PTE_W | PTE_X) != 0
}

/// The physical address for `va` through the leaf `pte` found at `level`: the page
/// number bits above the page (or superpage) offset, the offset bits of `va` below it.
pub open spec fn leaf_pa(pte: u64, level: u64, va: u64) -> u64 {
    let low = (12 + level * 9) as u64;
    ((spec_pte_ppn(pte) << 12u64) & !(((1u64 << low) - 1) as u64)) | (va & (((1u64 << low) - 1) as u64))
}

/// Permission check on the leaf `pte`, then the physical address. U-mode may only use user
/// pages; S-mode may use user pages only with mstatus.SUM; reads need R (or X with
/// mstatus.MXR); writes need R and W.
pub open spec fn leaf_check(pte: u64, level: u64, va: u64, p: Privilege, mstatus: u64, access: AccessType)
    -> Result<u64, TrapCause>
{
    let sum = (mstatus >> 18u64) & 1;
    let mxr = (mstatus >> 19u64) & 1;
    let user_page = pte & PTE_U != 0;
    let readable = pte & (PTE_R | PTE_X) != 0 || (mxr != 0 && pte & PTE_X != 0);
    let writable = pte & (PTE_R | PTE_W) == (PTE_R | PTE_W);
    if p == Privilege::U && !user_page {
        Err(TrapCause::LoadPageFault)
    } else if p == Privilege::S && user_page && sum == 0 {
        Err(TrapCause::LoadPageFault)
    } else if access == AccessType::Read && !readable {
        Err(TrapCause::LoadPageFault)
    } else if access == AccessType::Write && !writable {
        Err(TrapCause::StorePageFault)
    } else {
        Ok(leaf_pa(pte, level, va))
    }
}

/// The rest of a page walk at `level`, having read the valid `pte` at `level + 1`'s entry:
/// stop at a leaf, else descend to the next table.
pub open spec fn walk_from(bus: BusView, pte: u64, level: int, va: u64, p: Privilege, mstatus: u64, access: AccessType)
    -> Result<u64, TrapCause>
    decreases level + 1,
{
    if is_leaf(pte) || level < 0 {
        if !is_leaf(pte) {
            Err(TrapCause::LoadPageFault)
        } else {
            leaf_check(pte, (level + 1) as u64, va, p, mstatus, access)
        }
    } else {
        match bus.read64(pte_addr(spec_pte_ppn(pte), vpn_spec(va, level as u64))) {
            Err(_) => Err(TrapCause::LoadPageFault),
            Ok(next) => if next & PTE_V == 0 {
                Err(TrapCause::LoadPageFault)
            } else {
                walk_from(bus, next, level - 1, va, p, mstatus, access)
            },
        }
    }
}

/// Translation of a data address: identity in M-mode or with satp in Bare mode; an illegal
/// instruction for any mode but Sv39; otherwise the three-level Sv39 walk, with every
/// unreadable or invalid entry a load page fault.
pub open spec fn translate_spec(va: u64, p: Privilege, bus: BusView, satp: u64, mstatus: u64, access: AccessType)
    -> Result<u64, TrapCause>
{
    let mode = (satp >> 60u64) & 0xF;
    if p == Privilege::M || mode == SATP_MODE_BARE {
        Ok(va)
    } else if mode != SATP_MODE_SV39 {
        Err(TrapCause::IllegalInstruction(0))
    } else {
        match bus.read64(pte_addr(satp & SATP_PPN, vpn_spec(va, 2))) {
            Err(_) => Err(TrapCause::LoadPageFault),
            Ok(root) => if root & PTE_V == 0 {
                Err(TrapCause::LoadPageFault)
            } else {
                walk_from(bus, root, 1, va, p, mstatus, access)
            },
        }
    }
}

fn leaf_check_exec(pte: u64, level: u64, va: u64, priv_level: Privilege, mstatus: u64, access_type: AccessType)
    -> (r: Result<u64, TrapCause>)
    requires
        level <= 2,
    ensures
        r == leaf_check(pte, level, va, priv_level, mstatus, access_type),
{
    let sum = (mstatus >> 18) & 1;
    let mxr = (mstatus >> 19) & 1;
    // Permission check with SUM and MXR
    let user_page = (pte & PTE_U) != 0;
    let readable = pte & (PTE_R | PTE_X) != 0 || (mxr != 0 && pte & PTE_X != 0);
    let writable = pte & (PTE_R | PTE_W) == (PTE_R | PTE_W);

    if priv_level == Privilege::U && !user_page {
        return Err(TrapCause::LoadPageFault);
    }
    if priv_level == Privilege::S && user_page && sum == 0 {
        return Err(TrapCause::LoadPageFault);
    }
    match access_type {
        AccessType::Read => if !readable {
            return Err(TrapCause::LoadPageFault);
        },
        AccessType::Write => if !writable {
            return Err(TrapCause::StorePageFault);
        },
    }
    let ppn = pte_ppn(pte);
    let va_low_bits = 12 + level * 9;
    proof {
        assert(va_low_bits < 64 ==> (1u64 << va_low_bits) >= 1) by (bit_vector);
    }
    Ok(((ppn << 12) & !((1u64 << va_low_bits) - 1)) | (va & ((1u64 << va_low_bits) - 1)))
}

fn translate(va: u64, priv_level: Privilege, bus: &Bus, satp: u64, mstatus: u64, access_type: AccessType)
    -> (r: Result<u64, TrapCause>)
    requires
        bus.wf(),
    ensures
        r == translate_spec(va, priv_level, bus@, satp, mstatus, access_type),
{
    if priv_level == Privilege::M {
        return Ok(va);
    }
    if satp_mode(satp) == SATP_MODE_BARE {
        return Ok(va);
    }
    if satp_mode(satp) != SATP_MODE_SV39 {
        return Err(TrapCause::IllegalInstruction(0));
    }
    let root_ppn = satp_ppn(satp);
    let i2 = vpn(va, 2);
    proof {
        lemma_pte_addr_fits(root_ppn, i2);
    }
    let mut pte_addr_v = (root_ppn << 12) + (i2 << 3);
    let mut pte = match bus.read_phys64(pte_addr_v) {
        Ok(v) => v,
        Err(_) => return Err(TrapCause::LoadPageFault),
    };
    if pte & 1 == 0 {
        return Err(TrapCause::LoadPageFault);
    }
    // Level at which the leaf PTE was found (2 = gigapage, 1 = megapage,
    // 0 = 4 KiB page). Needed to merge VA index bits into the final PA.
    let mut leaf_level: u64 = 2;
    let mut level: u64 = 2;
    while level > 0
        invariant
            bus.wf(),
            level <= 2,
            leaf_level == level,
            pte & PTE_V != 0,
            translate_spec(va, priv_level, bus@, satp, mstatus, access_type)
                == walk_from(bus@, pte, level - 1, va, priv_level, mstatus, access_type),
        ensures
            level == 0 || is_leaf(pte),
            leaf_level == level,
            pte & PTE_V != 0,
            translate_spec(va, priv_level, bus@, satp, mstatus, access_type)
                == walk_from(bus@, pte, level - 1, va, priv_level, mstatus, access_type),
        decreases level,
    {
        if pte & (PTE_R | PTE_W | PTE_X) != 0 {
            break;
        }
        level = level - 1;
        let ppn = pte_ppn(pte);
        let idx = vpn(va, level);
        proof {
            lemma_pte_addr_fits(ppn, idx);
        }
        pte_addr_v = (ppn << 12) + (idx << 3);
        pte = match bus.read_phys64(pte_addr_v) {
            Ok(v) => v,
            Err(_) => return Err(TrapCause::LoadPageFault),
        };
        if pte & 1 == 0 {
            return Err(TrapCause::LoadPageFault);
        }
        leaf_level = level;
    }
    if pte & (PTE_R | PTE_W | PTE_X) == 0 {
        return Err(TrapCause::LoadPageFault);
    }
    leaf_check_exec(pte, leaf_level, va, priv_level, mstatus, access_type)
}

// ===== Register-to-register and immediate arithmetic =====

/// For an instruction that only computes a value into `rd` from registers, its immediate and
/// the pc: the destination and the value. None for every other instruction.
pub open spec fn alu_spec(inst: Inst, pc: u64, regs: Seq<u64>) -> Option<(u8, u64)> {
    match inst {
        Inst::Lui { rd, imm } => Some((rd, imm as u64)),
        Inst::Auipc { rd, imm } => Some((rd, pc.wrapping_add(imm as u64))),
        Inst::Addi { rd, rs1, imm } => Some((rd, xreg(regs, rs1).wrapping_add(imm as u64))),
        Inst::Slti { rd, rs1, imm } => Some((rd, if (xreg(regs, rs1) as i64) < imm { 1 } else { 0 })),
        Inst::Sltiu { rd, rs1, imm } => Some((rd, if xreg(regs, rs1) < imm as u64 { 1 } else { 0 })),
        Inst::Xori { rd, rs1, imm } => Some((rd, xreg(regs, rs1) ^ imm as u64)),
        Inst::Ori { rd, rs1, imm } => Some((rd, xreg(regs, rs1) | imm as u64)),
        Inst::Andi { rd, rs1, imm } => Some((rd, xreg(regs, rs1) & imm as u64)),
        Inst::Slli { rd, rs1, shamt } => Some((rd, xreg(regs, rs1) << shamt)),
        Inst::Srli { rd, rs1, shamt } => Some((rd, xreg(regs, rs1) >> shamt)),
        Inst::Srai { rd, rs1, shamt } => Some((rd, ((xreg(regs, rs1) as i64) >> shamt) as u64)),
        Inst::Add { rd, rs1, rs2 } => Some((rd, xreg(regs, rs1).wrapping_add(xreg(regs, rs2)))),
        Inst::Sub { rd, rs1, rs2 } => Some((rd, xreg(regs, rs1).wrapping_sub(xreg(regs, rs2)))),
        Inst::Sll { rd, rs1, rs2 } => Some((rd, xreg(regs, rs1) << (xreg(regs, rs2) & 63))),
        Inst::Slt { rd, rs1, rs2 } =>
            Some((rd, if (xreg(regs, rs1) as i64) < (xreg(regs, rs2) as i64) { 1 } else { 0 })),
        Inst::Sltu { rd, rs1, rs2 } => Some((rd, if xreg(regs, rs1) < xreg(regs, rs2) { 1 } else { 0 })),
        Inst::Xor { rd, rs1, rs2 } => Some((rd, xreg(regs, rs1) ^ xreg(regs, rs2))),
        Inst::Srl { rd, rs1, rs2 } => Some((rd, xreg(regs, rs1) >> (xreg(regs, rs2) & 63))),
        Inst::Sra { rd, rs1, rs2 } => Some((rd, ((xreg(regs, rs1) as i64) >> (xreg(regs, rs2) & 63)) as u64)),
        Inst::Or { rd, rs1, rs2 } => Some((rd, xreg(regs, rs1) | xreg(regs, rs2))),
        Inst::And { rd, rs1, rs2 } => Some((rd, xreg(regs, rs1) & xreg(regs, rs2))),
        Inst::Addiw { rd, rs1, imm } =>
            Some((rd, sext32_spec(xreg(regs, rs1).wrapping_add(imm as u64) as u32))),
        Inst::Slliw { rd, rs1, shamt } => Some((rd, sext32_spec((xreg(regs, rs1) as u32) << shamt))),
        Inst::Srliw { rd, rs1, shamt } => Some((rd, sext32_spec((xreg(regs, rs1) as u32) >> shamt))),
        Inst::Sraiw { rd, rs1, shamt } => Some((rd, ((xreg(regs, rs1) as i32) >> shamt) as i64 as u64)),
        Inst::Addw { rd, rs1, rs2 } =>
            Some((rd, sext32_spec((xreg(regs, rs1) as u32).wrapping_add(xreg(regs, rs2) as u32)))),
        Inst::Subw { rd, rs1, rs2 } =>
            Some((rd, sext32_spec((xreg(regs, rs1) as u32).wrapping_sub(xreg(regs, rs2) as u32)))),
        Inst::Sllw { rd, rs1, rs2 } =>
            Some((rd, sext32_spec((xreg(regs, rs1) as u32) << (xreg(regs, rs2) & 31)))),
        Inst::Srlw { rd, rs1, rs2 } =>
            Some((rd, sext32_spec((xreg(regs, rs1) as u32) >> (xreg(regs, rs2) & 31)))),
        Inst::Sraw { rd, rs1, rs2 } =>
            Some((rd, ((xreg(regs, rs1) as i32) >> (xreg(regs, rs2) & 31)) as i64 as u64)),
        Inst::Mul { rd, rs1, rs2 } => Some((rd, xreg(regs, rs1).wrapping_mul(xreg(regs, rs2)))),
        Inst::Mulh { rd, rs1, rs2 } =>
            Some((rd, high64((xreg(regs, rs1) as i64) as int * (xreg(regs, rs2) as i64) as int))),
        Inst::Mulhsu { rd, rs1, rs2 } =>
            Some((rd, high64((xreg(regs, rs1) as i64) as int * xreg(regs, rs2) as int))),
        Inst::Mulhu { rd, rs1, rs2 } => Some((rd, high64(xreg(regs, rs1) as int * xreg(regs, rs2) as int))),
        Inst::Div { rd, rs1, rs2 } => {
            let a = xreg(regs, rs1) as i64;
            let b = xreg(regs, rs2) as i64;
            Some((rd, if b == 0 {
                u64::MAX
            } else if a == i64::MIN && b == -1 {
                a as u64
            } else {
                trunc_div(a as int, b as int) as i64 as u64
            }))
        },
        Inst::Divu { rd, rs1, rs2 } => {
            let b = xreg(regs, rs2);
            Some((rd, if b == 0 { u64::MAX } else { xreg(regs, rs1) / b }))
        },
        Inst::Rem { rd, rs1, rs2 } => {
            let a = xreg(regs, rs1) as i64;
            let b = xreg(regs, rs2) as i64;
            Some((rd, if b == 0 {
                a as u64
            } else if a == i64::MIN && b == -1 {
                0
            } else {
                trunc_rem(a as int, b as int) as i64 as u64
            }))
        },
        Inst::Remu { rd, rs1, rs2 } => {
            let b = xreg(regs, rs2);
            Some((rd, if b == 0 { xreg(regs, rs1) } else { xreg(regs, rs1) % b }))
        },
        Inst::Mulw { rd, rs1, rs2 } =>
            Some((rd, sext32_spec((xreg(regs, rs1) as u32).wrapping_mul(xreg(regs, rs2) as u32)))),
        Inst::Divw { rd, rs1, rs2 } => {
            let a = xreg(regs, rs1) as i32;
            let b = xreg(regs, rs2) as i32;
            Some((rd, if b == 0 {
                u64::MAX
            } else if a == i32::MIN && b == -1 {
                a as i64 as u64
            } else {
                trunc_div(a as int, b as int) as i32 as i64 as u64
            }))
        },
        Inst::Divuw { rd, rs1, rs2 } => {
            let a = xreg(regs, rs1) as u32;
            let b = xreg(regs, rs2) as u32;
            Some((rd, sext32_spec(if b == 0 { u32::MAX } else { a / b })))
        },
        Inst::Remw { rd, rs1, rs2 } => {
            let a = xreg(regs, rs1) as i32;
            let b = xreg(regs, rs2) as i32;
            Some((rd, if b == 0 {
                a as i64 as u64
            } else if a == i32::MIN && b == -1 {
                0
            } else {
                trunc_rem(a as int, b as int) as i32 as i64 as u64
            }))
        },
        Inst::Remuw { rd, rs1, rs2 } => {
            let b = xreg(regs, rs2) as u32;
            Some((rd, if b == 0 {
                sext32_spec(xreg(regs, rs1) as u32)
            } else {
                sext32_spec((xreg(regs, rs1) as u32) % b)
            }))
        },
        _ => None,
    }
}

/// Masked shift amounts are in range.
proof fn lemma_shift_masks(y: u64)
    ensures
        y & 63 < 64,
        y & 31 < 32,
{
    assert(y & 63 < 64 && y & 31 < 32) by (bit_vector);
}

/// An arithmetic right shift by 64 is a floor division by 2^64.
proof fn lemma_high_half_signed(p: i128)
    ensures
        p >> 64u32 == p / 0x1_0000_0000_0000_0000i128,
{
    assert(p >> 64u32 == p / 0x1_0000_0000_0000_0000i128) by (bit_vector);
}

/// A logical right shift by 64 is a division by 2^64.
proof fn lemma_high_half_unsigned(p: u128)
    ensures
        p >> 64u32 == p / 0x1_0000_0000_0000_0000u128,
{
    assert(p >> 64u32 == p / 0x1_0000_0000_0000_0000u128) by (bit_vector);
}

proof fn lemma_product_bounds(a: i64, b: i64, c: u64, d: u64)
    ensures
        -0x4000_0000_0000_0000_0000_0000_0000_0000 <= (a as int) * (b as int) <= 0x4000_0000_0000_0000_0000_0000_0000_0000,
        -0x8000_0000_0000_0000_0000_0000_0000_0000 < (a as int) * (c as int) < 0x8000_0000_0000_0000_0000_0000_0000_0000,
        0 <= (c as int) * (d as int) < 0x1_0000_0000_0000_0000_0000_0000_0000_0000,
{
    let (x, y, u, v) = (a as int, b as int, c as int, d as int);
    assert(-0x4000_0000_0000_0000_0000_0000_0000_0000 <= x * y <= 0x4000_0000_0000_0000_0000_0000_0000_0000)
        by (nonlinear_arith)
        requires
            -0x8000_0000_0000_0000 <= x < 0x8000_0000_0000_0000,
            -0x8000_0000_0000_0000 <= y < 0x8000_0000_0000_0000;
    assert(-0x8000_0000_0000_0000_0000_0000_0000_0000 < x * u < 0x8000_0000_0000_0000_0000_0000_0000_0000)
        by (nonlinear_arith)
        requires
            -0x8000_0000_0000_0000 <= x < 0x8000_0000_0000_0000,
            0 <= u < 0x1_0000_0000_0000_0000;
    assert(0 <= u * v < 0x1_0000_0000_0000_0000_0000_0000_0000_0000) by (nonlinear_arith)
        requires
            0 <= u < 0x1_0000_0000_0000_0000,
            0 <= v < 0x1_0000_0000_0000_0000;
}

fn alu(inst: Inst, pc: u64, regs: &[u64; 32]) -> (r: Option<(u8, u64)>)
    requires
        inst.wf(),
    ensures
        r == alu_spec(inst, pc, regs@),
{
    match inst {
        Inst::Lui { rd, imm } => Some((rd, imm as u64)),
        Inst::Auipc { rd, imm } => Some((rd, pc.wrapping_add(imm as u64))),
        Inst::Addi { rd, rs1, imm } => Some((rd, regs[rs1 as usize].wrapping_add(imm as u64))),
        Inst::Slti { rd, rs1, imm } => Some((rd, if (regs[rs1 as usize] as i64) < imm { 1 } else { 0 })),
        Inst::Sltiu { rd, rs1, imm } => Some((rd, if regs[rs1 as usize] < imm as u64 { 1 } else { 0 })),
        Inst::Xori { rd, rs1, imm } => Some((rd, regs[rs1 as usize] ^ imm as u64)),
        Inst::Ori { rd, rs1, imm } => Some((rd, regs[rs1 as usize] | imm as u64)),
        Inst::Andi { rd, rs1, imm } => Some((rd, regs[rs1 as usize] & imm as u64)),
        Inst::Slli { rd, rs1, shamt } => Some((rd, regs[rs1 as usize] << shamt)),
        Inst::Srli { rd, rs1, shamt } => Some((rd, regs[rs1 as usize] >> shamt)),
        Inst::Srai { rd, rs1, shamt } => Some((rd, ((regs[rs1 as usize] as i64) >> shamt) as u64)),
        Inst::Add { rd, rs1, rs2 } => Some((rd, regs[rs1 as usize].wrapping_add(regs[rs2 as usize]))),
        Inst::Sub { rd, rs1, rs2 } => Some((rd, regs[rs1 as usize].wrapping_sub(regs[rs2 as usize]))),
        Inst::Sll { rd, rs1, rs2 } => {
            let y = regs[rs2 as usize];
            let s = y & 63;
            proof { lemma_shift_masks(y); }
            Some((rd, regs[rs1 as usize] << s))
        },
        Inst::Slt { rd, rs1, rs2 } =>
            Some((rd, if (regs[rs1 as usize] as i64) < (regs[rs2 as usize] as i64) { 1 } else { 0 })),
        Inst::Sltu { rd, rs1, rs2 } => Some((rd, if regs[rs1 as usize] < regs[rs2 as usize] { 1 } else { 0 })),
        Inst::Xor { rd, rs1, rs2 } => Some((rd, regs[rs1 as usize] ^ regs[rs2 as usize])),
        Inst::Srl { rd, rs1, rs2 } => {
            let y = regs[rs2 as usize];
            let s = y & 63;
            proof { lemma_shift_masks(y); }
            Some((rd, regs[rs1 as usize] >> s))
        },
        Inst::Sra { rd, rs1, rs2 } => {
            let y = regs[rs2 as usize];
            let s = y & 63;
            proof { lemma_shift_masks(y); }
            Some((rd, ((regs[rs1 as usize] as i64) >> s) as u64))
        },
        Inst::Or { rd, rs1, rs2 } => Some((rd, regs[rs1 as usize] | regs[rs2 as usize])),
        Inst::And { rd, rs1, rs2 } => Some((rd, regs[rs1 as usize] & regs[rs2 as usize])),
        Inst::Addiw { rd, rs1, imm } => Some((rd, sext32(regs[rs1 as usize].wrapping_add(imm as u64) as u32))),
        Inst::Slliw { rd, rs1, shamt } => Some((rd, sext32((regs[rs1 as usize] as u32) << shamt))),
        Inst::Srliw { rd, rs1, shamt } => Some((rd, sext32((regs[rs1 as usize] as u32) >> shamt))),
        Inst::Sraiw { rd, rs1, shamt } => Some((rd, ((regs[rs1 as usize] as i32) >> shamt) as i64 as u64)),
        Inst::Addw { rd, rs1, rs2 } =>
            Some((rd, sext32((regs[rs1 as usize] as u32).wrapping_add(regs[rs2 as usize] as u32)))),
        Inst::Subw { rd, rs1, rs2 } =>
            Some((rd, sext32((regs[rs1 as usize] as u32).wrapping_sub(regs[rs2 as usize] as u32)))),
        Inst::Sllw { rd, rs1, rs2 } => {
            let y = regs[rs2 as usize];
            let s = y & 31;
            proof { lemma_shift_masks(y); }
            Some((rd, sext32((regs[rs1 as usize] as u32) << s)))
        },
        Inst::Srlw { rd, rs1, rs2 } => {
            let y = regs[rs2 as usize];
            let s = y & 31;
            proof { lemma_shift_masks(y); }
            Some((rd, sext32((regs[rs1 as usize] as u32) >> s)))
        },
        Inst::Sraw { rd, rs1, rs2 } => {
            let y = regs[rs2 as usize];
            let s = y & 31;
            proof { lemma_shift_masks(y); }
            Some((rd, ((regs[rs1 as usize] as i32) >> s) as i64 as u64))
        },
        Inst::Mul { rd, rs1, rs2 } => Some((rd, regs[rs1 as usize].wrapping_mul(regs[rs2 as usize]))),
        Inst::Mulh { rd, rs1, rs2 } => {
            let a = regs[rs1 as usize] as i64 as i128;
            let b = regs[rs2 as usize] as i64 as i128;
            proof { lemma_product_bounds(a as i64, b as i64, 0, 0); }
            let p = a * b;
            proof { lemma_high_half_signed(p); }
            Some((rd, (p >> 64) as u64))
        },
        Inst::Mulhsu { rd, rs1, rs2 } => {
            let a = regs[rs1 as usize] as i64 as i128;
            let b = regs[rs2 as usize] as u128 as i128;
            proof { lemma_product_bounds(a as i64, 0, regs[rs2 as int], 0); }
            let p = a * b;
            proof { lemma_high_half_signed(p); }
            Some((rd, (p >> 64) as u64))
        },
        Inst::Mulhu { rd, rs1, rs2 } => {
            let a = regs[rs1 as usize] as u128;
            let b = regs[rs2 as usize] as u128;
            proof { lemma_product_bounds(0, 0, a as u64, b as u64); }
            let p = a * b;
            proof { lemma_high_half_unsigned(p); }
            Some((rd, (p >> 64) as u64))
        },
        Inst::Div { rd, rs1, rs2 } => {
            let a = regs[rs1 as usize] as i64;
            let b = regs[rs2 as usize] as i64;
            Some((rd, if b == 0 {
                u64::MAX
            } else if a == i64::MIN && b == -1 {
                a as u64
            } else {
                div_trunc64(a, b).0 as u64
            }))
        },
        Inst::Divu { rd, rs1, rs2 } => {
            let b = regs[rs2 as usize];
            Some((rd, if b == 0 { u64::MAX } else { regs[rs1 as usize] / b }))
        },
        Inst::Rem { rd, rs1, rs2 } => {
            let a = regs[rs1 as usize] as i64;
            let b = regs[rs2 as usize] as i64;
            Some((rd, if b == 0 {
                a as u64
            } else if a == i64::MIN && b == -1 {
                0
            } else {
                div_trunc64(a, b).1 as u64
            }))
        },
        Inst::Remu { rd, rs1, rs2 } => {
            let b = regs[rs2 as usize];
            Some((rd, if b == 0 { regs[rs1 as usize] } else { regs[rs1 as usize] % b }))
        },
        Inst::Mulw { rd, rs1, rs2 } =>
            Some((rd, sext32((regs[rs1 as usize] as u32).wrapping_mul(regs[rs2 as usize] as u32)))),
        Inst::Divw { rd, rs1, rs2 } => {
            let a = regs[rs1 as usize] as i32;
            let b = regs[rs2 as usize] as i32;
            Some((rd, if b == 0 {
                u64::MAX
            } else if a == i32::MIN && b == -1 {
                a as i64 as u64
            } else {
                div_trunc32(a, b).0 as i64 as u64
            }))
        },
        Inst::Divuw { rd, rs1, rs2 } => {
            let b = regs[rs2 as usize] as u32;
            let a = regs[rs1 as usize] as u32;
            Some((rd, sext32(if b == 0 { u32::MAX } else { a / b })))
        },
        Inst::Remw { rd, rs1, rs2 } => {
            let a = regs[rs1 as usize] as i32;
            let b = regs[rs2 as usize] as i32;
            Some((rd, if b == 0 {
                a as i64 as u64
            } else if a == i32::MIN && b == -1 {
                0
            } else {
                div_trunc32(a, b).1 as i64 as u64
            }))
        },
        Inst::Remuw { rd, rs1, rs2 } => {
            let b = regs[rs2 as usize] as u32;
            Some((rd, if b == 0 {
                sext32(regs[rs1 as usize] as u32)
            } else {
                sext32(regs[rs1 as usize] as u32 % b)
            }))
        },
        _ => None,
    }
}

// ===== The whole instruction =====

/// Machine state after one instruction, with the instruction's outcome.
pub struct ExecOutcome {
    pub regs: Seq<u64>,
    pub csr: CsrView,
    pub bus: BusView,
    pub next_pc: u64,
    pub trap: Option<TrapCause>,
    pub halt: bool,
    pub new_priv: Option<Privilege>,
}

pub open spec fn done(regs: Seq<u64>, csr: CsrView, bus: BusView, next_pc: u64) -> ExecOutcome {
    ExecOutcome { regs, csr, bus, next_pc, trap: None, halt: false, new_priv: None }
}

pub open spec fn trapped(regs: Seq<u64>, csr: CsrView, bus: BusView, next_pc: u64, cause: TrapCause) -> ExecOutcome {
    ExecOutcome { regs, csr, bus, next_pc, trap: Some(cause), halt: false, new_priv: None }
}

/// The physical address a data access uses: the translation of `va`, or `va` itself when
/// the translation fails (the failure raises no trap).
pub open spec fn data_pa(va: u64, p: Privilege, bus: BusView, csr: CsrView, access: AccessType) -> u64 {
    match translate_spec(va, p, bus, csr.read(CSR_SATP, Privilege::M), csr.reg(CSR_MSTATUS), access) {
        Ok(pa) => pa,
        Err(_) => va,
    }
}

/// The value a load instruction puts in rd: the bytes read at `pa`, sign- or zero-extended
/// by the instruction's width and kind.
pub open spec fn load_spec(inst: Inst, bus: BusView, pa: u64) -> Result<u64, TrapCause> {
    match inst {
        Inst::Lb { .. } => match bus.read8(pa) { Ok(v) => Ok(v as i8 as i64 as u64), Err(e) => Err(e) },
        Inst::Lh { .. } => match bus.read16(pa) { Ok(v) => Ok(v as i16 as i64 as u64), Err(e) => Err(e) },
        Inst::Lw { .. } | Inst::LrW { .. } => match bus.read32(pa) {
            Ok(v) => Ok(sext32_spec(v)),
            Err(e) => Err(e),
        },
        Inst::Ld { .. } | Inst::LrD { .. } => bus.read64(pa),
        Inst::Lbu { .. } => match bus.read8(pa) { Ok(v) => Ok(v as u64), Err(e) => Err(e) },
        Inst::Lhu { .. } => match bus.read16(pa) { Ok(v) => Ok(v as u64), Err(e) => Err(e) },
        Inst::Lwu { .. } => match bus.read32(pa) { Ok(v) => Ok(v as u64), Err(e) => Err(e) },
        _ => Err(TrapCause::IllegalInstruction(0)),
    }
}

/// The bus after a store instruction writes `val` at `pa`, and whether the store succeeded.
pub open spec fn store_spec(inst: Inst, bus: BusView, pa: u64, val: u64) -> (BusView, Result<(), TrapCause>) {
    match inst {
        Inst::Sb { .. } => (bus.write8(pa, val as u8), BusView::store_result(BusView::store8_ok(pa))),
        Inst::Sh { .. } => (bus.write16(pa, val as u16), BusView::write16_result(pa)),
        Inst::Sw { .. } => (bus.write32(pa, val as u32), BusView::store_result(BusView::store32_ok(pa))),
        _ => (bus.write64(pa, val), BusView::write64_result(pa)),
    }
}

/// mstatus after mret: MIE = MPIE, MPIE = 1, MPP kept.
pub open spec fn mret_mstatus(ms: u64) -> u64 {
    (ms & !(MSTATUS_MIE | MSTATUS_MPP | MSTATUS_MPIE)) | (((ms >> 7u64) & 1) << 3u64) | (1u64 << 7u64)
        | (((ms >> 11u64) & 3) << 11u64)
}

/// mstatus after sret: SIE = SPIE, SPIE = 1, SPP kept.
pub open spec fn sret_mstatus(ms: u64) -> u64 {
    (ms & !(MSTATUS_SIE | MSTATUS_SPP | MSTATUS_SPIE)) | (((ms >> 5u64) & 1) << 1u64) | (1u64 << 5u64)
        | (((ms >> 8u64) & 1) << 8u64)
}

pub open spec fn ecall_cause(p: Privilege) -> TrapCause {
    match p {
        Privilege::U => TrapCause::EcallFromU,
        Privilege::S => TrapCause::EcallFromS,
        Privilege::M => TrapCause::EcallFromM,
    }
}

/// A CSR instruction's destination, CSR number, source value and operation.
pub open spec fn csr_args(inst: Inst, regs: Seq<u64>) -> (u8, u16, u64, CsrOp) {
    match inst {
        Inst::Csrrw { rd, rs1, csr } => (rd, csr, xreg(regs, rs1), CsrOp::Write),
        Inst::Csrrs { rd, rs1, csr } => (rd, csr, xreg(regs, rs1), CsrOp::SetBits),
        Inst::Csrrc { rd, rs1, csr } => (rd, csr, xreg(regs, rs1), CsrOp::Clear),
        Inst::Csrrwi { rd, uimm, csr } => (rd, csr, uimm as u64, CsrOp::Write),
        Inst::Csrrsi { rd, uimm, csr } => (rd, csr, uimm as u64, CsrOp::SetBits),
        _ => match inst {
            Inst::Csrrci { rd, uimm, csr } => (rd, csr, uimm as u64, CsrOp::Clear),
            _ => (0, 0, 0, CsrOp::Write),
        },
    }
}

pub open spec fn is_csr_inst(inst: Inst) -> bool {
    inst is Csrrw || inst is Csrrs || inst is Csrrc || inst is Csrrwi || inst is Csrrsi || inst is Csrrci
}

/// The outcome of a CSR instruction: an illegal instruction (with the CSR number) when the
/// privilege level may not access the CSR; otherwise the old value goes to rd and the value
/// the operation computes from it is written back.
pub open spec fn csr_spec(inst: Inst, next: u64, regs: Seq<u64>, csr: CsrView, bus: BusView, p: Privilege)
    -> ExecOutcome
{
    let (rd, addr, src, op) = csr_args(inst, regs);
    if !csr_access_allowed(addr as usize, p) {
        trapped(regs, csr, bus, next, TrapCause::IllegalInstruction(addr as u32))
    } else {
        let old = csr.read(addr as usize, p);
        done(write_reg(regs, rd, old), csr.write(addr as usize, csr_op_result(op, old, src), p), bus, next)
    }
}

/// The outcome of a load-reserved, store-conditional or atomic memory operation.
pub open spec fn amo_spec(inst: Inst, next: u64, regs: Seq<u64>, csr: CsrView, bus: BusView, p: Privilege)
    -> ExecOutcome
{
    match inst {
        Inst::AmoaddW { rd, rs1, rs2, .. } => {
            let pa = data_pa(xreg(regs, rs1), p, bus, csr, AccessType::Write);
            match bus.read32(pa) {
                Ok(old) => {
                    let b2 = bus.write32(pa, old.wrapping_add(xreg(regs, rs2) as u32));
                    if BusView::store32_ok(pa) {
                        done(write_reg(regs, rd, sext32_spec(old)), csr, b2, next)
                    } else {
                        trapped(regs, csr, b2, next, TrapCause::StoreAccessFault)
                    }
                },
                Err(_) => trapped(regs, csr, bus, next, TrapCause::LoadAccessFault),
            }
        },
        Inst::AmoswapW { rd, rs1, rs2, .. } => {
            let pa = data_pa(xreg(regs, rs1), p, bus, csr, AccessType::Write);
            match bus.read32(pa) {
                Ok(old) => {
                    let b2 = bus.write32(pa, xreg(regs, rs2) as u32);
                    if BusView::store32_ok(pa) {
                        done(write_reg(regs, rd, sext32_spec(old)), csr, b2, next)
                    } else {
                        trapped(regs, csr, b2, next, TrapCause::StoreAccessFault)
                    }
                },
                Err(_) => trapped(regs, csr, bus, next, TrapCause::LoadAccessFault),
            }
        },
        Inst::LrW { rd, rs1, .. } | Inst::LrD { rd, rs1, .. } => {
            let pa = data_pa(xreg(regs, rs1), p, bus, csr, AccessType::Read);
            match load_spec(inst, bus, pa) {
                Ok(v) => done(write_reg(regs, rd, v), csr, bus, next),
                Err(e) => trapped(regs, csr, bus, next, e),
            }
        },
        Inst::ScW { rd, rs1, rs2, .. } => {
            let pa = data_pa(xreg(regs, rs1), p, bus, csr, AccessType::Write);
            let b2 = bus.write32(pa, xreg(regs, rs2) as u32);
            if BusView::store32_ok(pa) {
                done(write_reg(regs, rd, 0), csr, b2, next)
            } else {
                trapped(regs, csr, b2, next, TrapCause::StoreAccessFault)
            }
        },
        Inst::ScD { rd, rs1, rs2, .. } => {
            let pa = data_pa(xreg(regs, rs1), p, bus, csr, AccessType::Write);
            let b2 = bus.write64(pa, xreg(regs, rs2));
            if BusView::write64_result(pa) is Ok {
                done(write_reg(regs, rd, 0), csr, b2, next)
            } else {
                trapped(regs, csr, b2, next, TrapCause::StoreAccessFault)
            }
        },
        _ => done(regs, csr, bus, next),
    }
}

/// The effect of executing `inst` at `pc` from privilege `p` on the registers, the CSRs and
/// the bus, and the result that `execute` reports. The program counter itself, traps and
/// privilege changes are applied by the caller.
pub open spec fn exec_spec(inst: Inst, pc: u64, regs: Seq<u64>, csr: CsrView, bus: BusView, p: Privilege)
    -> ExecOutcome
{
    let next = pc.wrapping_add(4);
    match alu_spec(inst, pc, regs) {
        Some((rd, v)) => done(write_reg(regs, rd, v), csr, bus, next),
        None => match inst {
            Inst::Jal { rd, imm } => done(write_reg(regs, rd, next), csr, bus, pc.wrapping_add(imm as u64)),
            Inst::Jalr { rd, rs1, imm } =>
                done(write_reg(regs, rd, next), csr, bus, xreg(regs, rs1).wrapping_add(imm as u64) & !1u64),
            Inst::Beq { rs1, rs2, imm } =>
                done(regs, csr, bus, if xreg(regs, rs1) == xreg(regs, rs2) { pc.wrapping_add(imm as u64) } else { next }),
            Inst::Bne { rs1, rs2, imm } =>
                done(regs, csr, bus, if xreg(regs, rs1) != xreg(regs, rs2) { pc.wrapping_add(imm as u64) } else { next }),
            Inst::Blt { rs1, rs2, imm } => done(regs, csr, bus,
                if (xreg(regs, rs1) as i64) < (xreg(regs, rs2) as i64) { pc.wrapping_add(imm as u64) } else { next }),
            Inst::Bge { rs1, rs2, imm } => done(regs, csr, bus,
                if (xreg(regs, rs1) as i64) >= (xreg(regs, rs2) as i64) { pc.wrapping_add(imm as u64) } else { next }),
            Inst::Bltu { rs1, rs2, imm } =>
                done(regs, csr, bus, if xreg(regs, rs1) < xreg(regs, rs2) { pc.wrapping_add(imm as u64) } else { next }),
            Inst::Bgeu { rs1, rs2, imm } =>
                done(regs, csr, bus, if xreg(regs, rs1) >= xreg(regs, rs2) { pc.wrapping_add(imm as u64) } else { next }),
            Inst::Lb { rd, rs1, imm } | Inst::Lh { rd, rs1, imm } | Inst::Lw { rd, rs1, imm }
            | Inst::Ld { rd, rs1, imm } | Inst::Lbu { rd, rs1, imm } | Inst::Lhu { rd, rs1, imm }
            | Inst::Lwu { rd, rs1, imm } => {
                let pa = data_pa(xreg(regs, rs1).wrapping_add(imm as u64), p, bus, csr, AccessType::Read);
                match load_spec(inst, bus, pa) {
                    Ok(v) => done(write_reg(regs, rd, v), csr, bus, next),
                    Err(e) => trapped(regs, csr, bus, next, e),
                }
            },
            Inst::Sb { rs1, rs2, imm } | Inst::Sh { rs1, rs2, imm } | Inst::Sw { rs1, rs2, imm }
            | Inst::Sd { rs1, rs2, imm } => {
                let pa = data_pa(xreg(regs, rs1).wrapping_add(imm as u64), p, bus, csr, AccessType::Write);
                let (b2, r) = store_spec(inst, bus, pa, xreg(regs, rs2));
                match r {
                    Ok(_) => done(regs, csr, b2, next),
                    Err(e) => trapped(regs, csr, b2, next, e),
                }
            },
            Inst::AmoaddW { .. } | Inst::AmoswapW { .. } | Inst::LrW { .. } | Inst::ScW { .. }
            | Inst::LrD { .. } | Inst::ScD { .. } => amo_spec(inst, next, regs, csr, bus, p),
            Inst::Csrrw { .. } | Inst::Csrrs { .. } | Inst::Csrrc { .. } | Inst::Csrrwi { .. }
            | Inst::Csrrsi { .. } | Inst::Csrrci { .. } => csr_spec(inst, next, regs, csr, bus, p),
            Inst::Ecall => trapped(regs, csr, bus, next, ecall_cause(p)),
            Inst::Ebreak => ExecOutcome { halt: true, ..done(regs, csr, bus, next) },
            Inst::Mret => if p != Privilege::M {
                trapped(regs, csr, bus, next, TrapCause::IllegalInstruction(0x3020_0073))
            } else {
                let ms = csr.reg(CSR_MSTATUS);
                ExecOutcome {
                    new_priv: Some(Privilege::from_mpp((ms >> 11u64) & 3)),
                    ..done(regs, csr.write(CSR_MSTATUS, mret_mstatus(ms), Privilege::M), bus,
                        csr.read(CSR_MEPC, Privilege::M))
                }
            },
            Inst::Sret => if p == Privilege::U {
                trapped(regs, csr, bus, next, TrapCause::IllegalInstruction(0x1020_0073))
            } else {
                let ms = csr.reg(CSR_MSTATUS);
                ExecOutcome {
                    new_priv: Some(if (ms >> 8u64) & 1 == 1 { Privilege::S } else { Privilege::U }),
                    ..done(regs, csr.write(CSR_MSTATUS, sret_mstatus(ms), Privilege::M), bus, csr.read(CSR_SEPC, p))
                }
            },
            Inst::Illegal(raw) => trapped(regs, csr, bus, next, TrapCause::IllegalInstruction(raw)),
            _ => done(regs, csr, bus, next),
        },
    }
}

/// The physical address a data access uses; a failed translation falls back to `addr`.
fn data_addr(addr: u64, priv_level: Privilege, bus: &Bus, csr: &CsrFile, access: AccessType) -> (r: u64)
    requires
        bus.wf(),
    ensures
        r == data_pa(addr, priv_level, bus@, csr@, access),
{
    match translate(addr, priv_level, bus, csr_satp(csr), csr_mstatus(csr), access) {
        Ok(pa) => pa,
        Err(_) => addr,
    }
}

fn load(inst: Inst, bus: &Bus, pa: u64) -> (r: Result<u64, TrapCause>)
    requires
        bus.wf(),
    ensures
        r == load_spec(inst, bus@, pa),
{
    match inst {
        Inst::Lb { .. } => match bus.read8(pa) { Ok(v) => Ok(v as i8 as i64 as u64), Err(e) => Err(e) },
        Inst::Lh { .. } => match bus.read16(pa) { Ok(v) => Ok(v as i16 as i64 as u64), Err(e) => Err(e) },
        Inst::Lw { .. } | Inst::LrW { .. } => match bus.read32(pa) { Ok(v) => Ok(sext32(v)), Err(e) => Err(e) },
        Inst::Ld { .. } | Inst::LrD { .. } => bus.read64(pa),
        Inst::Lbu { .. } => match bus.read8(pa) { Ok(v) => Ok(v as u64), Err(e) => Err(e) },
        Inst::Lhu { .. } => match bus.read16(pa) { Ok(v) => Ok(v as u64), Err(e) => Err(e) },
        Inst::Lwu { .. } => match bus.read32(pa) { Ok(v) => Ok(v as u64), Err(e) => Err(e) },
        _ => Err(TrapCause::IllegalInstruction(0)),
    }
}

fn store(inst: Inst, bus: &mut Bus, pa: u64, val: u64) -> (r: Result<(), TrapCause>)
    requires
        old(bus).wf(),
    ensures
        final(bus).wf(),
        (final(bus)@, r) == store_spec(inst, old(bus)@, pa, val),
{
    match inst {
        Inst::Sb { .. } => bus.write8(pa, val as u8),
        Inst::Sh { .. } => bus.write16(pa, val as u16),
        Inst::Sw { .. } => bus.write32(pa, val as u32),
        _ => bus.write64(pa, val),
    }
}

fn amo(inst: Inst, pc: u64, regs: &mut [u64; 32], csr: &CsrFile, bus: &mut Bus, priv_level: Privilege)
    -> (r: ExecResult)
    requires
        inst.wf(),
        old(bus).wf(),
    ensures
        final(bus).wf(),
        amo_spec(inst, pc.wrapping_add(4), old(regs)@, csr@, old(bus)@, priv_level) == (ExecOutcome {
            regs: final(regs)@,
            csr: csr@,
            bus: final(bus)@,
            next_pc: r.next_pc,
            trap: r.trap,
            halt: r.halt,
            new_priv: r.new_priv,
        }),
{
    let next_pc = pc.wrapping_add(4);
    let mut trap: Option<TrapCause> = None;
    match inst {
        Inst::AmoaddW { rd, rs1, rs2, aq: _, rl: _ } => {
            let addr = regs[rs1 as usize];
            let pa = data_addr(addr, priv_level, bus, csr, AccessType::Write);
            if let Ok(old) = bus.read32(pa) {
                let sum = old.wrapping_add(regs[rs2 as usize] as u32);
                if bus.write32(pa, sum).is_ok() {
                    set_reg(regs, rd, sext32(old));
                } else {
                    trap = Some(TrapCause::StoreAccessFault);
                }
            } else {
                trap = Some(TrapCause::LoadAccessFault);
            }
        },
        Inst::AmoswapW { rd, rs1, rs2, aq: _, rl: _ } => {
            let addr = regs[rs1 as usize];
            let pa = data_addr(addr, priv_level, bus, csr, AccessType::Write);
            if let Ok(old) = bus.read32(pa) {
                if bus.write32(pa, regs[rs2 as usize] as u32).is_ok() {
                    set_reg(regs, rd, sext32(old));
                } else {
                    trap = Some(TrapCause::StoreAccessFault);
                }
            } else {
                trap = Some(TrapCause::LoadAccessFault);
            }
        },
        Inst::LrW { rd, rs1, aq: _, rl: _ } | Inst::LrD { rd, rs1, aq: _, rl: _ } => {
            let addr = regs[rs1 as usize];
            let pa = data_addr(addr, priv_level, bus, csr, AccessType::Read);
            match load(inst, bus, pa) {
                Ok(v) => set_reg(regs, rd, v),
                Err(e) => trap = Some(e),
            }
        },
        Inst::ScW { rd, rs1, rs2, aq: _, rl: _ } => {
            let addr = regs[rs1 as usize];
            let pa = data_addr(addr, priv_level, bus, csr, AccessType::Write);
            if bus.write32(pa, regs[rs2 as usize] as u32).is_ok() {
                set_reg(regs, rd, 0);
            } else {
                trap = Some(TrapCause::StoreAccessFault);
            }
        },
        Inst::ScD { rd, rs1, rs2, aq: _, rl: _ } => {
            let addr = regs[rs1 as usize];
            let pa = data_addr(addr, priv_level, bus, csr, AccessType::Write);
            if bus.write64(pa, regs[rs2 as usize]).is_ok() {
                set_reg(regs, rd, 0);
            } else {
                trap = Some(TrapCause::StoreAccessFault);
            }
        },
        _ => {},
    }
    ExecResult { next_pc, trap, halt: false, new_priv: None }
}

fn csr_inst(inst: Inst, pc: u64, regs: &mut [u64; 32], csr: &mut CsrFile, priv_level: Privilege)
    -> (r: ExecResult)
    requires
        inst.wf(),
        is_csr_inst(inst),
    ensures
        forall|bus: BusView| csr_spec(inst, pc.wrapping_add(4), old(regs)@, old(csr)@, bus, priv_level) == (ExecOutcome {
            regs: final(regs)@,
            csr: final(csr)@,
            bus,
            next_pc: r.next_pc,
            trap: r.trap,
            halt: r.halt,
            new_priv: r.new_priv,
        }),
{
    let next_pc = pc.wrapping_add(4);
    let (rd, addr, src, op) = match inst {
        Inst::Csrrw { rd, rs1, csr: addr } => (rd, addr, regs[rs1 as usize], CsrOp::Write),
        Inst::Csrrs { rd, rs1, csr: addr } => (rd, addr, regs[rs1 as usize], CsrOp::SetBits),
        Inst::Csrrc { rd, rs1, csr: addr } => (rd, addr, regs[rs1 as usize], CsrOp::Clear),
        Inst::Csrrwi { rd, uimm, csr: addr } => (rd, addr, uimm as u64, CsrOp::Write),
        Inst::Csrrsi { rd, uimm, csr: addr } => (rd, addr, uimm as u64, CsrOp::SetBits),
        Inst::Csrrci { rd, uimm, csr: addr } => (rd, addr, uimm as u64, CsrOp::Clear),
        _ => (0, 0, 0, CsrOp::Write),
    };
    if !csr_access_ok(addr as usize, priv_level) {
        return ExecResult {
            next_pc,
            trap: Some(TrapCause::IllegalInstruction(addr as u32)),
            halt: false,
            new_priv: None,
        };
    }
    let v = csr.read_write(addr as usize, src, op, priv_level);
    set_reg(regs, rd, v);
    ExecResult { next_pc, trap: None, halt: false, new_priv: None }
}

/// Executes one decoded instruction at `pc` in privilege `priv_level`.
pub fn execute(
    inst: Inst,
    pc: u64,
    regs: &mut [u64; 32],
    csr: &mut CsrFile,
    bus: &mut Bus,
    priv_level: Privilege,
) -> (r: ExecResult)
    requires
        inst.wf(),
        old(bus).wf(),
    ensures
        final(bus).wf(),
        exec_spec(inst, pc, old(regs)@, old(csr)@, old(bus)@, priv_level) == (ExecOutcome {
            regs: final(regs)@,
            csr: final(csr)@,
            bus: final(bus)@,
            next_pc: r.next_pc,
            trap: r.trap,
            halt: r.halt,
            new_priv: r.new_priv,
        }),
{
    let next = pc.wrapping_add(4);
    if let Some((rd, v)) = alu(inst, pc, regs) {
        set_reg(regs, rd, v);
        return ExecResult { next_pc: next, trap: None, halt: false, new_priv: None };
    }
    match inst {
        Inst::Jal { rd, imm } => {
            set_reg(regs, rd, next);
            ExecResult { next_pc: pc.wrapping_add(imm as u64), trap: None, halt: false, new_priv: None }
        },
        Inst::Jalr { rd, rs1, imm } => {
            let target = regs[rs1 as usize].wrapping_add(imm as u64) & !1u64;
            set_reg(regs, rd, next);
            ExecResult { next_pc: target, trap: None, halt: false, new_priv: None }
        },
        Inst::Beq { rs1, rs2, imm } | Inst::Bne { rs1, rs2, imm } | Inst::Blt { rs1, rs2, imm }
        | Inst::Bge { rs1, rs2, imm } | Inst::Bltu { rs1, rs2, imm } | Inst::Bgeu { rs1, rs2, imm } => {
            let a = regs[rs1 as usize];
            let b = regs[rs2 as usize];
            let taken = match inst {
                Inst::Beq { .. } => a == b,
                Inst::Bne { .. } => a != b,
                Inst::Blt { .. } => (a as i64) < (b as i64),
                Inst::Bge { .. } => (a as i64) >= (b as i64),
                Inst::Bltu { .. } => a < b,
                _ => a >= b,
            };
            ExecResult {
                next_pc: if taken { pc.wrapping_add(imm as u64) } else { next },
                trap: None,
                halt: false,
                new_priv: None,
            }
        },
        Inst::Lb { rd, rs1, imm } | Inst::Lh { rd, rs1, imm } | Inst::Lw { rd, rs1, imm }
        | Inst::Ld { rd, rs1, imm } | Inst::Lbu { rd, rs1, imm } | Inst::Lhu { rd, rs1, imm }
        | Inst::Lwu { rd, rs1, imm } => {
            let addr = regs[rs1 as usize].wrapping_add(imm as u64);
            let pa = data_addr(addr, priv_level, bus, csr, AccessType::Read);
            match load(inst, bus, pa) {
                Ok(v) => {
                    set_reg(regs, rd, v);
                    ExecResult { next_pc: next, trap: None, halt: false, new_priv: None }
                },
                Err(e) => ExecResult { next_pc: next, trap: Some(e), halt: false, new_priv: None },
            }
        },
        Inst::Sb { rs1, rs2, imm } | Inst::Sh { rs1, rs2, imm } | Inst::Sw { rs1, rs2, imm }
        | Inst::Sd { rs1, rs2, imm } => {
            let addr = regs[rs1 as usize].wrapping_add(imm as u64);
            let pa = data_addr(addr, priv_level, bus, csr, AccessType::Write);
            match store(inst, bus, pa, regs[rs2 as usize]) {
                Ok(_) => ExecResult { next_pc: next, trap: None, halt: false, new_priv: None },
                Err(e) => ExecResult { next_pc: next, trap: Some(e), halt: false, new_priv: None },
            }
        },
        Inst::AmoaddW { .. } | Inst::AmoswapW { .. } | Inst::LrW { .. } | Inst::ScW { .. }
        | Inst::LrD { .. } | Inst::ScD { .. } => amo(inst, pc, regs, csr, bus, priv_level),
        Inst::Csrrw { .. } | Inst::Csrrs { .. } | Inst::Csrrc { .. } | Inst::Csrrwi { .. }
        | Inst::Csrrsi { .. } | Inst::Csrrci { .. } => csr_inst(inst, pc, regs, csr, priv_level),
        Inst::Ecall => {
            let cause = match priv_level {
                Privilege::U => TrapCause::EcallFromU,
                Privilege::S => TrapCause::EcallFromS,
                Privilege::M => TrapCause::EcallFromM,
            };
            ExecResult { next_pc: next, trap: Some(cause), halt: false, new_priv: None }
        },
        Inst::Ebreak => ExecResult { next_pc: next, trap: None, halt: true, new_priv: None },
        Inst::Mret => {
            if priv_level != Privilege::M {
                ExecResult {
                    next_pc: next,
                    trap: Some(TrapCause::IllegalInstruction(0x3020_0073)),
                    halt: false,
                    new_priv: None,
                }
            } else {
                let next_pc = csr.read(CSR_MEPC, Privilege::M);
                let ms = csr.mstatus();
                let mpp = (ms >> 11) & 0b11;
                let mpie = (ms >> 7) & 1;
                let mut new_ms = ms & !(MSTATUS_MIE | MSTATUS_MPP | MSTATUS_MPIE);
                new_ms = new_ms | (mpie << 3);  // MIE = MPIE
                new_ms = new_ms | (1 << 7);  // MPIE = 1
                new_ms = new_ms | (mpp << 11);  // keep MPP for the privilege update in step()
                csr.write(CSR_MSTATUS, new_ms, Privilege::M);
                let new_priv = if mpp == 1 {
                    Privilege::S
                } else if mpp == 0 {
                    Privilege::U
                } else {
                    Privilege::M
                };
                ExecResult { next_pc, trap: None, halt: false, new_priv: Some(new_priv) }
            }
        },
        Inst::Sret => {
            let spp = (csr.mstatus() >> 8) & 1;
            let spie = (csr.mstatus() >> 5) & 1;
            let mut new_ms = csr.mstatus();
            new_ms = new_ms & !(MSTATUS_SIE | MSTATUS_SPP | MSTATUS_SPIE);
            new_ms = new_ms | (spie << 1);  // SIE = SPIE
            new_ms = new_ms | (1 << 5);  // SPIE = 1
            new_ms = new_ms | (spp << 8);  // keep SPP for the privilege update
            if priv_level == Privilege::U {
                ExecResult {
                    next_pc: next,
                    trap: Some(TrapCause::IllegalInstruction(0x1020_0073)),
                    halt: false,
                    new_priv: None,
                }
            } else {
                let next_pc = csr.read(CSR_SEPC, priv_level);
                csr.write(CSR_MSTATUS, new_ms, Privilege::M);
                let new_priv = if spp == 1 { Privilege::S } else { Privilege::U };
                ExecResult { next_pc, trap: None, halt: false, new_priv: Some(new_priv) }
            }
        },
        Inst::Illegal(raw) => ExecResult {
            next_pc: next,
            trap: Some(TrapCause::IllegalInstruction(raw)),
            halt: false,
            new_priv: None,
        },
        _ => ExecResult { next_pc: next, trap: None, halt: false, new_priv: None },
    }
}

/// No instruction changes the cycle or instret counters.
pub proof fn lemma_exec_keeps_counters(inst: Inst, pc: u64, regs: Seq<u64>, csr: CsrView, bus: BusView, p: Privilege)
    requires
        csr.wf(),
    ensures
        exec_spec(inst, pc, regs, csr, bus, p).csr.reg(crate::cpu::csr::CSR_CYCLE) == csr.reg(crate::cpu::csr::CSR_CYCLE),
        exec_spec(inst, pc, regs, csr, bus, p).csr.reg(crate::cpu::csr::CSR_INSTRET) == csr.reg(crate::cpu::csr::CSR_INSTRET),
        exec_spec(inst, pc, regs, csr, bus, p).csr.wf(),
{
    let ms = csr.reg(CSR_MSTATUS);
    crate::cpu::csr::lemma_write_keeps_counters(csr, CSR_MSTATUS, mret_mstatus(ms), Privilege::M);
    crate::cpu::csr::lemma_write_keeps_counters(csr, CSR_MSTATUS, sret_mstatus(ms), Privilege::M);
    if is_csr_inst(inst) {
        let (rd, addr, src, op) = csr_args(inst, regs);
        let old = csr.read(addr as usize, p);
        crate::cpu::csr::lemma_write_keeps_counters(csr, addr as usize, csr_op_result(op, old, src), p);
    }
}

} // verus!
