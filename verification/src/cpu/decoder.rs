//! All RISC-V instruction formats decoded via bit manipulation.
use vstd::prelude::*;
use vstd::arithmetic::power2::{pow2, lemma2_to64};

verus! {

#[derive(Debug, Clone, Copy, PartialEq, Eq, Structural)]
pub enum Inst {
    // RV64I
    Lui { rd: u8, imm: i64 },
    // A extension (atomics)
    AmoaddW { rd: u8, rs1: u8, rs2: u8, aq: bool, rl: bool },
    AmoswapW { rd: u8, rs1: u8, rs2: u8, aq: bool, rl: bool },
    LrW { rd: u8, rs1: u8, aq: bool, rl: bool },
    ScW { rd: u8, rs1: u8, rs2: u8, aq: bool, rl: bool },
    LrD { rd: u8, rs1: u8, aq: bool, rl: bool },
    ScD { rd: u8, rs1: u8, rs2: u8, aq: bool, rl: bool },
    Auipc { rd: u8, imm: i64 },
    Jal { rd: u8, imm: i64 },
    Jalr { rd: u8, rs1: u8, imm: i64 },
    Beq { rs1: u8, rs2: u8, imm: i64 },
    Bne { rs1: u8, rs2: u8, imm: i64 },
    Blt { rs1: u8, rs2: u8, imm: i64 },
    Bge { rs1: u8, rs2: u8, imm: i64 },
    Bltu { rs1: u8, rs2: u8, imm: i64 },
    Bgeu { rs1: u8, rs2: u8, imm: i64 },
    Lb { rd: u8, rs1: u8, imm: i64 },
    Lh { rd: u8, rs1: u8, imm: i64 },
    Lw { rd: u8, rs1: u8, imm: i64 },
    Ld { rd: u8, rs1: u8, imm: i64 },
    Lbu { rd: u8, rs1: u8, imm: i64 },
    Lhu { rd: u8, rs1: u8, imm: i64 },
    Lwu { rd: u8, rs1: u8, imm: i64 },
    Sb { rs1: u8, rs2: u8, imm: i64 },
    Sh { rs1: u8, rs2: u8, imm: i64 },
    Sw { rs1: u8, rs2: u8, imm: i64 },
    Sd { rs1: u8, rs2: u8, imm: i64 },
    Addi { rd: u8, rs1: u8, imm: i64 },
    Slti { rd: u8, rs1: u8, imm: i64 },
    Sltiu { rd: u8, rs1: u8, imm: i64 },
    Xori { rd: u8, rs1: u8, imm: i64 },
    Ori { rd: u8, rs1: u8, imm: i64 },
    Andi { rd: u8, rs1: u8, imm: i64 },
    Slli { rd: u8, rs1: u8, shamt: u8 },
    Srli { rd: u8, rs1: u8, shamt: u8 },
    Srai { rd: u8, rs1: u8, shamt: u8 },
    Add { rd: u8, rs1: u8, rs2: u8 },
    Sub { rd: u8, rs1: u8, rs2: u8 },
    Sll { rd: u8, rs1: u8, rs2: u8 },
    Slt { rd: u8, rs1: u8, rs2: u8 },
    Sltu { rd: u8, rs1: u8, rs2: u8 },
    Xor { rd: u8, rs1: u8, rs2: u8 },
    Srl { rd: u8, rs1: u8, rs2: u8 },
    Sra { rd: u8, rs1: u8, rs2: u8 },
    Or { rd: u8, rs1: u8, rs2: u8 },
    And { rd: u8, rs1: u8, rs2: u8 },
    // RV64I W-suffix (32-bit ops sign-extended)
    Addiw { rd: u8, rs1: u8, imm: i64 },
    Slliw { rd: u8, rs1: u8, shamt: u8 },
    Srliw { rd: u8, rs1: u8, shamt: u8 },
    Sraiw { rd: u8, rs1: u8, shamt: u8 },
    Addw { rd: u8, rs1: u8, rs2: u8 },
    Subw { rd: u8, rs1: u8, rs2: u8 },
    Sllw { rd: u8, rs1: u8, rs2: u8 },
    Srlw { rd: u8, rs1: u8, rs2: u8 },
    Sraw { rd: u8, rs1: u8, rs2: u8 },
    // RV64M
    Mul { rd: u8, rs1: u8, rs2: u8 },
    Mulh { rd: u8, rs1: u8, rs2: u8 },
    Mulhsu { rd: u8, rs1: u8, rs2: u8 },
    Mulhu { rd: u8, rs1: u8, rs2: u8 },
    Div { rd: u8, rs1: u8, rs2: u8 },
    Divu { rd: u8, rs1: u8, rs2: u8 },
    Rem { rd: u8, rs1: u8, rs2: u8 },
    Remu { rd: u8, rs1: u8, rs2: u8 },
    Mulw { rd: u8, rs1: u8, rs2: u8 },
    Divw { rd: u8, rs1: u8, rs2: u8 },
    Divuw { rd: u8, rs1: u8, rs2: u8 },
    Remw { rd: u8, rs1: u8, rs2: u8 },
    Remuw { rd: u8, rs1: u8, rs2: u8 },
    // System
    Ecall,
    Ebreak,
    Fence,
    Csrrw { rd: u8, rs1: u8, csr: u16 },
    Csrrs { rd: u8, rs1: u8, csr: u16 },
    Csrrc { rd: u8, rs1: u8, csr: u16 },
    Csrrwi { rd: u8, uimm: u8, csr: u16 },
    Csrrsi { rd: u8, uimm: u8, csr: u16 },
    Csrrci { rd: u8, uimm: u8, csr: u16 },
    Mret,
    Sret,
    Illegal(u32),
}

impl Inst {
    /// The fields of the instruction name registers 0..31, shift amounts fit the operand
    /// width (64 bits, or 32 for the W forms), CSR numbers fit 12 bits and CSR immediates 5.
    pub open spec fn wf(self) -> bool {
        match self {
            Inst::Lui { rd, .. } | Inst::Auipc { rd, .. } | Inst::Jal { rd, .. } => rd < 32,
            Inst::Jalr { rd, rs1, .. } | Inst::Lb { rd, rs1, .. } | Inst::Lh { rd, rs1, .. }
            | Inst::Lw { rd, rs1, .. } | Inst::Ld { rd, rs1, .. } | Inst::Lbu { rd, rs1, .. }
            | Inst::Lhu { rd, rs1, .. } | Inst::Lwu { rd, rs1, .. } | Inst::Addi { rd, rs1, .. }
            | Inst::Slti { rd, rs1, .. } | Inst::Sltiu { rd, rs1, .. } | Inst::Xori { rd, rs1, .. }
            | Inst::Ori { rd, rs1, .. } | Inst::Andi { rd, rs1, .. } | Inst::Addiw { rd, rs1, .. }
            | Inst::LrW { rd, rs1, .. } | Inst::LrD { rd, rs1, .. } => rd < 32 && rs1 < 32,
            Inst::Beq { rs1, rs2, .. } | Inst::Bne { rs1, rs2, .. } | Inst::Blt { rs1, rs2, .. }
            | Inst::Bge { rs1, rs2, .. } | Inst::Bltu { rs1, rs2, .. } | Inst::Bgeu { rs1, rs2, .. }
            | Inst::Sb { rs1, rs2, .. } | Inst::Sh { rs1, rs2, .. } | Inst::Sw { rs1, rs2, .. }
            | Inst::Sd { rs1, rs2, .. } => rs1 < 32 && rs2 < 32,
            Inst::Slli { rd, rs1, shamt } | Inst::Srli { rd, rs1, shamt }
            | Inst::Srai { rd, rs1, shamt } => rd < 32 && rs1 < 32 && shamt < 64,
            Inst::Slliw { rd, rs1, shamt } | Inst::Srliw { rd, rs1, shamt }
            | Inst::Sraiw { rd, rs1, shamt } => rd < 32 && rs1 < 32 && shamt < 32,
            Inst::Add { rd, rs1, rs2 } | Inst::Sub { rd, rs1, rs2 } | Inst::Sll { rd, rs1, rs2 }
            | Inst::Slt { rd, rs1, rs2 } | Inst::Sltu { rd, rs1, rs2 } | Inst::Xor { rd, rs1, rs2 }
            | Inst::Srl { rd, rs1, rs2 } | Inst::Sra { rd, rs1, rs2 } | Inst::Or { rd, rs1, rs2 }
            | Inst::And { rd, rs1, rs2 } | Inst::Addw { rd, rs1, rs2 } | Inst::Subw { rd, rs1, rs2 }
            | Inst::Sllw { rd, rs1, rs2 } | Inst::Srlw { rd, rs1, rs2 } | Inst::Sraw { rd, rs1, rs2 }
            | Inst::Mul { rd, rs1, rs2 } | Inst::Mulh { rd, rs1, rs2 } | Inst::Mulhsu { rd, rs1, rs2 }
            | Inst::Mulhu { rd, rs1, rs2 } | Inst::Div { rd, rs1, rs2 } | Inst::Divu { rd, rs1, rs2 }
            | Inst::Rem { rd, rs1, rs2 } | Inst::Remu { rd, rs1, rs2 } | Inst::Mulw { rd, rs1, rs2 }
            | Inst::Divw { rd, rs1, rs2 } | Inst::Divuw { rd, rs1, rs2 } | Inst::Remw { rd, rs1, rs2 }
            | Inst::Remuw { rd, rs1, rs2 } | Inst::AmoaddW { rd, rs1, rs2, .. }
            | Inst::AmoswapW { rd, rs1, rs2, .. } | Inst::ScW { rd, rs1, rs2, .. }
            | Inst::ScD { rd, rs1, rs2, .. } => rd < 32 && rs1 < 32 && rs2 < 32,
            Inst::Csrrw { rd, rs1, csr } | Inst::Csrrs { rd, rs1, csr }
            | Inst::Csrrc { rd, rs1, csr } => rd < 32 && rs1 < 32 && csr < 4096,
            Inst::Csrrwi { rd, uimm, csr } | Inst::Csrrsi { rd, uimm, csr }
            | Inst::Csrrci { rd, uimm, csr } => rd < 32 && uimm < 32 && csr < 4096,
            _ => true,
        }
    }

    /// The register, CSR and CSR-immediate fields of the instruction are those of `raw`:
    /// rd bits 11..7, rs1 (and a CSR immediate) bits 19..15, rs2 bits 24..20, the CSR number
    /// bits 31..20.
    pub open spec fn fields_from(self, raw: u32) -> bool {
        match self {
            Inst::Lui { rd, .. } | Inst::Auipc { rd, .. } | Inst::Jal { rd, .. } => rd == rd_of(raw),
            Inst::Jalr { rd, rs1, .. } | Inst::Lb { rd, rs1, .. } | Inst::Lh { rd, rs1, .. }
            | Inst::Lw { rd, rs1, .. } | Inst::Ld { rd, rs1, .. } | Inst::Lbu { rd, rs1, .. }
            | Inst::Lhu { rd, rs1, .. } | Inst::Lwu { rd, rs1, .. } | Inst::Addi { rd, rs1, .. }
            | Inst::Slti { rd, rs1, .. } | Inst::Sltiu { rd, rs1, .. } | Inst::Xori { rd, rs1, .. }
            | Inst::Ori { rd, rs1, .. } | Inst::Andi { rd, rs1, .. } | Inst::Addiw { rd, rs1, .. }
            | Inst::LrW { rd, rs1, .. } | Inst::LrD { rd, rs1, .. } => rd == rd_of(raw) && rs1 == rs1_of(raw),
            Inst::Beq { rs1, rs2, .. } | Inst::Bne { rs1, rs2, .. } | Inst::Blt { rs1, rs2, .. }
            | Inst::Bge { rs1, rs2, .. } | Inst::Bltu { rs1, rs2, .. } | Inst::Bgeu { rs1, rs2, .. }
            | Inst::Sb { rs1, rs2, .. } | Inst::Sh { rs1, rs2, .. } | Inst::Sw { rs1, rs2, .. }
            | Inst::Sd { rs1, rs2, .. } => rs1 == rs1_of(raw) && rs2 == rs2_of(raw),
            Inst::Slli { rd, rs1, shamt } | Inst::Srli { rd, rs1, shamt }
            | Inst::Srai { rd, rs1, shamt } => rd == rd_of(raw) && rs1 == rs1_of(raw),
            Inst::Slliw { rd, rs1, shamt } | Inst::Srliw { rd, rs1, shamt }
            | Inst::Sraiw { rd, rs1, shamt } => rd == rd_of(raw) && rs1 == rs1_of(raw),
            Inst::Add { rd, rs1, rs2 } | Inst::Sub { rd, rs1, rs2 } | Inst::Sll { rd, rs1, rs2 }
            | Inst::Slt { rd, rs1, rs2 } | Inst::Sltu { rd, rs1, rs2 } | Inst::Xor { rd, rs1, rs2 }
            | Inst::Srl { rd, rs1, rs2 } | Inst::Sra { rd, rs1, rs2 } | Inst::Or { rd, rs1, rs2 }
            | Inst::And { rd, rs1, rs2 } | Inst::Addw { rd, rs1, rs2 } | Inst::Subw { rd, rs1, rs2 }
            | Inst::Sllw { rd, rs1, rs2 } | Inst::Srlw { rd, rs1, rs2 } | Inst::Sraw { rd, rs1, rs2 }
            | Inst::Mul { rd, rs1, rs2 } | Inst::Mulh { rd, rs1, rs2 } | Inst::Mulhsu { rd, rs1, rs2 }
            | Inst::Mulhu { rd, rs1, rs2 } | Inst::Div { rd, rs1, rs2 } | Inst::Divu { rd, rs1, rs2 }
            | Inst::Rem { rd, rs1, rs2 } | Inst::Remu { rd, rs1, rs2 } | Inst::Mulw { rd, rs1, rs2 }
            | Inst::Divw { rd, rs1, rs2 } | Inst::Divuw { rd, rs1, rs2 } | Inst::Remw { rd, rs1, rs2 }
            | Inst::Remuw { rd, rs1, rs2 } | Inst::AmoaddW { rd, rs1, rs2, .. }
            | Inst::AmoswapW { rd, rs1, rs2, .. } | Inst::ScW { rd, rs1, rs2, .. }
            | Inst::ScD { rd, rs1, rs2, .. } => rd == rd_of(raw) && rs1 == rs1_of(raw) && rs2 == rs2_of(raw),
            Inst::Csrrw { rd, rs1, csr } | Inst::Csrrs { rd, rs1, csr }
            | Inst::Csrrc { rd, rs1, csr } => rd == rd_of(raw) && rs1 == rs1_of(raw) && csr == csr_of(raw),
            Inst::Csrrwi { rd, uimm, csr } | Inst::Csrrsi { rd, uimm, csr }
            | Inst::Csrrci { rd, uimm, csr } => rd == rd_of(raw) && uimm == rs1_of(raw) && csr == csr_of(raw),
            _ => true,
        }
    }
}

/// Bits lo..=hi of `x`, shifted down to bit 0.
pub open spec fn field(x: u32, lo: u32, hi: u32) -> u32 {
    (x >> lo) & (((1u32 << ((hi - lo + 1) as u32)) - 1) as u32)
}

/// Bit n of `x`.
pub open spec fn bit_of(x: u32, n: u32) -> u32 {
    (x >> n) & 1
}

/// The two's-complement value of `v` read as a number whose sign bit is bit `sign_bit`.
pub open spec fn sign_extend(v: u32, sign_bit: u32) -> int {
    if bit_of(v, sign_bit) == 1 {
        v as int - pow2((sign_bit + 1) as nat)
    } else {
        v as int
    }
}

/// The I-type immediate: bits 31..20, sign-extended.
pub open spec fn imm_i_spec(raw: u32) -> int {
    sign_extend(field(raw, 20, 31), 11)
}

/// The S-type immediate: bits 31..25 and 11..7, sign-extended.
pub open spec fn imm_s_spec(raw: u32) -> int {
    sign_extend((field(raw, 25, 31) << 5u32) | field(raw, 7, 11), 11)
}

/// The B-type immediate: [12|10:5|4:1|11], even, sign-extended.
pub open spec fn imm_b_spec(raw: u32) -> int {
    sign_extend(
        (bit_of(raw, 31) << 12u32) | (bit_of(raw, 7) << 11u32) | (field(raw, 25, 30) << 5u32)
            | (field(raw, 8, 11) << 1u32),
        12,
    )
}

/// The U-type immediate: bits 31..12 in place, sign-extended from bit 31.
pub open spec fn imm_u_spec(raw: u32) -> int {
    sign_extend(raw & 0xFFFF_F000, 31)
}

/// The J-type immediate: [20|10:1|11|19:12], even, sign-extended.
pub open spec fn imm_j_spec(raw: u32) -> int {
    sign_extend(
        (bit_of(raw, 31) << 20u32) | (field(raw, 12, 19) << 12u32) | (bit_of(raw, 20) << 11u32)
            | (field(raw, 21, 30) << 1u32),
        20,
    )
}

pub open spec fn rd_of(raw: u32) -> u8 {
    field(raw, 7, 11) as u8
}

pub open spec fn rs1_of(raw: u32) -> u8 {
    field(raw, 15, 19) as u8
}

pub open spec fn rs2_of(raw: u32) -> u8 {
    field(raw, 20, 24) as u8
}

pub open spec fn funct3_of(raw: u32) -> u32 {
    field(raw, 12, 14)
}

pub open spec fn funct7_of(raw: u32) -> u32 {
    field(raw, 25, 31)
}

pub open spec fn csr_of(raw: u32) -> u16 {
    field(raw, 20, 31) as u16
}

/// Whether the word is sfence.vma (any rs1, rs2).
pub open spec fn is_sfence_vma(raw: u32) -> bool {
    raw & 0xFE00_7FFF == 0x1200_0073
}

/// The instruction encoded by `raw`, as the RV64IMA base encoding tables give it, with the
/// system encodings ecall, ebreak, sret, wfi (decoded as a fence), mret and sfence.vma
/// matched on the whole word.
pub open spec fn decode_spec(raw: u32) -> Inst {
    let opcode = raw & 0x7F;
    let rd = rd_of(raw);
    let rs1 = rs1_of(raw);
    let rs2 = rs2_of(raw);
    let f3 = funct3_of(raw);
    let f7 = funct7_of(raw);
    let csr = csr_of(raw);
    let ii = imm_i_spec(raw) as i64;
    let ib = imm_b_spec(raw) as i64;
    if opcode == 0x37 {
        Inst::Lui { rd, imm: imm_u_spec(raw) as i64 }
    } else if opcode == 0x17 {
        Inst::Auipc { rd, imm: imm_u_spec(raw) as i64 }
    } else if opcode == 0x6F {
        Inst::Jal { rd, imm: imm_j_spec(raw) as i64 }
    } else if opcode == 0x67 {
        Inst::Jalr { rd, rs1, imm: ii }
    } else if opcode == 0x63 {
        if f3 == 0 { Inst::Beq { rs1, rs2, imm: ib } }
        else if f3 == 1 { Inst::Bne { rs1, rs2, imm: ib } }
        else if f3 == 4 { Inst::Blt { rs1, rs2, imm: ib } }
        else if f3 == 5 { Inst::Bge { rs1, rs2, imm: ib } }
        else if f3 == 6 { Inst::Bltu { rs1, rs2, imm: ib } }
        else if f3 == 7 { Inst::Bgeu { rs1, rs2, imm: ib } }
        else { Inst::Illegal(raw) }
    } else if opcode == 0x03 {
        if f3 == 0 { Inst::Lb { rd, rs1, imm: ii } }
        else if f3 == 1 { Inst::Lh { rd, rs1, imm: ii } }
        else if f3 == 2 { Inst::Lw { rd, rs1, imm: ii } }
        else if f3 == 3 { Inst::Ld { rd, rs1, imm: ii } }
        else if f3 == 4 { Inst::Lbu { rd, rs1, imm: ii } }
        else if f3 == 5 { Inst::Lhu { rd, rs1, imm: ii } }
        else if f3 == 6 { Inst::Lwu { rd, rs1, imm: ii } }
        else { Inst::Illegal(raw) }
    } else if opcode == 0x23 {
        let is = imm_s_spec(raw) as i64;
        if f3 == 0 { Inst::Sb { rs1, rs2, imm: is } }
        else if f3 == 1 { Inst::Sh { rs1, rs2, imm: is } }
        else if f3 == 2 { Inst::Sw { rs1, rs2, imm: is } }
        else if f3 == 3 { Inst::Sd { rs1, rs2, imm: is } }
        else { Inst::Illegal(raw) }
    } else if opcode == 0x13 {
        let shamt = field(raw, 20, 25) as u8;
        if f3 == 0 { Inst::Addi { rd, rs1, imm: ii } }
        else if f3 == 2 { Inst::Slti { rd, rs1, imm: ii } }
        else if f3 == 3 { Inst::Sltiu { rd, rs1, imm: ii } }
        else if f3 == 4 { Inst::Xori { rd, rs1, imm: ii } }
        else if f3 == 6 { Inst::Ori { rd, rs1, imm: ii } }
        else if f3 == 7 { Inst::Andi { rd, rs1, imm: ii } }
        else if f3 == 1 { Inst::Slli { rd, rs1, shamt } }
        else if f3 == 5 {
            if f7 >> 1u32 == 0x10 { Inst::Srai { rd, rs1, shamt } } else { Inst::Srli { rd, rs1, shamt } }
        } else { Inst::Illegal(raw) }
    } else if opcode == 0x33 {
        if f7 == 0x00 && f3 == 0 { Inst::Add { rd, rs1, rs2 } }
        else if f7 == 0x20 && f3 == 0 { Inst::Sub { rd, rs1, rs2 } }
        else if f7 == 0x00 && f3 == 1 { Inst::Sll { rd, rs1, rs2 } }
        else if f7 == 0x00 && f3 == 2 { Inst::Slt { rd, rs1, rs2 } }
        else if f7 == 0x00 && f3 == 3 { Inst::Sltu { rd, rs1, rs2 } }
        else if f7 == 0x00 && f3 == 4 { Inst::Xor { rd, rs1, rs2 } }
        else if f7 == 0x00 && f3 == 5 { Inst::Srl { rd, rs1, rs2 } }
        else if f7 == 0x20 && f3 == 5 { Inst::Sra { rd, rs1, rs2 } }
        else if f7 == 0x00 && f3 == 6 { Inst::Or { rd, rs1, rs2 } }
        else if f7 == 0x00 && f3 == 7 { Inst::And { rd, rs1, rs2 } }
        else if f7 == 0x01 && f3 == 0 { Inst::Mul { rd, rs1, rs2 } }
        else if f7 == 0x01 && f3 == 1 { Inst::Mulh { rd, rs1, rs2 } }
        else if f7 == 0x01 && f3 == 2 { Inst::Mulhsu { rd, rs1, rs2 } }
        else if f7 == 0x01 && f3 == 3 { Inst::Mulhu { rd, rs1, rs2 } }
        else if f7 == 0x01 && f3 == 4 { Inst::Div { rd, rs1, rs2 } }
        else if f7 == 0x01 && f3 == 5 { Inst::Divu { rd, rs1, rs2 } }
        else if f7 == 0x01 && f3 == 6 { Inst::Rem { rd, rs1, rs2 } }
        else if f7 == 0x01 && f3 == 7 { Inst::Remu { rd, rs1, rs2 } }
        else { Inst::Illegal(raw) }
    } else if opcode == 0x1B {
        let shamt = field(raw, 20, 24) as u8;
        if f3 == 0 { Inst::Addiw { rd, rs1, imm: ii } }
        else if f3 == 1 { Inst::Slliw { rd, rs1, shamt } }
        else if f3 == 5 {
            if f7 == 0x20 { Inst::Sraiw { rd, rs1, shamt } } else { Inst::Srliw { rd, rs1, shamt } }
        } else { Inst::Illegal(raw) }
    } else if opcode == 0x3B {
        if f7 == 0x00 && f3 == 0 { Inst::Addw { rd, rs1, rs2 } }
        else if f7 == 0x20 && f3 == 0 { Inst::Subw { rd, rs1, rs2 } }
        else if f7 == 0x00 && f3 == 1 { Inst::Sllw { rd, rs1, rs2 } }
        else if f7 == 0x00 && f3 == 5 { Inst::Srlw { rd, rs1, rs2 } }
        else if f7 == 0x20 && f3 == 5 { Inst::Sraw { rd, rs1, rs2 } }
        else if f7 == 0x01 && f3 == 0 { Inst::Mulw { rd, rs1, rs2 } }
        else if f7 == 0x01 && f3 == 4 { Inst::Divw { rd, rs1, rs2 } }
        else if f7 == 0x01 && f3 == 5 { Inst::Divuw { rd, rs1, rs2 } }
        else if f7 == 0x01 && f3 == 6 { Inst::Remw { rd, rs1, rs2 } }
        else if f7 == 0x01 && f3 == 7 { Inst::Remuw { rd, rs1, rs2 } }
        else { Inst::Illegal(raw) }
    } else if opcode == 0x2F {
        let f5 = field(raw, 27, 31);
        let aq = bit_of(raw, 26) != 0;
        let rl = bit_of(raw, 25) != 0;
        if f5 == 0x00 && f3 == 2 { Inst::AmoaddW { rd, rs1, rs2, aq, rl } }
        else if f5 == 0x01 && f3 == 2 { Inst::AmoswapW { rd, rs1, rs2, aq, rl } }
        else if f5 == 0x02 && f3 == 2 { Inst::LrW { rd, rs1, aq, rl } }
        else if f5 == 0x03 && f3 == 2 { Inst::ScW { rd, rs1, rs2, aq, rl } }
        else if f5 == 0x02 && f3 == 3 { Inst::LrD { rd, rs1, aq, rl } }
        else if f5 == 0x03 && f3 == 3 { Inst::ScD { rd, rs1, rs2, aq, rl } }
        else { Inst::Illegal(raw) }
    } else if opcode == 0x73 {
        if f3 == 0 {
            if raw == 0x0000_0073 { Inst::Ecall }
            else if raw == 0x0010_0073 { Inst::Ebreak }
            else if raw == 0x1020_0073 { Inst::Sret }
            else if raw == 0x1050_0073 { Inst::Fence }
            else if raw == 0x3020_0073 { Inst::Mret }
            else if is_sfence_vma(raw) { Inst::Fence }
            else { Inst::Illegal(raw) }
        }
        else if f3 == 1 { Inst::Csrrw { rd, rs1, csr } }
        else if f3 == 2 { Inst::Csrrs { rd, rs1, csr } }
        else if f3 == 3 { Inst::Csrrc { rd, rs1, csr } }
        else if f3 == 5 { Inst::Csrrwi { rd, uimm: rs1, csr } }
        else if f3 == 6 { Inst::Csrrsi { rd, uimm: rs1, csr } }
        else if f3 == 7 { Inst::Csrrci { rd, uimm: rs1, csr } }
        else { Inst::Illegal(raw) }
    } else if opcode == 0x0F {
        Inst::Fence
    } else {
        Inst::Illegal(raw)
    }
}

// Bit field helpers: extract bits from a raw instruction word.
fn bits(x: u32, lo: u32, hi: u32) -> (r: u32)
    requires
        lo <= hi < 32,
        hi - lo + 1 < 32,
    ensures
        r == field(x, lo, hi),
{
    let n = hi - lo + 1;
    proof {
        assert(n < 32 ==> (1u32 << n) >= 1) by (bit_vector);
    }
    (x >> lo) & ((1u32 << (hi - lo + 1)) - 1)
}

fn bit(x: u32, n: u32) -> (r: u32)
    requires
        n < 32,
    ensures
        r == bit_of(x, n),
        r <= 1,
{
    proof {
        assert((x >> n) & 1 <= 1) by (bit_vector);
    }
    (x >> n) & 1
}

/// Sign-extends `x`, whose sign bit is `bit_pos`, to 64 bits.
fn sign_ext(x: u32, bit_pos: u32) -> (r: i64)
    requires
        bit_pos == 11 || bit_pos == 12 || bit_pos == 20 || bit_pos == 31,
        bit_pos < 31 ==> x < (1u32 << (bit_pos + 1)),
    ensures
        r == sign_extend(x, bit_pos),
{
    let shift = 63 - bit_pos;
    proof {
        lemma2_to64();
        if bit_pos == 11 {
            assert(x < (1u32 << 12u32) ==> ((x as i64) << 52u32) >> 52u32
                == if (x >> 11u32) & 1 == 1 { x as i64 - 0x1000 } else { x as int }) by (bit_vector);
        } else if bit_pos == 12 {
            assert(x < (1u32 << 13u32) ==> ((x as i64) << 51u32) >> 51u32
                == if (x >> 12u32) & 1 == 1 { x as i64 - 0x2000 } else { x as int }) by (bit_vector);
        } else if bit_pos == 20 {
            assert(x < (1u32 << 21u32) ==> ((x as i64) << 43u32) >> 43u32
                == if (x >> 20u32) & 1 == 1 { x as i64 - 0x20_0000 } else { x as int }) by (bit_vector);
        } else {
            assert(((x as i64) << 32u32) >> 32u32
                == if (x >> 31u32) & 1 == 1 { x as i64 - 0x1_0000_0000 } else { x as int }) by (bit_vector);
        }
    }
    ((x as i64) << shift) >> shift
}

fn imm_i(raw: u32) -> (r: i64)
    ensures
        r == imm_i_spec(raw),
{
    let f = bits(raw, 20, 31);
    proof {
        assert(field(raw, 20, 31) < (1u32 << 12u32)) by (bit_vector);
    }
    sign_ext(f, 11)
}

fn imm_s(raw: u32) -> (r: i64)
    ensures
        r == imm_s_spec(raw),
{
    let f = (bits(raw, 25, 31) << 5) | bits(raw, 7, 11);
    proof {
        assert(((field(raw, 25, 31) << 5u32) | field(raw, 7, 11)) < (1u32 << 12u32)) by (bit_vector);
    }
    sign_ext(f, 11)
}

fn imm_b(raw: u32) -> (r: i64)
    ensures
        r == imm_b_spec(raw),
{
    let imm = (bit(raw, 31) << 12) | (bit(raw, 7) << 11) | (bits(raw, 25, 30) << 5) | (bits(raw, 8, 11) << 1);
    proof {
        assert(((bit_of(raw, 31) << 12u32) | (bit_of(raw, 7) << 11u32) | (field(raw, 25, 30) << 5u32)
            | (field(raw, 8, 11) << 1u32)) < (1u32 << 13u32)) by (bit_vector);
    }
    sign_ext(imm, 12)
}

fn imm_u(raw: u32) -> (r: i64)
    ensures
        r == imm_u_spec(raw),
{
    sign_ext(raw & 0xFFFF_F000, 31)
}

fn imm_j(raw: u32) -> (r: i64)
    ensures
        r == imm_j_spec(raw),
{
    let imm = (bit(raw, 31) << 20) | (bits(raw, 12, 19) << 12) | (bit(raw, 20) << 11) | (bits(raw, 21, 30) << 1);
    proof {
        assert(((bit_of(raw, 31) << 20u32) | (field(raw, 12, 19) << 12u32) | (bit_of(raw, 20) << 11u32)
            | (field(raw, 21, 30) << 1u32)) < (1u32 << 21u32)) by (bit_vector);
    }
    sign_ext(imm, 20)
}

/// Register fields, shift amounts, CSR numbers and CSR immediates extracted from any word
/// are in range, so every decoded instruction is well formed.
pub proof fn lemma_decode_wf(raw: u32)
    ensures
        decode_spec(raw).wf(),
{
    assert(field(raw, 7, 11) < 32 && field(raw, 15, 19) < 32 && field(raw, 20, 24) < 32
        && field(raw, 20, 25) < 64 && field(raw, 20, 31) < 4096) by (bit_vector);
}

/// The bit patterns behind the immediates and register fields.
proof fn lemma_field_bits(raw: u32)
    by (bit_vector)
    ensures
        field(raw, 20, 31) < 4096 && (bit_of(field(raw, 20, 31), 11) == 1 <==> field(raw, 20, 31) >= 2048),
        ((field(raw, 25, 31) << 5u32) | field(raw, 7, 11)) < 4096 && (bit_of((field(raw, 25, 31) << 5u32) | field(raw, 7, 11), 11) == 1
            <==> ((field(raw, 25, 31) << 5u32) | field(raw, 7, 11)) >= 2048),
        ({
            let v = (bit_of(raw, 31) << 12u32) | (bit_of(raw, 7) << 11u32) | (field(raw, 25, 30) << 5u32) | (field(raw, 8, 11) << 1u32);
            v < 8192 && v % 2 == 0 && (bit_of(v, 12) == 1 <==> v >= 4096)
        }),
        ({
            let v = (bit_of(raw, 31) << 20u32) | (field(raw, 12, 19) << 12u32) | (bit_of(raw, 20) << 11u32) | (field(raw, 21, 30) << 1u32);
            v < 0x20_0000 && v % 2 == 0 && (bit_of(v, 20) == 1 <==> v >= 0x10_0000)
        }),
        (raw & 0xFFFF_F000) % 4096 == 0 && (bit_of(raw & 0xFFFF_F000, 31) == 1 <==> (raw & 0xFFFF_F000) >= 0x8000_0000),
        field(raw, 7, 11) == (raw >> 7u32) & 31 && (raw >> 7u32) & 31 < 32,
        field(raw, 15, 19) == (raw >> 15u32) & 31 && (raw >> 15u32) & 31 < 32,
        field(raw, 20, 24) == (raw >> 20u32) & 31 && (raw >> 20u32) & 31 < 32,
        field(raw, 20, 31) == raw >> 20u32,
{
}

/// The decoder's fields and immediates: register fields are bits 11..7, 19..15 and 24..20,
/// and every decoded instruction takes its registers, CSR number and CSR immediate from
/// them; shift amounts are below 64 (32 for the W forms); the CSR number is bits 31..20; I- and S-type immediates lie in [-2048, 2047]; B-type ones
/// are even and lie in [-4096, 4094]; J-type ones are even and lie in [-2^20, 2^20 - 2];
/// U-type ones are multiples of 4096; and a word that decodes to nothing is kept whole.
pub proof fn lemma_decode_fields(raw: u32)
    ensures
        rd_of(raw) == (raw >> 7u32) & 31,
        rs1_of(raw) == (raw >> 15u32) & 31,
        rs2_of(raw) == (raw >> 20u32) & 31,
        csr_of(raw) == raw >> 20u32,
        -2048 <= imm_i_spec(raw) <= 2047,
        -2048 <= imm_s_spec(raw) <= 2047,
        -4096 <= imm_b_spec(raw) <= 4094 && imm_b_spec(raw) % 2 == 0,
        -0x10_0000 <= imm_j_spec(raw) <= 0xF_FFFE && imm_j_spec(raw) % 2 == 0,
        imm_u_spec(raw) % 4096 == 0,
        decode_spec(raw) matches Inst::Illegal(x) ==> x == raw,
        decode_spec(raw).fields_from(raw),
        decode_spec(raw).wf(),
{
    lemma_decode_wf(raw);
    lemma_field_bits(raw);
    lemma2_to64();
}

/// Decodes a raw 32-bit instruction word.
pub fn decode(raw: u32) -> (r: Inst)
    ensures
        r == decode_spec(raw),
        r.wf(),
{
    proof {
        lemma_decode_wf(raw);
    }
    let opcode = raw & 0x7F;
    let rd = bits(raw, 7, 11) as u8;
    let rs1 = bits(raw, 15, 19) as u8;
    let rs2 = bits(raw, 20, 24) as u8;
    let funct3 = bits(raw, 12, 14);
    let funct7 = bits(raw, 25, 31);
    let csr = bits(raw, 20, 31) as u16;

    if opcode == 0x37 {
        Inst::Lui { rd, imm: imm_u(raw) }  // load upper immediate
    } else if opcode == 0x17 {
        Inst::Auipc { rd, imm: imm_u(raw) }  // add upper immediate to pc
    } else if opcode == 0x6F {
        Inst::Jal { rd, imm: imm_j(raw) }  // jump and link
    } else if opcode == 0x67 {
        Inst::Jalr { rd, rs1, imm: imm_i(raw) }  // jump and link register
    } else if opcode == 0x63 {
        // branches: compare rs1, rs2 and jump by imm if true
        let imm = imm_b(raw);
        match funct3 {
            0x0 => Inst::Beq { rs1, rs2, imm },
            0x1 => Inst::Bne { rs1, rs2, imm },
            0x4 => Inst::Blt { rs1, rs2, imm },
            0x5 => Inst::Bge { rs1, rs2, imm },
            0x6 => Inst::Bltu { rs1, rs2, imm },
            0x7 => Inst::Bgeu { rs1, rs2, imm },
            _ => Inst::Illegal(raw),
        }
    } else if opcode == 0x03 {
        // loads: rd = mem[rs1 + imm], funct3 = width + signedness
        let imm = imm_i(raw);
        match funct3 {
            0x0 => Inst::Lb { rd, rs1, imm },
            0x1 => Inst::Lh { rd, rs1, imm },
            0x2 => Inst::Lw { rd, rs1, imm },
            0x3 => Inst::Ld { rd, rs1, imm },
            0x4 => Inst::Lbu { rd, rs1, imm },
            0x5 => Inst::Lhu { rd, rs1, imm },
            0x6 => Inst::Lwu { rd, rs1, imm },
            _ => Inst::Illegal(raw),
        }
    } else if opcode == 0x23 {
        // stores: mem[rs1 + imm] = rs2, funct3 = width
        let imm = imm_s(raw);
        match funct3 {
            0x0 => Inst::Sb { rs1, rs2, imm },
            0x1 => Inst::Sh { rs1, rs2, imm },
            0x2 => Inst::Sw { rs1, rs2, imm },
            0x3 => Inst::Sd { rs1, rs2, imm },
            _ => Inst::Illegal(raw),
        }
    } else if opcode == 0x13 {
        // immediate ALU ops: rd = rs1 OP imm
        let shamt = bits(raw, 20, 25) as u8;
        let imm = imm_i(raw);
        match funct3 {
            0x0 => Inst::Addi { rd, rs1, imm },
            0x2 => Inst::Slti { rd, rs1, imm },
            0x3 => Inst::Sltiu { rd, rs1, imm },
            0x4 => Inst::Xori { rd, rs1, imm },
            0x6 => Inst::Ori { rd, rs1, imm },
            0x7 => Inst::Andi { rd, rs1, imm },
            0x1 => Inst::Slli { rd, rs1, shamt },
            0x5 => if funct7 >> 1 == 0x10 {
                Inst::Srai { rd, rs1, shamt }  // arithmetic (sign-fill)
            } else {
                Inst::Srli { rd, rs1, shamt }  // logical (zero-fill)
            },
            _ => Inst::Illegal(raw),
        }
    } else if opcode == 0x33 {
        // register ALU ops: rd = rs1 OP rs2
        match (funct7, funct3) {
            (0x00, 0x0) => Inst::Add { rd, rs1, rs2 },
            (0x20, 0x0) => Inst::Sub { rd, rs1, rs2 },
            (0x00, 0x1) => Inst::Sll { rd, rs1, rs2 },
            (0x00, 0x2) => Inst::Slt { rd, rs1, rs2 },
            (0x00, 0x3) => Inst::Sltu { rd, rs1, rs2 },
            (0x00, 0x4) => Inst::Xor { rd, rs1, rs2 },
            (0x00, 0x5) => Inst::Srl { rd, rs1, rs2 },
            (0x20, 0x5) => Inst::Sra { rd, rs1, rs2 },
            (0x00, 0x6) => Inst::Or { rd, rs1, rs2 },
            (0x00, 0x7) => Inst::And { rd, rs1, rs2 },
            // M extension (funct7 = 0x01): multiply/divide
            (0x01, 0x0) => Inst::Mul { rd, rs1, rs2 },
            (0x01, 0x1) => Inst::Mulh { rd, rs1, rs2 },
            (0x01, 0x2) => Inst::Mulhsu { rd, rs1, rs2 },
            (0x01, 0x3) => Inst::Mulhu { rd, rs1, rs2 },
            (0x01, 0x4) => Inst::Div { rd, rs1, rs2 },
            (0x01, 0x5) => Inst::Divu { rd, rs1, rs2 },
            (0x01, 0x6) => Inst::Rem { rd, rs1, rs2 },
            (0x01, 0x7) => Inst::Remu { rd, rs1, rs2 },
            _ => Inst::Illegal(raw),
        }
    } else if opcode == 0x1B {
        // 32-bit immediate ALU ops (RV64 only), result sign-extended to 64 bits
        let shamt = bits(raw, 20, 24) as u8;
        match funct3 {
            0x0 => Inst::Addiw { rd, rs1, imm: imm_i(raw) },
            0x1 => Inst::Slliw { rd, rs1, shamt },
            0x5 => if funct7 == 0x20 {
                Inst::Sraiw { rd, rs1, shamt }
            } else {
                Inst::Srliw { rd, rs1, shamt }
            },
            _ => Inst::Illegal(raw),
        }
    } else if opcode == 0x3B {
        // 32-bit register ALU ops (RV64 only)
        match (funct7, funct3) {
            (0x00, 0x0) => Inst::Addw { rd, rs1, rs2 },
            (0x20, 0x0) => Inst::Subw { rd, rs1, rs2 },
            (0x00, 0x1) => Inst::Sllw { rd, rs1, rs2 },
            (0x00, 0x5) => Inst::Srlw { rd, rs1, rs2 },
            (0x20, 0x5) => Inst::Sraw { rd, rs1, rs2 },
            (0x01, 0x0) => Inst::Mulw { rd, rs1, rs2 },
            (0x01, 0x4) => Inst::Divw { rd, rs1, rs2 },
            (0x01, 0x5) => Inst::Divuw { rd, rs1, rs2 },
            (0x01, 0x6) => Inst::Remw { rd, rs1, rs2 },
            (0x01, 0x7) => Inst::Remuw { rd, rs1, rs2 },
            _ => Inst::Illegal(raw),
        }
    } else if opcode == 0x2F {
        let funct5 = bits(raw, 27, 31);
        let aq = bit(raw, 26) != 0;
        let rl = bit(raw, 25) != 0;
        match (funct5, funct3) {
            (0x00, 0x2) => Inst::AmoaddW { rd, rs1, rs2, aq, rl },
            (0x01, 0x2) => Inst::AmoswapW { rd, rs1, rs2, aq, rl },
            (0x02, 0x2) => Inst::LrW { rd, rs1, aq, rl },
            (0x03, 0x2) => Inst::ScW { rd, rs1, rs2, aq, rl },
            (0x02, 0x3) => Inst::LrD { rd, rs1, aq, rl },
            (0x03, 0x3) => Inst::ScD { rd, rs1, rs2, aq, rl },
            _ => Inst::Illegal(raw),
        }
    } else if opcode == 0x73 {
        // system instructions
        match funct3 {
            // funct3 = 0: match the full word, since ecall/ebreak/mret share opcode and funct3
            0x0 => if raw == 0x0000_0073 {
                Inst::Ecall
            } else if raw == 0x0010_0073 {
                Inst::Ebreak
            } else if raw == 0x1020_0073 {
                Inst::Sret  // return from supervisor trap
            } else if raw == 0x1050_0073 {
                Inst::Fence  // wfi: wait for interrupt, a no-op on a single core
            } else if raw == 0x3020_0073 {
                Inst::Mret  // return from machine-mode trap
            } else if raw & 0xFE00_7FFF == 0x1200_0073 {
                Inst::Fence  // sfence.vma
            } else {
                Inst::Illegal(raw)
            },
            // CSR instructions: read the old value into rd, then write/set/clear with rs1
            0x1 => Inst::Csrrw { rd, rs1, csr },
            0x2 => Inst::Csrrs { rd, rs1, csr },
            0x3 => Inst::Csrrc { rd, rs1, csr },
            0x5 => Inst::Csrrwi { rd, uimm: rs1, csr },
            0x6 => Inst::Csrrsi { rd, uimm: rs1, csr },
            0x7 => Inst::Csrrci { rd, uimm: rs1, csr },
            _ => Inst::Illegal(raw),
        }
    } else if opcode == 0x0F {
        Inst::Fence  // memory ordering: a no-op on a single core
    } else {
        Inst::Illegal(raw)
    }
}

} // verus!
