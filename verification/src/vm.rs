//! Bringing a machine up and driving it: loading a program, booting a kernel in S-mode, and
//! the tick that services environment calls between instructions.
use vstd::prelude::*;
use vstd::string::StringSliceAdditionalSpecFns;
use std::collections::HashSet;
use crate::bus::{Bus, BusView, DRAM_END};
use crate::cpu::csr::{
    CsrView, Privilege, CSR_CYCLE, CSR_INSTRET, CSR_MEPC, CSR_MSTATUS, MIP_MTIP, MIP_SEIP, MIP_SSIP, MIP_STIP,
    MSTATUS_SIE, MSTATUS_SPIE, MSTATUS_SPP,
};
use crate::cpu::{step_spec, Cpu, CpuView, StepResult};
use crate::dtb::{fdt_blob, generate_dtb, machine_fdt};
use crate::memory::{
    copy_bytes, copy_to_vec, dram_image, min_len, rd16, rd16_at, rd32, rd32_at, rd64, rd64_at, DRAM_BASE, DRAM_SIZE,
};
use crate::sbi::{handle_sbi, sbi_spec, SBI_SHUTDOWN};
use crate::traps::TrapCause;

verus! {

broadcast use crate::cpu::csr::lemma_csr_file_wf;

/// Where an S-mode kernel is loaded and entered.
pub const KERNEL_BASE: u64 = 0x8020_0000;
/// Where the device tree is placed for the kernel (inside DRAM).
pub const DTB_ADDR: u64 = 0x8600_0000;
/// The Linux `exit` system-call number: an M-mode environment call with it in a7 halts.
pub const SYS_EXIT: u64 = 93;

/// ELF64 program-header type of a loadable segment.
pub const PT_LOAD: u32 = 1;
/// ELF machine number of RISC-V.
pub const EM_RISCV: u16 = 0xF3;

/// The zero-filled DRAM buffer segments are loaded into.
pub open spec fn zero_dram() -> Seq<u8> {
    Seq::new(DRAM_SIZE as nat, |i: int| 0u8)
}

/// Whether `b` starts with the header of a 64-bit little-endian RISC-V ELF file.
pub open spec fn elf_header_ok(b: Seq<u8>) -> bool {
    &&& b.len() >= 64
    &&& b[0] == 0x7f && b[1] == 0x45 && b[2] == 0x4C && b[3] == 0x46
    &&& b[4] == 2  // 64-bit
    &&& b[5] == 1  // little endian
    &&& b[6] == 1  // ELF version 1
    &&& rd16(b, 18) == EM_RISCV
}

/// Loading program headers `k..phnum` (each `phentsize` bytes, the table at `phoff`) into
/// `flat`: each PT_LOAD segment whose memory image lies in DRAM has its file bytes copied to
/// its physical address; segments outside DRAM are skipped. `None` where a header or a
/// segment's file bytes lie outside the file.
pub open spec fn load_segments(b: Seq<u8>, phoff: u64, phentsize: u64, phnum: u64, k: u64, flat: Seq<u8>) -> Option<Seq<u8>>
    decreases phnum - k,
{
    if k >= phnum {
        Some(flat)
    } else {
        let off = phoff + k * phentsize;
        if off + 4 > b.len() {
            None
        } else if rd32(b, off) != PT_LOAD {
            load_segments(b, phoff, phentsize, phnum, (k + 1) as u64, flat)
        } else if off + 0x30 > b.len() {
            None
        } else {
            let p_offset = rd64(b, off + 0x08);
            let paddr = rd64(b, off + 0x18);
            let filesz = rd64(b, off + 0x20);
            let memsz = rd64(b, off + 0x28);
            if paddr < DRAM_BASE || paddr + memsz > DRAM_END || paddr + filesz > DRAM_END {
                load_segments(b, phoff, phentsize, phnum, (k + 1) as u64, flat)
            } else if p_offset + filesz > b.len() {
                None
            } else {
                load_segments(
                    b,
                    phoff,
                    phentsize,
                    phnum,
                    (k + 1) as u64,
                    copy_bytes(flat, paddr - DRAM_BASE, b, p_offset as int, filesz as int),
                )
            }
        }
    }
}

/// The DRAM image and entry point of the ELF file `b`, or `None` where `b` is not a
/// well-formed 64-bit little-endian RISC-V ELF file.
pub open spec fn elf_image(b: Seq<u8>) -> Option<(Seq<u8>, u64)> {
    if !elf_header_ok(b) {
        None
    } else {
        match load_segments(b, rd64(b, 32), rd16(b, 54) as u64, rd16(b, 56) as u64, 0, zero_dram()) {
            Some(flat) => Some((flat, rd64(b, 24))),
            None => None,
        }
    }
}

/// Parses a 64-bit little-endian RISC-V ELF file and flattens its loadable segments into a
/// DRAM-sized buffer; returns the buffer and the entry point.
pub fn load_elf(bytes: &[u8]) -> (r: Option<(Vec<u8>, u64)>)
    ensures
        match r {
            Some((flat, entry)) => elf_image(bytes@) == Some((flat@, entry)),
            None => elf_image(bytes@) is None,
        },
{
    let len = bytes.len();
    if len < 64 {
        return None;
    }
    if bytes[0] != 0x7f || bytes[1] != 0x45 || bytes[2] != 0x4C || bytes[3] != 0x46 {
        return None;
    }
    if bytes[4] != 2 || bytes[5] != 1 || bytes[6] != 1 {
        return None;
    }
    if rd16_at(bytes, 18) != EM_RISCV {
        return None;
    }
    let entry = rd64_at(bytes, 24);
    let phoff = rd64_at(bytes, 32);
    let phentsize = rd16_at(bytes, 54) as u64;
    let phnum = rd16_at(bytes, 56) as u64;
    let mut flat: Vec<u8> = vec![0u8; DRAM_SIZE as usize];
    let ghost b = bytes@;
    let ghost target = load_segments(b, phoff, phentsize, phnum, 0, zero_dram());
    assert(flat@ =~= zero_dram());
    let mut idx: u64 = 0;
    while idx < phnum
        invariant
            b == bytes@,
            len == b.len(),
            len >= 64,
            phnum < 0x1_0000,
            phentsize < 0x1_0000,
            idx <= phnum,
            flat@.len() == DRAM_SIZE,
            load_segments(b, phoff, phentsize, phnum, idx, flat@) == target,
            elf_header_ok(b),
            phoff == rd64(b, 32),
            phentsize == rd16(b, 54),
            phnum == rd16(b, 56),
            entry == rd64(b, 24),
            target == load_segments(b, rd64(b, 32), rd16(b, 54) as u64, rd16(b, 56) as u64, 0, zero_dram()),
        decreases phnum - idx,
    {
        assert(idx * phentsize < 0x1_0000_0000) by (nonlinear_arith)
            requires
                idx < 0x1_0000,
                phentsize < 0x1_0000,
        ;
        let rel = idx * phentsize;
        let off = match phoff.checked_add(rel) {
            Some(o) => o,
            None => return None,
        };
        if off > (len - 4) as u64 {
            return None;
        }
        let o = off as usize;
        if rd32_at(bytes, o) != PT_LOAD {
            idx = idx + 1;
            continue;
        }
        if off > (len - 0x30) as u64 {
            return None;
        }
        let p_offset = rd64_at(bytes, o + 0x08);
        let paddr = rd64_at(bytes, o + 0x18);
        let filesz = rd64_at(bytes, o + 0x20);
        let memsz = rd64_at(bytes, o + 0x28);
        if paddr < DRAM_BASE || paddr > DRAM_END || memsz > DRAM_END - paddr || filesz > DRAM_END - paddr {
            idx = idx + 1;
            continue;
        }
        if p_offset > len as u64 || filesz > len as u64 - p_offset {
            return None;
        }
        copy_to_vec(&mut flat, (paddr - DRAM_BASE) as usize, bytes, p_offset as usize, filesz as usize);
        idx = idx + 1;
    }
    Some((flat, entry))
}

/// The DRAM image a file is loaded as: its ELF image if it is an ELF file, otherwise the
/// file itself at DRAM_BASE.
pub open spec fn file_image(b: Seq<u8>) -> Seq<u8> {
    match elf_image(b) {
        Some((flat, _)) => dram_image(flat),
        None => dram_image(b),
    }
}

/// Where execution of a loaded file starts: the ELF entry point, or DRAM_BASE.
pub open spec fn file_entry(b: Seq<u8>) -> u64 {
    match elf_image(b) {
        Some((_, e)) => e,
        None => DRAM_BASE,
    }
}

/// A machine bus with `bytes` loaded (as ELF if it parses as one, otherwise as a flat
/// binary at DRAM_BASE), and the entry point.
pub fn load_file(bytes: &[u8]) -> (r: (Bus, u64))
    ensures
        r.0.wf(),
        r.0@.dram == file_image(bytes@),
        Bus::devices_reset(r.0@),
        r.1 == file_entry(bytes@),
{
    match load_elf(bytes) {
        Some((flat, entry)) => (Bus::from_dram(flat), entry),
        None => (Bus::new(bytes), DRAM_BASE),
    }
}

// ===== S-mode demo kernel =====

/// The little-endian bytes of an instruction word.
pub open spec fn le_word(w: u32) -> Seq<u8> {
    seq![w as u8, (w >> 8u32) as u8, (w >> 16u32) as u8, (w >> 24u32) as u8]
}

/// `addi rd, x0, imm` for a 12-bit immediate.
pub open spec fn li_word(rd: u32, imm: u32) -> u32 {
    (imm << 20u32) | (rd << 7u32) | 0x13
}

/// The `ecall` instruction.
pub const ECALL_WORD: u32 = 0x0000_0073;

/// For each byte of `msg`: `li a0, byte; li a7, 1; ecall` (SBI console putchar).
pub open spec fn putchar_code(msg: Seq<u8>) -> Seq<u8>
    decreases msg.len(),
{
    if msg.len() == 0 {
        Seq::empty()
    } else {
        putchar_code(msg.drop_last()) + le_word(li_word(10, msg.last() as u32)) + le_word(li_word(17, 1))
            + le_word(ECALL_WORD)
    }
}

/// The message the demo kernel prints.
pub open spec fn demo_message() -> Seq<u8> {
    "Hello from S-mode!\n".spec_bytes()
}

/// The demo kernel: prints `demo_message()` through SBI putchar calls, then shuts down
/// (`li a7, 8; ecall`).
pub open spec fn smode_demo() -> Seq<u8> {
    putchar_code(demo_message()) + le_word(li_word(17, SBI_SHUTDOWN as u32)) + le_word(ECALL_WORD)
}

fn word_le(w: u32) -> (r: [u8; 4])
    ensures
        r@ == le_word(w),
{
    let r = [w as u8, (w >> 8) as u8, (w >> 16) as u8, (w >> 24) as u8];
    assert(r@ =~= le_word(w));
    r
}

fn push_word(code: &mut Vec<u8>, w: u32)
    ensures
        final(code)@ == old(code)@ + le_word(w),
{
    let b = word_le(w);
    code.push(b[0]);
    code.push(b[1]);
    code.push(b[2]);
    code.push(b[3]);
    assert(code@ =~= old(code)@ + le_word(w));
}

/// The machine code of a tiny S-mode kernel that prints a greeting through the SBI console
/// and shuts the machine down.
pub fn build_smode_demo() -> (code: Vec<u8>)
    ensures
        code@ == smode_demo(),
{
    let mut code: Vec<u8> = Vec::new();
    let msg = "Hello from S-mode!\n".as_bytes();
    let mut k: usize = 0;
    while k < msg.len()
        invariant
            k <= msg@.len(),
            msg@ == demo_message(),
            code@ == putchar_code(msg@.subrange(0, k as int)),
        decreases msg@.len() - k,
    {
        let imm = msg[k] as u32;
        push_word(&mut code, (imm << 20) | (10 << 7) | 0x13); // li a0, ch
        push_word(&mut code, (1 << 20) | (17 << 7) | 0x13); // li a7, 1 (SBI putchar)
        push_word(&mut code, ECALL_WORD);
        assert(msg@.subrange(0, k + 1).drop_last() =~= msg@.subrange(0, k as int));
        k = k + 1;
    }
    assert(msg@.subrange(0, msg@.len() as int) =~= msg@);
    push_word(&mut code, ((SBI_SHUTDOWN as u32) << 20) | (17 << 7) | 0x13); // li a7, 8
    push_word(&mut code, ECALL_WORD);
    code
}

// ===== Device tree placement and S-mode boot =====

/// DRAM after the device tree is copied to `addr`, cut at the end of DRAM.
pub open spec fn with_dtb(dram: Seq<u8>, addr: u64) -> Seq<u8> {
    let blob = fdt_blob(machine_fdt());
    copy_bytes(dram, addr - DRAM_BASE, blob, 0, min_len(blob.len(), (DRAM_BASE + DRAM_SIZE - addr) as nat) as int)
}

/// Copies the machine's device tree into DRAM at `addr` (as much as fits).
pub fn write_dtb(bus: &mut Bus, addr: u64)
    requires
        old(bus).wf(),
        DRAM_BASE <= addr <= DRAM_BASE + DRAM_SIZE,
    ensures
        final(bus).wf(),
        final(bus)@ == (BusView { dram: with_dtb(old(bus)@.dram, addr), ..old(bus)@ }),
{
    let dtb = generate_dtb();
    bus.dram.write_bytes((addr - DRAM_BASE) as usize, dtb.as_slice());
}

/// The hart and bus after booting a kernel at `entry` in S-mode: the device tree is placed at
/// DTB_ADDR, a0 holds the hart id (0) and a1 the device tree's address, mstatus has SPP, SPIE
/// and SIE cleared, mepc holds the entry, and the hart runs in S-mode from the entry.
pub open spec fn boot_spec(c: CpuView, b: BusView, entry: u64) -> (CpuView, BusView) {
    let ms = c.csr.reg(CSR_MSTATUS) & !(MSTATUS_SPP | MSTATUS_SPIE | MSTATUS_SIE);
    (
        CpuView {
            regs: c.regs.update(10, 0).update(11, DTB_ADDR),
            csr: c.csr.write(CSR_MSTATUS, ms, Privilege::M).write(CSR_MEPC, entry, Privilege::M),
            priv_level: Privilege::S,
            pc: entry,
            ..c
        },
        BusView { dram: with_dtb(b.dram, DTB_ADDR), ..b },
    )
}

/// Prepares the machine to run a kernel at `entry` in S-mode.
pub fn boot_smode(cpu: &mut Cpu, bus: &mut Bus, entry: u64)
    requires
        old(bus).wf(),
    ensures
        final(bus).wf(),
        (final(cpu)@, final(bus)@) == boot_spec(old(cpu)@, old(bus)@, entry),
{
    write_dtb(bus, DTB_ADDR);
    cpu.regs[10] = 0; // a0 = hart id
    cpu.regs[11] = DTB_ADDR; // a1 = device tree
    let ms = cpu.csr.mstatus() & !(MSTATUS_SPP | MSTATUS_SPIE | MSTATUS_SIE);
    cpu.csr.write(CSR_MSTATUS, ms, Privilege::M);
    cpu.csr.write(CSR_MEPC, entry, Privilege::M);
    cpu.priv_level = Privilege::S;
    cpu.pc = entry;
    assert(cpu@.regs =~= old(cpu)@.regs.update(10, 0).update(11, DTB_ADDR));
}

// ===== The machine tick =====

/// The hart with its interrupt-pending lines driven by the devices: MTIP from the CLINT
/// timer, STIP from the Sstc timer (when enabled), SEIP from the PLIC; SSIP is cleared, as
/// the CLINT raises no software interrupt.
pub open spec fn wire_interrupts(c: CpuView, b: BusView) -> CpuView {
    let c1 = c.csr.with_mip_bit(MIP_MTIP, b.clint.mtime >= b.clint.mtimecmp);
    let c2 = c1.with_mip_bit(MIP_STIP, c1.sstc_enabled() && b.clint.mtime >= c1.s_timer_compare);
    let c3 = c2.with_mip_bit(MIP_SEIP, b.plic.spec_has_pending());
    CpuView { csr: c3.with_mip_bit(MIP_SSIP, false), ..c }
}

/// One tick of the machine: the interrupt lines are driven, the hart steps, and environment
/// calls are serviced: from M-mode, `exit` (a7 = 93) halts and anything else is skipped; from
/// S-mode, the SBI call in a7 is served, its result goes to a0, and the call is skipped
/// unless it halts the machine.
#[verifier::opaque]
pub open spec fn tick_spec(c: CpuView, b: BusView) -> (CpuView, BusView, StepResult) {
    let (c2, b2, r) = step_spec(wire_interrupts(c, b), b);
    match r {
        StepResult::Trap(TrapCause::EcallFromM) => if c2.regs[17] == SYS_EXIT {
            (c2, b2, StepResult::Halted)
        } else {
            (CpuView { pc: c2.pc.wrapping_add(4), ..c2 }, b2, r)
        },
        StepResult::Trap(TrapCause::EcallFromS) => {
            let (res, b3) = sbi_spec(c2.regs[17], c2.regs[10], c2.regs[11], c2.regs[12], c2.regs[16], b2);
            let c3 = CpuView { regs: c2.regs.update(10, res.a0), ..c2 };
            if res.halt {
                (c3, b3, StepResult::Halted)
            } else {
                (CpuView { pc: c3.pc.wrapping_add(4), ..c3 }, b3, r)
            }
        },
        _ => (c2, b2, r),
    }
}

/// Neither counter is at its maximum, so the next step can count.
pub open spec fn counters_ok(c: CpuView) -> bool {
    c.csr.reg(CSR_CYCLE) < u64::MAX && c.csr.reg(CSR_INSTRET) < u64::MAX
}

/// Runs one tick of the machine.
pub fn vm_tick(cpu: &mut Cpu, bus: &mut Bus) -> (r: StepResult)
    requires
        old(bus).wf(),
        counters_ok(old(cpu)@),
    ensures
        final(bus).wf(),
        (final(cpu)@, final(bus)@, r) == tick_spec(old(cpu)@, old(bus)@),
{
    reveal(tick_spec);
    if bus.clint.timer_pending() {
        cpu.csr.set_mip_timer();
    } else {
        cpu.csr.clear_mip_timer();
    }
    // Sstc: time >= stimecmp raises the supervisor timer interrupt.
    if cpu.csr.sstc_enabled() && bus.clint.mtime >= cpu.csr.stimecmp() {
        cpu.csr.set_mip_stimer();
    } else {
        cpu.csr.clear_mip_stimer();
    }
    // PLIC: supervisor external interrupt.
    if bus.plic.has_pending() {
        cpu.csr.set_mip_seip();
    } else {
        cpu.csr.clear_mip_seip();
    }
    cpu.csr.clear_mip_ssip();

    let result_step = cpu.step(bus);
    match result_step {
        StepResult::Trap(TrapCause::EcallFromM) => {
            if cpu.regs[17] == SYS_EXIT {
                return StepResult::Halted;
            }
            cpu.pc = cpu.pc.wrapping_add(4);
        },
        StepResult::Trap(TrapCause::EcallFromS) => {
            let a7 = cpu.regs[17];
            let a0 = cpu.regs[10];
            let a1 = cpu.regs[11];
            let a2 = cpu.regs[12];
            let a6 = cpu.regs[16];
            let res = handle_sbi(a7, a0, a1, a2, a6, bus);
            cpu.regs[10] = res.a0;
            if res.halt {
                return StepResult::Halted;
            }
            cpu.pc = cpu.pc.wrapping_add(4);
        },
        _ => {},
    }
    result_step
}

/// Up to `n` ticks from `(c, b)`, stopping early when a tick does not report `Continue` (its
/// result is returned) or when the pc reaches a breakpoint in `bps` (`Continue` is
/// returned). `None` where a counter would overflow on the way.
pub open spec fn run_spec(c: CpuView, b: BusView, bps: Set<u64>, n: nat) -> Option<(CpuView, BusView, StepResult)>
    decreases n,
{
    if n == 0 {
        Some((c, b, StepResult::Continue))
    } else if !counters_ok(c) {
        None
    } else {
        let (c2, b2, r) = tick_spec(c, b);
        if r != StepResult::Continue {
            Some((c2, b2, r))
        } else if bps.contains(c2.pc) {
            Some((c2, b2, StepResult::Continue))
        } else {
            run_spec(c2, b2, bps, (n - 1) as nat)
        }
    }
}

/// Runs up to `number` ticks (without limit when `None`), stopping at a breakpoint or as soon
/// as a tick reports something other than `Continue`.
pub fn run_until(cpu: &mut Cpu, bus: &mut Bus, bps: &HashSet<u64>, number: Option<u64>) -> (r: StepResult)
    requires
        old(bus).wf(),
        run_spec(old(cpu)@, old(bus)@, bps@, number.unwrap_or(u64::MAX) as nat) is Some,
    ensures
        final(bus).wf(),
        (final(cpu)@, final(bus)@, r) == run_spec(old(cpu)@, old(bus)@, bps@, number.unwrap_or(u64::MAX) as nat)->0,
{
    broadcast use vstd::std_specs::hash::group_hash_axioms;

    let max = match number {
        Some(n) => n,
        None => u64::MAX,
    };
    let ghost target = run_spec(cpu@, bus@, bps@, max as nat);
    let mut i: u64 = 0;
    while i < max
        invariant
            bus.wf(),
            i <= max,
            target is Some,
            target == run_spec(old(cpu)@, old(bus)@, bps@, max as nat),
            max == number.unwrap_or(u64::MAX),
            run_spec(cpu@, bus@, bps@, (max - i) as nat) == target,
        decreases max - i,
    {
        let r = vm_tick(cpu, bus);
        if r != StepResult::Continue {
            return r;
        }
        if bps.contains(&cpu.pc) {
            return StepResult::Continue;
        }
        i = i + 1;
    }
    StepResult::Continue
}

} // verus!
