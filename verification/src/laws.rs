//! Properties of the machine that span several operations: what a load gives back of a store,
//! what a trap return undoes, what every step keeps.
use vstd::prelude::*;
use crate::bus::{in_clint, in_dram, in_plic, in_uart, BusView, CLINT_BASE};
use crate::cpu::csr::{
    csr_op_result, CsrOp, CsrView, Privilege, CSR_CYCLE, CSR_MIDELEG, CSR_SATP, CSR_MIE, CSR_MSTATUS, CSR_SIE, CSR_SSTATUS, MIP_SEIP, MIP_SSIP, MIP_STIP,
    MSTATUS_MIE, MSTATUS_SIE, SSTATUS_MASK,
};
use crate::cpu::decoder::{decode_spec, lemma_decode_wf, Inst};
use crate::cpu::executor::{exec_spec, leaf_check, leaf_pa, AccessType, PTE_R, PTE_U, PTE_W, PTE_X};
use crate::cpu::{bump, fetch_pa_spec, step_spec, take_s_trap_spec, take_trap_spec, CpuView, StepResult};
use crate::devices::timer::{MTIME_LO};
use crate::emulator::{emu_run_spec, EmulatorView};
use crate::memory::{dram_fits, lemma_mem_write_read, DRAM_SIZE};
use crate::memory::{dram_image, DRAM_BASE};
use crate::sbi::{
    sbi_spec, supported_extension, SbiResult, SBI_BASE_PROBE_EXT, SBI_CONSOLE_PUTCHAR, SBI_EXT_BASE, SBI_EXT_HSM, SBI_EXT_SRST,
    SBI_HSM_HART_STOP, SBI_SHUTDOWN, SBI_SRST_SYSTEM_RESET, SBI_SUCCESS,
};
use crate::traps::{interrupt_to_take, TrapCause};
use crate::uart::{UartView, OUT_CAPACITY, THR};
use crate::vm::{elf_header_ok, file_entry, file_image};
use crate::virtio::{
    VirtioView, VIRTIO_DEVICE_ID, VIRTIO_INTERRUPT_ACK, VIRTIO_INTERRUPT_STATUS, VIRTIO_MAGIC, VIRTIO_MAGIC_VALUE,
    VIRTIO_QUEUE_READY, VIRTIO_STATUS, VIRTIO_VERSION,
};

verus! {

// ===== Memory and bus =====

/// A store to DRAM succeeds, and a load of the same size at the same address gives back the
/// stored value.
pub proof fn lemma_dram_store_load(b: BusView, a: u64, v: u64)
    requires
        b.dram.len() == DRAM_SIZE,
        dram_fits(a, 8),
    ensures
        BusView::write64_result(a) == Ok::<(), TrapCause>(()),
        b.write64(a, v).read64(a) == Ok::<u64, TrapCause>(v),
        b.write32(a, v as u32).read32(a) == Ok::<u32, TrapCause>(v as u32),
        b.write8(a, v as u8).read8(a) == Ok::<u8, TrapCause>(v as u8),
{
    lemma_mem_write_read(b.dram, a, v);
    lemma_mem_write_read(b.dram, a, (v as u32) as u64);
    lemma_mem_write_read(b.dram, a, (v as u8) as u64);
    assert((((v as u32) as u64) as u32 == v as u32) &&
        (((v as u8) as u64) as u8 == v as u8)) by (bit_vector);
}

/// A doubleword store to DRAM leaves every doubleword it does not overlap unchanged.
pub proof fn lemma_dram_store_keeps_others(b: BusView, a: u64, c: u64, v: u64)
    requires
        b.dram.len() == DRAM_SIZE,
        dram_fits(a, 8),
        dram_fits(c, 8),
        c + 8 <= a || a + 8 <= c,
    ensures
        b.write64(a, v).read64(c) == b.read64(c),
{
    lemma_mem_write_read(b.dram, a, v);
    let d = b.write64(a, v).dram;
    let i = c - crate::memory::DRAM_BASE;
    assert(d[i] == b.dram[i] && d[i + 1] == b.dram[i + 1] && d[i + 2] == b.dram[i + 2]
        && d[i + 3] == b.dram[i + 3] && d[i + 4] == b.dram[i + 4] && d[i + 5] == b.dram[i + 5]
        && d[i + 6] == b.dram[i + 6] && d[i + 7] == b.dram[i + 7]);
}

/// An address that neither DRAM nor a device decodes faults on every load, and a store to it
/// fails and changes nothing.
pub proof fn lemma_unmapped_faults(b: BusView, a: u64, v: u64)
    requires
        !in_dram(a),
        !in_clint(a),
        !in_plic(a),
        !in_uart(a),
    ensures
        b.read8(a) == Err::<u8, TrapCause>(TrapCause::LoadAccessFault),
        b.read32(a) == Err::<u32, TrapCause>(TrapCause::LoadAccessFault),
        b.read64(a) == Err::<u64, TrapCause>(TrapCause::LoadAccessFault),
        b.write8(a, v as u8) == b,
        b.write32(a, v as u32) == b,
        b.write64(a, v) == b,
        BusView::store_result(BusView::store8_ok(a)) == Err::<(), TrapCause>(TrapCause::StoreAccessFault),
        BusView::write64_result(a) == Err::<(), TrapCause>(TrapCause::StoreAccessFault),
{
}

/// The CLINT's 64-bit registers read back what a 64-bit store wrote to them; the other one is
/// kept.
pub proof fn lemma_clint_store_load(b: BusView, v: u64)
    ensures
        b.write64((CLINT_BASE + 0x4000) as u64, v).read64((CLINT_BASE + 0x4000) as u64) == Ok::<u64, TrapCause>(v),
        b.write64((CLINT_BASE + 0x4000) as u64, v).clint.mtime == b.clint.mtime,
        b.write64((CLINT_BASE + MTIME_LO) as u64, v).read64((CLINT_BASE + MTIME_LO) as u64) == Ok::<u64, TrapCause>(v),
{
}

/// Each tick advances the timer by one (wrapping) and changes nothing else.
pub proof fn lemma_tick_advances_time(b: BusView)
    ensures
        b.tick().read64((CLINT_BASE + MTIME_LO) as u64) == Ok::<u64, TrapCause>(b.clint.mtime.wrapping_add(1)),
        b.tick().dram == b.dram,
        b.tick().plic == b.plic,
        b.tick().uart == b.uart,
{
}

// ===== CSRs =====

/// Replacing the bits of `old` under `mask` by those of `v`: the masked bits are `v`'s, the
/// others are `old`'s.
pub proof fn lemma_masked_merge(old: u64, v: u64, mask: u64)
    ensures
        ((old & !mask) | (v & mask)) & mask == v & mask,
        ((old & !mask) | (v & mask)) & !mask == old & !mask,
{
    assert(((old & !mask) | (v & mask)) & mask == v & mask && ((old & !mask) | (v & mask)) & !mask == old & !mask)
        by (bit_vector);
}

/// sstatus is a window on mstatus: reading it gives the masked mstatus, and writing it changes
/// exactly the masked bits of mstatus.
pub proof fn lemma_sstatus_window(c: CsrView, v: u64, p: Privilege)
    requires
        c.wf(),
    ensures
        c.read(CSR_SSTATUS, p) == c.read(CSR_MSTATUS, Privilege::M) & SSTATUS_MASK,
        c.write(CSR_SSTATUS, v, p).reg(CSR_MSTATUS) & SSTATUS_MASK == v & SSTATUS_MASK,
        c.write(CSR_SSTATUS, v, p).reg(CSR_MSTATUS) & !SSTATUS_MASK == c.reg(CSR_MSTATUS) & !SSTATUS_MASK,
{
    lemma_masked_merge(c.reg(CSR_MSTATUS), v, SSTATUS_MASK);
}

/// A write to sie reaches only the interrupt-enable bits that mideleg delegates to S-mode.
pub proof fn lemma_sie_writes_delegated_bits(c: CsrView, v: u64, p: Privilege)
    requires
        c.wf(),
    ensures
        ({
            let mask = c.reg(CSR_MIDELEG) & (MIP_SSIP | MIP_STIP | MIP_SEIP);
            &&& c.write(CSR_SIE, v, p).reg(CSR_MIE) & mask == v & mask
            &&& c.write(CSR_SIE, v, p).reg(CSR_MIE) & !mask == c.reg(CSR_MIE) & !mask
        }),
{
    lemma_masked_merge(c.reg(CSR_MIE), v, c.reg(CSR_MIDELEG) & (MIP_SSIP | MIP_STIP | MIP_SEIP));
}

// ===== Traps =====

proof fn lemma_m_trap_bits(ms: u64, pb: u64)
    requires
        pb < 4,
    ensures
        ({
            let t = (ms & !(0x8u64 | 0x80u64 | 0x1800u64)) | (((ms & 0x8u64) >> 3u64) << 7u64) | (pb << 11u64);
            &&& (t >> 11u64) & 3 == pb
            &&& ((t & !(0x8u64 | 0x1800u64 | 0x80u64)) | (((t >> 7u64) & 1) << 3u64) | (1u64 << 7u64)
                | (((t >> 11u64) & 3) << 11u64)) & 0x8u64 == ms & 0x8u64
        }),
{
    assert({
        let t = (ms & !(0x8u64 | 0x80u64 | 0x1800u64)) | (((ms & 0x8u64) >> 3u64) << 7u64) | (pb << 11u64);
        &&& (t >> 11u64) & 3 == pb
        &&& ((t & !(0x8u64 | 0x1800u64 | 0x80u64)) | (((t >> 7u64) & 1) << 3u64) | (1u64 << 7u64)
            | (((t >> 11u64) & 3) << 11u64)) & 0x8u64 == ms & 0x8u64
    }) by (bit_vector)
        requires
            pb < 4,
    ;
}

proof fn lemma_s_trap_bits(ms: u64, pb: u64)
    requires
        pb < 2,
    ensures
        ({
            let t = (ms & !(0x2u64 | 0x20u64 | 0x100u64)) | (((ms & 0x2u64) >> 1u64) << 5u64) | ((pb & 1) << 8u64);
            &&& (t >> 8u64) & 1 == pb
            &&& ((t & !(0x2u64 | 0x100u64 | 0x20u64)) | (((t >> 5u64) & 1) << 1u64) | (1u64 << 5u64)
                | (((t >> 8u64) & 1) << 8u64)) & 0x2u64 == ms & 0x2u64
        }),
{
    assert({
        let t = (ms & !(0x2u64 | 0x20u64 | 0x100u64)) | (((ms & 0x2u64) >> 1u64) << 5u64) | ((pb & 1) << 8u64);
        &&& (t >> 8u64) & 1 == pb
        &&& ((t & !(0x2u64 | 0x100u64 | 0x20u64)) | (((t >> 5u64) & 1) << 1u64) | (1u64 << 5u64)
            | (((t >> 8u64) & 1) << 8u64)) & 0x2u64 == ms & 0x2u64
    }) by (bit_vector)
        requires
            pb < 2,
    ;
}

/// `mret` undoes a trap into M-mode: after a trap taken at `c.pc`, executing `mret` in the
/// handler returns to `c.pc` at the privilege the trap came from, with mstatus.MIE as it was.
pub proof fn lemma_trap_then_mret(c: CpuView, cause: TrapCause, tval: u64, b: BusView)
    requires
        c.csr.wf(),
    ensures
        ({
            let t = take_trap_spec(c, cause, c.pc, tval);
            let o = exec_spec(Inst::Mret, t.pc, t.regs, t.csr, b, t.priv_level);
            &&& t.priv_level == Privilege::M
            &&& o.trap is None
            &&& o.next_pc == c.pc
            &&& o.new_priv == Some(c.priv_level)
            &&& o.csr.reg(CSR_MSTATUS) & MSTATUS_MIE == c.csr.reg(CSR_MSTATUS) & MSTATUS_MIE
        }),
{
    let ms = c.csr.reg(CSR_MSTATUS);
    lemma_m_trap_bits(ms, c.priv_level.spec_bits());
}

/// `sret` undoes a trap into S-mode taken from U- or S-mode: execution returns to `c.pc` at
/// the privilege the trap came from, with mstatus.SIE as it was.
pub proof fn lemma_s_trap_then_sret(c: CpuView, cause: TrapCause, tval: u64, b: BusView)
    requires
        c.csr.wf(),
        c.priv_level != Privilege::M,
    ensures
        ({
            let t = take_s_trap_spec(c, cause, c.pc, tval);
            let o = exec_spec(Inst::Sret, t.pc, t.regs, t.csr, b, t.priv_level);
            &&& t.priv_level == Privilege::S
            &&& o.trap is None
            &&& o.next_pc == c.pc
            &&& o.new_priv == Some(c.priv_level)
            &&& o.csr.reg(CSR_MSTATUS) & MSTATUS_SIE == c.csr.reg(CSR_MSTATUS) & MSTATUS_SIE
        }),
{
    let ms = c.csr.reg(CSR_MSTATUS);
    lemma_s_trap_bits(ms, c.priv_level.spec_bits());
}

/// No instruction writes x0: executing anything from a register file whose x0 is zero leaves
/// it zero.
pub proof fn lemma_exec_keeps_x0(inst: Inst, pc: u64, regs: Seq<u64>, csr: CsrView, bus: BusView, p: Privilege)
    requires
        regs.len() == 32,
        regs[0] == 0,
        inst.wf(),
    ensures
        exec_spec(inst, pc, regs, csr, bus, p).regs[0] == 0,
        exec_spec(inst, pc, regs, csr, bus, p).regs.len() == 32,
{
}

/// x0 always reads zero: a step from a state where it is zero keeps it zero.
#[verifier::rlimit(50)]
pub proof fn lemma_step_keeps_x0(c: CpuView, b: BusView)
    requires
        c.regs.len() == 32,
        c.regs[0] == 0,
    ensures
        step_spec(c, b).0.regs[0] == 0,
{
    if !c.halted {
        let bus1 = b.tick();
        let c1 = CpuView { csr: bump(c.csr, CSR_CYCLE), ..c };
        let pa = match fetch_pa_spec(c.pc, c.priv_level, bus1, c1.csr.read(CSR_SATP, Privilege::M)) {
            Ok(pa) => pa,
            Err(_) => c.pc,
        };
        if let Ok(raw) = bus1.read32(pa) {
            lemma_decode_wf(raw);
            lemma_exec_keeps_x0(decode_spec(raw), c.pc, c.regs, c1.csr, bus1, c.priv_level);
        }
    }
}

// ===== Steps =====

/// A halted hart stays halted: a step changes nothing and reports `Halted`.
pub proof fn lemma_halted_step(c: CpuView, b: BusView)
    requires
        c.halted,
    ensures
        step_spec(c, b) == (c, b, StepResult::Halted),
{
}

/// Running a halted machine changes nothing.
pub proof fn lemma_halted_run(e: EmulatorView, n: nat)
    requires
        e.cpu.halted,
    ensures
        emu_run_spec(e, n) == Some(e),
{
}

// ===== Virtio =====

/// The identification registers are constant: "virt", version 2, block device.
pub proof fn lemma_virtio_identity(v: VirtioView, offset: u64, value: u32)
    ensures
        v.write32(offset, value).read32(VIRTIO_MAGIC) == VIRTIO_MAGIC_VALUE,
        v.write32(offset, value).read32(VIRTIO_VERSION) == 2,
        v.write32(offset, value).read32(VIRTIO_DEVICE_ID) == 2,
{
}

/// The queue-ready and status registers read back what was written; acknowledging
/// interrupts clears exactly the acknowledged bits.
pub proof fn lemma_virtio_registers(v: VirtioView, x: u32)
    ensures
        v.write32(VIRTIO_QUEUE_READY, x).read32(VIRTIO_QUEUE_READY) == x,
        v.write32(VIRTIO_STATUS, x).read32(VIRTIO_STATUS) == x,
        v.write32(VIRTIO_INTERRUPT_ACK, x).read32(VIRTIO_INTERRUPT_STATUS) == v.interrupt_status & !x,
{
}

/// A notification to a queue that is not set up changes nothing; one to a live queue that is
/// served raises the used-buffer interrupt.
pub proof fn lemma_virtio_notify_interrupt(v: VirtioView, dram: Seq<u8>)
    ensures
        !v.queue_live() ==> v.notify(dram) == Some((v, dram)),
        v.queue_live() ==> match v.notify(dram) {
            Some((w, _)) => w.irq_pending && w.interrupt_status & 1 == 1,
            None => true,
        },
{
    lemma_low_bits();
}

/// Setting bit 0 sets it; a cleared line control register leaves the divisor latch closed.
proof fn lemma_low_bits()
    by (bit_vector)
    ensures
        forall|y: u32| #[trigger] (y | 1) & 1 == 1,
        0u8 & 0x80u8 == 0,
{
}

// ===== Console and firmware =====

/// A byte written to the transmit register (divisor latch closed, room in the buffer, not a
/// carriage return) is appended to the console output.
pub proof fn lemma_uart_transmit(u: UartView, c: u8)
    requires
        !u.dlab(),
        c != 13,
        u.out.len() < OUT_CAPACITY,
    ensures
        u.write8(THR, c).out == u.out.push(c),
{
}

/// The UART after each byte of `s` is written to the transmit register, in order.
pub open spec fn transmit_all(u: UartView, s: Seq<u8>) -> UartView
    decreases s.len(),
{
    if s.len() == 0 {
        u
    } else {
        transmit_all(u, s.drop_last()).write8(THR, s.last())
    }
}

/// `s` without its carriage returns, order kept.
pub open spec fn without_cr(s: Seq<u8>) -> Seq<u8>
    decreases s.len(),
{
    if s.len() == 0 {
        s
    } else if s.last() == 13 {
        without_cr(s.drop_last())
    } else {
        without_cr(s.drop_last()).push(s.last())
    }
}

/// Transmitting a run of bytes (divisor latch closed, room for all but the carriage returns)
/// appends those bytes, carriage returns dropped, to the output, in order; the line control
/// register, and so the closed latch, stays as it was.
pub proof fn lemma_uart_transmit_all(u: UartView, s: Seq<u8>)
    requires
        !u.dlab(),
        u.out.len() + without_cr(s).len() <= OUT_CAPACITY,
    ensures
        transmit_all(u, s).out == u.out + without_cr(s),
        transmit_all(u, s).lcr == u.lcr,
    decreases s.len(),
{
    if s.len() > 0 {
        let t = s.drop_last();
        assert(without_cr(t).len() <= without_cr(s).len());
        lemma_uart_transmit_all(u, t);
        if s.last() != 13 {
            assert(u.out + without_cr(t).push(s.last()) =~= (u.out + without_cr(t)).push(s.last()));
        }
    }
}

/// From reset, the UART's output after a run of bytes is the run without its carriage
/// returns (where that fits the buffer); `flush_output` hands it out and empties the buffer.
pub proof fn lemma_uart_output_from_reset(s: Seq<u8>)
    requires
        without_cr(s).len() <= OUT_CAPACITY,
    ensures
        transmit_all(UartView::reset(), s).out == without_cr(s),
{
    lemma_low_bits();
    lemma_uart_transmit_all(UartView::reset(), s);
    assert(Seq::<u8>::empty() + without_cr(s) =~= without_cr(s));
}

/// The SBI console putchar call appends the low byte of a0 to the console output.
pub proof fn lemma_sbi_putchar(a0: u64, a1: u64, a2: u64, a6: u64, b: BusView)
    requires
        !b.uart.dlab(),
        a0 as u8 != 13,
        b.uart.out.len() < OUT_CAPACITY,
    ensures
        sbi_spec(SBI_CONSOLE_PUTCHAR, a0, a1, a2, a6, b).1.uart.out == b.uart.out.push(a0 as u8),
        sbi_spec(SBI_CONSOLE_PUTCHAR, a0, a1, a2, a6, b).0.a0 == SBI_SUCCESS,
{
}

/// Shutdown requests halt the machine: the legacy shutdown call, a system reset and a hart stop.
pub proof fn lemma_sbi_shutdown(a0: u64, a1: u64, a2: u64, a6: u64, b: BusView)
    ensures
        sbi_spec(SBI_SHUTDOWN, a0, a1, a2, a6, b).0.halt,
        sbi_spec(SBI_EXT_SRST, a0, a1, a2, SBI_SRST_SYSTEM_RESET, b).0.halt,
        sbi_spec(SBI_EXT_HSM, a0, a1, a2, SBI_HSM_HART_STOP, b).0.halt,
{
}

/// Probing an extension answers 1 exactly for the extensions this firmware implements.
pub proof fn lemma_sbi_probe(ext: u64, a1: u64, a2: u64, b: BusView)
    ensures
        sbi_spec(SBI_EXT_BASE, ext, a1, a2, SBI_BASE_PROBE_EXT, b).0.a0 == if supported_extension(ext) { 1u64 } else { 0u64 },
        !sbi_spec(SBI_EXT_BASE, ext, a1, a2, SBI_BASE_PROBE_EXT, b).0.halt,
{
}

// ===== Loading =====

/// A file that is not a well-formed RISC-V ELF file is loaded as a flat binary at DRAM_BASE
/// and entered there.
pub proof fn lemma_malformed_elf_loads_flat(b: Seq<u8>)
    requires
        !elf_header_ok(b),
    ensures
        file_image(b) == dram_image(b),
        file_entry(b) == DRAM_BASE,
{
}

// ===== Instruction semantics =====

/// MULHU reads both operands as unsigned 64-bit integers and writes the high 64 bits of their
/// 128-bit product: together with the low half that MUL writes it gives back the whole product.
pub proof fn lemma_mulhu_unsigned_high_half(rd: u8, rs1: u8, rs2: u8, pc: u64, regs: Seq<u64>, csr: CsrView, bus: BusView, p: Privilege)
    requires
        regs.len() == 32,
        0 < rd < 32,
        rs1 < 32,
        rs2 < 32,
    ensures
        ({
            let a = regs[rs1 as int] as int;
            let b = regs[rs2 as int] as int;
            let hi = exec_spec(Inst::Mulhu { rd, rs1, rs2 }, pc, regs, csr, bus, p);
            let lo = exec_spec(Inst::Mul { rd, rs1, rs2 }, pc, regs, csr, bus, p);
            &&& hi.trap is None
            &&& hi.regs[rd as int] as int == (a * b) / 0x1_0000_0000_0000_0000
            &&& hi.regs[rd as int] as int * 0x1_0000_0000_0000_0000 + lo.regs[rd as int] as int == a * b
        }),
{
    let a = regs[rs1 as int] as int;
    let b = regs[rs2 as int] as int;
    assert(0 <= a * b < 0x1_0000_0000_0000_0000_0000_0000_0000_0000) by (nonlinear_arith)
        requires
            0 <= a < 0x1_0000_0000_0000_0000,
            0 <= b < 0x1_0000_0000_0000_0000,
    ;
    let q = (a * b) / 0x1_0000_0000_0000_0000;
    let r = (a * b) % 0x1_0000_0000_0000_0000;
    assert(0 <= q < 0x1_0000_0000_0000_0000 && 0 <= r < 0x1_0000_0000_0000_0000
        && q * 0x1_0000_0000_0000_0000 + r == a * b) by (nonlinear_arith)
        requires
            0 <= a * b < 0x1_0000_0000_0000_0000_0000_0000_0000_0000,
            q == (a * b) / 0x1_0000_0000_0000_0000,
            r == (a * b) % 0x1_0000_0000_0000_0000,
    ;
}

// ===== Sv39 permissions =====

/// Every bit of `v` is clear in `x & !v`, and the bits of `x` under `v` put back give `x`;
/// with neither R nor X (bits 1 and 3) set, X is clear.
proof fn lemma_mask_bits(x: u64, v: u64)
    ensures
        (x & !v) & v == 0,
        (x & !v) | (x & v) == x,
        x & (0x2u64 | 0x8u64) == 0 ==> x & 0x8u64 == 0,
{
    assert((x & !v) & v == 0 && (x & !v) | (x & v) == x && (x & (0x2u64 | 0x8u64) == 0 ==> x & 0x8u64 == 0))
        by (bit_vector);
}

/// U-mode may use exactly the user pages (PTE.U, bit 4): a readable leaf (R or X) with U set
/// gives the leaf's physical address for a read, and any leaf without U is a page fault.
/// S-mode may use a user page only with mstatus.SUM (bit 18), and its own pages always. A read
/// needs R or X, a write both R and W; else a load or store page fault.
pub proof fn lemma_user_pages(pte: u64, level: u64, va: u64, mstatus: u64, access: AccessType)
    requires
        level <= 2,
    ensures
        pte & PTE_U != 0 && pte & (PTE_R | PTE_X) != 0
            ==> leaf_check(pte, level, va, Privilege::U, mstatus, AccessType::Read) == Ok::<u64, TrapCause>(leaf_pa(pte, level, va)),
        pte & PTE_U == 0 ==> leaf_check(pte, level, va, Privilege::U, mstatus, access) == Err::<u64, TrapCause>(TrapCause::LoadPageFault),
        pte & PTE_U != 0 && (mstatus >> 18u64) & 1 == 0
            ==> leaf_check(pte, level, va, Privilege::S, mstatus, access) == Err::<u64, TrapCause>(TrapCause::LoadPageFault),
        pte & PTE_U == 0 && pte & (PTE_R | PTE_X) != 0
            ==> leaf_check(pte, level, va, Privilege::S, mstatus, AccessType::Read) == Ok::<u64, TrapCause>(leaf_pa(pte, level, va)),
        pte & PTE_U != 0 && (mstatus >> 18u64) & 1 == 1 && pte & (PTE_R | PTE_X) != 0
            ==> leaf_check(pte, level, va, Privilege::S, mstatus, AccessType::Read) == Ok::<u64, TrapCause>(leaf_pa(pte, level, va)),
        pte & PTE_U != 0 && pte & (PTE_R | PTE_W) == (PTE_R | PTE_W)
            ==> leaf_check(pte, level, va, Privilege::U, mstatus, AccessType::Write) == Ok::<u64, TrapCause>(leaf_pa(pte, level, va)),
        pte & PTE_U != 0 && pte & (PTE_R | PTE_X) == 0
            ==> leaf_check(pte, level, va, Privilege::U, mstatus, AccessType::Read) == Err::<u64, TrapCause>(TrapCause::LoadPageFault),
        pte & PTE_U != 0 && pte & (PTE_R | PTE_W) != (PTE_R | PTE_W)
            ==> leaf_check(pte, level, va, Privilege::U, mstatus, AccessType::Write) == Err::<u64, TrapCause>(TrapCause::StorePageFault),
{
    lemma_mask_bits(pte, 0);
}

// ===== Interrupts =====

/// In S-mode, when no machine-level interrupt (MEIP bit 11, MTIP bit 7, MSIP bit 3) is both
/// enabled in mie and pending in mip, a supervisor interrupt that is enabled, pending and
/// delegated in mideleg is taken in S-mode exactly when mstatus.SIE (bit 1) is set, whatever
/// mstatus.MIE holds: the external one (bit 9) before the timer (bit 5) before the software
/// one (bit 1). With SIE clear nothing is taken. In U-mode the same interrupt is taken
/// whatever mstatus holds.
pub proof fn lemma_s_mode_delegated_interrupt(mstatus: u64, mie: u64, mip: u64, mideleg: u64)
    requires
        (mie & mip) & 0x800 == 0,
        (mie & mip) & 0x80 == 0,
        (mie & mip) & 0x8 == 0,
    ensures
        mstatus & 0x2 == 0 ==> interrupt_to_take(mstatus, mie, mip, Privilege::S, mideleg) is None,
        mstatus & 0x2 != 0 ==> interrupt_to_take(mstatus, mie, mip, Privilege::S, mideleg) == (
            if (mie & mip) & mideleg & 0x200 != 0 {
                Some((TrapCause::ExternalInterrupt, true))
            } else if (mie & mip) & mideleg & 0x20 != 0 {
                Some((TrapCause::TimerInterrupt, true))
            } else if (mie & mip) & mideleg & 0x2 != 0 {
                Some((TrapCause::SoftwareInterrupt, true))
            } else {
                None
            }),
        interrupt_to_take(mstatus, mie, mip, Privilege::U, mideleg) == (
            if (mie & mip) & mideleg & 0x200 != 0 {
                Some((TrapCause::ExternalInterrupt, true))
            } else if (mie & mip) & mideleg & 0x20 != 0 {
                Some((TrapCause::TimerInterrupt, true))
            } else if (mie & mip) & mideleg & 0x2 != 0 {
                Some((TrapCause::SoftwareInterrupt, true))
            } else {
                None
            }),
{
}

// ===== CSR instructions =====


/// The CSR read-modify-write operations on a machine-level CSR (0x300..0x3FF, mstatus among
/// them) accessed from M-mode: the old value is returned; csrrw writes the source, csrrs sets
/// its bits, and csrrc clears every bit set in the source and keeps every other bit.
pub proof fn lemma_csr_read_modify_write(c: CsrView, addr: usize, v: u64)
    requires
        c.wf(),
        0x300 <= addr <= 0x3FF,
    ensures
        c.read(addr, Privilege::M) == c.reg(addr),
        c.write(addr, csr_op_result(CsrOp::Write, c.read(addr, Privilege::M), v), Privilege::M).reg(addr) == v,
        c.write(addr, csr_op_result(CsrOp::SetBits, c.read(addr, Privilege::M), v), Privilege::M).reg(addr) == c.reg(addr) | v,
        c.write(addr, csr_op_result(CsrOp::Clear, c.read(addr, Privilege::M), v), Privilege::M).reg(addr) == c.reg(addr) & !v,
        c.write(addr, csr_op_result(CsrOp::Clear, c.read(addr, Privilege::M), v), Privilege::M).reg(addr) & v == 0,
        c.write(addr, csr_op_result(CsrOp::Clear, c.read(addr, Privilege::M), v), Privilege::M).reg(addr) | (c.reg(addr) & v)
            == c.reg(addr),
{
    lemma_mask_bits(c.reg(addr), v);
}

/// csrrc on mstatus in M-mode puts the old mstatus in rd and leaves mstatus with every bit of
/// rs1 cleared and every other bit as it was.
pub proof fn lemma_csrrc_mstatus(rd: u8, rs1: u8, pc: u64, regs: Seq<u64>, csr: CsrView, bus: BusView)
    requires
        regs.len() == 32,
        0 < rd < 32,
        rs1 < 32,
        csr.wf(),
    ensures
        ({
            let out = exec_spec(Inst::Csrrc { rd, rs1, csr: 0x300 }, pc, regs, csr, bus, Privilege::M);
            &&& out.trap is None
            &&& out.regs[rd as int] == csr.reg(0x300)
            &&& out.csr.reg(0x300) == csr.reg(0x300) & !regs[rs1 as int]
        }),
{
    lemma_csr_read_modify_write(csr, 0x300, regs[rs1 as int]);
}

// ===== Firmware calls =====

/// The SBI timer call, the legacy one (extension 0) and the TIME extension's set_timer
/// (extension 0x54494D45, function 0), programs the CLINT comparator with a0, reports success
/// and changes nothing else on the bus.
pub proof fn lemma_sbi_set_timer(a0: u64, a1: u64, a2: u64, a6: u64, b: BusView)
    ensures
        sbi_spec(0x54494D45, a0, a1, a2, 0, b).0 == (SbiResult { a0: 0, halt: false }),
        sbi_spec(0x54494D45, a0, a1, a2, 0, b).1.clint.mtimecmp == a0,
        sbi_spec(0x54494D45, a0, a1, a2, 0, b).1.clint.mtime == b.clint.mtime,
        sbi_spec(0x54494D45, a0, a1, a2, 0, b).1.dram == b.dram,
        sbi_spec(0x54494D45, a0, a1, a2, 0, b).1.uart == b.uart,
        sbi_spec(0x54494D45, a0, a1, a2, 0, b).1.plic == b.plic,
        sbi_spec(0, a0, a1, a2, a6, b).0 == (SbiResult { a0: 0, halt: false }),
        sbi_spec(0, a0, a1, a2, a6, b).1.clint.mtimecmp == a0,
        sbi_spec(0, a0, a1, a2, a6, b).1.clint.mtime == b.clint.mtime,
{
}

} // verus!
