use std::collections::HashSet;

use riscv_core::bus::{Bus, CLINT_BASE, DRAM_BASE, UART_BASE};
use riscv_core::cpu::csr::{Privilege, CSR_MEPC, CSR_MSTATUS};
use riscv_core::cpu::decoder::{decode, Inst};
use riscv_core::cpu::{Cpu, StepResult};
use riscv_core::dtb::generate_dtb;
use riscv_core::emulator::EmulatorState;
use riscv_core::sbi::{handle_sbi, SBI_BASE_PROBE_EXT, SBI_CONSOLE_PUTCHAR, SBI_EXT_BASE, SBI_EXT_DBCN, SBI_SHUTDOWN};
use riscv_core::virtio::{
    Virtio, VIRTIO_CONFIG, VIRTIO_DEVICE_ID, VIRTIO_INTERRUPT_ACK, VIRTIO_INTERRUPT_STATUS, VIRTIO_MAGIC,
    VIRTIO_QUEUE_DESC_HIGH, VIRTIO_QUEUE_DESC_LOW, VIRTIO_QUEUE_DEVICE_HIGH, VIRTIO_QUEUE_DEVICE_LOW,
    VIRTIO_QUEUE_DRIVER_HIGH, VIRTIO_QUEUE_DRIVER_LOW, VIRTIO_QUEUE_NUM, VIRTIO_QUEUE_READY, VIRTIO_STATUS,
    VIRTIO_VERSION,
};
use riscv_core::vm::{
    boot_smode, build_smode_demo, load_elf, load_file, run_until, vm_tick, write_dtb, DTB_ADDR, KERNEL_BASE,
};

// ---- small assembler ----

fn asm_i(opcode: u32, rd: u32, funct3: u32, rs1: u32, imm: i32) -> u32 {
    (((imm as u32) & 0xFFF) << 20) | (rs1 << 15) | (funct3 << 12) | (rd << 7) | opcode
}
fn asm_addi(rd: u32, rs1: u32, imm: i32) -> u32 {
    asm_i(0x13, rd, 0, rs1, imm)
}
fn asm_csrrw(rd: u32, csr: u32, rs1: u32) -> u32 {
    (csr << 20) | (rs1 << 15) | (1 << 12) | (rd << 7) | 0x73
}
fn asm_csrrs(rd: u32, csr: u32, rs1: u32) -> u32 {
    (csr << 20) | (rs1 << 15) | (2 << 12) | (rd << 7) | 0x73
}
fn asm_auipc(rd: u32, imm20: u32) -> u32 {
    (imm20 << 12) | (rd << 7) | 0x17
}
const ECALL: u32 = 0x0000_0073;
const EBREAK: u32 = 0x0010_0073;
const MRET: u32 = 0x3020_0073;

fn words_to_bytes(words: &[u32]) -> Vec<u8> {
    words.iter().flat_map(|w| w.to_le_bytes()).collect()
}

fn put_u16(d: &mut [u8], off: usize, v: u16) {
    d[off..off + 2].copy_from_slice(&v.to_le_bytes());
}
fn put_u32(d: &mut [u8], off: usize, v: u32) {
    d[off..off + 4].copy_from_slice(&v.to_le_bytes());
}
fn put_u64(d: &mut [u8], off: usize, v: u64) {
    d[off..off + 8].copy_from_slice(&v.to_le_bytes());
}
fn get_u16(d: &[u8], off: usize) -> u16 {
    u16::from_le_bytes([d[off], d[off + 1]])
}
fn get_u32(d: &[u8], off: usize) -> u32 {
    u32::from_le_bytes([d[off], d[off + 1], d[off + 2], d[off + 3]])
}
fn be_u32(d: &[u8], off: usize) -> u32 {
    u32::from_be_bytes([d[off], d[off + 1], d[off + 2], d[off + 3]])
}

// ---- virtio ----

#[test]
fn virtio_identity_registers() {
    let v = Virtio::new();
    assert_eq!(v.read32(VIRTIO_MAGIC), 0x7472_6976);
    assert_eq!(v.read32(VIRTIO_VERSION), 2);
    assert_eq!(v.read32(VIRTIO_DEVICE_ID), 2);
    assert_eq!(v.read32(0x00C), 0x554d_4551);
    assert_eq!(v.read32(0x034), 8);
    // 64 MiB disk = 131072 sectors
    assert_eq!(v.read32(VIRTIO_CONFIG), 131072);
    assert_eq!(v.read32(VIRTIO_CONFIG + 4), 0);
    assert_eq!(v.read32(0x0FC), 0);
}

#[test]
fn virtio_feature_words() {
    let mut v = Virtio::new();
    assert_eq!(v.read32(0x010), 0);
    v.write32(0x014, 1);
    assert_eq!(v.read32(0x010), 1);
    v.write32(0x014, 2);
    assert_eq!(v.read32(0x010), 0);
}

#[test]
fn virtio_register_roundtrip_and_ack() {
    let mut v = Virtio::new();
    v.write32(VIRTIO_QUEUE_READY, 1);
    assert_eq!(v.read32(VIRTIO_QUEUE_READY), 1);
    v.write32(VIRTIO_STATUS, 0xF);
    assert_eq!(v.read32(VIRTIO_STATUS), 0xF);
    assert_eq!(v.read32(VIRTIO_INTERRUPT_STATUS), 0);
}

#[test]
fn virtio_notify_without_queue_does_nothing() {
    let mut v = Virtio::new();
    let mut dram = vec![0u8; 0x100];
    v.handle_notify(&mut dram);
    assert!(!v.irq_pending);
    assert!(dram.iter().all(|&b| b == 0));
}

fn setup_queue(v: &mut Virtio) {
    let base = DRAM_BASE as u32;
    v.write32(VIRTIO_QUEUE_NUM, 8);
    v.write32(VIRTIO_QUEUE_DESC_LOW, base + 0x1000);
    v.write32(VIRTIO_QUEUE_DESC_HIGH, 0);
    v.write32(VIRTIO_QUEUE_DRIVER_LOW, base + 0x2000);
    v.write32(VIRTIO_QUEUE_DRIVER_HIGH, 0);
    v.write32(VIRTIO_QUEUE_DEVICE_LOW, base + 0x3000);
    v.write32(VIRTIO_QUEUE_DEVICE_HIGH, 0);
    v.write32(VIRTIO_QUEUE_READY, 1);
}

fn put_desc(d: &mut [u8], idx: usize, addr: u64, len: u32, flags: u16, next: u16) {
    let off = 0x1000 + idx * 16;
    put_u64(d, off, addr);
    put_u32(d, off + 8, len);
    put_u16(d, off + 12, flags);
    put_u16(d, off + 14, next);
}

#[test]
fn virtio_block_write_then_read() {
    let mut v = Virtio::new();
    setup_queue(&mut v);
    let mut dram = vec![0u8; 0x8000];
    // request header: type 1 (write), sector 2
    put_u32(&mut dram, 0x4000, 1);
    put_u64(&mut dram, 0x4008, 2);
    for b in &mut dram[0x5000..0x5200] {
        *b = 0xAB;
    }
    dram[0x6000] = 0xFF;
    put_desc(&mut dram, 0, DRAM_BASE + 0x4000, 16, 1, 1);
    put_desc(&mut dram, 1, DRAM_BASE + 0x5000, 512, 1, 2);
    put_desc(&mut dram, 2, DRAM_BASE + 0x6000, 1, 2, 0);
    put_u16(&mut dram, 0x2004, 0); // ring[0] = head 0
    put_u16(&mut dram, 0x2002, 1); // available index
    v.handle_notify(&mut dram);
    assert!(v.disk[1024..1536].iter().all(|&b| b == 0xAB));
    assert!(v.disk[..1024].iter().all(|&b| b == 0));
    assert_eq!(get_u16(&dram, 0x3002), 1);
    assert_eq!(get_u32(&dram, 0x3004), 0);
    assert_eq!(get_u32(&dram, 0x3008), 512);
    assert_eq!(dram[0x6000], 0);
    assert!(v.irq_pending);
    assert_eq!(v.read32(VIRTIO_INTERRUPT_STATUS), 1);
    v.write32(VIRTIO_INTERRUPT_ACK, 1);
    assert_eq!(v.read32(VIRTIO_INTERRUPT_STATUS), 0);

    // read sector 2 back into another buffer
    put_u32(&mut dram, 0x4000, 0);
    put_desc(&mut dram, 1, DRAM_BASE + 0x7000, 512, 1, 2);
    put_u16(&mut dram, 0x2006, 0); // ring[1] = head 0
    put_u16(&mut dram, 0x2002, 2);
    v.handle_notify(&mut dram);
    assert!(dram[0x7000..0x7200].iter().all(|&b| b == 0xAB));
    assert_eq!(get_u16(&dram, 0x3002), 2);
    assert_eq!(get_u32(&dram, 0x300C), 0);
    assert_eq!(get_u32(&dram, 0x3010), 512);
}

#[test]
fn virtio_single_descriptor_chain_is_ignored() {
    let mut v = Virtio::new();
    setup_queue(&mut v);
    let mut dram = vec![0u8; 0x8000];
    put_desc(&mut dram, 0, DRAM_BASE + 0x4000, 16, 0, 0);
    put_u16(&mut dram, 0x2002, 1);
    v.handle_notify(&mut dram);
    // nothing published in the used ring, but the interrupt is raised
    assert_eq!(get_u16(&dram, 0x3002), 0);
    assert!(v.irq_pending);
}

#[test]
fn virtio_request_past_disk_end_transfers_nothing() {
    let mut v = Virtio::new();
    setup_queue(&mut v);
    let mut dram = vec![0u8; 0x8000];
    put_u32(&mut dram, 0x4000, 0);
    put_u64(&mut dram, 0x4008, 200_000); // beyond 131072 sectors
    put_desc(&mut dram, 0, DRAM_BASE + 0x4000, 16, 1, 1);
    put_desc(&mut dram, 1, DRAM_BASE + 0x5000, 512, 0, 0);
    put_u16(&mut dram, 0x2002, 1);
    v.handle_notify(&mut dram);
    assert_eq!(get_u16(&dram, 0x3002), 1);
    assert_eq!(get_u32(&dram, 0x3008), 0);
}

// ---- device tree ----

#[test]
fn dtb_header_is_consistent() {
    let b = generate_dtb();
    assert_eq!(be_u32(&b, 0), 0xD00D_FEED);
    assert_eq!(be_u32(&b, 4) as usize, b.len());
    assert_eq!(be_u32(&b, 8), 56);
    let struct_len = be_u32(&b, 36) as usize;
    let strings_len = be_u32(&b, 32) as usize;
    assert_eq!(be_u32(&b, 12) as usize, 56 + struct_len);
    assert_eq!(be_u32(&b, 16), 40);
    assert_eq!(be_u32(&b, 20), 17);
    assert_eq!(be_u32(&b, 24), 16);
    assert_eq!(56 + struct_len + strings_len, b.len());
    // the structure block opens the root node and ends with FDT_END
    assert_eq!(be_u32(&b, 56), 1);
    assert_eq!(be_u32(&b, 56 + struct_len - 4), 9);
    // the strings block starts with the first property name
    assert_eq!(&b[56 + struct_len..56 + struct_len + 15], b"#address-cells\0");
}

#[test]
fn dtb_mentions_the_machine() {
    let b = generate_dtb();
    let text = String::from_utf8_lossy(&b);
    assert!(text.contains("memory@80000000"));
    assert!(text.contains("uart@10000000"));
    assert!(text.contains("riscv,sv39"));
    assert!(text.contains("console=ttyS0"));
}

// ---- loading ----

fn build_elf(paddr: u64, payload: &[u8], entry: u64) -> Vec<u8> {
    let mut f = vec![0u8; 0x78];
    f[0..4].copy_from_slice(&[0x7f, b'E', b'L', b'F']);
    f[4] = 2;
    f[5] = 1;
    f[6] = 1;
    put_u16(&mut f, 18, 0xF3);
    put_u64(&mut f, 24, entry);
    put_u64(&mut f, 32, 0x40); // phoff
    put_u16(&mut f, 54, 56); // phentsize
    put_u16(&mut f, 56, 1); // phnum
    put_u32(&mut f, 0x40, 1); // PT_LOAD
    put_u64(&mut f, 0x48, 0x78); // p_offset
    put_u64(&mut f, 0x50, paddr); // p_vaddr
    put_u64(&mut f, 0x58, paddr); // p_paddr
    put_u64(&mut f, 0x60, payload.len() as u64); // p_filesz
    put_u64(&mut f, 0x68, payload.len() as u64 + 16); // p_memsz
    f.extend_from_slice(payload);
    f
}

#[test]
fn elf_segment_lands_at_its_physical_address() {
    let elf = build_elf(DRAM_BASE + 0x100, &[1, 2, 3, 4, 5, 6, 7, 8], DRAM_BASE + 0x100);
    let (flat, entry) = load_elf(&elf).expect("valid ELF");
    assert_eq!(entry, DRAM_BASE + 0x100);
    assert_eq!(flat.len(), 128 * 1024 * 1024);
    assert_eq!(&flat[0x100..0x108], &[1, 2, 3, 4, 5, 6, 7, 8]);
    assert!(flat[..0x100].iter().all(|&b| b == 0));
    assert_eq!(flat[0x108], 0);
}

#[test]
fn elf_segment_outside_dram_is_skipped() {
    let elf = build_elf(0x1000, &[9, 9, 9, 9], 0x1000);
    let (flat, entry) = load_elf(&elf).expect("still a valid ELF");
    assert_eq!(entry, 0x1000);
    assert!(flat[..0x10].iter().all(|&b| b == 0));
}

#[test]
fn malformed_elf_is_rejected() {
    assert!(load_elf(b"not an elf at all").is_none());
    let mut elf = build_elf(DRAM_BASE, &[1, 2, 3, 4], DRAM_BASE);
    put_u16(&mut elf, 18, 0x3E); // x86-64
    assert!(load_elf(&elf).is_none());
    let mut elf = build_elf(DRAM_BASE, &[1, 2, 3, 4], DRAM_BASE);
    put_u64(&mut elf, 0x60, 0x1000); // file size beyond the file
    assert!(load_elf(&elf).is_none());
    let mut elf = build_elf(DRAM_BASE, &[1, 2, 3, 4], DRAM_BASE);
    put_u64(&mut elf, 32, 0x10_0000); // program headers beyond the file
    assert!(load_elf(&elf).is_none());
}

#[test]
fn flat_binary_loads_at_dram_base() {
    let (bus, entry) = load_file(&[0x13, 0x05, 0x70, 0x00]);
    assert_eq!(entry, DRAM_BASE);
    assert_eq!(bus.read32(DRAM_BASE).unwrap(), 0x0070_0513);
    let elf = build_elf(DRAM_BASE + 0x10, &[0xEF, 0xBE, 0xAD, 0xDE], DRAM_BASE + 0x10);
    let (bus, entry) = load_file(&elf);
    assert_eq!(entry, DRAM_BASE + 0x10);
    assert_eq!(bus.read32(DRAM_BASE + 0x10).unwrap(), 0xDEAD_BEEF);
    assert_eq!(bus.read32(DRAM_BASE).unwrap(), 0);
}

// ---- S-mode boot and the machine tick ----

#[test]
fn smode_demo_code_shape() {
    let code = build_smode_demo();
    let msg = b"Hello from S-mode!\n";
    assert_eq!(code.len(), msg.len() * 12 + 8);
    let w = |i: usize| u32::from_le_bytes([code[4 * i], code[4 * i + 1], code[4 * i + 2], code[4 * i + 3]]);
    assert_eq!(decode(w(0)), Inst::Addi { rd: 10, rs1: 0, imm: b'H' as i64 });
    assert_eq!(decode(w(1)), Inst::Addi { rd: 17, rs1: 0, imm: 1 });
    assert_eq!(decode(w(2)), Inst::Ecall);
    let n = code.len() / 4;
    assert_eq!(decode(w(n - 2)), Inst::Addi { rd: 17, rs1: 0, imm: 8 });
    assert_eq!(decode(w(n - 1)), Inst::Ecall);
}

#[test]
fn smode_demo_prints_and_shuts_down() {
    let mut bus = Bus::new_at(build_smode_demo(), KERNEL_BASE);
    let mut cpu = Cpu::new(KERNEL_BASE);
    boot_smode(&mut cpu, &mut bus, KERNEL_BASE);
    assert_eq!(cpu.priv_level, Privilege::S);
    assert_eq!(cpu.regs[11], DTB_ADDR);
    // run_until stops at the first serviced call and reports it
    let r = run_until(&mut cpu, &mut bus, &HashSet::new(), Some(10_000));
    assert_eq!(r, StepResult::Trap(riscv_core::traps::TrapCause::EcallFromS));
    assert_eq!(cpu.regs[10], 0);
    let mut last = r;
    for _ in 0..10_000 {
        last = vm_tick(&mut cpu, &mut bus);
        if last == StepResult::Halted {
            break;
        }
    }
    assert_eq!(last, StepResult::Halted);
    assert_eq!(bus.uart.flush_output(), "Hello from S-mode!\n");
}

#[test]
fn boot_places_the_device_tree() {
    let mut bus = Bus::new(&[]);
    let mut cpu = Cpu::new(KERNEL_BASE);
    boot_smode(&mut cpu, &mut bus, KERNEL_BASE);
    // big-endian magic d0 0d fe ed read little-endian
    assert_eq!(bus.read32(DTB_ADDR).unwrap(), 0xEDFE_0DD0);
    assert_eq!(cpu.pc, KERNEL_BASE);
    assert_eq!(cpu.csr.read(CSR_MEPC, Privilege::M), KERNEL_BASE);
    assert_eq!(cpu.regs[10], 0);
}

#[test]
fn write_dtb_is_cut_at_dram_end() {
    let mut bus = Bus::new(&[]);
    let end = DRAM_BASE + 128 * 1024 * 1024;
    write_dtb(&mut bus, end - 4);
    assert_eq!(bus.read32(end - 4).unwrap(), 0xEDFE_0DD0);
}

#[test]
fn mmode_exit_call_halts_the_tick() {
    let prog = words_to_bytes(&[asm_addi(17, 0, 93), ECALL]);
    let mut bus = Bus::new(&prog);
    let mut cpu = Cpu::new(DRAM_BASE);
    assert_eq!(vm_tick(&mut cpu, &mut bus), StepResult::Continue);
    assert_eq!(vm_tick(&mut cpu, &mut bus), StepResult::Halted);
}

#[test]
fn mmode_other_ecall_is_skipped() {
    let prog = words_to_bytes(&[asm_addi(17, 0, 5), ECALL, asm_addi(10, 0, 3), EBREAK]);
    let mut bus = Bus::new(&prog);
    let mut cpu = Cpu::new(DRAM_BASE);
    assert_eq!(vm_tick(&mut cpu, &mut bus), StepResult::Continue);
    let pc = cpu.pc;
    assert_eq!(vm_tick(&mut cpu, &mut bus), StepResult::Trap(riscv_core::traps::TrapCause::EcallFromM));
    assert_eq!(cpu.pc, pc + 4);
    let r = run_until(&mut cpu, &mut bus, &HashSet::new(), None);
    assert_eq!(r, StepResult::Halted);
    assert_eq!(cpu.regs[10], 3);
}

#[test]
fn run_until_stops_at_breakpoint() {
    let prog = words_to_bytes(&[asm_addi(5, 0, 1), asm_addi(6, 0, 2), asm_addi(7, 0, 3), EBREAK]);
    let mut bus = Bus::new(&prog);
    let mut cpu = Cpu::new(DRAM_BASE);
    let mut bps = HashSet::new();
    bps.insert(DRAM_BASE + 8);
    let r = run_until(&mut cpu, &mut bus, &bps, None);
    assert_eq!(r, StepResult::Continue);
    assert_eq!(cpu.pc, DRAM_BASE + 8);
    assert_eq!(cpu.regs[6], 2);
    assert_eq!(cpu.regs[7], 0);
    let r = run_until(&mut cpu, &mut bus, &HashSet::new(), Some(1));
    assert_eq!(r, StepResult::Continue);
    assert_eq!(cpu.regs[7], 3);
}

#[test]
fn timer_interrupt_line_follows_clint() {
    let prog = words_to_bytes(&[asm_addi(0, 0, 0), asm_addi(0, 0, 0), EBREAK]);
    let mut bus = Bus::new(&prog);
    let mut cpu = Cpu::new(DRAM_BASE);
    bus.write64(CLINT_BASE + 0x4000, 0).unwrap();
    vm_tick(&mut cpu, &mut bus);
    assert!(cpu.csr.mip() & 0x80 != 0);
}

// ---- traps ----

#[test]
fn trap_then_mret_resumes_after_fault() {
    // mtvec = handler; illegal word; a0 = 7; ebreak; handler: mepc += 4; mret
    let prog = words_to_bytes(&[
        asm_auipc(5, 0),            // 0: t0 = pc
        asm_addi(5, 5, 24),         // 4: t0 = handler (pc + 24)
        asm_csrrw(0, 0x305, 5),     // 8: mtvec = t0
        0xFFFF_FFFF,                // 12: illegal
        asm_addi(10, 0, 7),         // 16: a0 = 7
        EBREAK,                     // 20
        asm_csrrs(6, 0x341, 0),     // 24: t1 = mepc
        asm_addi(6, 6, 4),          // 28
        asm_csrrw(0, 0x341, 6),     // 32: mepc = t1
        MRET,                       // 36
    ]);
    let mut bus = Bus::new(&prog);
    let mut cpu = Cpu::new(DRAM_BASE);
    let mut last = StepResult::Continue;
    for _ in 0..20 {
        last = cpu.step(&mut bus);
        if last == StepResult::Halted {
            break;
        }
    }
    assert_eq!(last, StepResult::Halted);
    assert_eq!(cpu.regs[10], 7);
    assert_eq!(cpu.priv_level, Privilege::M);
    assert_eq!(cpu.csr.read(CSR_MEPC, Privilege::M), DRAM_BASE + 16);
}

#[test]
fn x0_stays_zero() {
    let prog = words_to_bytes(&[asm_addi(0, 0, 5), asm_addi(1, 0, 1), EBREAK]);
    let mut bus = Bus::new(&prog);
    let mut cpu = Cpu::new(DRAM_BASE);
    cpu.step(&mut bus);
    cpu.step(&mut bus);
    assert_eq!(cpu.regs[0], 0);
    assert_eq!(cpu.regs[1], 1);
}

#[test]
fn mstatus_mie_survives_trap_and_mret() {
    let prog = words_to_bytes(&[
        asm_auipc(5, 0),
        asm_addi(5, 5, 20),
        asm_csrrw(0, 0x305, 5), // mtvec = pc + 20
        0xFFFF_FFFF,            // illegal at +12
        EBREAK,                 // +16
        asm_csrrs(6, 0x341, 0), // +20: handler
        asm_addi(6, 6, 4),
        asm_csrrw(0, 0x341, 6),
        MRET,
    ]);
    let mut bus = Bus::new(&prog);
    let mut cpu = Cpu::new(DRAM_BASE);
    cpu.csr.write(CSR_MSTATUS, 0x8, Privilege::M); // MIE on, no interrupt enabled in mie
    for _ in 0..20 {
        if cpu.step(&mut bus) == StepResult::Halted {
            break;
        }
    }
    assert!(cpu.halted);
    assert_eq!(cpu.csr.mstatus() & 0x8, 0x8);
}

// ---- firmware and console ----

#[test]
fn sbi_putchar_reaches_the_uart() {
    let mut bus = Bus::new(&[]);
    let r = handle_sbi(SBI_CONSOLE_PUTCHAR, b'x' as u64, 0, 0, 0, &mut bus);
    assert_eq!(r.a0, 0);
    assert!(!r.halt);
    assert_eq!(bus.uart.flush_output(), "x");
    assert_eq!(bus.uart.flush_output(), "");
}

#[test]
fn sbi_shutdown_and_probe() {
    let mut bus = Bus::new(&[]);
    assert!(handle_sbi(SBI_SHUTDOWN, 0, 0, 0, 0, &mut bus).halt);
    assert_eq!(handle_sbi(SBI_EXT_BASE, SBI_EXT_DBCN, 0, 0, SBI_BASE_PROBE_EXT, &mut bus).a0, 1);
    assert_eq!(handle_sbi(SBI_EXT_BASE, 0x1234, 0, 0, SBI_BASE_PROBE_EXT, &mut bus).a0, 0);
}

#[test]
fn uart_byte_store_is_console_output() {
    let mut bus = Bus::new(&[]);
    bus.write8(UART_BASE, b'h').unwrap();
    bus.write8(UART_BASE, b'\r').unwrap();
    bus.write8(UART_BASE, b'i').unwrap();
    assert_eq!(bus.uart.flush_output(), "hi");
}

// ---- whole machine ----

#[test]
fn emulator_runs_fibonacci() {
    let prog = words_to_bytes(&[
        0x0000_0113, 0x0010_0193, 0x0000_0293, 0x00A0_0313,
        0x0062_8C63, 0x0031_0233, 0x0001_8113, 0x0002_0193,
        0x0012_8293, 0xFEDF_F06F, 0x0001_0513, 0x0010_0073,
    ]);
    let mut emu = EmulatorState::new(prog);
    emu.run(1000);
    assert!(emu.halted());
    assert_eq!(emu.reg(10), 55);
    assert_eq!(emu.reg(40), 0);
    assert!(emu.cycles() > 0);
    assert_eq!(emu.cycles(), emu.instret());
    assert_eq!(emu.read_mem32(0), 0xDEAD_BEEF);
    assert_eq!(emu.read_mem32(DRAM_BASE), 0x0000_0113);
    let pc = emu.pc();
    emu.run(10);
    assert_eq!(emu.pc(), pc);
}

#[test]
fn emulator_exit_call_halts() {
    let prog = words_to_bytes(&[asm_addi(17, 0, 93), ECALL, asm_addi(10, 0, 1), EBREAK]);
    let mut emu = EmulatorState::new(prog);
    emu.run(100);
    assert!(emu.halted());
    assert_eq!(emu.reg(10), 0);
}

#[test]
fn virtio_checked_notify() {
    // No queue set up: well defined, nothing changes.
    let mut v = Virtio::new();
    let mut dram = vec![0u8; 0x100];
    assert!(v.try_handle_notify(&mut dram));
    assert!(!v.irq_pending);
    // A live queue whose rings lie past the end of memory: not well defined.
    let mut v = Virtio::new();
    setup_queue(&mut v);
    let mut small = vec![0u8; 0x100];
    assert!(!v.try_handle_notify(&mut small));
    // A live queue with an empty ring: well defined, the interrupt is raised.
    let mut v = Virtio::new();
    setup_queue(&mut v);
    let mut dram = vec![0u8; 0x8000];
    assert!(v.try_handle_notify(&mut dram));
    assert!(v.irq_pending);
    assert_eq!(v.read32(VIRTIO_INTERRUPT_STATUS), 1);
    // A request whose data buffer lies outside memory.
    let mut v = Virtio::new();
    setup_queue(&mut v);
    let mut dram = vec![0u8; 0x8000];
    put_u32(&mut dram, 0x4000, 1);
    put_desc(&mut dram, 0, DRAM_BASE + 0x4000, 16, 1, 1);
    put_desc(&mut dram, 1, DRAM_BASE + 0x7F00, 512, 0, 0);
    put_u16(&mut dram, 0x2004, 0);
    put_u16(&mut dram, 0x2002, 1);
    assert!(!v.try_handle_notify(&mut dram));
}
