use riscv_core::bus::DRAM_BASE;
use riscv_core::debugger::{debugger_command, parse_number, DebugAction};
use riscv_core::{Bus, Cpu};

fn vm() -> (Cpu, Bus) {
    let mut image = vec![0u8; 16];
    image[0..4].copy_from_slice(&0x0050_0093u32.to_le_bytes());
    (Cpu::new(DRAM_BASE), Bus::new(&image))
}

#[test]
fn debugger_run_requests() {
    let (mut cpu, bus) = vm();
    let mut bps = Vec::new();
    assert_eq!(debugger_command(&mut cpu, &bus, &mut bps, DRAM_BASE, b""), DebugAction::Step);
    assert_eq!(debugger_command(&mut cpu, &bus, &mut bps, DRAM_BASE, b"s"), DebugAction::Step);
    assert_eq!(debugger_command(&mut cpu, &bus, &mut bps, DRAM_BASE, b"r"), DebugAction::Run(100));
    assert_eq!(debugger_command(&mut cpu, &bus, &mut bps, DRAM_BASE, b"r 25"), DebugAction::Run(25));
    assert_eq!(debugger_command(&mut cpu, &bus, &mut bps, DRAM_BASE, b"r x"), DebugAction::Run(100));
    assert_eq!(debugger_command(&mut cpu, &bus, &mut bps, DRAM_BASE, b"c"), DebugAction::Continue);
    assert_eq!(debugger_command(&mut cpu, &bus, &mut bps, DRAM_BASE, b"q"), DebugAction::Quit);
    assert_eq!(debugger_command(&mut cpu, &bus, &mut bps, DRAM_BASE, b"quit"), DebugAction::Quit);
    assert_eq!(debugger_command(&mut cpu, &bus, &mut bps, DRAM_BASE, b"help"), DebugAction::Help);
    assert_eq!(debugger_command(&mut cpu, &bus, &mut bps, DRAM_BASE, b"frob"), DebugAction::Unknown);
}

#[test]
fn debugger_breakpoints_toggle() {
    let (mut cpu, bus) = vm();
    let mut bps = Vec::new();
    assert_eq!(debugger_command(&mut cpu, &bus, &mut bps, DRAM_BASE, b"b 0x80000010"), DebugAction::BreakpointSet(0x8000_0010));
    assert_eq!(debugger_command(&mut cpu, &bus, &mut bps, DRAM_BASE, b"b"), DebugAction::BreakpointSet(DRAM_BASE));
    assert_eq!(bps, vec![0x8000_0010, DRAM_BASE]);
    assert_eq!(debugger_command(&mut cpu, &bus, &mut bps, DRAM_BASE, b"b 80000010"), DebugAction::BreakpointRemoved(0x8000_0010));
    assert_eq!(bps, vec![DRAM_BASE]);
}

#[test]
fn debugger_registers() {
    let (mut cpu, bus) = vm();
    let mut bps = Vec::new();
    assert_eq!(debugger_command(&mut cpu, &bus, &mut bps, DRAM_BASE, b"reg"), DebugAction::ShowRegs);
    assert_eq!(debugger_command(&mut cpu, &bus, &mut bps, DRAM_BASE, b"reg a0"), DebugAction::ShowReg(10));
    assert_eq!(debugger_command(&mut cpu, &bus, &mut bps, DRAM_BASE, b"reg a0 0x2A"), DebugAction::SetReg(10, 42));
    assert_eq!(cpu.regs[10], 42);
    assert_eq!(debugger_command(&mut cpu, &bus, &mut bps, DRAM_BASE, b"reg x5 7"), DebugAction::SetReg(5, 7));
    assert_eq!(debugger_command(&mut cpu, &bus, &mut bps, DRAM_BASE, b"reg 31 9"), DebugAction::SetReg(31, 9));
    assert_eq!(cpu.regs[5], 7);
    assert_eq!(cpu.regs[31], 9);
    assert_eq!(debugger_command(&mut cpu, &bus, &mut bps, DRAM_BASE, b"reg zz 1"), DebugAction::UnknownReg);
    assert_eq!(debugger_command(&mut cpu, &bus, &mut bps, DRAM_BASE, b"reg a1 zz"), DebugAction::BadValue);
}

#[test]
fn debugger_memory_and_csr() {
    let (mut cpu, bus) = vm();
    let mut bps = Vec::new();
    assert_eq!(debugger_command(&mut cpu, &bus, &mut bps, DRAM_BASE, b"mem"), DebugAction::MemUsage);
    assert_eq!(
        debugger_command(&mut cpu, &bus, &mut bps, DRAM_BASE, b"mem 0x80000000 4"),
        DebugAction::MemDump { addr: DRAM_BASE, count: 4 }
    );
    assert_eq!(
        debugger_command(&mut cpu, &bus, &mut bps, DRAM_BASE, b"mem 80000000"),
        DebugAction::MemDump { addr: DRAM_BASE, count: 8 }
    );
    assert_eq!(
        debugger_command(&mut cpu, &bus, &mut bps, DRAM_BASE, b"mem32 0x80000000"),
        DebugAction::MemRead { addr: DRAM_BASE, size: 4, value: 0x0050_0093 }
    );
    assert_eq!(
        debugger_command(&mut cpu, &bus, &mut bps, DRAM_BASE, b"mem8 0"),
        DebugAction::MemRead { addr: 0, size: 1, value: 0 }
    );
    assert_eq!(debugger_command(&mut cpu, &bus, &mut bps, DRAM_BASE, b"mem64 zz"), DebugAction::BadAddress);
    assert_eq!(debugger_command(&mut cpu, &bus, &mut bps, DRAM_BASE, b"csr"), DebugAction::CsrUsage);
    match debugger_command(&mut cpu, &bus, &mut bps, DRAM_BASE, b"csr 0x301") {
        DebugAction::Csr { addr, .. } => assert_eq!(addr, 0x301),
        other => panic!("{other:?}"),
    }
}

#[test]
fn debugger_reset_goes_to_initial_entry() {
    let (mut cpu, bus) = vm();
    let mut bps = Vec::new();
    cpu.pc = DRAM_BASE + 0x40;
    cpu.regs[10] = 5;
    assert_eq!(debugger_command(&mut cpu, &bus, &mut bps, DRAM_BASE, b"reset"), DebugAction::Reset);
    assert_eq!(cpu.pc, DRAM_BASE);
    assert_eq!(cpu.regs[10], 0);
}

#[test]
fn numbers_parse_like_std() {
    assert_eq!(parse_number(b"123", 10, u64::MAX), Some(123));
    assert_eq!(parse_number(b"+7", 10, u64::MAX), Some(7));
    assert_eq!(parse_number(b"+", 10, u64::MAX), None);
    assert_eq!(parse_number(b"", 16, u64::MAX), None);
    assert_eq!(parse_number(b"fF", 16, u64::MAX), Some(255));
    assert_eq!(parse_number(b"18446744073709551615", 10, u64::MAX), Some(u64::MAX));
    assert_eq!(parse_number(b"18446744073709551616", 10, u64::MAX), None);
    assert_eq!(parse_number(b"12a", 10, u64::MAX), None);
}
