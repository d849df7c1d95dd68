use riscv_core::bus::{DRAM_BASE, DRAM_END};
use riscv_core::cpu::csr::Privilege;
use riscv_core::traps::{pending_interrupt, TrapCause};
use riscv_core::Bus;

const MTIP: u64 = 1 << 7;
const STIP: u64 = 1 << 5;

#[test]
fn machine_timer_goes_to_m_mode_from_any_level() {
    for p in [Privilege::S, Privilege::U] {
        assert_eq!(pending_interrupt(0, MTIP, MTIP, p, u64::MAX), Some((TrapCause::TimerInterrupt, false)));
    }
    assert_eq!(pending_interrupt(0x8, MTIP, MTIP, Privilege::M, 0), Some((TrapCause::TimerInterrupt, false)));
    assert_eq!(pending_interrupt(0, MTIP, MTIP, Privilege::M, 0), None);
}

#[test]
fn supervisor_timer_is_delegated() {
    assert_eq!(pending_interrupt(0, STIP, STIP, Privilege::U, STIP), Some((TrapCause::TimerInterrupt, true)));
    assert_eq!(pending_interrupt(0, STIP, STIP, Privilege::U, 0), None);
}

#[test]
fn stores_past_dram_fault() {
    let mut bus = Bus::new(&[]);
    assert_eq!(bus.write8(DRAM_END, 1), Err(TrapCause::StoreAccessFault));
    assert_eq!(bus.write32(DRAM_END, 1), Err(TrapCause::StoreAccessFault));
    assert_eq!(bus.write64(DRAM_END, 1), Err(TrapCause::StoreAccessFault));
    assert_eq!(bus.write32(DRAM_END - 2, 1), Err(TrapCause::StoreAccessFault));
    assert_eq!(bus.write64(DRAM_END - 4, 1), Err(TrapCause::StoreAccessFault));
    assert_eq!(bus.read8(DRAM_END), Err(TrapCause::LoadAccessFault));
    assert_eq!(bus.write64(DRAM_END - 8, 7), Ok(()));
    assert_eq!(bus.read64(DRAM_END - 8), Ok(7));
    assert_eq!(bus.write8(DRAM_BASE, 1), Ok(()));
    assert_eq!(bus.write8(1, 0xFF), Err(TrapCause::StoreAccessFault));
}

#[test]
fn uart_output_is_checked_text() {
    let mut bus = Bus::new(&[]);
    for &b in b"ok\r\n" {
        bus.write8(0x1000_0000, b).unwrap();
    }
    assert_eq!(bus.uart.flush_output(), "ok\n");
    assert_eq!(bus.uart.flush_output(), "");
    bus.write8(0x1000_0000, 0xFF).unwrap();
    assert_eq!(bus.uart.flush_output(), "");
}
