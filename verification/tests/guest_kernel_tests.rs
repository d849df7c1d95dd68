use riscv_core::kernel::allocator::{PageAllocator, PAGE_SIZE};
use riscv_core::kernel::console::{
    dbcn_write, getchar, hart_stop, legacy_console_getchar, legacy_console_putchar, legacy_shutdown, putchar,
    puts, set_next_timer, system_reset, SbiCall,
};
use riscv_core::kernel::paging::PageTable;
use riscv_core::kernel::shell::{map_kernel, shell_command, shell_step, Command, ShellEvent, LINE_MAX};
use riscv_core::kernel::trap::{
    finish_syscall, syscall_request, syscall_return, trap_dispatch, Syscall, TrapAction, TrapFrame, SYSCALL_ERROR,
};
use riscv_core::kernel::process::{next_pid, tick, uptime_ms, Process, FIRST_PID};
use riscv_core::memory::Memory;
use riscv_core::sbi::handle_sbi;
use riscv_core::Bus;

fn frame() -> TrapFrame {
    TrapFrame {
        ra: 0, gp: 0, tp: 0, t0: 0, t1: 0, t2: 0, s0: 0, s1: 0, a0: 1, a1: 0x8030_0000, a2: 5, a3: 0, a4: 0,
        a5: 0, a6: 0, a7: 64, s2: 0, s3: 0, s4: 0, s5: 0, s6: 0, s7: 0, s8: 0, s9: 0, s10: 0, s11: 0, t3: 0,
        t4: 0, t5: 0, t6: 0, sepc: 0x8020_1000, sstatus: 0,
    }
}

#[test]
fn trap_dispatch_by_cause() {
    let f = frame();
    assert_eq!(trap_dispatch(1, f), (TrapAction::Nothing, f));
    assert_eq!(trap_dispatch(5, f), (TrapAction::TimerTick, f));
    assert_eq!(trap_dispatch(9, f), (TrapAction::ExternalIrq, f));
    assert_eq!(trap_dispatch(8, f), (TrapAction::Syscall(Syscall::Write { buf: 0x8030_0000, len: 5 }), f));
    let (a, g) = trap_dispatch(3, f);
    assert_eq!(a, TrapAction::Breakpoint);
    assert_eq!(g.sepc, 0x8020_1002);
    for cause in [2u64, 12, 13, 15, 42] {
        assert_eq!(trap_dispatch(cause, f), (TrapAction::Halt(cause), f));
    }
}

#[test]
fn syscalls_decode_and_return() {
    assert_eq!(syscall_request(64, [2, 10, 3, 0, 0, 0]), Syscall::Write { buf: 10, len: 3 });
    assert_eq!(syscall_request(64, [7, 10, 3, 0, 0, 0]), Syscall::BadDescriptor);
    assert_eq!(syscall_request(63, [0, 10, 80, 0, 0, 0]), Syscall::Read { buf: 10, max: 80 });
    assert_eq!(syscall_request(93, [4, 0, 0, 0, 0, 0]), Syscall::Exit { code: 4 });
    assert_eq!(syscall_request(1, [0; 6]), Syscall::Unknown { num: 1 });
    assert_eq!(syscall_return(Syscall::Write { buf: 10, len: 3 }), Some(3));
    assert_eq!(syscall_return(Syscall::BadDescriptor), Some(SYSCALL_ERROR));
    assert_eq!(syscall_return(Syscall::Read { buf: 10, max: 80 }), None);
    assert_eq!(syscall_return(Syscall::Exit { code: 4 }), Some(0));
    let g = finish_syscall(frame(), 5);
    assert_eq!(g.a0, 5);
    assert_eq!(g.sepc, 0x8020_1004);
    assert_eq!(g.a7, 64);
}

#[test]
fn console_sends_cr_before_lf() {
    assert_eq!(putchar(b'a'), vec![legacy_console_putchar(b'a')]);
    assert_eq!(putchar(b'\n'), vec![legacy_console_putchar(b'\r'), legacy_console_putchar(b'\n')]);
    assert_eq!(puts(b"a\nb").len(), 4);
    assert_eq!(getchar(0xFFFF_FFFF_FFFF_FFFF), None);
    assert_eq!(getchar(0x41), Some(b'A'));
    assert_eq!(set_next_timer(1000).a0, 101_000);
    assert_eq!(dbcn_write(0x8000_0000, 3), SbiCall { ext: 0x4442434E, fid: 0, a0: 0x8000_0000, a1: 3, a2: 0 });
}

fn serve(call: SbiCall, bus: &mut Bus) -> riscv_core::sbi::SbiResult {
    handle_sbi(call.ext, call.a0, call.a1, call.a2, call.fid, bus)
}

#[test]
fn machine_serves_kernel_calls() {
    let mut bus = Bus::new(&[]);
    let r = serve(legacy_console_putchar(b'Z'), &mut bus);
    assert!(!r.halt);
    assert_eq!(bus.uart.flush_output(), "Z");
    assert_eq!(getchar(serve(legacy_console_getchar(), &mut bus).a0), None);
    assert!(serve(legacy_shutdown(), &mut bus).halt);
    assert!(serve(system_reset(), &mut bus).halt);
    assert!(serve(hart_stop(), &mut bus).halt);
}

#[test]
fn shell_line_editing() {
    let mut line = Vec::new();
    assert_eq!(shell_step(&mut line, None), ShellEvent::Idle);
    assert_eq!(shell_step(&mut line, Some(b'l')), ShellEvent::Echo(b'l'));
    assert_eq!(shell_step(&mut line, Some(b's')), ShellEvent::Echo(b's'));
    assert_eq!(line, b"ls");
    assert_eq!(shell_step(&mut line, Some(b'\r')), ShellEvent::EndOfLine);
    assert_eq!(shell_step(&mut line, Some(b'\n')), ShellEvent::EndOfLine);
    assert_eq!(line, b"ls");
    let mut long = vec![b'x'; LINE_MAX];
    assert_eq!(shell_step(&mut long, Some(b'y')), ShellEvent::Echo(b'y'));
    assert_eq!(long.len(), LINE_MAX);
}

#[test]
fn shell_commands() {
    assert_eq!(shell_command(b"help"), Command::Help);
    assert_eq!(shell_command(b"  info \t"), Command::Info);
    assert_eq!(shell_command(b"uptime"), Command::Uptime);
    assert_eq!(shell_command(b"ls"), Command::Ls);
    assert_eq!(shell_command(b"alloc"), Command::Alloc);
    assert_eq!(shell_command(b"reboot"), Command::Reboot);
    assert_eq!(shell_command(b"panic"), Command::Panic);
    assert_eq!(shell_command(b"read"), Command::Unknown);
    assert_eq!(shell_command(b"help me"), Command::Unknown);
    assert_eq!(shell_command(b""), Command::Unknown);
}

#[test]
fn kernel_identity_maps() {
    let heap = 0x8040_0000usize;
    let mut mem = Memory::new();
    let mut alloc = PageAllocator::new(heap, heap + 32 * PAGE_SIZE);
    let mut pt = PageTable::new(&mut mem, &mut alloc).unwrap();
    let kernel_end = 0x8020_2800;
    map_kernel(&mut pt, &mut mem, &mut alloc, kernel_end);
    for v in [0x8020_0000usize, 0x8020_1000, 0x8020_2000, 0x1000_0000, 0x0C00_0000, 0x0200_0000, 0x1000_1000] {
        assert_eq!(pt.translate(&mem, v + 0x10), Some(v + 0x10));
    }
    assert_eq!(pt.translate(&mem, 0x8020_3000), None);
}

#[test]
fn pids_and_uptime() {
    let mut counter = FIRST_PID;
    let p = Process { id: next_pid(&mut counter) };
    assert_eq!(p.id, 1);
    assert_eq!(next_pid(&mut counter), 2);
    assert_eq!(counter, 3);
    assert_eq!(tick(u64::MAX), 0);
    assert_eq!(uptime_ms(34), 340);
}
