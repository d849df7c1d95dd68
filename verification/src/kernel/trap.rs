//! The guest kernel's supervisor trap handling: which action a trap cause asks for, how a
//! system call is decoded, and how the saved registers change on the way back.
use vstd::prelude::*;

verus! {

/// The registers that the trap vector saves, in its order.
#[derive(Clone, Copy, PartialEq, Eq, Structural, Debug)]
pub struct TrapFrame {
    pub ra: u64,
    pub gp: u64,
    pub tp: u64,
    pub t0: u64,
    pub t1: u64,
    pub t2: u64,
    pub s0: u64,
    pub s1: u64,
    pub a0: u64,
    pub a1: u64,
    pub a2: u64,
    pub a3: u64,
    pub a4: u64,
    pub a5: u64,
    pub a6: u64,
    pub a7: u64,
    pub s2: u64,
    pub s3: u64,
    pub s4: u64,
    pub s5: u64,
    pub s6: u64,
    pub s7: u64,
    pub s8: u64,
    pub s9: u64,
    pub s10: u64,
    pub s11: u64,
    pub t3: u64,
    pub t4: u64,
    pub t5: u64,
    pub t6: u64,
    pub sepc: u64,
    pub sstatus: u64,
}

pub const SYS_WRITE: u64 = 64;
pub const SYS_READ: u64 = 63;
pub const SYS_EXIT: u64 = 93;
pub const STDOUT: u64 = 1;
pub const STDERR: u64 = 2;
/// -1 as a register value: the error return of a system call.
pub const SYSCALL_ERROR: u64 = 0xFFFF_FFFF_FFFF_FFFF;

/// A system call, decoded from its number (a7) and arguments (a0..a5).
#[derive(Clone, Copy, PartialEq, Eq, Structural, Debug)]
pub enum Syscall {
    /// Write `len` bytes from `buf` to the console.
    Write { buf: u64, len: u64 },
    /// A write to a descriptor other than standard output or error.
    BadDescriptor,
    /// Read console input into `buf`, at most `max` bytes, up to a newline.
    Read { buf: u64, max: u64 },
    Exit { code: u64 },
    Unknown { num: u64 },
}

/// What the kernel does for a trap.
#[derive(Clone, Copy, PartialEq, Eq, Structural, Debug)]
pub enum TrapAction {
    /// A supervisor software interrupt: nothing to do.
    Nothing,
    /// A timer interrupt: count the tick, tell the scheduler, arm the next one.
    TimerTick,
    /// An external interrupt: ask the PLIC which device.
    ExternalIrq,
    /// An environment call from user mode: serve the system call, then `finish_syscall`.
    Syscall(Syscall),
    /// A breakpoint: report it; the frame returns past the instruction.
    Breakpoint,
    /// A fault the kernel cannot handle (page faults, illegal instruction, anything else):
    /// report the cause and stop.
    Halt(u64),
}

/// The system call that `num` and `args` ask for.
pub open spec fn syscall_spec(num: u64, args: [u64; 6]) -> Syscall {
    if num == SYS_WRITE {
        if args[0] == STDOUT || args[0] == STDERR {
            Syscall::Write { buf: args[1], len: args[2] }
        } else {
            Syscall::BadDescriptor
        }
    } else if num == SYS_READ {
        Syscall::Read { buf: args[1], max: args[2] }
    } else if num == SYS_EXIT {
        Syscall::Exit { code: args[0] }
    } else {
        Syscall::Unknown { num }
    }
}

/// Decodes a system call.
pub fn syscall_request(num: u64, args: [u64; 6]) -> (r: Syscall)
    ensures
        r == syscall_spec(num, args),
{
    if num == SYS_WRITE {
        if args[0] == STDOUT || args[0] == STDERR {
            Syscall::Write { buf: args[1], len: args[2] }
        } else {
            Syscall::BadDescriptor
        }
    } else if num == SYS_READ {
        Syscall::Read { buf: args[1], max: args[2] }
    } else if num == SYS_EXIT {
        Syscall::Exit { code: args[0] }
    } else {
        Syscall::Unknown { num }
    }
}

/// The value a system call returns once served: the length written, -1 for a bad
/// descriptor or an unknown call, 0 for exit; a read returns the count of bytes it took in,
/// which only the console knows (`None`).
pub open spec fn syscall_return_spec(s: Syscall) -> Option<u64> {
    match s {
        Syscall::Write { len, .. } => Some(len),
        Syscall::BadDescriptor => Some(SYSCALL_ERROR),
        Syscall::Read { .. } => None,
        Syscall::Exit { .. } => Some(0),
        Syscall::Unknown { .. } => Some(SYSCALL_ERROR),
    }
}

pub fn syscall_return(s: Syscall) -> (r: Option<u64>)
    ensures
        r == syscall_return_spec(s),
{
    match s {
        Syscall::Write { len, .. } => Some(len),
        Syscall::BadDescriptor => Some(SYSCALL_ERROR),
        Syscall::Read { .. } => None,
        Syscall::Exit { .. } => Some(0),
        Syscall::Unknown { .. } => Some(SYSCALL_ERROR),
    }
}

/// The action for trap cause `scause` (interrupt bit stripped), and the frame to return
/// with: a breakpoint returns past its two-byte instruction; everything else leaves the frame
/// as it is (a system call's frame changes in `finish_syscall`).
pub open spec fn dispatch_spec(scause: u64, f: TrapFrame) -> (TrapAction, TrapFrame) {
    if scause == 1 {
        (TrapAction::Nothing, f)
    } else if scause == 5 {
        (TrapAction::TimerTick, f)
    } else if scause == 9 {
        (TrapAction::ExternalIrq, f)
    } else if scause == 8 {
        (TrapAction::Syscall(syscall_spec(f.a7, [f.a0, f.a1, f.a2, f.a3, f.a4, f.a5])), f)
    } else if scause == 3 {
        (TrapAction::Breakpoint, TrapFrame { sepc: f.sepc.wrapping_add(2), ..f })
    } else {
        (TrapAction::Halt(scause), f)
    }
}

/// Decides what to do for a trap.
pub fn trap_dispatch(scause: u64, f: TrapFrame) -> (r: (TrapAction, TrapFrame))
    ensures
        r == dispatch_spec(scause, f),
{
    match scause {
        1 => (TrapAction::Nothing, f),
        5 => (TrapAction::TimerTick, f),
        9 => (TrapAction::ExternalIrq, f),
        8 => {
            let s = syscall_request(f.a7, [f.a0, f.a1, f.a2, f.a3, f.a4, f.a5]);
            (TrapAction::Syscall(s), f)
        },
        3 => {
            let mut g = f;
            g.sepc = f.sepc.wrapping_add(2);
            (TrapAction::Breakpoint, g)
        },
        _ => (TrapAction::Halt(scause), f),
    }
}

/// The frame after a system call returned `ret`: `ret` in a0, and the return address past
/// the four-byte `ecall`; nothing else changes.
pub fn finish_syscall(f: TrapFrame, ret: u64) -> (g: TrapFrame)
    ensures
        g == (TrapFrame { a0: ret, sepc: f.sepc.wrapping_add(4), ..f }),
{
    let mut g = f;
    g.a0 = ret;
    g.sepc = f.sepc.wrapping_add(4);
    g
}

} // verus!
