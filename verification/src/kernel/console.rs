//! The guest kernel's firmware calls and console: which SBI call each request makes (the
//! `ecall` itself is the hart's), how console bytes are sent and received, and when the next
//! timer tick is due.
use vstd::prelude::*;
use crate::sbi::{
    SBI_CONSOLE_GETCHAR, SBI_CONSOLE_PUTCHAR, SBI_DBCN_CONSOLE_READ, SBI_DBCN_CONSOLE_WRITE,
    SBI_DBCN_CONSOLE_WRITE_BYTE, SBI_EXT_DBCN, SBI_EXT_HSM, SBI_EXT_IPI, SBI_EXT_SRST, SBI_EXT_TIME,
    SBI_HSM_HART_STOP, SBI_SHUTDOWN, SBI_SRST_SYSTEM_RESET, SBI_TIME_SET_TIMER,
};

verus! {

/// An SBI call: the extension in a7, the function in a6, arguments in a0..a2.
#[derive(Clone, Copy, PartialEq, Eq, Structural, Debug)]
pub struct SbiCall {
    pub ext: u64,
    pub fid: u64,
    pub a0: u64,
    pub a1: u64,
    pub a2: u64,
}

pub open spec fn call(ext: u64, fid: u64, a0: u64, a1: u64) -> SbiCall {
    SbiCall { ext, fid, a0, a1, a2: 0 }
}

/// The legacy console call that prints `c`.
pub fn legacy_console_putchar(c: u8) -> (r: SbiCall)
    ensures
        r == call(SBI_CONSOLE_PUTCHAR, 0, c as u64, 0),
{
    SbiCall { ext: SBI_CONSOLE_PUTCHAR, fid: 0, a0: c as u64, a1: 0, a2: 0 }
}

/// The legacy console call that reads a byte.
pub fn legacy_console_getchar() -> (r: SbiCall)
    ensures
        r == call(SBI_CONSOLE_GETCHAR, 0, 0, 0),
{
    SbiCall { ext: SBI_CONSOLE_GETCHAR, fid: 0, a0: 0, a1: 0, a2: 0 }
}

/// The legacy shutdown call.
pub fn legacy_shutdown() -> (r: SbiCall)
    ensures
        r == call(SBI_SHUTDOWN, 0, 0, 0),
{
    SbiCall { ext: SBI_SHUTDOWN, fid: 0, a0: 0, a1: 0, a2: 0 }
}

/// The timer extension's call that arms the timer for `stime_value`.
pub fn set_timer(stime_value: u64) -> (r: SbiCall)
    ensures
        r == call(SBI_EXT_TIME, SBI_TIME_SET_TIMER, stime_value, 0),
{
    SbiCall { ext: SBI_EXT_TIME, fid: SBI_TIME_SET_TIMER, a0: stime_value, a1: 0, a2: 0 }
}

/// The IPI extension's call that signals the harts in `hart_mask`.
pub fn send_ipi(hart_mask: u64) -> (r: SbiCall)
    ensures
        r == call(SBI_EXT_IPI, 0, hart_mask, 0),
{
    SbiCall { ext: SBI_EXT_IPI, fid: 0, a0: hart_mask, a1: 0, a2: 0 }
}

/// The debug console call that writes the `len` bytes at physical address `addr`.
pub fn dbcn_write(addr: u64, len: u64) -> (r: SbiCall)
    ensures
        r == call(SBI_EXT_DBCN, SBI_DBCN_CONSOLE_WRITE, addr, len),
{
    SbiCall { ext: SBI_EXT_DBCN, fid: SBI_DBCN_CONSOLE_WRITE, a0: addr, a1: len, a2: 0 }
}

/// The debug console call that reads up to `len` bytes to physical address `addr`.
pub fn dbcn_read(addr: u64, len: u64) -> (r: SbiCall)
    ensures
        r == call(SBI_EXT_DBCN, SBI_DBCN_CONSOLE_READ, addr, len),
{
    SbiCall { ext: SBI_EXT_DBCN, fid: SBI_DBCN_CONSOLE_READ, a0: addr, a1: len, a2: 0 }
}

/// The debug console call that writes one byte.
pub fn dbcn_write_byte(c: u8) -> (r: SbiCall)
    ensures
        r == call(SBI_EXT_DBCN, SBI_DBCN_CONSOLE_WRITE_BYTE, c as u64, 0),
{
    SbiCall { ext: SBI_EXT_DBCN, fid: SBI_DBCN_CONSOLE_WRITE_BYTE, a0: c as u64, a1: 0, a2: 0 }
}

/// The system reset extension's call (reset type 0: shut down).
pub fn system_reset() -> (r: SbiCall)
    ensures
        r == call(SBI_EXT_SRST, SBI_SRST_SYSTEM_RESET, 0, 0),
{
    SbiCall { ext: SBI_EXT_SRST, fid: SBI_SRST_SYSTEM_RESET, a0: 0, a1: 0, a2: 0 }
}

/// The hart state management extension's call that stops this hart.
pub fn hart_stop() -> (r: SbiCall)
    ensures
        r == call(SBI_EXT_HSM, SBI_HSM_HART_STOP, 0, 0),
{
    SbiCall { ext: SBI_EXT_HSM, fid: SBI_HSM_HART_STOP, a0: 0, a1: 0, a2: 0 }
}

/// The calls that print `c` on the console: a line feed goes out as carriage return and
/// line feed.
pub open spec fn putchar_spec(c: u8) -> Seq<SbiCall> {
    if c == 10 {
        seq![call(SBI_CONSOLE_PUTCHAR, 0, 13, 0), call(SBI_CONSOLE_PUTCHAR, 0, 10, 0)]
    } else {
        seq![call(SBI_CONSOLE_PUTCHAR, 0, c as u64, 0)]
    }
}

pub fn putchar(c: u8) -> (r: Vec<SbiCall>)
    ensures
        r@ == putchar_spec(c),
{
    let mut v: Vec<SbiCall> = Vec::new();
    if c == 10 {
        v.push(legacy_console_putchar(13));
        v.push(legacy_console_putchar(10));
    } else {
        v.push(legacy_console_putchar(c));
    }
    assert(v@ =~= putchar_spec(c));
    v
}

/// The calls that print the bytes of `s`, in order.
pub open spec fn puts_spec(s: Seq<u8>) -> Seq<SbiCall>
    decreases s.len(),
{
    if s.len() == 0 {
        Seq::empty()
    } else {
        puts_spec(s.drop_last()) + putchar_spec(s.last())
    }
}

pub fn puts(s: &[u8]) -> (r: Vec<SbiCall>)
    ensures
        r@ == puts_spec(s@),
{
    let mut out: Vec<SbiCall> = Vec::new();
    let mut i: usize = 0;
    assert(s@.take(0) =~= Seq::<u8>::empty());
    while i < s.len()
        invariant
            i <= s@.len(),
            out@ == puts_spec(s@.take(i as int)),
        decreases s@.len() - i,
    {
        let mut one = putchar(s[i]);
        assert(s@.take(i + 1 as int).drop_last() =~= s@.take(i as int));
        out.append(&mut one);
        i = i + 1;
    }
    assert(s@.take(s@.len() as int) =~= s@);
    out
}

/// The byte that the legacy console read returned in a0: none when the value is negative.
pub open spec fn getchar_spec(a0: u64) -> Option<u8> {
    if a0 >= 0x8000_0000_0000_0000 { None } else { Some(a0 as u8) }
}

pub fn getchar(a0: u64) -> (r: Option<u8>)
    ensures
        r == getchar_spec(a0),
{
    if a0 >= 0x8000_0000_0000_0000 {
        None
    } else {
        Some(a0 as u8)
    }
}

/// Timer ticks per second.
pub const TICKS_PER_SEC: u64 = 10_000_000;

/// The call that arms the next tick, 10 ms after `now`.
pub fn set_next_timer(now: u64) -> (r: SbiCall)
    requires
        now + TICKS_PER_SEC / 100 <= u64::MAX,
    ensures
        r == call(SBI_EXT_TIME, SBI_TIME_SET_TIMER, (now + 100_000) as u64, 0),
{
    set_timer(now + TICKS_PER_SEC / 100)
}

} // verus!
