//! The supervisor binary interface served by the machine on behalf of S-mode software.
use vstd::prelude::*;
use crate::bus::{Bus, BusView};
use crate::uart::UART_BASE;

verus! {

// SBI extension IDs (legacy)
pub const SBI_SET_TIMER: u64 = 0;
pub const SBI_CONSOLE_PUTCHAR: u64 = 1;
pub const SBI_CONSOLE_GETCHAR: u64 = 2;
pub const SBI_CLEAR_IPI: u64 = 3;
pub const SBI_SEND_IPI: u64 = 4;
pub const SBI_REMOTE_FENCE_I: u64 = 5;
pub const SBI_REMOTE_SFENCE_VMA: u64 = 6;
pub const SBI_REMOTE_SFENCE_VMA_ASID: u64 = 7;
pub const SBI_SHUTDOWN: u64 = 8;

// SBI v0.2+ extension IDs
pub const SBI_EXT_BASE: u64 = 0x10;
pub const SBI_EXT_TIME: u64 = 0x54494D45;
pub const SBI_EXT_IPI: u64 = 0x735049;
pub const SBI_EXT_RFENCE: u64 = 0x52464E43;
pub const SBI_EXT_HSM: u64 = 0x48534D;
pub const SBI_EXT_SRST: u64 = 0x53525354;
pub const SBI_EXT_DBCN: u64 = 0x4442434E;

// SBI v0.2 function IDs
pub const SBI_BASE_GET_SPEC_VERSION: u64 = 0;
pub const SBI_BASE_GET_IMP_ID: u64 = 1;
pub const SBI_BASE_GET_IMP_VERSION: u64 = 2;
pub const SBI_BASE_PROBE_EXT: u64 = 3;
pub const SBI_BASE_GET_MVENDORID: u64 = 4;
pub const SBI_BASE_GET_MARCHID: u64 = 5;
pub const SBI_BASE_GET_MIMPID: u64 = 6;
pub const SBI_TIME_SET_TIMER: u64 = 0;
pub const SBI_HSM_HART_STOP: u64 = 1;
pub const SBI_SRST_SYSTEM_RESET: u64 = 0;

// DBCN function IDs
pub const SBI_DBCN_CONSOLE_WRITE: u64 = 0;
pub const SBI_DBCN_CONSOLE_READ: u64 = 1;
pub const SBI_DBCN_CONSOLE_WRITE_BYTE: u64 = 2;

// SBI return values
pub const SBI_SUCCESS: u64 = 0;
/// -2 as a 64-bit register value.
pub const SBI_ERR_NOT_SUPPORTED: u64 = 0xFFFF_FFFF_FFFF_FFFE;
/// -1 as a 64-bit register value: no character available.
pub const SBI_NO_CHAR: u64 = 0xFFFF_FFFF_FFFF_FFFF;

/// What an SBI call returns in a0, and whether the machine must stop.
#[derive(Debug, Clone, Copy, PartialEq, Eq, Structural)]
pub struct SbiResult {
    pub a0: u64,
    pub halt: bool,
}

impl SbiResult {
    pub fn ok() -> (r: Self)
        ensures
            r == (SbiResult { a0: SBI_SUCCESS, halt: false }),
    {
        Self { a0: SBI_SUCCESS, halt: false }
    }

    pub fn value(v: u64) -> (r: Self)
        ensures
            r == (SbiResult { a0: v, halt: false }),
    {
        Self { a0: v, halt: false }
    }

    pub fn not_supported() -> (r: Self)
        ensures
            r == (SbiResult { a0: SBI_ERR_NOT_SUPPORTED, halt: false }),
    {
        Self { a0: SBI_ERR_NOT_SUPPORTED, halt: false }
    }

    pub fn halt() -> (r: Self)
        ensures
            r == (SbiResult { a0: 0, halt: true }),
    {
        Self { a0: 0, halt: true }
    }
}

pub open spec fn sbi_value(v: u64) -> SbiResult {
    SbiResult { a0: v, halt: false }
}

pub open spec fn sbi_ok() -> SbiResult {
    sbi_value(SBI_SUCCESS)
}

pub open spec fn sbi_not_supported() -> SbiResult {
    sbi_value(SBI_ERR_NOT_SUPPORTED)
}

pub open spec fn sbi_halt() -> SbiResult {
    SbiResult { a0: 0, halt: true }
}

/// The extensions the machine implements, as the base extension's probe reports them.
pub open spec fn supported_extension(ext: u64) -> bool {
    ext == SBI_EXT_BASE || ext == SBI_EXT_TIME || ext == SBI_EXT_IPI || ext == SBI_EXT_RFENCE
        || ext == SBI_EXT_HSM || ext == SBI_EXT_SRST || ext == SBI_EXT_DBCN
}

/// The base extension: spec version 0.2, implementation ID and version 1, probing, and
/// zero vendor, architecture and implementation IDs.
pub open spec fn sbi_base_spec(func_id: u64, ext_id: u64) -> SbiResult {
    if func_id == SBI_BASE_GET_SPEC_VERSION {
        sbi_value(2)
    } else if func_id == SBI_BASE_GET_IMP_ID || func_id == SBI_BASE_GET_IMP_VERSION {
        sbi_value(1)
    } else if func_id == SBI_BASE_PROBE_EXT {
        sbi_value(if supported_extension(ext_id) { 1 } else { 0 })
    } else if func_id == SBI_BASE_GET_MVENDORID || func_id == SBI_BASE_GET_MARCHID
        || func_id == SBI_BASE_GET_MIMPID {
        sbi_value(0)
    } else {
        sbi_not_supported()
    }
}

/// Copying console output: bytes `i..len` of the buffer at `addr` go to the UART, one by one,
/// until one cannot be read. The count of bytes written and the bus afterwards.
pub open spec fn console_write(bus: BusView, addr: u64, len: u64, i: u64) -> (u64, BusView)
    decreases len - i,
{
    if i >= len {
        (i, bus)
    } else {
        match bus.read8(addr.wrapping_add(i)) {
            Ok(b) => console_write(bus.write8(UART_BASE, b), addr, len, (i + 1) as u64),
            Err(_) => (i, bus),
        }
    }
}

/// The bus with the timer comparator set to `t`.
pub open spec fn with_timer(bus: BusView, t: u64) -> BusView {
    BusView { clint: crate::devices::Clint { mtimecmp: t, ..bus.clint }, ..bus }
}

fn set_timer(bus: &mut Bus, t: u64)
    requires
        old(bus).wf(),
    ensures
        final(bus).wf(),
        final(bus)@ == with_timer(old(bus)@, t),
{
    bus.clint.mtimecmp = t;
}

/// The debug console extension: write a byte, write a buffer (returning how many bytes were
/// written), read (never any input).
pub open spec fn sbi_dbcn_spec(func_id: u64, buf_addr: u64, buf_len: u64, bus: BusView) -> (SbiResult, BusView) {
    if func_id == SBI_DBCN_CONSOLE_WRITE_BYTE {
        (sbi_ok(), bus.write8(UART_BASE, buf_addr as u8))
    } else if func_id == SBI_DBCN_CONSOLE_WRITE {
        let (n, b) = console_write(bus, buf_addr, buf_len, 0);
        (sbi_value(n), b)
    } else if func_id == SBI_DBCN_CONSOLE_READ {
        (sbi_value(0), bus)
    } else {
        (sbi_not_supported(), bus)
    }
}

/// An SBI call with extension `a7`, function `a6` and arguments `a0`..`a2`: its result and
/// the bus afterwards.
pub open spec fn sbi_spec(a7: u64, a0: u64, a1: u64, a2: u64, a6: u64, bus: BusView) -> (SbiResult, BusView) {
    if a7 == SBI_SET_TIMER {
        (sbi_ok(), with_timer(bus, a0))
    } else if a7 == SBI_CONSOLE_PUTCHAR {
        (sbi_ok(), bus.write8(UART_BASE, a0 as u8))
    } else if a7 == SBI_CONSOLE_GETCHAR {
        (sbi_value(SBI_NO_CHAR), bus)
    } else if a7 == SBI_CLEAR_IPI || a7 == SBI_SEND_IPI || a7 == SBI_REMOTE_FENCE_I
        || a7 == SBI_REMOTE_SFENCE_VMA || a7 == SBI_REMOTE_SFENCE_VMA_ASID {
        (sbi_ok(), bus)
    } else if a7 == SBI_SHUTDOWN {
        (sbi_halt(), bus)
    } else if a7 == SBI_EXT_BASE {
        (sbi_base_spec(a6, a0), bus)
    } else if a7 == SBI_EXT_TIME {
        if a6 == SBI_TIME_SET_TIMER { (sbi_ok(), with_timer(bus, a0)) } else { (sbi_not_supported(), bus) }
    } else if a7 == SBI_EXT_IPI || a7 == SBI_EXT_RFENCE {
        (sbi_ok(), bus)
    } else if a7 == SBI_EXT_HSM {
        if a6 == SBI_HSM_HART_STOP { (sbi_halt(), bus) } else { (sbi_not_supported(), bus) }
    } else if a7 == SBI_EXT_SRST {
        if a6 == SBI_SRST_SYSTEM_RESET { (sbi_halt(), bus) } else { (sbi_not_supported(), bus) }
    } else if a7 == SBI_EXT_DBCN {
        sbi_dbcn_spec(a6, a0, a1, bus)
    } else {
        (sbi_not_supported(), bus)
    }
}

pub fn handle_sbi(a7: u64, a0: u64, a1: u64, a2: u64, a6: u64, bus: &mut Bus) -> (r: SbiResult)
    requires
        old(bus).wf(),
    ensures
        final(bus).wf(),
        (r, final(bus)@) == sbi_spec(a7, a0, a1, a2, a6, old(bus)@),
{
    if a7 == SBI_SET_TIMER {
        set_timer(bus, a0);
        SbiResult::ok()
    } else if a7 == SBI_CONSOLE_PUTCHAR {
        let _ = bus.write8(UART_BASE, a0 as u8);
        SbiResult::ok()
    } else if a7 == SBI_CONSOLE_GETCHAR {
        SbiResult::value(SBI_NO_CHAR)
    } else if a7 == SBI_CLEAR_IPI || a7 == SBI_SEND_IPI || a7 == SBI_REMOTE_FENCE_I
        || a7 == SBI_REMOTE_SFENCE_VMA || a7 == SBI_REMOTE_SFENCE_VMA_ASID {
        SbiResult::ok()
    } else if a7 == SBI_SHUTDOWN {
        SbiResult::halt()
    } else if a7 == SBI_EXT_BASE {
        handle_sbi_base(a6, a0)
    } else if a7 == SBI_EXT_TIME {
        if a6 == SBI_TIME_SET_TIMER {
            set_timer(bus, a0);
            SbiResult::ok()
        } else {
            SbiResult::not_supported()
        }
    } else if a7 == SBI_EXT_IPI || a7 == SBI_EXT_RFENCE {
        SbiResult::ok()
    } else if a7 == SBI_EXT_HSM {
        if a6 == SBI_HSM_HART_STOP { SbiResult::halt() } else { SbiResult::not_supported() }
    } else if a7 == SBI_EXT_SRST {
        if a6 == SBI_SRST_SYSTEM_RESET { SbiResult::halt() } else { SbiResult::not_supported() }
    } else if a7 == SBI_EXT_DBCN {
        handle_sbi_dbcn(a6, a0, a1, a2, bus)
    } else {
        SbiResult::not_supported()
    }
}

fn handle_sbi_dbcn(func_id: u64, buf_addr: u64, buf_len: u64, _out_len_addr: u64, bus: &mut Bus) -> (r: SbiResult)
    requires
        old(bus).wf(),
    ensures
        final(bus).wf(),
        (r, final(bus)@) == sbi_dbcn_spec(func_id, buf_addr, buf_len, old(bus)@),
{
    if func_id == SBI_DBCN_CONSOLE_WRITE_BYTE {
        let _ = bus.write8(UART_BASE, buf_addr as u8);
        SbiResult::ok()
    } else if func_id == SBI_DBCN_CONSOLE_WRITE {
        let mut written: u64 = 0;
        let mut i: u64 = 0;
        while i < buf_len
            invariant
                bus.wf(),
                written == i,
                i <= buf_len,
                console_write(old(bus)@, buf_addr, buf_len, 0) == console_write(bus@, buf_addr, buf_len, i),
            ensures
                bus.wf(),
                console_write(old(bus)@, buf_addr, buf_len, 0) == (written, bus@),
            decreases buf_len - i,
        {
            let addr = buf_addr.wrapping_add(i);
            if let Ok(byte) = bus.read8(addr) {
                let _ = bus.write8(UART_BASE, byte);
                written = i + 1;
                i = i + 1;
            } else {
                break;
            }
        }
        SbiResult::value(written)
    } else if func_id == SBI_DBCN_CONSOLE_READ {
        SbiResult::value(0)  // no input available
    } else {
        SbiResult::not_supported()
    }
}

fn handle_sbi_base(func_id: u64, ext_id: u64) -> (r: SbiResult)
    ensures
        r == sbi_base_spec(func_id, ext_id),
{
    if func_id == SBI_BASE_GET_SPEC_VERSION {
        SbiResult::value(2)
    } else if func_id == SBI_BASE_GET_IMP_ID || func_id == SBI_BASE_GET_IMP_VERSION {
        SbiResult::value(1)
    } else if func_id == SBI_BASE_PROBE_EXT {
        let supported = ext_id == SBI_EXT_BASE || ext_id == SBI_EXT_TIME || ext_id == SBI_EXT_IPI
            || ext_id == SBI_EXT_RFENCE || ext_id == SBI_EXT_HSM || ext_id == SBI_EXT_SRST
            || ext_id == SBI_EXT_DBCN;
        SbiResult::value(if supported { 1 } else { 0 })
    } else if func_id == SBI_BASE_GET_MVENDORID || func_id == SBI_BASE_GET_MARCHID
        || func_id == SBI_BASE_GET_MIMPID {
        SbiResult::value(0)
    } else {
        SbiResult::not_supported()
    }
}

} // verus!
