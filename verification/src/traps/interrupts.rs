use vstd::prelude::*;
use crate::traps::TrapCause;

verus! {

// mstatus fields
pub const MSTATUS_MIE: u64 = 0x8;
pub const MSTATUS_MPIE: u64 = 0x80;
pub const MSTATUS_MPP: u64 = 0x1800;

// mie / mip bits
/// Machine software interrupt.
pub const MIE_MSIE: u64 = 0x8;
/// Machine timer interrupt.
pub const MIE_MTIE: u64 = 0x80;
/// Machine external interrupt.
pub const MIE_MEIE: u64 = 0x800;

/// The machine-level interrupt taken by an M-mode-only hart: none while mstatus.MIE is
/// clear, otherwise the first of external, timer, software that is both enabled and pending.
pub open spec fn machine_interrupt(mstatus: u64, mie: u64, mip: u64) -> Option<TrapCause> {
    if mstatus & MSTATUS_MIE == 0 {
        None
    } else {
        crate::traps::first_pending(mie & mip, MIE_MEIE, MIE_MTIE, MIE_MSIE)
    }
}

pub fn pending_interrupt(mstatus: u64, mie: u64, mip: u64) -> (r: Option<TrapCause>)
    ensures
        r == machine_interrupt(mstatus, mie, mip),
{
    if mstatus & MSTATUS_MIE == 0 {
        return None;
    }
    let pending = mie & mip;
    if pending & MIE_MEIE != 0 {
        return Some(TrapCause::ExternalInterrupt);
    }
    if pending & MIE_MTIE != 0 {
        return Some(TrapCause::TimerInterrupt);
    }
    if pending & MIE_MSIE != 0 {
        return Some(TrapCause::SoftwareInterrupt);
    }
    None
}

} // verus!
