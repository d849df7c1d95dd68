use vstd::prelude::*;
use crate::cpu::csr::{
    Privilege, MIP_MEIP, MIP_MSIP, MIP_MTIP, MIP_SEIP, MIP_SSIP, MIP_STIP, MSTATUS_MIE, MSTATUS_SIE,
};

pub mod interrupts;

verus! {

/// The reason a trap is taken: a synchronous exception or an asynchronous interrupt.
#[derive(Debug, Clone, Copy, PartialEq, Eq, Structural)]
pub enum TrapCause {
    InstructionAddressMisaligned,
    InstructionAccessFault,
    IllegalInstruction(u32),
    Breakpoint,
    LoadAddressMisaligned,
    LoadAccessFault,
    StoreAddressMisaligned,
    StoreAccessFault,
    EcallFromU,
    EcallFromS,
    EcallFromM,
    InstructionPageFault,
    LoadPageFault,
    StorePageFault,
    SoftwareInterrupt,
    TimerInterrupt,
    ExternalInterrupt,
}

/// Bit 63 of mcause/scause: set for interrupts.
pub const INTERRUPT_BIT: u64 = 0x8000_0000_0000_0000;

impl TrapCause {
    /// The value written to mcause/scause for this cause.
    pub open spec fn spec_code(self) -> u64 {
        match self {
            TrapCause::InstructionAddressMisaligned => 0,
            TrapCause::InstructionAccessFault => 1,
            TrapCause::IllegalInstruction(_) => 2,
            TrapCause::Breakpoint => 3,
            TrapCause::LoadAddressMisaligned => 4,
            TrapCause::LoadAccessFault => 5,
            TrapCause::StoreAddressMisaligned => 6,
            TrapCause::StoreAccessFault => 7,
            TrapCause::EcallFromU => 8,
            TrapCause::EcallFromS => 9,
            TrapCause::EcallFromM => 11,
            TrapCause::InstructionPageFault => 12,
            TrapCause::LoadPageFault => 13,
            TrapCause::StorePageFault => 15,
            TrapCause::SoftwareInterrupt => INTERRUPT_BIT | 3,
            TrapCause::TimerInterrupt => INTERRUPT_BIT | 7,
            TrapCause::ExternalInterrupt => INTERRUPT_BIT | 11,
        }
    }

    pub open spec fn spec_is_interrupt(self) -> bool {
        self is SoftwareInterrupt || self is TimerInterrupt || self is ExternalInterrupt
    }

    pub fn code(self) -> (r: u64)
        ensures
            r == self.spec_code(),
    {
        match self {
            TrapCause::InstructionAddressMisaligned => 0,
            TrapCause::InstructionAccessFault => 1,
            TrapCause::IllegalInstruction(_) => 2,
            TrapCause::Breakpoint => 3,
            TrapCause::LoadAddressMisaligned => 4,
            TrapCause::LoadAccessFault => 5,
            TrapCause::StoreAddressMisaligned => 6,
            TrapCause::StoreAccessFault => 7,
            TrapCause::EcallFromU => 8,
            TrapCause::EcallFromS => 9,
            TrapCause::EcallFromM => 11,
            TrapCause::InstructionPageFault => 12,
            TrapCause::LoadPageFault => 13,
            TrapCause::StorePageFault => 15,
            TrapCause::SoftwareInterrupt => INTERRUPT_BIT | 3,
            TrapCause::TimerInterrupt => INTERRUPT_BIT | 7,
            TrapCause::ExternalInterrupt => INTERRUPT_BIT | 11,
        }
    }

    pub fn is_interrupt(self) -> (r: bool)
        ensures
            r == self.spec_is_interrupt(),
    {
        matches!(self, TrapCause::SoftwareInterrupt | TrapCause::TimerInterrupt | TrapCause::ExternalInterrupt)
    }

    /// The cause code without the interrupt bit.
    pub fn exception_code(self) -> (r: u64)
        ensures
            r == self.spec_code() & !INTERRUPT_BIT,
            r < 16,
            self.spec_code() == if self.spec_is_interrupt() { r | INTERRUPT_BIT } else { r },
    {
        let c = self.code();
        proof {
            let x = c;
            assert(((INTERRUPT_BIT | 3) & !INTERRUPT_BIT == 3)
                && ((INTERRUPT_BIT | 7) & !INTERRUPT_BIT == 7)
                && ((INTERRUPT_BIT | 11) & !INTERRUPT_BIT == 11)
                && (x < 16 ==> x & !INTERRUPT_BIT == x)
                && (3u64 | INTERRUPT_BIT == INTERRUPT_BIT | 3)
                && (7u64 | INTERRUPT_BIT == INTERRUPT_BIT | 7)
                && (11u64 | INTERRUPT_BIT == INTERRUPT_BIT | 11)) by (bit_vector);
        }
        c & !INTERRUPT_BIT
    }
}

/// The highest-priority interrupt among `bits` that is pending in `pending`, in the
/// order external, timer, software, or None.
pub open spec fn first_pending(pending: u64, ext: u64, timer: u64, soft: u64) -> Option<TrapCause> {
    if pending & ext != 0 {
        Some(TrapCause::ExternalInterrupt)
    } else if pending & timer != 0 {
        Some(TrapCause::TimerInterrupt)
    } else if pending & soft != 0 {
        Some(TrapCause::SoftwareInterrupt)
    } else {
        None
    }
}

/// Which interrupt the hart takes, if any, and whether it goes to S-mode (`true`) or M-mode.
/// Machine-level interrupts (MEIP, MTIP, MSIP, in that order) come first, are enabled by
/// mstatus.MIE in M-mode and always below it, and always go to M-mode; then, below M-mode only, the supervisor
/// interrupts (SEIP, STIP, SSIP) that are delegated in mideleg, enabled by mstatus.SIE in
/// S-mode and always in U-mode.
pub open spec fn interrupt_to_take(mstatus: u64, mie: u64, mip: u64, p: Privilege, mideleg: u64)
    -> Option<(TrapCause, bool)>
{
    let pending = mie & mip;
    let m_enabled = p != Privilege::M || mstatus & MSTATUS_MIE != 0;
    let m_irq = first_pending(pending, MIP_MEIP, MIP_MTIP, MIP_MSIP);
    let s_enabled = p == Privilege::U || mstatus & MSTATUS_SIE != 0;
    let s_irq = first_pending(pending & mideleg, MIP_SEIP, MIP_STIP, MIP_SSIP);
    if m_enabled && m_irq is Some {
        Some((m_irq->0, false))
    } else if p == Privilege::M {
        None
    } else if s_enabled && s_irq is Some {
        Some((s_irq->0, true))
    } else {
        None
    }
}

pub fn pending_interrupt(mstatus: u64, mie: u64, mip: u64, priv_level: Privilege, mideleg: u64)
    -> (r: Option<(TrapCause, bool)>)
    ensures
        r == interrupt_to_take(mstatus, mie, mip, priv_level, mideleg),
{
    let pending = mie & mip;
    let m_enabled = match priv_level {
        Privilege::M => (mstatus & MSTATUS_MIE) != 0,
        Privilege::S | Privilege::U => true,
    };
    if m_enabled {
        if pending & MIP_MEIP != 0 {
            return Some((TrapCause::ExternalInterrupt, false));
        }
        if pending & MIP_MTIP != 0 {
            return Some((TrapCause::TimerInterrupt, false));
        }
        if pending & MIP_MSIP != 0 {
            return Some((TrapCause::SoftwareInterrupt, false));
        }
    }
    if priv_level == Privilege::M {
        return None;
    }
    let s_enabled = match priv_level {
        Privilege::S => (mstatus & MSTATUS_SIE) != 0,
        _ => true,
    };
    if s_enabled {
        proof {
            let (pd, dl) = (pending, mideleg);
            assert(((pd & 0x200 != 0 && dl & 0x200 != 0) <==> (pd & dl) & 0x200 != 0)
                && ((pd & 0x20 != 0 && dl & 0x20 != 0) <==> (pd & dl) & 0x20 != 0)
                && ((pd & 0x2 != 0 && dl & 0x2 != 0) <==> (pd & dl) & 0x2 != 0)) by (bit_vector);
        }
        if pending & MIP_SEIP != 0 && (mideleg & MIP_SEIP) != 0 {
            return Some((TrapCause::ExternalInterrupt, true));
        }
        if pending & MIP_STIP != 0 && (mideleg & MIP_STIP) != 0 {
            return Some((TrapCause::TimerInterrupt, true));
        }
        if pending & MIP_SSIP != 0 && (mideleg & MIP_SSIP) != 0 {
            return Some((TrapCause::SoftwareInterrupt, true));
        }
    }
    None
}

/// Every interrupt that `pending_interrupt` reports is an interrupt cause; none is reported
/// while the hart runs in M-mode with mstatus.MIE clear; and a pending machine-level
/// interrupt that is enabled is never delegated: it goes to M-mode.
pub proof fn lemma_pending_interrupt_is_interrupt(
    mstatus: u64,
    mie: u64,
    mip: u64,
    p: Privilege,
    mideleg: u64,
)
    ensures
        interrupt_to_take(mstatus, mie, mip, p, mideleg) matches Some((c, _)) ==> c.spec_is_interrupt(),
        first_pending(mie & mip, MIP_MEIP, MIP_MTIP, MIP_MSIP) is Some && (p != Privilege::M || mstatus & MSTATUS_MIE
            != 0) ==> (interrupt_to_take(mstatus, mie, mip, p, mideleg) matches Some((_, to_s)) && !to_s),
        p == Privilege::M && mstatus & MSTATUS_MIE == 0 ==> interrupt_to_take(mstatus, mie, mip, p, mideleg) is None,
{
}

} // verus!
