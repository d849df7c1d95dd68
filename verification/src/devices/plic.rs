use vstd::prelude::*;
use vstd::std_specs::bits::u64_trailing_zeros;
use super::Device;
use crate::word::{hi32, lo32, set_high, set_low, spec_hi32, spec_lo32, spec_set_high, spec_set_low};

verus! {

/// Number of interrupt sources with a priority register.
pub const PLIC_SOURCES: usize = 53;

pub const PLIC_PRIORITY_END: u64 = 0x0D0;
pub const PLIC_PENDING_LO: u64 = 0x1000;
pub const PLIC_PENDING_HI: u64 = 0x1004;
pub const PLIC_ENABLE_LO: u64 = 0x2000;
pub const PLIC_ENABLE_HI: u64 = 0x2004;
pub const PLIC_THRESHOLD: u64 = 0x20_0000;
pub const PLIC_CLAIM: u64 = 0x20_0004;

/// PLIC, the platform-level interrupt controller (minimal stub): one context, with
/// priorities, a pending and an enable bitmap, a threshold, and claim/complete.
pub struct Plic {
    priority: [u32; 53],
    pending: u64,
    enabled: u64,
    threshold: u32,
}

/// The bit of interrupt source `irq` in the pending/enable bitmaps (source n is bit n-1).
pub open spec fn irq_bit(irq: u32) -> u64 {
    1u64 << ((irq - 1) as u64)
}

impl Plic {
    pub closed spec fn spec_priority(&self) -> Seq<u32> {
        self.priority@
    }

    pub closed spec fn spec_pending(&self) -> u64 {
        self.pending
    }

    pub closed spec fn spec_enabled(&self) -> u64 {
        self.enabled
    }

    pub closed spec fn spec_threshold(&self) -> u32 {
        self.threshold
    }

    /// The PLIC with the given registers.
    pub closed spec fn with_regs(priority: Seq<u32>, pending: u64, enabled: u64, threshold: u32) -> Plic {
        Plic {
            priority: choose|a: [u32; 53]| #[trigger] a@ == priority,
            pending,
            enabled,
            threshold,
        }
    }

    /// The PLIC right after reset: every register zero.
    pub open spec fn new_spec() -> Plic {
        Plic::with_regs(Seq::new(53, |i: int| 0u32), 0, 0, 0)
    }

    pub fn new() -> (p: Self)
        ensures
            p == Plic::new_spec(),
            p.spec_priority() == Seq::new(53, |i: int| 0u32),
            p.spec_pending() == 0,
            p.spec_enabled() == 0,
            p.spec_threshold() == 0,
    {
        let p = Self { priority: [0u32; 53], pending: 0, enabled: 0, threshold: 0 };
        assert(p.spec_priority() =~= Seq::new(53, |i: int| 0u32));
        proof { p.lemma_with_regs_self(); }
        p
    }

    /// Marks interrupt source `irq` (1..=63) pending; other values are ignored.
    pub fn raise(&mut self, irq: u32)
        ensures
            final(self).spec_pending() == if 0 < irq < 64 {
                old(self).spec_pending() | irq_bit(irq)
            } else {
                old(self).spec_pending()
            },
            final(self).spec_priority() == old(self).spec_priority(),
            final(self).spec_enabled() == old(self).spec_enabled(),
            final(self).spec_threshold() == old(self).spec_threshold(),
    {
        if irq > 0 && irq < 64 {
            self.pending = self.pending | (1u64 << ((irq - 1) as u64));
        }
    }

    /// The source a claim returns: the lowest-numbered pending and enabled source, or 0.
    pub open spec fn spec_claim(&self) -> u32 {
        let active = self.spec_pending() & self.spec_enabled();
        if active == 0 { 0 } else { (u64_trailing_zeros(active) + 1) as u32 }
    }

    fn claim(&self) -> (r: u32)
        ensures
            r == self.spec_claim(),
    {
        let active = self.pending & self.enabled;
        if active == 0 {
            0
        } else {
            proof {
                vstd::std_specs::bits::axiom_u64_trailing_zeros(active);
            }
            active.trailing_zeros() + 1
        }
    }

    /// Whether some enabled source is pending, so that a claim would return one.
    pub open spec fn spec_has_pending(&self) -> bool {
        self.spec_pending() & self.spec_enabled() != 0
    }

    pub fn has_pending(&self) -> (r: bool)
        ensures
            r == self.spec_has_pending(),
    {
        self.pending & self.enabled != 0
    }

    /// The pending bits after source `irq` (1..=63) completes; other values change nothing.
    pub open spec fn spec_after_complete(&self, irq: u32) -> u64 {
        if 0 < irq < 64 { self.spec_pending() & !irq_bit(irq) } else { self.spec_pending() }
    }

    fn complete(&mut self, irq: u32)
        ensures
            *final(self) == Plic::with_regs(
                old(self).spec_priority(),
                old(self).spec_after_complete(irq),
                old(self).spec_enabled(),
                old(self).spec_threshold(),
            ),
    {
        if irq > 0 && irq < 64 {
            self.pending = self.pending & !(1u64 << ((irq - 1) as u64));
        }
        proof { self.lemma_with_regs_self(); }
    }

    /// A PLIC is determined by its registers.
    proof fn lemma_with_regs_self(&self)
        ensures
            Plic::with_regs(self.spec_priority(), self.spec_pending(), self.spec_enabled(), self.spec_threshold())
                == *self,
    {
        let a = choose|a: [u32; 53]| #[trigger] a@ == self.priority@;
        assert(self.priority@ == self.priority@);
        vstd::array::axiom_array_ext_equal(a, self.priority);
        assert(a =~= self.priority);
    }
}

impl Device for Plic {
    open spec fn spec_read32(&self, offset: u64) -> u32 {
        if offset <= PLIC_PRIORITY_END {
            self.spec_priority()[(offset / 4) as int]
        } else if offset == PLIC_PENDING_LO {
            spec_lo32(self.spec_pending())
        } else if offset == PLIC_PENDING_HI {
            spec_hi32(self.spec_pending())
        } else if offset == PLIC_ENABLE_LO {
            spec_lo32(self.spec_enabled())
        } else if offset == PLIC_ENABLE_HI {
            spec_hi32(self.spec_enabled())
        } else if offset == PLIC_THRESHOLD {
            self.spec_threshold()
        } else if offset == PLIC_CLAIM {
            self.spec_claim()
        } else {
            0
        }
    }

    open spec fn spec_write32(&self, offset: u64, val: u32) -> Plic {
        let pr = self.spec_priority();
        let pd = self.spec_pending();
        let en = self.spec_enabled();
        let th = self.spec_threshold();
        if offset <= PLIC_PRIORITY_END {
            Plic::with_regs(pr.update((offset / 4) as int, val), pd, en, th)
        } else if offset == PLIC_ENABLE_LO {
            Plic::with_regs(pr, pd, spec_set_low(en, val), th)
        } else if offset == PLIC_ENABLE_HI {
            Plic::with_regs(pr, pd, spec_set_high(en, val), th)
        } else if offset == PLIC_THRESHOLD {
            Plic::with_regs(pr, pd, en, val)
        } else if offset == PLIC_CLAIM {
            Plic::with_regs(pr, self.spec_after_complete(val), en, th)
        } else {
            *self
        }
    }

    fn read32(&self, offset: u64) -> (r: u32) {
        if offset <= PLIC_PRIORITY_END {
            let idx = (offset / 4) as usize;
            if idx < PLIC_SOURCES { self.priority[idx] } else { 0 }
        } else if offset == PLIC_PENDING_LO {
            lo32(self.pending)
        } else if offset == PLIC_PENDING_HI {
            hi32(self.pending)
        } else if offset == PLIC_ENABLE_LO {
            lo32(self.enabled)
        } else if offset == PLIC_ENABLE_HI {
            hi32(self.enabled)
        } else if offset == PLIC_THRESHOLD {
            self.threshold
        } else if offset == PLIC_CLAIM {
            self.claim()
        } else {
            0
        }
    }

    fn write32(&mut self, offset: u64, val: u32) {
        if offset <= PLIC_PRIORITY_END {
            let idx = (offset / 4) as usize;
            if idx < PLIC_SOURCES {
                self.priority[idx] = val;
            }
        } else if offset == PLIC_ENABLE_LO {
            self.enabled = set_low(self.enabled, val);
        } else if offset == PLIC_ENABLE_HI {
            self.enabled = set_high(self.enabled, val);
        } else if offset == PLIC_THRESHOLD {
            self.threshold = val;
        } else if offset == PLIC_CLAIM {
            self.complete(val);
            return;
        } else {
            return;
        }
        proof { self.lemma_with_regs_self(); }
    }
}

/// Completing source `irq` (1..=63) through the claim register clears its pending bit and
/// keeps the other registers; the claim register reads 0 exactly when no enabled source is
/// pending, and otherwise the lowest-numbered source that is both pending and enabled.
pub proof fn lemma_plic_claim_complete(p: Plic, irq: u32)
    requires
        0 < irq < 64,
    ensures
        p.spec_write32(PLIC_CLAIM, irq).spec_pending() & irq_bit(irq) == 0,
        p.spec_write32(PLIC_CLAIM, irq).spec_enabled() == p.spec_enabled(),
        p.spec_write32(PLIC_CLAIM, irq).spec_priority() == p.spec_priority(),
        (p.spec_read32(PLIC_CLAIM) == 0) == !p.spec_has_pending(),
        p.spec_has_pending() ==> p.spec_pending() & p.spec_enabled() & irq_bit(p.spec_read32(PLIC_CLAIM)) != 0,
        forall|s: u32|
            0 < s < p.spec_read32(PLIC_CLAIM) ==> #[trigger] ((p.spec_pending() & p.spec_enabled()) >> ((s - 1) as u64)) & 1
                == 0,
{
    let pd = p.spec_pending();
    let b = irq_bit(irq);
    assert((pd & !b) & b == 0) by (bit_vector);
    let active = p.spec_pending() & p.spec_enabled();
    vstd::std_specs::bits::axiom_u64_trailing_zeros(active);
    let pr = p.spec_priority();
    let en = p.spec_enabled();
    let th = p.spec_threshold();
    let q = Plic::with_regs(pr, p.spec_after_complete(irq), en, th);
    assert(q.spec_pending() == p.spec_after_complete(irq));
    assert(q.spec_priority() =~= pr);
    if active != 0 {
        let t = u64_trailing_zeros(active) as u64;
        assert forall|s: u32| 0 < s < p.spec_read32(PLIC_CLAIM) implies #[trigger] (active >> ((s - 1) as u64)) & 1 == 0 by {
            let j = (s - 1) as u64;
            assert(j < u64_trailing_zeros(active));
            assert((active >> j) & 1u64 == 0u64);
        }
        assert(((t + 1) as u32 - 1) as u64 == t);
        assert((active >> t) & 1 == 1 && t < 64 ==> active & (1u64 << t) != 0) by (bit_vector);
    }
}

} // verus!
