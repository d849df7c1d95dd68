//! Splitting 64-bit registers into the two 32-bit halves that MMIO accesses see.
use vstd::prelude::*;

verus! {

/// The low 32 bits of `x`.
pub open spec fn spec_lo32(x: u64) -> u32 {
    x as u32
}

/// The high 32 bits of `x`.
pub open spec fn spec_hi32(x: u64) -> u32 {
    (x >> 32u64) as u32
}

/// `value` with its low 32 bits replaced by `low`.
pub open spec fn spec_set_low(value: u64, low: u32) -> u64 {
    (value & 0xFFFF_FFFF_0000_0000) | (low as u64)
}

/// `value` with its high 32 bits replaced by `high`.
pub open spec fn spec_set_high(value: u64, high: u32) -> u64 {
    (value & 0x0000_0000_FFFF_FFFF) | ((high as u64) << 32u64)
}

pub fn lo32(x: u64) -> (r: u32)
    ensures
        r == spec_lo32(x),
{
    x as u32
}

pub fn hi32(x: u64) -> (r: u32)
    ensures
        r == spec_hi32(x),
{
    (x >> 32) as u32
}

pub fn set_low(value: u64, low: u32) -> (r: u64)
    ensures
        r == spec_set_low(value, low),
{
    (value & 0xFFFF_FFFF_0000_0000) | (low as u64)
}

pub fn set_high(value: u64, high: u32) -> (r: u64)
    ensures
        r == spec_set_high(value, high),
{
    (value & 0x0000_0000_FFFF_FFFF) | ((high as u64) << 32)
}

/// A 32-bit value widened to 64 bits.
pub open spec fn spec_widen(x: u32) -> u64 {
    x as u64
}

pub fn widen(x: u32) -> (r: u64)
    ensures
        r == spec_widen(x),
        r == x,
{
    x as u64
}

/// Writing each half and reading it back gives what was written; the other half is kept.
pub proof fn lemma_halves(value: u64, v: u32)
    ensures
        spec_lo32(spec_set_low(value, v)) == v,
        spec_hi32(spec_set_low(value, v)) == spec_hi32(value),
        spec_hi32(spec_set_high(value, v)) == v,
        spec_lo32(spec_set_high(value, v)) == spec_lo32(value),
        spec_set_high(spec_set_low(value, spec_lo32(value)), spec_hi32(value)) == value,
{
    assert((((value & 0xFFFF_FFFF_0000_0000) | (v as u64)) as u32 == v) &&
        ((((value & 0xFFFF_FFFF_0000_0000) | (v as u64)) >> 32u64) as u32 == (value >> 32u64) as u32) &&
        ((((value & 0x0000_0000_FFFF_FFFF) | ((v as u64) << 32u64)) >> 32u64) as u32 == v) &&
        (((value & 0x0000_0000_FFFF_FFFF) | ((v as u64) << 32u64)) as u32 == value as u32) &&
        ((((value & 0xFFFF_FFFF_0000_0000) | ((value as u32) as u64)) & 0x0000_0000_FFFF_FFFF) | ((((value >> 32u64) as u32) as u64) << 32u64) == value)) by (bit_vector);
}

} // verus!
