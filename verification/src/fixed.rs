//! Unsigned 64.64 fixed-point numbers, used to project per-epoch emission
//! into daily returns. A value is its raw bit pattern: `bits / 2^64`.
//!
//! Multiplication and division are delegated to `substrate_fixed::types::U64F64`;
//! everything else (conversion, truncation, saturating addition) is verified here.
use vstd::prelude::*;

verus! {

/// One in 64.64 fixed point: 2^64.
pub const FIXED_ONE: u128 = 0x1_0000_0000_0000_0000;

/// The fraction of projected daily emission credited to nominators,
/// 0.82 in 64.64 fixed point (the value the 64-bit float 0.82 converts to).
pub const RETURN_FACTOR_BITS: u128 = 0xd1eb_851e_b851_e800;

/// An unsigned 64.64 fixed-point number; the represented value is
/// `bits / 2^64`.
pub struct Fixed {
    pub bits: u128,
}

/// Clamps a nonnegative mathematical integer into `u64`.
pub open spec fn sat_u64(v: int) -> u64 {
    if v > u64::MAX {
        u64::MAX
    } else {
        v as u64
    }
}

/// Clamps a nonnegative mathematical integer into `u128`.
pub open spec fn sat_u128(v: int) -> u128 {
    if v > u128::MAX {
        u128::MAX
    } else {
        v as u128
    }
}

/// The bit pattern of the saturating 64.64 product: `(a * b) >> 64`,
/// truncated, clamped at the largest representable value.
pub open spec fn fixed_mul_spec(a: u128, b: u128) -> u128 {
    sat_u128((a * b) / (FIXED_ONE as int))
}

/// The bit pattern of the saturating 64.64 quotient: `(a << 64) / b`,
/// truncated, clamped at the largest representable value.
pub open spec fn fixed_div_spec(a: u128, b: u128) -> u128 {
    sat_u128((a * FIXED_ONE) / (b as int))
}

/// The bit pattern of the saturating sum.
pub open spec fn fixed_add_spec(a: u128, b: u128) -> u128 {
    sat_u128(a + b)
}

impl Fixed {
    /// The fixed-point image of a whole number.
    pub fn from_u64(x: u64) -> (r: Fixed)
        ensures
            r.bits == x * FIXED_ONE,
    {
        Fixed { bits: (x as u128) * FIXED_ONE }
    }

    /// The integer part of the value (truncation toward zero); it always
    /// fits in 64 bits because the fractional part occupies the low 64.
    pub fn trunc(&self) -> (r: u64)
        ensures
            r == self.bits / FIXED_ONE,
    {
        (self.bits / FIXED_ONE) as u64
    }

    /// Saturating addition of two fixed-point values.
    pub fn saturating_add(&self, rhs: &Fixed) -> (r: Fixed)
        ensures
            r.bits == fixed_add_spec(self.bits, rhs.bits),
    {
        if self.bits <= u128::MAX - rhs.bits {
            Fixed { bits: self.bits + rhs.bits }
        } else {
            Fixed { bits: u128::MAX }
        }
    }
}

/// A fixed-point quotient is nonzero as soon as the widened numerator
/// reaches the divisor.
pub proof fn lemma_fixed_div_nonzero(a: u128, b: u128)
    requires
        b > 0,
        (a as int) * (FIXED_ONE as int) >= b as int,
    ensures
        fixed_div_spec(a, b) >= 1,
{
    let num = (a as int) * (FIXED_ONE as int);
    let bi = b as int;
    vstd::arithmetic::div_mod::lemma_div_is_ordered(bi, num, bi);
    vstd::arithmetic::div_mod::lemma_div_by_self(bi);
}

/// Relies on `substrate_fixed`'s `U64F64::saturating_mul`: the full 256-bit
/// product of the bit patterns, shifted right by the 64 fractional bits and
/// clamped at the maximum on overflow.
#[verifier::external_body]
pub fn fixed_mul(a: &Fixed, b: &Fixed) -> (r: Fixed)
    ensures
        r.bits == fixed_mul_spec(a.bits, b.bits),
{
    let x = substrate_fixed::types::U64F64::from_bits(a.bits);
    let y = substrate_fixed::types::U64F64::from_bits(b.bits);
    Fixed { bits: x.saturating_mul(y).to_bits() }
}

/// Relies on `substrate_fixed`'s `U64F64::saturating_div`: the bit pattern
/// widened by the 64 fractional bits, divided by the divisor's bit pattern
/// and clamped at the maximum on overflow. It panics on a zero divisor, so
/// that input is excluded here.
#[verifier::external_body]
pub fn fixed_div(a: &Fixed, b: &Fixed) -> (r: Fixed)
    requires
        b.bits != 0,
    ensures
        r.bits == fixed_div_spec(a.bits, b.bits),
{
    let x = substrate_fixed::types::U64F64::from_bits(a.bits);
    let y = substrate_fixed::types::U64F64::from_bits(b.bits);
    Fixed { bits: x.saturating_div(y).to_bits() }
}

} // verus!
