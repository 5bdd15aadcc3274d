//! Single-precision numbers carried as their IEEE-754 bit patterns.
//!
//! Scores, importances and embeddings are `f32` values in the data model.
//! The library holds them as the `u32` bit pattern that `f32::to_bits`
//! gives, and compares them here with the IEEE-754 ordering: NaN is
//! unordered, and the two zeros are equal.

use vstd::prelude::*;

verus! {

/// Bit pattern of `0.0f32`.
pub const F32_ZERO: u32 = 0x0000_0000u32;

/// Bit pattern of `0.5f32`.
pub const F32_HALF: u32 = 0x3F00_0000u32;

/// Bit pattern of `1.0f32`.
pub const F32_ONE: u32 = 0x3F80_0000u32;

/// Bit pattern of `-1.0f32`.
pub const F32_MINUS_ONE: u32 = 0xBF80_0000u32;

/// The pattern encodes a NaN: all exponent bits set and a non-zero mantissa.
pub open spec fn f32_is_nan(b: u32) -> bool {
    (b & 0x7F80_0000u32) == 0x7F80_0000u32 && (b & 0x007F_FFFFu32) != 0
}

/// The pattern encodes `+0.0` or `-0.0`.
pub open spec fn f32_is_zero(b: u32) -> bool {
    (b & 0x7FFF_FFFFu32) == 0
}

/// A key whose unsigned order is the numeric order of the non-NaN values
/// (with `-0.0` just below `+0.0`).
pub open spec fn f32_order_key(b: u32) -> u32 {
    if (b & 0x8000_0000u32) != 0 {
        !b
    } else {
        b | 0x8000_0000u32
    }
}

/// IEEE-754 `a < b`.
pub open spec fn f32_lt(a: u32, b: u32) -> bool {
    !f32_is_nan(a) && !f32_is_nan(b) && !(f32_is_zero(a) && f32_is_zero(b)) && f32_order_key(a)
        < f32_order_key(b)
}

/// IEEE-754 `a <= b`.
pub open spec fn f32_le(a: u32, b: u32) -> bool {
    !f32_is_nan(a) && !f32_is_nan(b) && ((f32_is_zero(a) && f32_is_zero(b)) || f32_order_key(a)
        <= f32_order_key(b))
}

/// What `f32::clamp(x, 0.0, 1.0)` returns: the bound that `x` passes, else `x`
/// itself (a NaN stays NaN).
pub open spec fn f32_clamp_unit(x: u32) -> u32 {
    if f32_lt(x, F32_ZERO) {
        F32_ZERO
    } else if f32_lt(F32_ONE, x) {
        F32_ONE
    } else {
        x
    }
}

fn is_nan(b: u32) -> (r: bool)
    ensures
        r == f32_is_nan(b),
{
    (b & 0x7F80_0000u32) == 0x7F80_0000u32 && (b & 0x007F_FFFFu32) != 0
}

fn is_zero(b: u32) -> (r: bool)
    ensures
        r == f32_is_zero(b),
{
    (b & 0x7FFF_FFFFu32) == 0
}

fn order_key(b: u32) -> (r: u32)
    ensures
        r == f32_order_key(b),
{
    if (b & 0x8000_0000u32) != 0 {
        !b
    } else {
        b | 0x8000_0000u32
    }
}

/// IEEE-754 `a < b` on bit patterns.
pub fn lt(a: u32, b: u32) -> (r: bool)
    ensures
        r == f32_lt(a, b),
{
    !is_nan(a) && !is_nan(b) && !(is_zero(a) && is_zero(b)) && order_key(a) < order_key(b)
}

/// IEEE-754 `a <= b` on bit patterns.
pub fn le(a: u32, b: u32) -> (r: bool)
    ensures
        r == f32_le(a, b),
{
    !is_nan(a) && !is_nan(b) && ((is_zero(a) && is_zero(b)) || order_key(a) <= order_key(b))
}

/// `f32::clamp(x, 0.0, 1.0)` on bit patterns.
pub fn clamp_unit(x: u32) -> (r: u32)
    ensures
        r == f32_clamp_unit(x),
{
    if lt(x, F32_ZERO) {
        F32_ZERO
    } else if lt(F32_ONE, x) {
        F32_ONE
    } else {
        x
    }
}

/// The result of clamping lies in the unit interval, unless the input was NaN.
pub proof fn lemma_clamp_unit_in_range(x: u32)
    ensures
        !f32_is_nan(x) ==> f32_le(F32_ZERO, f32_clamp_unit(x)) && f32_le(f32_clamp_unit(x), F32_ONE),
        f32_is_nan(x) ==> f32_clamp_unit(x) == x,
{
    assert(!f32_is_nan(F32_ZERO) && !f32_is_nan(F32_ONE)) by (bit_vector);
    assert(f32_order_key(F32_ZERO) == 0x8000_0000u32) by (bit_vector);
    assert(f32_order_key(F32_ONE) == 0xBF80_0000u32) by (bit_vector);
    assert(f32_is_zero(F32_ZERO) && !f32_is_zero(F32_ONE)) by (bit_vector);
    if !f32_is_nan(x) {
        assert(f32_is_zero(x) ==> (f32_order_key(x) == 0x8000_0000u32 || f32_order_key(x)
            == 0x7FFF_FFFFu32)) by (bit_vector);
    }
}

} // verus!
