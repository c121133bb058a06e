//! Probabilities as IEEE-754 binary32 bit patterns.
//!
//! The library never computes with floating-point values; it only compares them.
//! A probability is therefore carried as the `u32` bit pattern of its `f32`
//! (`f32::to_bits`), and compared through an integer key whose order is the numeric
//! order of the values: negative values below positive ones, `-0.0` equal to `+0.0`.
//! A NaN compares as nothing, exactly as `>=` on floats does.
use vstd::prelude::*;

verus! {

/// Bit pattern of `0.35f32`, the default confidence threshold.
pub const DEFAULT_THRESHOLD: u32 = 0x3EB3_3333;

/// The sign bit of a binary32 pattern.
pub const SIGN_BIT: u32 = 0x8000_0000;

/// The pattern of positive infinity; larger magnitudes are NaNs.
pub const INFINITY_BITS: u32 = 0x7F80_0000;

/// The absolute value's pattern: the bits without the sign.
pub open spec fn magnitude(bits: u32) -> int {
    bits as int % 0x8000_0000
}

/// Whether the pattern encodes a NaN.
pub open spec fn is_nan_bits(bits: u32) -> bool {
    magnitude(bits) > 0x7F80_0000
}

/// An integer whose order is the numeric order of the encoded values.
pub open spec fn order_key(bits: u32) -> int {
    if bits >= 0x8000_0000 {
        0x8000_0000 - magnitude(bits)
    } else {
        0x8000_0000 + magnitude(bits)
    }
}

/// `p >= t` on the encoded values: false when either is NaN.
pub open spec fn at_least(p: u32, t: u32) -> bool {
    !is_nan_bits(p) && !is_nan_bits(t) && order_key(p) >= order_key(t)
}

/// The order key of a pattern, as a machine integer.
pub fn probability_key(bits: u32) -> (k: u32)
    ensures
        k as int == order_key(bits),
{
    if bits >= SIGN_BIT {
        SIGN_BIT - (bits - SIGN_BIT)
    } else {
        SIGN_BIT + bits
    }
}

/// Whether the pattern encodes a NaN.
pub fn is_nan(bits: u32) -> (r: bool)
    ensures
        r == is_nan_bits(bits),
{
    let mag: u32 = if bits >= SIGN_BIT {
        bits - SIGN_BIT
    } else {
        bits
    };
    mag > INFINITY_BITS
}

/// Whether probability `p` reaches threshold `t` (`p >= t` on the encoded values).
pub fn meets_threshold(p: u32, t: u32) -> (r: bool)
    ensures
        r == at_least(p, t),
{
    !is_nan(p) && !is_nan(t) && probability_key(p) >= probability_key(t)
}

} // verus!
