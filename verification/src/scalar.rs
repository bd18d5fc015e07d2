//! Comparison of IEEE 754 binary32 numbers by their bit patterns.
//!
//! A pattern has a sign bit, eight exponent bits and twenty-three fraction bits.
//! Two facts about the encoding are all that comparison for equality needs: a
//! pattern whose magnitude lies above that of infinity is a NaN, and the two
//! patterns of magnitude zero are the two zeros.

use vstd::prelude::*;

verus! {

/// The sign bit of a pattern.
pub const SIGN_BIT: u32 = 0x8000_0000;

/// The pattern of positive infinity. Every larger magnitude is a NaN.
pub const INFINITY_BITS: u32 = 0x7f80_0000;

/// The pattern with its sign bit cleared.
pub open spec fn spec_magnitude(bits: u32) -> u32 {
    if bits >= SIGN_BIT {
        (bits - SIGN_BIT) as u32
    } else {
        bits
    }
}

/// Whether the pattern encodes a NaN.
pub open spec fn spec_is_nan(bits: u32) -> bool {
    spec_magnitude(bits) > INFINITY_BITS
}

/// Whether the pattern encodes positive or negative zero.
pub open spec fn spec_is_zero(bits: u32) -> bool {
    spec_magnitude(bits) == 0
}

/// Numeric equality of the two encoded numbers: a NaN equals nothing, not even
/// itself; the two zeros equal each other; any other number equals only its own
/// pattern.
pub open spec fn spec_scalar_eq(a: u32, b: u32) -> bool {
    &&& !spec_is_nan(a)
    &&& !spec_is_nan(b)
    &&& (a == b || (spec_is_zero(a) && spec_is_zero(b)))
}

/// Numeric equality of two optional numbers: two absent ones are equal, two
/// present ones are compared as numbers, and an absent one never equals a
/// present one.
pub open spec fn spec_optional_eq(a: Option<u32>, b: Option<u32>) -> bool {
    match (a, b) {
        (None, None) => true,
        (Some(x), Some(y)) => spec_scalar_eq(x, y),
        _ => false,
    }
}

/// Clears the sign bit.
#[verifier::when_used_as_spec(spec_magnitude)]
pub fn magnitude(bits: u32) -> (m: u32)
    ensures
        m == spec_magnitude(bits),
{
    if bits >= SIGN_BIT {
        bits - SIGN_BIT
    } else {
        bits
    }
}

/// Tells whether the pattern encodes a NaN.
#[verifier::when_used_as_spec(spec_is_nan)]
pub fn is_nan(bits: u32) -> (r: bool)
    ensures
        r == spec_is_nan(bits),
{
    magnitude(bits) > INFINITY_BITS
}

/// Tells whether the pattern encodes one of the two zeros.
#[verifier::when_used_as_spec(spec_is_zero)]
pub fn is_zero(bits: u32) -> (r: bool)
    ensures
        r == spec_is_zero(bits),
{
    magnitude(bits) == 0
}

/// Compares the two encoded numbers for equality.
#[verifier::when_used_as_spec(spec_scalar_eq)]
pub fn scalar_eq(a: u32, b: u32) -> (r: bool)
    ensures
        r == spec_scalar_eq(a, b),
{
    !is_nan(a) && !is_nan(b) && (a == b || (is_zero(a) && is_zero(b)))
}

/// Compares two optional numbers for equality.
#[verifier::when_used_as_spec(spec_optional_eq)]
pub fn optional_eq(a: Option<u32>, b: Option<u32>) -> (r: bool)
    ensures
        r == spec_optional_eq(a, b),
{
    match (a, b) {
        (None, None) => true,
        (Some(x), Some(y)) => scalar_eq(x, y),
        _ => false,
    }
}

/// The magnitude is the pattern with the sign bit masked off.
pub proof fn magnitude_masks_the_sign(bits: u32)
    ensures
        spec_magnitude(bits) == bits & 0x7fff_ffff,
{
    assert(bits >= 0x8000_0000u32 ==> (bits - 0x8000_0000u32) as u32 == bits & 0x7fff_ffff)
        by (bit_vector);
    assert(bits < 0x8000_0000u32 ==> bits == bits & 0x7fff_ffff) by (bit_vector);
}

/// A pattern is a NaN exactly when all eight exponent bits are set and some
/// fraction bit is set.
pub proof fn nan_by_its_fields(bits: u32)
    ensures
        spec_is_nan(bits) <==> (bits & 0x7f80_0000 == 0x7f80_0000 && bits & 0x007f_ffff != 0),
{
    magnitude_masks_the_sign(bits);
    let m: u32 = bits & 0x7fff_ffff;
    assert(m > 0x7f80_0000u32 <==> (bits & 0x7f80_0000 == 0x7f80_0000 && bits & 0x007f_ffff
        != 0)) by (bit_vector)
        requires
            m == bits & 0x7fff_ffff,
    ;
}

} // verus!
