//! Ordering of distances given as IEEE 754 binary64 bit patterns.

use vstd::prelude::*;

verus! {

/// The bit that holds the sign of a binary64 number.
pub const SIGN_BIT: u64 = 0x8000_0000_0000_0000;

/// The bit pattern of positive infinity. Every magnitude above it is a NaN.
pub const INFINITY_BITS: u64 = 0x7ff0_0000_0000_0000;

/// The pattern with its sign bit cleared.
pub open spec fn magnitude(bits: u64) -> int {
    if bits >= SIGN_BIT {
        bits - SIGN_BIT
    } else {
        bits as int
    }
}

/// Whether the pattern encodes a NaN: all exponent bits set and a fraction
/// that is not zero.
pub open spec fn is_nan(bits: u64) -> bool {
    magnitude(bits) > INFINITY_BITS
}

/// The place of a pattern that is not a NaN in the numeric order: two such
/// patterns compare as numbers exactly as their ranks compare as integers.
/// Both zeros have rank 0.
pub open spec fn rank(bits: u64) -> int {
    if bits >= SIGN_BIT {
        -magnitude(bits)
    } else {
        magnitude(bits)
    }
}

/// Tells whether a distance is a NaN.
pub fn is_nan_bits(bits: u64) -> (nan: bool)
    ensures
        nan == is_nan(bits),
{
    let mag: u64 = if bits >= SIGN_BIT {
        bits - SIGN_BIT
    } else {
        bits
    };
    mag > INFINITY_BITS
}

/// Tells whether `a` is strictly smaller than `b` as a number. A NaN is
/// smaller than nothing and nothing is smaller than a NaN.
pub fn precedes(a: u64, b: u64) -> (less: bool)
    ensures
        less == (!is_nan(a) && !is_nan(b) && rank(a) < rank(b)),
{
    if is_nan_bits(a) || is_nan_bits(b) {
        false
    } else if a >= SIGN_BIT {
        if b >= SIGN_BIT {
            a > b
        } else {
            a > SIGN_BIT || b > 0
        }
    } else {
        b < SIGN_BIT && a < b
    }
}

} // verus!
