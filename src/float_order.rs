//! The order of IEEE 754 binary64 numbers, read from their bit patterns.
//!
//! A value is handled here as the `u64` that `f64::to_bits` gives. The low 63
//! bits hold the exponent and the fraction, and for every value that is not NaN
//! the number grows strictly with them; the top bit is the sign. So the signed
//! magnitude (`rank`) orders the numbers as the reals do, with the two zeros
//! sharing rank 0.
use vstd::prelude::*;

verus! {

/// The sign bit of a binary64 pattern.
pub const SIGN_BIT: u64 = 0x8000_0000_0000_0000;

/// The pattern of positive infinity: the largest magnitude that is not NaN.
pub const INFINITY_BITS: u64 = 0x7ff0_0000_0000_0000;

/// The pattern of +0.0.
pub const ZERO_BITS: u64 = 0;

/// Exponent and fraction of the pattern, without the sign.
pub open spec fn magnitude(b: u64) -> int {
    (b as int) % (SIGN_BIT as int)
}

pub open spec fn is_negative(b: u64) -> bool {
    b >= SIGN_BIT
}

/// All exponent bits set and a fraction that is not zero.
pub open spec fn is_nan(b: u64) -> bool {
    magnitude(b) > INFINITY_BITS as int
}

/// Signed magnitude: on patterns that are not NaN, its order is the order of
/// the numbers.
pub open spec fn rank(b: u64) -> int {
    if is_negative(b) {
        -magnitude(b)
    } else {
        magnitude(b)
    }
}

/// `a < b` as `f64` compares them: false whenever either side is NaN.
pub open spec fn lt(a: u64, b: u64) -> bool {
    !is_nan(a) && !is_nan(b) && rank(a) < rank(b)
}

fn magnitude_of(b: u64) -> (m: u64)
    ensures
        m as int == magnitude(b),
{
    b % SIGN_BIT
}

/// Whether the number with pattern `b` is NaN.
pub fn nan_bits(b: u64) -> (r: bool)
    ensures
        r == is_nan(b),
{
    magnitude_of(b) > INFINITY_BITS
}

/// Compares two binary64 numbers given by their bit patterns, as `<` on `f64`.
pub fn less_than(a: u64, b: u64) -> (r: bool)
    ensures
        r == lt(a, b),
{
    let ma = magnitude_of(a);
    let mb = magnitude_of(b);
    if ma > INFINITY_BITS || mb > INFINITY_BITS {
        false
    } else if a >= SIGN_BIT && b >= SIGN_BIT {
        mb < ma
    } else if a >= SIGN_BIT {
        ma != 0 || mb != 0
    } else if b >= SIGN_BIT {
        false
    } else {
        ma < mb
    }
}

} // verus!
