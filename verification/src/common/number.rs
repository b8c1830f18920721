//! Numbers of the language are IEEE 754 double-precision values, carried as their
//! 64-bit patterns. Comparing two of them is integer work on the patterns and is
//! done here; arithmetic, reading digits and printing are left to the host.

use vstd::prelude::*;

verus! {

/// The pattern of the sign bit alone.
pub const SIGN_BIT: u64 = 0x8000_0000_0000_0000u64;

/// The pattern of positive infinity: every exponent bit set, no fraction bit.
pub const INFINITY: u64 = 0x7FF0_0000_0000_0000u64;

/// The pattern of `-1`.
pub const MINUS_ONE: u64 = 0xBFF0_0000_0000_0000u64;

/// The pattern without its sign bit.
pub open spec fn magnitude(bits: u64) -> int {
    if bits >= SIGN_BIT {
        bits - SIGN_BIT
    } else {
        bits as int
    }
}

/// Not a number: the exponent bits are all set and some fraction bit is set.
pub open spec fn is_nan(bits: u64) -> bool {
    magnitude(bits) > INFINITY
}

/// An integer that orders the patterns as the values they stand for are ordered:
/// the magnitude, negated under a set sign bit. Both zeros get 0.
pub open spec fn rank(bits: u64) -> int {
    if bits >= SIGN_BIT {
        -magnitude(bits)
    } else {
        magnitude(bits)
    }
}

/// `a == b` on the values: false when either is not a number.
pub open spec fn equal(a: u64, b: u64) -> bool {
    !is_nan(a) && !is_nan(b) && rank(a) == rank(b)
}

/// `a < b` on the values: false when either is not a number.
pub open spec fn less(a: u64, b: u64) -> bool {
    !is_nan(a) && !is_nan(b) && rank(a) < rank(b)
}

/// `a <= b` on the values: false when either is not a number.
pub open spec fn less_or_equal(a: u64, b: u64) -> bool {
    !is_nan(a) && !is_nan(b) && rank(a) <= rank(b)
}

fn magnitude_of(bits: u64) -> (m: u64)
    ensures
        m == magnitude(bits),
{
    if bits >= SIGN_BIT {
        bits - SIGN_BIT
    } else {
        bits
    }
}

pub fn number_is_nan(bits: u64) -> (r: bool)
    ensures
        r == is_nan(bits),
{
    magnitude_of(bits) > INFINITY
}

/// Whether the value of `a` is below that of `b`, given that neither is not a number.
fn rank_below(a: u64, b: u64) -> (r: bool)
    ensures
        r == (rank(a) < rank(b)),
{
    let negative_a = a >= SIGN_BIT;
    let negative_b = b >= SIGN_BIT;
    let ma = magnitude_of(a);
    let mb = magnitude_of(b);
    if negative_a {
        if negative_b {
            mb < ma
        } else {
            ma > 0 || mb > 0
        }
    } else {
        if negative_b {
            false
        } else {
            ma < mb
        }
    }
}

pub fn number_equal(a: u64, b: u64) -> (r: bool)
    ensures
        r == equal(a, b),
{
    !number_is_nan(a) && !number_is_nan(b) && !rank_below(a, b) && !rank_below(b, a)
}

pub fn number_less(a: u64, b: u64) -> (r: bool)
    ensures
        r == less(a, b),
{
    !number_is_nan(a) && !number_is_nan(b) && rank_below(a, b)
}

pub fn number_less_or_equal(a: u64, b: u64) -> (r: bool)
    ensures
        r == less_or_equal(a, b),
{
    !number_is_nan(a) && !number_is_nan(b) && !rank_below(b, a)
}

} // verus!
