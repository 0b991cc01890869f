//! Ordering of IEEE-754 doubles given by their 64-bit patterns.
//!
//! A pattern is split into a sign bit and a 63-bit magnitude. Magnitudes
//! above that of infinity are NaN. For every other pattern, the value grows
//! with the magnitude when the sign bit is clear and falls with it when the
//! sign bit is set, so `rank` below places the values on the integer line in
//! their numeric order (both zeros get rank 0).
use vstd::prelude::*;

verus! {

/// Pattern of the sign bit.
pub const SIGN_BIT: u64 = 0x8000_0000_0000_0000;

/// Pattern of positive infinity.
pub const POS_INFINITY: u64 = 0x7ff0_0000_0000_0000;

/// Pattern of negative infinity.
pub const NEG_INFINITY: u64 = 0xfff0_0000_0000_0000;

/// Pattern of `0.0`.
pub const ZERO: u64 = 0;

/// Pattern of `1.0`.
pub const ONE: u64 = 0x3ff0_0000_0000_0000;

/// The magnitude part of a pattern (the pattern without its sign bit).
pub open spec fn magnitude(b: u64) -> int {
    if b >= SIGN_BIT {
        b - SIGN_BIT
    } else {
        b as int
    }
}

/// The pattern is a NaN.
pub open spec fn is_nan(b: u64) -> bool {
    magnitude(b) > POS_INFINITY
}

/// Position of a non-NaN double on the integer line, in numeric order.
pub open spec fn rank(b: u64) -> int {
    if b >= SIGN_BIT {
        -(b - SIGN_BIT)
    } else {
        b as int
    }
}

/// `a < b` on doubles: false as soon as either side is NaN.
pub open spec fn f64_lt(a: u64, b: u64) -> bool {
    !is_nan(a) && !is_nan(b) && rank(a) < rank(b)
}

/// `a > b` on doubles.
pub open spec fn f64_gt(a: u64, b: u64) -> bool {
    f64_lt(b, a)
}

/// `a <= b` on doubles: false as soon as either side is NaN.
pub open spec fn f64_le(a: u64, b: u64) -> bool {
    !is_nan(a) && !is_nan(b) && rank(a) <= rank(b)
}

/// `a >= b` on doubles.
pub open spec fn f64_ge(a: u64, b: u64) -> bool {
    f64_le(b, a)
}

/// The larger of two doubles, as `f64::max` chooses it: a NaN argument
/// yields the other one. On equal values (`+0.0` and `-0.0` among them),
/// where `f64::max` leaves the choice open, this keeps the first argument.
pub open spec fn f64_max(a: u64, b: u64) -> u64 {
    if is_nan(a) {
        b
    } else if is_nan(b) {
        a
    } else if rank(a) < rank(b) {
        b
    } else {
        a
    }
}

/// The smaller of two doubles, as `f64::min` chooses it: a NaN argument
/// yields the other one. On equal values (`+0.0` and `-0.0` among them),
/// where `f64::min` leaves the choice open, this keeps the first argument.
pub open spec fn f64_min(a: u64, b: u64) -> u64 {
    if is_nan(a) {
        b
    } else if is_nan(b) {
        a
    } else if rank(b) < rank(a) {
        b
    } else {
        a
    }
}

/// Whether the pattern is a NaN.
pub fn nan(b: u64) -> (r: bool)
    ensures
        r == is_nan(b),
{
    let m: u64 = if b >= SIGN_BIT {
        b - SIGN_BIT
    } else {
        b
    };
    m > POS_INFINITY
}

/// The rank of a pattern, as a machine integer.
fn rank_of(b: u64) -> (r: i128)
    ensures
        r == rank(b),
{
    if b >= SIGN_BIT {
        -((b - SIGN_BIT) as i128)
    } else {
        b as i128
    }
}

/// `a < b` on the doubles that the patterns stand for.
pub fn lt(a: u64, b: u64) -> (r: bool)
    ensures
        r == f64_lt(a, b),
{
    if nan(a) || nan(b) {
        false
    } else {
        rank_of(a) < rank_of(b)
    }
}

/// `a > b` on the doubles that the patterns stand for.
pub fn gt(a: u64, b: u64) -> (r: bool)
    ensures
        r == f64_gt(a, b),
{
    lt(b, a)
}

/// `a <= b` on the doubles that the patterns stand for.
pub fn le(a: u64, b: u64) -> (r: bool)
    ensures
        r == f64_le(a, b),
{
    if nan(a) || nan(b) {
        false
    } else {
        rank_of(a) <= rank_of(b)
    }
}

/// `a >= b` on the doubles that the patterns stand for.
pub fn ge(a: u64, b: u64) -> (r: bool)
    ensures
        r == f64_ge(a, b),
{
    le(b, a)
}

/// The larger of the doubles that the patterns stand for (`f64_max`).
pub fn max(a: u64, b: u64) -> (r: u64)
    ensures
        r == f64_max(a, b),
{
    if nan(a) {
        b
    } else if nan(b) {
        a
    } else if rank_of(a) < rank_of(b) {
        b
    } else {
        a
    }
}

/// The smaller of the doubles that the patterns stand for (`f64_min`).
pub fn min(a: u64, b: u64) -> (r: u64)
    ensures
        r == f64_min(a, b),
{
    if nan(a) {
        b
    } else if nan(b) {
        a
    } else if rank_of(b) < rank_of(a) {
        b
    } else {
        a
    }
}

} // verus!
