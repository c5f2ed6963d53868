//! Fixed-point arithmetic primitives.
//!
//! A plane coordinate is stored as an `i64` holding the real value times
//! `FP` (2^24), rounded toward zero.  All fixed-point operations of the
//! crate round this way, so every computed value is pinned exactly by the
//! spec functions here.

use vstd::prelude::*;

verus! {

/// Fixed-point scale: an `i64` coordinate represents `value / FP`.
pub const FP: i64 = 16777216;

/// Orbit components are clamped to `[-CLAMP_BOUND, CLAMP_BOUND]`
/// (the real value 8.0).  Clamping never changes whether a point has
/// escaped, since the escape radius is 2.0.
pub const CLAMP_BOUND: i64 = 8 * FP;

/// Truncating (round-toward-zero) division by a positive divisor:
/// the rounding that every fixed-point operation of this crate uses.
pub open spec fn tdiv(a: int, b: int) -> int
    recommends
        b > 0,
{
    if a >= 0 {
        a / b
    } else {
        -((-a) / b)
    }
}

/// Clamp a value to `[-CLAMP_BOUND, CLAMP_BOUND]`.
pub open spec fn clamp_spec(v: int) -> int {
    if v > CLAMP_BOUND {
        CLAMP_BOUND as int
    } else if v < -(CLAMP_BOUND as int) {
        -(CLAMP_BOUND as int)
    } else {
        v
    }
}

/// Truncating division of `a` by a positive `b`.
pub fn tdiv_i64(a: i64, b: i64) -> (r: i64)
    requires
        1 <= b,
        -0x4000_0000_0000_0000 <= a <= 0x4000_0000_0000_0000,
    ensures
        r == tdiv(a as int, b as int),
        a >= 0 ==> 0 <= r <= a,
        a < 0 ==> a <= r <= 0,
{
    if a >= 0 {
        let q: u64 = (a as u64) / (b as u64);
        assert(q <= a);
        q as i64
    } else {
        let m: u64 = ((-a) as u64) / (b as u64);
        assert(m <= -a);
        -(m as i64)
    }
}

/// Clamp an intermediate (wide) value into `i64` fixed-point range.
pub fn clamp_i128(v: i128) -> (r: i64)
    ensures
        r == clamp_spec(v as int),
        -CLAMP_BOUND <= r <= CLAMP_BOUND,
{
    if v > CLAMP_BOUND as i128 {
        CLAMP_BOUND
    } else if v < -(CLAMP_BOUND as i128) {
        -CLAMP_BOUND
    } else {
        v as i64
    }
}

} // verus!
