//! Throughput arithmetic in fixed point.
//!
//! Times are whole nanoseconds; the figures that are shown (elapsed seconds,
//! operations per second) are whole hundredths, rounded to the nearest one.

use vstd::prelude::*;
use vstd::arithmetic::div_mod::lemma_fundamental_div_mod;

verus! {

/// Nanoseconds in one hundredth of a second.
pub const NANOS_PER_HUNDREDTH: u128 = 10_000_000;

/// Hundredths of an operation per second in one operation per nanosecond.
pub const SPEED_SCALE: u128 = 100_000_000_000;

/// The quotient of `a` by `b`, rounded to the nearest whole number; a tie
/// goes upward.
pub open spec fn rounded_div(a: nat, b: nat) -> nat
    recommends
        b > 0,
{
    if 2 * (a % b) >= b {
        a / b + 1
    } else {
        a / b
    }
}

/// A duration of `elapsed_nanos` nanoseconds, in hundredths of a second.
pub open spec fn elapsed_hundredths(elapsed_nanos: nat) -> nat {
    rounded_div(elapsed_nanos, NANOS_PER_HUNDREDTH as nat)
}

/// The average speed of `count` operations over `elapsed_nanos` nanoseconds,
/// in hundredths of an operation per second: zero where no time has passed.
pub open spec fn speed_hundredths(count: nat, elapsed_nanos: nat) -> nat {
    if elapsed_nanos > 0 {
        rounded_div(count * (SPEED_SCALE as nat), elapsed_nanos)
    } else {
        0
    }
}

/// The rounded quotient is the whole number nearest to `a / b`: it differs
/// from the exact quotient by at most one half.
pub proof fn lemma_rounded_div_is_nearest(a: nat, b: nat)
    requires
        b > 0,
    ensures
        2 * a < 2 * (rounded_div(a, b) * b) + b,
        2 * (rounded_div(a, b) * b) <= 2 * a + b,
{
    lemma_fundamental_div_mod(a as int, b as int);
    let q = a / b;
    let r = a % b;
    assert(a == b * q + r);
    assert(r < b);
    assert((q + 1) * b == b * q + b) by (nonlinear_arith);
    assert(q * b == b * q) by (nonlinear_arith);
}

/// A rounded quotient never exceeds its dividend.
pub proof fn lemma_rounded_div_bounded(a: nat, b: nat)
    requires
        b > 0,
    ensures
        rounded_div(a, b) <= a,
{
    lemma_fundamental_div_mod(a as int, b as int);
    let q = a / b;
    let r = a % b;
    assert(a == b * q + r);
    assert(q <= b * q) by (nonlinear_arith)
        requires
            b >= 1,
            q >= 0,
    ;
}

/// Divides `a` by `b` and rounds to the nearest whole number.
pub fn div_rounded(a: u128, b: u128) -> (q: u128)
    requires
        b > 0,
    ensures
        q == rounded_div(a as nat, b as nat),
{
    let whole: u128 = a / b;
    let rest: u128 = a % b;
    if rest >= b - rest {
        proof {
            lemma_rounded_div_bounded(a as nat, b as nat);
        }
        whole + 1
    } else {
        whole
    }
}

/// Elapsed time in hundredths of a second.
pub fn elapsed_in_hundredths(elapsed_nanos: u128) -> (hundredths: u128)
    ensures
        hundredths == elapsed_hundredths(elapsed_nanos as nat),
{
    div_rounded(elapsed_nanos, NANOS_PER_HUNDREDTH)
}

/// Average speed in hundredths of an operation per second: `count` divided
/// by the elapsed seconds, or zero where no time has passed.
pub fn average_speed(count: usize, elapsed_nanos: u128) -> (hundredths: u128)
    ensures
        hundredths == speed_hundredths(count as nat, elapsed_nanos as nat),
{
    if elapsed_nanos > 0 {
        let scaled: u128 = (count as u128) * SPEED_SCALE;
        div_rounded(scaled, elapsed_nanos)
    } else {
        0
    }
}

/// The speed that is shown is the exact quotient of the count by the elapsed
/// seconds, to within half a hundredth.
pub proof fn lemma_speed_is_count_over_elapsed(count: nat, elapsed_nanos: nat)
    requires
        elapsed_nanos > 0,
    ensures
        2 * (count * (SPEED_SCALE as nat)) < 2 * (speed_hundredths(count, elapsed_nanos)
            * elapsed_nanos) + elapsed_nanos,
        2 * (speed_hundredths(count, elapsed_nanos) * elapsed_nanos) <= 2 * (count * (
        SPEED_SCALE as nat)) + elapsed_nanos,
{
    lemma_rounded_div_is_nearest(count * (SPEED_SCALE as nat), elapsed_nanos);
}

} // verus!
