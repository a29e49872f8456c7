//! Fixed-point arithmetic in millionths.
//!
//! A quantity `q` is held as the integer `q * 1_000_000`, rounded down. Positions,
//! amplitudes, samples, pitch factors (plain numbers) and frequencies (hertz)
//! all use this one scale.

use vstd::prelude::*;
use vstd::arithmetic::div_mod::{
    lemma_fundamental_div_mod, lemma_fundamental_div_mod_converse, lemma_mod_bound,
};

verus! {

/// The number one, in millionths.
pub const ONE: i64 = 1_000_000;

/// `value` limited to the closed interval from `low` to `high`.
pub open spec fn clamp_spec(value: int, low: int, high: int) -> int {
    if value < low {
        low
    } else if value > high {
        high
    } else {
        value
    }
}

/// The distance between `a` and `b`.
pub open spec fn distance_spec(a: int, b: int) -> int {
    if a >= b {
        a - b
    } else {
        b - a
    }
}

/// The product of two fixed-point numbers, in millionths, rounded down.
pub open spec fn scale_spec(value: int, factor: int) -> int {
    (value * factor) / (ONE as int)
}

/// Limits `value` to the closed interval from `low` to `high`.
pub fn clamp(value: i64, low: i64, high: i64) -> (r: i64)
    requires
        low <= high,
    ensures
        r == clamp_spec(value as int, low as int, high as int),
{
    if value < low {
        low
    } else if value > high {
        high
    } else {
        value
    }
}

/// Tells whether `a` and `b` lie more than `bound` apart.
pub fn farther_than(a: i64, b: i64, bound: i64) -> (r: bool)
    ensures
        r == (distance_spec(a as int, b as int) > bound),
{
    let wide_a: i128 = a as i128;
    let wide_b: i128 = b as i128;
    let gap: i128 = if wide_a >= wide_b {
        wide_a - wide_b
    } else {
        wide_b - wide_a
    };
    gap > bound as i128
}

/// Divides and rounds down, whatever the sign of the dividend.
pub fn floor_div(dividend: i128, divisor: i128) -> (quotient: i128)
    requires
        divisor > 0,
    ensures
        quotient == dividend as int / divisor as int,
{
    if dividend >= 0 {
        dividend / divisor
    } else {
        let below: i128 = -(dividend + 1);
        let down: i128 = below / divisor;
        proof {
            let d = divisor as int;
            lemma_fundamental_div_mod(below as int, d);
            lemma_mod_bound(below as int, d);
            let rest = d - 1 - (below as int % d);
            assert(dividend == (-down - 1) * d + rest) by (nonlinear_arith)
                requires
                    below == d * down + (below as int % d),
                    below == -(dividend + 1),
                    rest == d - 1 - (below as int % d),
            ;
            lemma_fundamental_div_mod_converse(dividend as int, d, -(down as int) - 1, rest);
        }
        -down - 1
    }
}

/// Multiplies two fixed-point numbers and limits the product, rounded down to
/// a millionth, to the closed interval from `low` to `high`. The product is
/// formed without overflow whatever the operands are.
pub fn scale_within(value: i64, factor: i64, low: i64, high: i64) -> (r: i64)
    requires
        low <= high,
    ensures
        r == clamp_spec(scale_spec(value as int, factor as int), low as int, high as int),
{
    assert(-0x4000_0000_0000_0000_0000_0000_0000_0000 <= value as int * factor as int
        <= 0x4000_0000_0000_0000_0000_0000_0000_0000) by (nonlinear_arith)
        requires
            -0x8000_0000_0000_0000 <= value < 0x8000_0000_0000_0000,
            -0x8000_0000_0000_0000 <= factor < 0x8000_0000_0000_0000,
    ;
    let floor: i128 = floor_div((value as i128) * (factor as i128), 1_000_000);
    if floor < low as i128 {
        low
    } else if floor > high as i128 {
        high
    } else {
        floor as i64
    }
}

} // verus!
