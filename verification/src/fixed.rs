//! Fixed-point samples: an `i64` counts units of 2^-32.
//!
//! Sums saturate at the ends of the `i64` range and quotients round toward
//! zero, so negating every operand negates the result.
use vstd::arithmetic::div_mod::{lemma_div_is_ordered, lemma_div_is_ordered_by_denominator};
use vstd::arithmetic::div_mod::lemma_div_pos_is_pos;
use vstd::prelude::*;

verus! {

/// The sample that stands for 1.0.
pub const ONE: i64 = 0x1_0000_0000;

/// The quotient of `a` by a positive `d`, rounded toward zero.
pub open spec fn trunc_div(a: int, d: int) -> int
    recommends
        d > 0,
{
    if a >= 0 {
        a / d
    } else {
        -((-a) / d)
    }
}

/// Rounding toward zero keeps the order of the dividends.
pub proof fn lemma_trunc_div_is_monotonic(a: int, b: int, d: int)
    requires
        a <= b,
        0 < d,
    ensures
        trunc_div(a, d) <= trunc_div(b, d),
{
    if a >= 0 {
        lemma_div_is_ordered(a, b, d);
    } else if b < 0 {
        lemma_div_is_ordered(-b, -a, d);
    } else {
        lemma_div_pos_is_pos(-a, d);
        lemma_div_pos_is_pos(b, d);
    }
}

/// The value of the `i64` range that lies nearest to `x`.
pub open spec fn saturate(x: int) -> int {
    if x > i64::MAX {
        i64::MAX as int
    } else if x < i64::MIN {
        i64::MIN as int
    } else {
        x
    }
}

/// Narrows a wide intermediate result to a sample, saturating at the ends of
/// the range.
pub fn saturating(x: i128) -> (r: i64)
    ensures
        r == saturate(x as int),
{
    if x > i64::MAX as i128 {
        i64::MAX
    } else if x < i64::MIN as i128 {
        i64::MIN
    } else {
        x as i64
    }
}

/// The saturating sum of two samples.
pub fn saturating_sum(a: i64, b: i64) -> (r: i64)
    ensures
        r == saturate(a + b),
{
    saturating(a as i128 + b as i128)
}

/// The sample that stands for the whole number `n`.
pub fn from_int(n: i32) -> (r: i64)
    ensures
        r == n * ONE,
{
    n as i64 * ONE
}

/// The whole part of a sample, rounded toward zero.
pub fn to_int(x: i64) -> (r: i64)
    ensures
        r == trunc_div(x as int, ONE as int),
{
    x / ONE
}

/// π², rounded down to a sample.
pub const PI_SQUARED: i64 = 42389628127;

/// The square of a quarter turn, (π/2)², rounded down to a sample.
pub const QUARTER_TURN_SQUARED: i64 = 10597407031;

/// The number of terms that the cosine series keeps after the leading 1.
pub const SERIES_TERMS: i64 = 8;

/// The divisor of the `k`-th factor of the cosine series, (2k − 1)·2k, as a
/// sample.
pub open spec fn series_divisor(k: int) -> int {
    (2 * k - 1) * (2 * k) * ONE
}

/// The cosine series from its `k`-th factor on, for the squared angle `s`:
/// 1 − s/((2k−1)·2k) · (1 − s/((2k+1)·(2k+2)) · (1 − …)), each quotient rounded
/// down. From `k` = 1 it is the Taylor polynomial of degree sixteen of the
/// cosine, 1 − s/2! + s²/4! − … + s⁸/16!.
pub open spec fn cosine_tail(s: int, k: int) -> int
    decreases SERIES_TERMS + 1 - k,
{
    if k < 1 || k > SERIES_TERMS {
        ONE as int
    } else {
        ONE - (s * cosine_tail(s, k + 1)) / series_divisor(k)
    }
}

/// The cosine of the angle whose square is `s`, for an angle of at most a
/// quarter turn: the series, and zero where rounding takes it below zero.
pub open spec fn cosine_series(s: int) -> int {
    let c = cosine_tail(s, 1);
    if c < 0 {
        0
    } else {
        c
    }
}

/// One factor of the series takes off at most 2 from an accumulator between
/// 0 and 1, and at most 1 from the second factor on.
pub proof fn lemma_series_step(s: int, acc: int, k: int)
    requires
        0 <= s <= QUARTER_TURN_SQUARED,
        0 <= acc <= ONE,
        1 <= k <= SERIES_TERMS,
    ensures
        0 <= (s * acc) / series_divisor(k) <= 2 * ONE,
        k >= 2 ==> (s * acc) / series_divisor(k) <= ONE,
{
    let product = s * acc;
    let most = QUARTER_TURN_SQUARED * ONE;
    let divisor = series_divisor(k);
    assert(0 <= product <= most) by (nonlinear_arith)
        requires
            product == s * acc,
            most == QUARTER_TURN_SQUARED * ONE,
            0 <= s <= QUARTER_TURN_SQUARED,
            0 <= acc <= ONE,
    ;
    assert(divisor >= 2 * ONE && (k >= 2 ==> divisor >= 12 * ONE)) by (nonlinear_arith)
        requires
            divisor == (2 * k - 1) * (2 * k) * ONE,
            1 <= k,
    ;
    lemma_div_pos_is_pos(product, divisor);
    lemma_div_is_ordered(product, most, divisor);
    lemma_div_is_ordered_by_denominator(most, 2 * ONE, divisor);
    assert(most / (2 * ONE) <= 2 * ONE);
    if k >= 2 {
        lemma_div_is_ordered_by_denominator(most, 12 * ONE, divisor);
        assert(most / (12 * ONE) <= ONE);
    }
}

/// From its second factor on, the series stays between 0 and 1.
pub proof fn lemma_cosine_tail_bound(s: int, k: int)
    requires
        0 <= s <= QUARTER_TURN_SQUARED,
        2 <= k,
    ensures
        0 <= cosine_tail(s, k) <= ONE,
    decreases SERIES_TERMS + 1 - k,
{
    if k <= SERIES_TERMS {
        lemma_cosine_tail_bound(s, k + 1);
        lemma_series_step(s, cosine_tail(s, k + 1), k);
    }
}

/// The series gives 1 for the angle zero, and stays between 0 and 1 for every
/// angle up to a quarter turn.
pub proof fn lemma_cosine_series_bound(s: int)
    requires
        0 <= s <= QUARTER_TURN_SQUARED,
    ensures
        0 <= cosine_series(s) <= ONE,
        cosine_series(0) == ONE,
{
    lemma_cosine_tail_bound(s, 2);
    lemma_series_step(s, cosine_tail(s, 2), 1);
    lemma_cosine_tail_bound(0, 2);
    assert(0 * cosine_tail(0, 2) == 0);
    assert((2 * 1 - 1) * (2 * 1) * ONE == 2 * ONE) by (nonlinear_arith);
    assert(series_divisor(1) == 2 * ONE);
    assert(0int / (2 * ONE) == 0);
}

/// The cosine of the angle whose square is `s`, for an angle between zero and
/// a quarter turn.
pub fn cosine_of_square(s: i64) -> (c: i64)
    requires
        0 <= s <= QUARTER_TURN_SQUARED,
    ensures
        c == cosine_series(s as int),
        0 <= c <= ONE,
{
    let mut acc: i64 = ONE;
    let mut k: i64 = SERIES_TERMS;
    while k >= 1
        invariant
            0 <= k <= SERIES_TERMS,
            0 <= s <= QUARTER_TURN_SQUARED,
            acc == cosine_tail(s as int, k + 1),
            acc <= ONE,
            k >= 1 ==> 0 <= acc,
            -ONE <= acc,
        decreases k,
    {
        proof {
            lemma_series_step(s as int, acc as int, k as int);
            assert(1 <= (2 * k - 1) * (2 * k) <= 240) by (nonlinear_arith)
                requires
                    1 <= k <= 8,
            ;
            assert(0 <= s * acc <= QUARTER_TURN_SQUARED * ONE) by (nonlinear_arith)
                requires
                    0 <= s <= QUARTER_TURN_SQUARED,
                    0 <= acc <= ONE,
            ;
        }
        let divisor: i128 = ((2 * k - 1) * (2 * k)) as i128 * (ONE as i128);
        let product: i128 = (s as i128) * (acc as i128);
        let term: i64 = (product / divisor) as i64;
        acc = ONE - term;
        k = k - 1;
    }
    if acc < 0 {
        0
    } else {
        acc
    }
}

} // verus!
