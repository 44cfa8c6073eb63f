//! Fixed-point plane arithmetic.
//!
//! A plane coordinate `v` is stored as the `i64` raw value `v * 2^32`,
//! truncated toward zero.  Products and quotients are computed through
//! 128-bit intermediates, so each operation is exact up to one final
//! truncation, and the truncation itself is part of the stated contract.

use vstd::prelude::*;

verus! {

/// Raw units per plane unit: the representation of `1.0`.
pub const FX_ONE: i64 = 0x1_0000_0000;

/// Magnitude of an integer.
pub open spec fn mag(a: int) -> int {
    if a >= 0 {
        a
    } else {
        -a
    }
}

/// Division truncated toward zero, the rounding every fixed-point
/// operation of this crate uses.
pub open spec fn tz_div(a: int, b: int) -> int {
    if (a >= 0) == (b >= 0) {
        mag(a) / mag(b)
    } else {
        -(mag(a) / mag(b))
    }
}

/// Raw value of the fixed-point product of two raw values.
pub open spec fn fx_mul_v(a: int, b: int) -> int {
    tz_div(a * b, FX_ONE as int)
}

/// Raw value of the fixed-point quotient of two raw values.
pub open spec fn fx_div_v(a: int, b: int) -> int {
    tz_div(a * (FX_ONE as int), b)
}

/// The magnitude of a product is the product of the magnitudes.
pub proof fn lemma_mag_mul(a: int, b: int) by (nonlinear_arith)
    ensures
        mag(a * b) == mag(a) * mag(b),
{
}

/// Division of two `i128` values, truncated toward zero.
pub(crate) fn tz_div_i128(n: i128, d: i128) -> (r: i128)
    requires
        d != 0,
        n > i128::MIN,
        d > i128::MIN,
    ensures
        r == tz_div(n as int, d as int),
        mag(r as int) <= mag(n as int),
{
    let nm: u128 = if n < 0 {
        (-n) as u128
    } else {
        n as u128
    };
    let dm: u128 = if d < 0 {
        (-d) as u128
    } else {
        d as u128
    };
    let q: u128 = nm / dm;
    assert(nm == mag(n as int) && dm == mag(d as int));
    assert(q == mag(n as int) / mag(d as int));
    assert(q <= nm) by {
        vstd::arithmetic::div_mod::lemma_div_is_ordered_by_denominator(nm as int, 1, dm as int);
    }
    if (n < 0) == (d < 0) {
        q as i128
    } else {
        -(q as i128)
    }
}

/// Fixed-point product of two raw values.
pub fn fx_mul(a: i64, b: i64) -> (r: i64)
    requires
        a > i64::MIN,
        b > i64::MIN,
        i64::MIN < fx_mul_v(a as int, b as int) <= i64::MAX,
    ensures
        r == fx_mul_v(a as int, b as int),
{
    proof {
        lemma_mag_mul(a as int, b as int);
        vstd::arithmetic::mul::lemma_mul_upper_bound(
            mag(a as int),
            i64::MAX as int,
            mag(b as int),
            i64::MAX as int,
        );
    }
    let p: i128 = (a as i128) * (b as i128);
    let q: i128 = tz_div_i128(p, FX_ONE as i128);
    q as i64
}

/// Fixed-point quotient of two raw values.
pub fn fx_div(a: i64, b: i64) -> (r: i64)
    requires
        b != 0,
        a > i64::MIN,
        i64::MIN < fx_div_v(a as int, b as int) <= i64::MAX,
    ensures
        r == fx_div_v(a as int, b as int),
{
    let n: i128 = (a as i128) * (FX_ONE as i128);
    let q: i128 = tz_div_i128(n, b as i128);
    q as i64
}

/// Product of a raw value and a plain integer, divided by another plain
/// integer, with one truncation at the end (no rescaling).
pub fn fx_muldiv_int(a: i64, m: i64, d: i64) -> (r: i64)
    requires
        d != 0,
        a > i64::MIN,
        m > i64::MIN,
        d > i64::MIN,
        i64::MIN < tz_div(a * m, d as int) <= i64::MAX,
    ensures
        r == tz_div(a * m, d as int),
{
    proof {
        lemma_mag_mul(a as int, m as int);
        vstd::arithmetic::mul::lemma_mul_upper_bound(
            mag(a as int),
            i64::MAX as int,
            mag(m as int),
            i64::MAX as int,
        );
    }
    let p: i128 = (a as i128) * (m as i128);
    let q: i128 = tz_div_i128(p, d as i128);
    q as i64
}

/// Quotient of a raw value by a plain integer (no rescaling).
pub fn fx_div_int(a: i64, n: i64) -> (r: i64)
    requires
        n != 0,
        a > i64::MIN,
        n > i64::MIN,
    ensures
        r == tz_div(a as int, n as int),
        mag(r as int) <= mag(a as int),
{
    let q: i128 = tz_div_i128(a as i128, n as i128);
    q as i64
}

/// The raw escape fraction `count / max`, defined for counts strictly
/// inside the budget; always a proper fraction.
pub fn frac_of(count: u32, max: u32) -> (t: i64)
    requires
        count < max,
    ensures
        t == tz_div(count * (FX_ONE as int), max as int),
        0 <= t < FX_ONE,
{
    proof {
        vstd::arithmetic::mul::lemma_mul_inequality(count as int, (max - 1) as int, FX_ONE as int);
        assert((count as int) * (FX_ONE as int) < (max as int) * (FX_ONE as int))
            by (nonlinear_arith)
            requires
                count < max,
                0 < FX_ONE,
        ;
        vstd::arithmetic::div_mod::lemma_multiply_divide_lt(
            (count as int) * (FX_ONE as int),
            max as int,
            FX_ONE as int,
        );
        vstd::arithmetic::div_mod::lemma_div_pos_is_pos(
            (count as int) * (FX_ONE as int),
            max as int,
        );
        assert((max as int) * (FX_ONE as int) == (FX_ONE as int) * (max as int));
    }
    let n: u64 = (count as u64) * (FX_ONE as u64);
    let q: u64 = n / (max as u64);
    q as i64
}

} // verus!
