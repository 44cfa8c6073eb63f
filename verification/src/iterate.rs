//! The iterator core: the escape-time recurrence `z := z^2 + c`.
//!
//! A squared magnitude is compared against the escape threshold 4 at
//! double precision (scale `2^64`), so the escape test itself is exact;
//! the recurrence truncates each product back to coordinate precision.
//! The raw count and the final orbit point are both mirrored by spec
//! functions, so the smoothed export value can be stated exactly too.

use vstd::arithmetic::div_mod::{lemma_div_is_ordered, lemma_div_pos_is_pos};
use vstd::arithmetic::mul::{lemma_mul_inequality, lemma_mul_upper_bound};
use vstd::arithmetic::power2::{lemma2_to64, lemma2_to64_rest, lemma_pow2_adds, pow2};
use vstd::prelude::*;

use crate::fixed::{fx_mul, fx_mul_v, lemma_mag_mul, mag, tz_div, tz_div_i128, FX_ONE};
use crate::viewport::COORD_LIMIT_FX;

verus! {

/// The escape threshold `|z|^2 > 4` at scale `2^64`.
pub const FOUR_HI: i128 = 0x4_0000_0000_0000_0000;

/// Orbit points stay below this magnitude: one step from inside the
/// escape circle lands within `4 + |c|` of the origin.
pub const Z_LIMIT_FX: i64 = COORD_LIMIT_FX + 4 * FX_ONE;

/// Squared magnitude of an orbit point at scale `2^64`.
pub open spec fn norm2_hi(zx: int, zy: int) -> int {
    zx * zx + zy * zy
}

/// Real part of the next orbit point: `zx^2 - zy^2 + cx`.
pub open spec fn iter_zx_s(zx: int, zy: int, cx: int) -> int {
    tz_div(zx * zx - zy * zy, FX_ONE as int) + cx
}

/// Imaginary part of the next orbit point: `2 zx zy + cy`.
pub open spec fn iter_zy_s(zx: int, zy: int, cy: int) -> int {
    tz_div(2 * zx * zy, FX_ONE as int) + cy
}

/// The iteration count the escape loop reports when it starts at
/// iteration `i` with orbit point `(zx, zy)`: the first iteration at
/// which the orbit leaves the escape circle, or `max` if it never does.
pub open spec fn escape_from(zx: int, zy: int, cx: int, cy: int, i: nat, max: nat) -> nat
    decreases max - i,
{
    if norm2_hi(zx, zy) > FOUR_HI {
        i
    } else if i >= max {
        i
    } else {
        escape_from(iter_zx_s(zx, zy, cx), iter_zy_s(zx, zy, cy), cx, cy, i + 1, max)
    }
}

/// Real part of the orbit point at which the escape loop stops.
pub open spec fn final_zx_s(zx: int, zy: int, cx: int, cy: int, i: nat, max: nat) -> int
    decreases max - i,
{
    if norm2_hi(zx, zy) > FOUR_HI || i >= max {
        zx
    } else {
        final_zx_s(iter_zx_s(zx, zy, cx), iter_zy_s(zx, zy, cy), cx, cy, i + 1, max)
    }
}

/// Imaginary part of the orbit point at which the escape loop stops.
pub open spec fn final_zy_s(zx: int, zy: int, cx: int, cy: int, i: nat, max: nat) -> int
    decreases max - i,
{
    if norm2_hi(zx, zy) > FOUR_HI || i >= max {
        zy
    } else {
        final_zy_s(iter_zx_s(zx, zy, cx), iter_zy_s(zx, zy, cy), cx, cy, i + 1, max)
    }
}

/// The escape count of a start point under a constant: the raw result
/// of the iterator core.
pub open spec fn escape_count_s(zx0: int, zy0: int, cx: int, cy: int, max: nat) -> nat {
    escape_from(zx0, zy0, cx, cy, 0, max)
}

/// A start point already beyond the escape threshold is classified as
/// escaped at count zero, before any iteration, whatever the budget;
/// and a zero budget classifies every point at count zero: the loop
/// condition is evaluated before any increment.
pub proof fn lemma_escape_at_zero(zx0: int, zy0: int, cx: int, cy: int, max: nat)
    ensures
        norm2_hi(zx0, zy0) > FOUR_HI ==> escape_count_s(zx0, zy0, cx, cy, max) == 0,
        max == 0 ==> escape_count_s(zx0, zy0, cx, cy, max) == 0,
{
}

/// Products of two coordinates within the orbit limit stay far inside
/// the 128-bit range.
proof fn lemma_z_product_bounds(zx: int, zy: int)
    requires
        mag(zx) <= Z_LIMIT_FX,
        mag(zy) <= Z_LIMIT_FX,
    ensures
        0 <= zx * zx <= 1329228035398997425183881036405145600,
        0 <= zy * zy <= 1329228035398997425183881036405145600,
        mag(zx * zy) <= 1329228035398997425183881036405145600,
{
    lemma_mag_mul(zx, zx);
    lemma_mag_mul(zy, zy);
    lemma_mag_mul(zx, zy);
    lemma_mul_upper_bound(mag(zx), Z_LIMIT_FX as int, mag(zx), Z_LIMIT_FX as int);
    lemma_mul_upper_bound(mag(zy), Z_LIMIT_FX as int, mag(zy), Z_LIMIT_FX as int);
    lemma_mul_upper_bound(mag(zx), Z_LIMIT_FX as int, mag(zy), Z_LIMIT_FX as int);
    assert((Z_LIMIT_FX as int) * (Z_LIMIT_FX as int) == 1329228035398997425183881036405145600)
        by (nonlinear_arith);
    assert(0 <= zx * zx && 0 <= zy * zy) by (nonlinear_arith);
}

/// Exact squared magnitude of an orbit point, at scale `2^64`.
fn norm2_of(zx: i64, zy: i64) -> (n: i128)
    requires
        mag(zx as int) <= Z_LIMIT_FX,
        mag(zy as int) <= Z_LIMIT_FX,
    ensures
        n == norm2_hi(zx as int, zy as int),
        0 <= n,
{
    proof {
        lemma_z_product_bounds(zx as int, zy as int);
    }
    let a = (zx as i128) * (zx as i128);
    let b = (zy as i128) * (zy as i128);
    a + b
}

/// One escape-time step from a point inside the escape circle.
fn iterate_step(zx: i64, zy: i64, cx: i64, cy: i64) -> (z: (i64, i64))
    requires
        norm2_hi(zx as int, zy as int) <= FOUR_HI,
        mag(cx as int) <= COORD_LIMIT_FX,
        mag(cy as int) <= COORD_LIMIT_FX,
        mag(zx as int) <= Z_LIMIT_FX,
        mag(zy as int) <= Z_LIMIT_FX,
    ensures
        z.0 == iter_zx_s(zx as int, zy as int, cx as int),
        z.1 == iter_zy_s(zx as int, zy as int, cy as int),
        mag(z.0 as int) <= Z_LIMIT_FX,
        mag(z.1 as int) <= Z_LIMIT_FX,
{
    proof {
        lemma_z_product_bounds(zx as int, zy as int);
        // Inside the circle, each square and the doubled cross product
        // stay below the threshold.
        assert(mag((zx as int) * (zx as int) - (zy as int) * (zy as int)) <= FOUR_HI);
        assert(mag(2 * ((zx as int) * (zy as int))) <= FOUR_HI) by (nonlinear_arith)
            requires
                (zx as int) * (zx as int) + (zy as int) * (zy as int) <= FOUR_HI,
        ;
        assert(2 * ((zx as int) * (zy as int)) == 2 * (zx as int) * (zy as int)) by (nonlinear_arith);
    }
    let d = (zx as i128) * (zx as i128) - (zy as i128) * (zy as i128);
    let p = 2i128 * ((zx as i128) * (zy as i128));
    let qx = tz_div_i128(d, FX_ONE as i128);
    let qy = tz_div_i128(p, FX_ONE as i128);
    proof {
        lemma_tz_div_mag_le(d as int, FX_ONE as int, FOUR_HI as int);
        lemma_tz_div_mag_le(p as int, FX_ONE as int, FOUR_HI as int);
    }
    let nzx = (qx as i64) + cx;
    let nzy = (qy as i64) + cy;
    (nzx, nzy)
}

/// Magnitude bound for a truncated quotient: if `mag(n) <= c` then
/// `mag(tz_div(n, d)) <= c / d`.
proof fn lemma_tz_div_mag_le(n: int, d: int, c: int)
    requires
        0 < d,
        0 <= c,
        mag(n) <= c,
    ensures
        mag(tz_div(n, d)) <= c / d,
{
    lemma_div_is_ordered(mag(n), c, d);
    lemma_div_pos_is_pos(mag(n), d);
}

/// Run the escape-time recurrence from `(zx0, zy0)` with constant
/// `(cx, cy)`: the raw iteration count at escape, or the budget if the
/// orbit never escapes.
pub fn iterate_point(zx0: i64, zy0: i64, cx: i64, cy: i64, max_iterations: u32) -> (n: u32)
    requires
        mag(zx0 as int) <= COORD_LIMIT_FX,
        mag(zy0 as int) <= COORD_LIMIT_FX,
        mag(cx as int) <= COORD_LIMIT_FX,
        mag(cy as int) <= COORD_LIMIT_FX,
    ensures
        n == escape_count_s(zx0 as int, zy0 as int, cx as int, cy as int, max_iterations as nat),
        n <= max_iterations,
{
    let mut zx = zx0;
    let mut zy = zy0;
    let mut i: u32 = 0;
    loop
        invariant_except_break
            i <= max_iterations,
            mag(zx as int) <= Z_LIMIT_FX,
            mag(zy as int) <= Z_LIMIT_FX,
            mag(cx as int) <= COORD_LIMIT_FX,
            mag(cy as int) <= COORD_LIMIT_FX,
            escape_from(zx as int, zy as int, cx as int, cy as int, i as nat, max_iterations as nat)
                == escape_count_s(
                zx0 as int,
                zy0 as int,
                cx as int,
                cy as int,
                max_iterations as nat,
            ),
        ensures
            i <= max_iterations,
            i as nat == escape_count_s(
                zx0 as int,
                zy0 as int,
                cx as int,
                cy as int,
                max_iterations as nat,
            ),
        decreases max_iterations - i,
    {
        let n2 = norm2_of(zx, zy);
        if n2 > FOUR_HI {
            break ;
        }
        if i >= max_iterations {
            break ;
        }
        let z = iterate_step(zx, zy, cx, cy);
        zx = z.0;
        zy = z.1;
        i = i + 1;
    }
    i
}

/// Raw fixed-point value of `ln(2) / 2`.
pub const LN2_HALF_FX: i64 = 1488522236;

/// Largest admitted iteration budget: keeps the smoothed measure, a
/// count scaled to raw fixed point, inside the 64-bit range.
pub const MAX_ITER_LIMIT: u32 = 1000000000;

/// One squaring step of the mantissa during the fraction scan of the
/// base-2 logarithm: square, rescale, and renormalize into `[1, 2)`.
pub open spec fn frac_step_m(m: int) -> int {
    let s = (m * m) / (FX_ONE as int);
    if s >= 2 * (FX_ONE as int) {
        s / 2
    } else {
        s
    }
}

/// The logarithm bit the squaring step yields.
pub open spec fn frac_bit(m: int) -> int {
    if (m * m) / (FX_ONE as int) >= 2 * (FX_ONE as int) {
        1
    } else {
        0
    }
}

/// The fraction bits of the base-2 logarithm of a mantissa in `[1, 2)`,
/// `j` squaring steps folded into an accumulator.
pub open spec fn log_frac_acc(m: int, j: nat, acc: int) -> int
    decreases j,
{
    if j == 0 {
        acc
    } else {
        log_frac_acc(frac_step_m(m), (j - 1) as nat, 2 * acc + frac_bit(m))
    }
}

/// How many halvings bring a raw value below two.
pub open spec fn norm_shift(m: int) -> nat
    decreases m,
{
    if m >= 2 * (FX_ONE as int) {
        1 + norm_shift(m / 2)
    } else {
        0
    }
}

/// The mantissa those halvings leave behind.
pub open spec fn norm_mant(m: int) -> int
    decreases m,
{
    if m >= 2 * (FX_ONE as int) {
        norm_mant(m / 2)
    } else {
        m
    }
}

/// Raw base-2 logarithm of a raw value of at least one: the halving
/// count as the integer part, 32 squaring-scan bits as the fraction.
pub open spec fn log2_fx_s(m: int) -> int {
    (norm_shift(m) as int) * (FX_ONE as int) + log_frac_acc(norm_mant(m), 32, 0)
}

/// The fraction accumulator stays within `[acc * 2^j, (acc + 1) * 2^j)`.
proof fn lemma_log_frac_range(m: int, j: nat, acc: int)
    ensures
        acc * pow2(j) <= log_frac_acc(m, j, acc) < (acc + 1) * pow2(j),
    decreases j,
{
    lemma2_to64();
    if j == 0 {
    } else {
        let b = frac_bit(m);
        lemma_log_frac_range(frac_step_m(m), (j - 1) as nat, 2 * acc + b);
        lemma_pow2_adds(1, (j - 1) as nat);
        assert((2 * acc + b) * pow2((j - 1) as nat) >= acc * (2 * pow2((j - 1) as nat)))
            by (nonlinear_arith)
            requires
                b >= 0,
                pow2((j - 1) as nat) >= 0,
        ;
        assert((2 * acc + b + 1) * pow2((j - 1) as nat) <= (acc + 1) * (2 * pow2((j - 1) as nat)))
            by (nonlinear_arith)
            requires
                b <= 1,
                pow2((j - 1) as nat) >= 0,
        ;
    }
}

/// A bound under repeated halving: `k` powers of two above the
/// normalization threshold admit at most `k` halvings.
proof fn lemma_norm_shift_bound(m: int, k: nat)
    requires
        m < 2 * (FX_ONE as int) * pow2(k),
    ensures
        norm_shift(m) <= k,
    decreases k,
{
    lemma2_to64();
    if m >= 2 * (FX_ONE as int) {
        assert(k >= 1) by {
            if k == 0 {
                assert(pow2(0) == 1);
                assert(m < 2 * (FX_ONE as int)) by (nonlinear_arith)
                    requires
                        m < 2 * (FX_ONE as int) * pow2(0),
                        pow2(0) == 1,
                ;
            }
        }
        lemma_pow2_adds(1, (k - 1) as nat);
        assert(m / 2 < 2 * (FX_ONE as int) * pow2((k - 1) as nat)) by (nonlinear_arith)
            requires
                m < 2 * (FX_ONE as int) * (2 * pow2((k - 1) as nat)),
                m >= 0,
                pow2((k - 1) as nat) >= 1,
                m / 2 <= (m - 1) / 2 + 1,
                2 * (m / 2) <= m,
        ;
        lemma_norm_shift_bound(m / 2, (k - 1) as nat);
    }
}

/// Base-2 logarithm of a raw value of at least one, at raw precision.
pub fn log2_fx(m0: u128) -> (r: i64)
    requires
        FX_ONE <= m0,
        m0 < 0x2_0000_0000_0000_0000_0000_0000,
    ensures
        r == log2_fx_s(m0 as int),
        0 <= r < 97 * (FX_ONE as int),
        r >= (norm_shift(m0 as int) as int) * (FX_ONE as int),
{
    proof {
        lemma2_to64();
        lemma2_to64_rest();
        lemma_norm_shift_bound(m0 as int, 64);
    }
    let mut m: u128 = m0;
    let mut e: u32 = 0;
    while m >= 0x2_0000_0000
        invariant
            FX_ONE <= m <= m0,
            e + norm_shift(m as int) == norm_shift(m0 as int),
            norm_mant(m as int) == norm_mant(m0 as int),
            norm_shift(m0 as int) <= 64,
        decreases m,
    {
        m = m / 2;
        e = e + 1;
    }
    assert(norm_shift(m as int) == 0);
    assert(e == norm_shift(m0 as int));
    let ghost m1 = m as int;
    assert(norm_mant(m1) == m1);
    let mut f: u64 = 0;
    let mut j: u32 = 0;
    proof {
        lemma2_to64();
    }
    while j < 32
        invariant
            FX_ONE <= m < 2 * FX_ONE,
            j <= 32,
            f < pow2(j as nat),
            log_frac_acc(m as int, (32 - j) as nat, f as int) == log_frac_acc(m1, 32, 0),
        decreases 32 - j,
    {
        proof {
            lemma2_to64();
            lemma_pow2_adds(1, j as nat);
            assert((m as int) * (m as int) <= 0x1_FFFF_FFFFint * 0x1_FFFF_FFFFint) by (nonlinear_arith)
                requires
                    0 <= m <= 0x1_FFFF_FFFF,
            ;
            assert((m as int) * (m as int) >= 0x1_0000_0000_0000_0000) by (nonlinear_arith)
                requires
                    m >= 0x1_0000_0000,
            ;
            lemma_div_is_ordered(
                0x1_0000_0000_0000_0000,
                (m as int) * (m as int),
                FX_ONE as int,
            );
            lemma_div_is_ordered(
                (m as int) * (m as int),
                0x1_FFFF_FFFFint * 0x1_FFFF_FFFFint,
                FX_ONE as int,
            );
            assert((0x1_FFFF_FFFFint * 0x1_FFFF_FFFFint) / 0x1_0000_0000int < 0x4_0000_0000int);
        }
        let sq = (m * m) / 0x1_0000_0000u128;
        if sq >= 0x2_0000_0000 {
            m = sq / 2;
            f = f * 2 + 1;
        } else {
            m = sq;
            f = f * 2;
        }
        j = j + 1;
    }
    proof {
        lemma2_to64();
        lemma_log_frac_range(m1, 32, 0);
    }
    let r = (e as i64) * FX_ONE + (f as i64);
    r
}

/// The smoothed escape measure of the squared magnitude at escape:
/// `log2(ln |z|)`, computed as `log2` of `log2(|z|^2) * ln(2)/2`, with
/// one doubling when that product lies below one.
pub open spec fn smooth_log_s(n2: int) -> int {
    let lg = log2_fx_s(n2 / (FX_ONE as int));
    let w = fx_mul_v(lg, LN2_HALF_FX as int);
    if w >= FX_ONE {
        log2_fx_s(w)
    } else {
        log2_fx_s(2 * w) - (FX_ONE as int)
    }
}

/// The smoothed iteration value of a start point: the raw count plus
/// `1 - log2(ln |z|)` at the escape point when the orbit escapes within
/// the budget, the budget itself otherwise, in raw fixed point.
pub open spec fn smooth_value_s(zx0: int, zy0: int, cx: int, cy: int, max: nat) -> int {
    let n = escape_count_s(zx0, zy0, cx, cy, max);
    if n >= max {
        (max as int) * (FX_ONE as int)
    } else {
        let fzx = final_zx_s(zx0, zy0, cx, cy, 0, max);
        let fzy = final_zy_s(zx0, zy0, cx, cy, 0, max);
        (n + 1) * (FX_ONE as int) - smooth_log_s(norm2_hi(fzx, fzy))
    }
}

/// A fixed-point product with a non-negative factor is monotone in the
/// other factor.
proof fn lemma_fx_mul_mono_left(a1: int, a2: int, b: int)
    requires
        0 <= a1 <= a2,
        0 <= b,
    ensures
        0 <= fx_mul_v(a1, b) <= fx_mul_v(a2, b),
{
    lemma_mul_inequality(a1, a2, b);
    assert(0 <= a1 * b) by (nonlinear_arith)
        requires
            0 <= a1,
            0 <= b,
    ;
    lemma_div_is_ordered(a1 * b, a2 * b, FX_ONE as int);
    lemma_div_pos_is_pos(a1 * b, FX_ONE as int);
}

/// A start point whose raw count exhausts the budget has a smoothed
/// measure of exactly the budget, in raw fixed point: both iteration
/// modes classify such a point as inside the set.
pub proof fn lemma_smooth_at_budget(zx0: int, zy0: int, cx: int, cy: int, max: nat)
    requires
        escape_count_s(zx0, zy0, cx, cy, max) >= max,
    ensures
        smooth_value_s(zx0, zy0, cx, cy, max) == max * (FX_ONE as int),
{
}

/// Run the escape-time recurrence and report the smoothed measure used
/// by the export path: the raw count continued below the integer by the
/// double logarithm of the escape magnitude.
pub fn iterate_point_smooth(zx0: i64, zy0: i64, cx: i64, cy: i64, max_iterations: u32) -> (v: i64)
    requires
        mag(zx0 as int) <= COORD_LIMIT_FX,
        mag(zy0 as int) <= COORD_LIMIT_FX,
        mag(cx as int) <= COORD_LIMIT_FX,
        mag(cy as int) <= COORD_LIMIT_FX,
        max_iterations <= MAX_ITER_LIMIT,
    ensures
        v == smooth_value_s(zx0 as int, zy0 as int, cx as int, cy as int, max_iterations as nat),
        -98 * (FX_ONE as int) <= v <= ((max_iterations as int) + 2) * (FX_ONE as int),
{
    let mut zx = zx0;
    let mut zy = zy0;
    let mut i: u32 = 0;
    let mut n2: i128 = norm2_of(zx, zy);
    loop
        invariant_except_break
            i <= max_iterations,
            max_iterations <= MAX_ITER_LIMIT,
            mag(zx as int) <= Z_LIMIT_FX,
            mag(zy as int) <= Z_LIMIT_FX,
            mag(cx as int) <= COORD_LIMIT_FX,
            mag(cy as int) <= COORD_LIMIT_FX,
            n2 == norm2_hi(zx as int, zy as int),
            escape_from(zx as int, zy as int, cx as int, cy as int, i as nat, max_iterations as nat)
                == escape_count_s(
                zx0 as int,
                zy0 as int,
                cx as int,
                cy as int,
                max_iterations as nat,
            ),
            final_zx_s(zx as int, zy as int, cx as int, cy as int, i as nat, max_iterations as nat)
                == final_zx_s(zx0 as int, zy0 as int, cx as int, cy as int, 0, max_iterations as nat),
            final_zy_s(zx as int, zy as int, cx as int, cy as int, i as nat, max_iterations as nat)
                == final_zy_s(zx0 as int, zy0 as int, cx as int, cy as int, 0, max_iterations as nat),
        ensures
            i <= max_iterations,
            max_iterations <= MAX_ITER_LIMIT,
            mag(cx as int) <= COORD_LIMIT_FX,
            mag(cy as int) <= COORD_LIMIT_FX,
            i as nat == escape_count_s(
                zx0 as int,
                zy0 as int,
                cx as int,
                cy as int,
                max_iterations as nat,
            ),
            n2 == norm2_hi(zx as int, zy as int),
            i < max_iterations ==> n2 > FOUR_HI,
            mag(zx as int) <= Z_LIMIT_FX,
            mag(zy as int) <= Z_LIMIT_FX,
            zx as int == final_zx_s(zx0 as int, zy0 as int, cx as int, cy as int, 0, max_iterations as nat),
            zy as int == final_zy_s(zx0 as int, zy0 as int, cx as int, cy as int, 0, max_iterations as nat),
        decreases max_iterations - i,
    {
        if n2 > FOUR_HI {
            break ;
        }
        if i >= max_iterations {
            break ;
        }
        let z = iterate_step(zx, zy, cx, cy);
        zx = z.0;
        zy = z.1;
        i = i + 1;
        n2 = norm2_of(zx, zy);
    }
    if i >= max_iterations {
        return (i as i64) * FX_ONE;
    }
    // The orbit escaped: |z|^2 > 4, so both logarithms are defined.
    proof {
        lemma_z_product_bounds(zx as int, zy as int);
        lemma_div_is_ordered(FOUR_HI as int, n2 as int, FX_ONE as int);
        lemma_div_pos_is_pos(n2 as int, FX_ONE as int);
        lemma_div_is_ordered(
            n2 as int,
            2658456070797994850367762072810291200,
            FX_ONE as int,
        );
    }
    let m_in: u128 = (n2 as u128) / (FX_ONE as u128);
    let lg = log2_fx(m_in);
    proof {
        // |z|^2 > 4 puts at least two halvings into the logarithm.
        assert(m_in as int >= 4 * (FX_ONE as int));
        lemma_div_is_ordered(4 * (FX_ONE as int), m_in as int, 2);
        assert((4 * (FX_ONE as int)) / 2 == 2 * (FX_ONE as int));
        assert(norm_shift(m_in as int) == 1 + norm_shift((m_in as int) / 2));
        assert(norm_shift((m_in as int) / 2) >= 1);
        assert(norm_shift(m_in as int) >= 2);
        lemma_fx_mul_mono_left(2 * (FX_ONE as int), lg as int, LN2_HALF_FX as int);
        lemma_fx_mul_mono_left(lg as int, 97 * (FX_ONE as int), LN2_HALF_FX as int);
        assert(fx_mul_v(2 * (FX_ONE as int), LN2_HALF_FX as int) == 2 * (LN2_HALF_FX as int)) by {
            vstd::arithmetic::div_mod::lemma_div_multiples_vanish(
                2 * (LN2_HALF_FX as int),
                FX_ONE as int,
            );
            assert((2 * (FX_ONE as int)) * (LN2_HALF_FX as int) == (FX_ONE as int) * (2 * (
            LN2_HALF_FX as int))) by (nonlinear_arith);
        }
    }
    let w = fx_mul(lg, LN2_HALF_FX);
    let g = if w >= FX_ONE {
        log2_fx(w as u128)
    } else {
        assert(2 * w >= FX_ONE);
        log2_fx((2 * w) as u128) - FX_ONE
    };
    (i as i64 + 1) * FX_ONE - g
}

} // verus!
