//! The palette registry: a fixed, ordered set of pure colour maps.
//!
//! Each palette sends an escape fraction `t` in `[0, 1]` (raw fixed-point,
//! see `fixed`) to an 8-bit RGB triple.  Channel values are computed in
//! fixed point and saturated into `0..=255` exactly the way a
//! float-to-`u8` cast saturates, so every palette is total and
//! deterministic, and its contract names the resulting triple exactly.

use vstd::arithmetic::div_mod::{
    lemma_div_by_multiple,
    lemma_div_is_ordered,
    lemma_div_multiples_vanish,
    lemma_div_pos_is_pos,
    lemma_mul_hoist_inequality,
};
use vstd::arithmetic::mul::{lemma_mul_inequality, lemma_mul_upper_bound};
use vstd::prelude::*;

use crate::color::Rgb;
use crate::fixed::{fx_div, fx_div_int, fx_div_v, fx_mul, fx_mul_v, tz_div, FX_ONE};

verus! {

/// How many palettes the registry holds.
pub const PALETTE_COUNT: usize = 6;

/// Raw fixed-point value of pi.
pub const PI_FX: i64 = 13493037705;

/// Raw fixed-point value of two pi.
pub const TWO_PI_FX: i64 = 26986075409;

/// The closed set of palettes, in registry order.
#[derive(Clone, Copy, Debug, PartialEq, Eq, Structural)]
pub enum PaletteKind {
    Default,
    Fire,
    Rainbow,
    Ocean,
    Grayscale,
    Electric,
}

/// A fraction clamped into the unit interval `[0, FX_ONE]`.
pub open spec fn clamp01_s(t: int) -> int {
    if t < 0 {
        0
    } else if t > FX_ONE {
        FX_ONE as int
    } else {
        t
    }
}

/// Clamp a raw fraction into the unit interval.
pub fn clamp01(t: i64) -> (r: i64)
    ensures
        r == clamp01_s(t as int),
{
    if t < 0 {
        0
    } else if t > FX_ONE {
        FX_ONE
    } else {
        t
    }
}

/// A raw channel value saturated into `0..=255`, as a float-to-byte cast
/// would saturate it.
pub open spec fn channel_s(v: int) -> u8 {
    if v < 0 {
        0u8
    } else if v > 255 * (FX_ONE as int) {
        255u8
    } else {
        (v / (FX_ONE as int)) as u8
    }
}

/// Saturating conversion of a raw fixed-point value to a channel byte.
pub fn channel(v: i64) -> (c: u8)
    ensures
        c == channel_s(v as int),
{
    if v < 0 {
        0
    } else if v > 255 * FX_ONE {
        255
    } else {
        proof {
            lemma_div_is_ordered(v as int, 255 * (FX_ONE as int), FX_ONE as int);
            lemma_div_by_multiple(255, FX_ONE as int);
            lemma_div_pos_is_pos(v as int, FX_ONE as int);
        }
        ((v as u64) / (FX_ONE as u64)) as u8
    }
}

/// Bounds of a fixed-point product of non-negative factors.
pub proof fn lemma_fx_mul_le(a: int, b: int, ab: int, bb: int)
    requires
        0 <= a <= ab,
        0 <= b <= bb,
    ensures
        0 <= fx_mul_v(a, b) <= (ab * bb) / (FX_ONE as int),
{
    lemma_mul_upper_bound(a, ab, b, bb);
    assert(0 <= a * b) by (nonlinear_arith)
        requires
            0 <= a,
            0 <= b,
    ;
    lemma_div_is_ordered(a * b, ab * bb, FX_ONE as int);
    lemma_div_pos_is_pos(a * b, FX_ONE as int);
}

/// Whether `r` is the floor of the square root of `n`.
pub open spec fn is_sqrt_floor(n: int, r: int) -> bool {
    0 <= r && r * r <= n && n < (r + 1) * (r + 1)
}

/// The floor of the square root of a non-negative integer.
pub open spec fn sqrt_floor(n: int) -> int {
    choose|r: int| is_sqrt_floor(n, r)
}

/// The floor of the square root is unique.
pub proof fn lemma_sqrt_floor_is(n: int, r: int)
    requires
        is_sqrt_floor(n, r),
    ensures
        sqrt_floor(n) == r,
{
    assert(exists|k: int| is_sqrt_floor(n, k));
    let k = sqrt_floor(n);
    assert(is_sqrt_floor(n, k));
    if k < r {
        assert(false) by (nonlinear_arith)
            requires
                0 <= k < r,
                r * r <= n,
                n < (k + 1) * (k + 1),
        ;
    }
    if k > r {
        assert(false) by (nonlinear_arith)
            requires
                0 <= r < k,
                k * k <= n,
                n < (r + 1) * (r + 1),
        ;
    }
}

/// Floor of the square root of `n`, by bisection.
pub fn isqrt(n: u128) -> (r: u64)
    requires
        n <= 0x1_0000_0000_0000_0000,
    ensures
        is_sqrt_floor(n as int, r as int),
        r == sqrt_floor(n as int),
        r <= 0x1_0000_0000,
{
    let mut lo: u128 = 0;
    let mut hi: u128 = 0x2_0000_0000;
    assert(0x2_0000_0000u128 * 0x2_0000_0000u128 == 0x4_0000_0000_0000_0000u128);
    while lo + 1 < hi
        invariant
            lo < hi <= 0x2_0000_0000,
            lo * lo <= n,
            n < hi * hi,
        decreases hi - lo,
    {
        let mid = lo + (hi - lo) / 2;
        assert(lo < mid < hi);
        assert(mid * mid < 0x1_0000_0000_0000_0000_0000_0000u128) by (nonlinear_arith)
            requires
                0 <= mid < 0x2_0000_0000u128,
        ;
        if mid * mid <= n {
            lo = mid;
        } else {
            hi = mid;
        }
    }
    assert(hi == lo + 1);
    assert(lo <= 0x1_0000_0000u128) by (nonlinear_arith)
        requires
            lo * lo <= n,
            n <= 0x1_0000_0000_0000_0000u128,
    ;
    proof {
        lemma_sqrt_floor_is(n as int, lo as int);
    }
    lo as u64
}

/// Fixed-point square root of a unit-interval fraction.
pub fn sqrt_fx(t: i64) -> (r: i64)
    requires
        0 <= t <= FX_ONE,
    ensures
        r == sqrt_floor(t * (FX_ONE as int)),
        0 <= r <= FX_ONE,
{
    proof {
        lemma_mul_upper_bound(t as int, FX_ONE as int, FX_ONE as int, FX_ONE as int);
        assert(0 <= t * (FX_ONE as int)) by (nonlinear_arith)
            requires
                0 <= t,
        ;
    }
    let n: u128 = (t as u128) * (FX_ONE as u128);
    let r = isqrt(n);
    assert(r <= FX_ONE) by (nonlinear_arith)
        requires
            is_sqrt_floor(n as int, r as int),
            n <= (FX_ONE as int) * (FX_ONE as int),
            FX_ONE == 0x1_0000_0000i64,
    ;
    r as i64
}

/// Raw sine of an angle in `[0, pi]`, by the Bhaskara rational
/// approximation `16 th (pi - th) / (5 pi^2 - 4 th (pi - th))`.
pub open spec fn sin_half_s(th: int) -> int {
    let q = fx_mul_v(th, (PI_FX as int) - th);
    let pp = fx_mul_v(PI_FX as int, PI_FX as int);
    fx_div_v(16 * q, 5 * pp - 4 * q)
}

/// Sine on the first half-turn, non-negative and at most one.
pub fn sin_half(th: i64) -> (r: i64)
    requires
        0 <= th <= PI_FX,
    ensures
        r == sin_half_s(th as int),
        0 <= r <= FX_ONE,
{
    let d = PI_FX - th;
    proof {
        lemma_fx_mul_le(th as int, d as int, PI_FX as int, PI_FX as int);
        lemma_fx_mul_le(PI_FX as int, PI_FX as int, PI_FX as int, PI_FX as int);
    }
    let q = fx_mul(th, d);
    let pp = fx_mul(PI_FX, PI_FX);
    proof {
        // 4 th (pi - th) <= pi^2, hence 4 q <= pp.
        assert(4 * ((th as int) * (d as int)) <= (PI_FX as int) * (PI_FX as int))
            by (nonlinear_arith)
            requires
                d == PI_FX - th,
                0 <= th <= PI_FX,
        ;
        lemma_mul_hoist_inequality(4, (th as int) * (d as int), FX_ONE as int);
        lemma_div_is_ordered(
            4 * ((th as int) * (d as int)),
            (PI_FX as int) * (PI_FX as int),
            FX_ONE as int,
        );
        lemma_div_pos_is_pos((th as int) * (d as int), FX_ONE as int);
        assert(0 <= (th as int) * (d as int)) by (nonlinear_arith)
            requires
                0 <= th,
                0 <= d,
        ;
    }
    assert(4 * q <= pp);
    let num = 16 * q;
    let den = 5 * pp - 4 * q;
    proof {
        // num <= den, so the quotient is at most one.
        lemma_mul_inequality(num as int, den as int, FX_ONE as int);
        lemma_div_is_ordered(
            (num as int) * (FX_ONE as int),
            (den as int) * (FX_ONE as int),
            den as int,
        );
        lemma_div_multiples_vanish(FX_ONE as int, den as int);
        lemma_div_pos_is_pos((num as int) * (FX_ONE as int), den as int);
        assert(0 <= (num as int) * (FX_ONE as int)) by (nonlinear_arith)
            requires
                0 <= num,
        ;
    }
    fx_div(num, den)
}

/// Raw sine of an angle in `[0, 4 pi)`: one subtraction of a full turn,
/// then the odd half-turn symmetry.
pub open spec fn sin_fx_s(x: int) -> int {
    let y = if x >= TWO_PI_FX {
        x - TWO_PI_FX
    } else {
        x
    };
    if y < PI_FX {
        sin_half_s(y)
    } else {
        -sin_half_s(y - PI_FX)
    }
}

/// Sine of a non-negative angle below two full turns.
pub fn sin_fx(x: i64) -> (r: i64)
    requires
        0 <= x < 2 * TWO_PI_FX,
    ensures
        r == sin_fx_s(x as int),
        -FX_ONE <= r <= FX_ONE,
{
    let y = if x >= TWO_PI_FX {
        x - TWO_PI_FX
    } else {
        x
    };
    if y < PI_FX {
        sin_half(y)
    } else {
        -sin_half(y - PI_FX)
    }
}

/// The warm cubic-blend gradient: `(9(1-t)t^3, 15(1-t)^2 t^2, 8.5(1-t)^3 t)`
/// scaled by 255.
pub open spec fn default_palette_s(t: int) -> Rgb {
    let u = (FX_ONE as int) - t;
    let t2 = fx_mul_v(t, t);
    let t3 = fx_mul_v(t2, t);
    let u2 = fx_mul_v(u, u);
    let u3 = fx_mul_v(u2, u);
    Rgb {
        r: channel_s(2295 * fx_mul_v(u, t3)),
        g: channel_s(3825 * fx_mul_v(u2, t2)),
        b: channel_s(tz_div(4335 * fx_mul_v(u3, t), 2)),
    }
}

/// The default warm gradient.
pub fn default_palette(t: i64) -> (c: Rgb)
    requires
        0 <= t <= FX_ONE,
    ensures
        c == default_palette_s(t as int),
{
    let u = FX_ONE - t;
    proof {
        lemma_fx_mul_le(t as int, t as int, FX_ONE as int, FX_ONE as int);
        lemma_fx_mul_le(u as int, u as int, FX_ONE as int, FX_ONE as int);
    }
    let t2 = fx_mul(t, t);
    let u2 = fx_mul(u, u);
    proof {
        lemma_fx_mul_le(t2 as int, t as int, FX_ONE as int, FX_ONE as int);
        lemma_fx_mul_le(u2 as int, u as int, FX_ONE as int, FX_ONE as int);
    }
    let t3 = fx_mul(t2, t);
    let u3 = fx_mul(u2, u);
    proof {
        lemma_fx_mul_le(u as int, t3 as int, FX_ONE as int, FX_ONE as int);
        lemma_fx_mul_le(u2 as int, t2 as int, FX_ONE as int, FX_ONE as int);
        lemma_fx_mul_le(u3 as int, t as int, FX_ONE as int, FX_ONE as int);
    }
    let r = channel(2295 * fx_mul(u, t3));
    let g = channel(3825 * fx_mul(u2, t2));
    let b = channel(fx_div_int(4335 * fx_mul(u3, t), 2));
    Rgb { r, g, b }
}

/// The fire gradient: `(255 t, 255 sqrt(t) (1-t), 64 (1-t))`.
pub open spec fn fire_palette_s(t: int) -> Rgb {
    let u = (FX_ONE as int) - t;
    let s = sqrt_floor(t * (FX_ONE as int));
    Rgb {
        r: channel_s(255 * t),
        g: channel_s(255 * fx_mul_v(s, u)),
        b: channel_s(64 * u),
    }
}

/// The fire gradient.
pub fn fire_palette(t: i64) -> (c: Rgb)
    requires
        0 <= t <= FX_ONE,
    ensures
        c == fire_palette_s(t as int),
{
    let u = FX_ONE - t;
    let s = sqrt_fx(t);
    proof {
        lemma_fx_mul_le(s as int, u as int, FX_ONE as int, FX_ONE as int);
    }
    let r = channel(255 * t);
    let g = channel(255 * fx_mul(s, u));
    let b = channel(64 * u);
    Rgb { r, g, b }
}

/// The sinusoidal rainbow gradient with per-channel phase offsets of
/// 0, 2 and 4 radians: `127.5 (1 + sin(6t + phase))`.
pub open spec fn rainbow_palette_s(t: int) -> Rgb {
    Rgb {
        r: channel_s(tz_div(255 * ((FX_ONE as int) + sin_fx_s(6 * t)), 2)),
        g: channel_s(tz_div(255 * ((FX_ONE as int) + sin_fx_s(6 * t + 2 * (FX_ONE as int))), 2)),
        b: channel_s(tz_div(255 * ((FX_ONE as int) + sin_fx_s(6 * t + 4 * (FX_ONE as int))), 2)),
    }
}

/// The rainbow gradient.
pub fn rainbow_palette(t: i64) -> (c: Rgb)
    requires
        0 <= t <= FX_ONE,
    ensures
        c == rainbow_palette_s(t as int),
{
    let s1 = sin_fx(6 * t);
    let s2 = sin_fx(6 * t + 2 * FX_ONE);
    let s3 = sin_fx(6 * t + 4 * FX_ONE);
    let r = channel(fx_div_int(255 * (FX_ONE + s1), 2));
    let g = channel(fx_div_int(255 * (FX_ONE + s2), 2));
    let b = channel(fx_div_int(255 * (FX_ONE + s3), 2));
    Rgb { r, g, b }
}

/// The ocean gradient: `(20 (1-t), 80 + 120 t, 200 + 55 t)`.
pub open spec fn ocean_palette_s(t: int) -> Rgb {
    let u = (FX_ONE as int) - t;
    Rgb {
        r: channel_s(20 * u),
        g: channel_s(80 * (FX_ONE as int) + 120 * t),
        b: channel_s(200 * (FX_ONE as int) + 55 * t),
    }
}

/// The ocean gradient.
pub fn ocean_palette(t: i64) -> (c: Rgb)
    requires
        0 <= t <= FX_ONE,
    ensures
        c == ocean_palette_s(t as int),
{
    let u = FX_ONE - t;
    let r = channel(20 * u);
    let g = channel(80 * FX_ONE + 120 * t);
    let b = channel(200 * FX_ONE + 55 * t);
    Rgb { r, g, b }
}

/// The linear grayscale ramp: all channels `255 t`.
pub open spec fn grayscale_palette_s(t: int) -> Rgb {
    let shade = channel_s(255 * t);
    Rgb { r: shade, g: shade, b: shade }
}

/// The grayscale ramp.
pub fn grayscale_palette(t: i64) -> (c: Rgb)
    requires
        0 <= t <= FX_ONE,
    ensures
        c == grayscale_palette_s(t as int),
{
    let shade = channel(255 * t);
    Rgb { r: shade, g: shade, b: shade }
}

/// The electric blue-cyan gradient:
/// `(100 (1-t), 200 t, 255 min(1.2 t, 1))`.
pub open spec fn electric_palette_s(t: int) -> Rgb {
    let u = (FX_ONE as int) - t;
    let m = tz_div(6 * t, 5);
    let m1 = if m > FX_ONE {
        FX_ONE as int
    } else {
        m
    };
    Rgb { r: channel_s(100 * u), g: channel_s(200 * t), b: channel_s(255 * m1) }
}

/// The electric gradient.
pub fn electric_palette(t: i64) -> (c: Rgb)
    requires
        0 <= t <= FX_ONE,
    ensures
        c == electric_palette_s(t as int),
{
    let u = FX_ONE - t;
    let m = fx_div_int(6 * t, 5);
    let m1 = if m > FX_ONE {
        FX_ONE
    } else {
        m
    };
    let r = channel(100 * u);
    let g = channel(200 * t);
    let b = channel(255 * m1);
    Rgb { r, g, b }
}

/// The registry order, as a sequence of palette identifiers.
pub open spec fn registry_s() -> Seq<PaletteKind> {
    seq![
        PaletteKind::Default,
        PaletteKind::Fire,
        PaletteKind::Rainbow,
        PaletteKind::Ocean,
        PaletteKind::Grayscale,
        PaletteKind::Electric,
    ]
}

/// The ordered, fixed list of all palettes.
pub fn all_palettes() -> (v: Vec<PaletteKind>)
    ensures
        v@ == registry_s(),
{
    let v: Vec<PaletteKind> = vec![
        PaletteKind::Default,
        PaletteKind::Fire,
        PaletteKind::Rainbow,
        PaletteKind::Ocean,
        PaletteKind::Grayscale,
        PaletteKind::Electric,
    ];
    proof {
        assert(v@ =~= registry_s());
    }
    v
}

/// The palette stored at a registry index.
pub fn palette_of_index(i: usize) -> (k: PaletteKind)
    requires
        i < PALETTE_COUNT,
    ensures
        k == registry_s()[i as int],
{
    if i == 0 {
        PaletteKind::Default
    } else if i == 1 {
        PaletteKind::Fire
    } else if i == 2 {
        PaletteKind::Rainbow
    } else if i == 3 {
        PaletteKind::Ocean
    } else if i == 4 {
        PaletteKind::Grayscale
    } else {
        PaletteKind::Electric
    }
}

/// The colour a palette gives to a unit-interval fraction.
pub open spec fn palette_rgb_s(kind: PaletteKind, t: int) -> Rgb {
    match kind {
        PaletteKind::Default => default_palette_s(t),
        PaletteKind::Fire => fire_palette_s(t),
        PaletteKind::Rainbow => rainbow_palette_s(t),
        PaletteKind::Ocean => ocean_palette_s(t),
        PaletteKind::Grayscale => grayscale_palette_s(t),
        PaletteKind::Electric => electric_palette_s(t),
    }
}

/// Evaluate a palette on any raw fraction; out-of-range fractions are
/// clamped into the unit interval first, so the map is total.
pub fn palette_color(kind: PaletteKind, t: i64) -> (c: Rgb)
    ensures
        c == palette_rgb_s(kind, clamp01_s(t as int)),
{
    let tc = clamp01(t);
    match kind {
        PaletteKind::Default => default_palette(tc),
        PaletteKind::Fire => fire_palette(tc),
        PaletteKind::Rainbow => rainbow_palette(tc),
        PaletteKind::Ocean => ocean_palette(tc),
        PaletteKind::Grayscale => grayscale_palette(tc),
        PaletteKind::Electric => electric_palette(tc),
    }
}

/// The registry index after advancing the selection once: wraps modulo
/// the registry length.
pub open spec fn next_palette_s(i: int) -> int {
    (i + 1) % (PALETTE_COUNT as int)
}

/// Advance the palette selection by one, wrapping at the end of the
/// registry.
pub fn next_palette(i: usize) -> (r: usize)
    requires
        i < PALETTE_COUNT,
    ensures
        r == next_palette_s(i as int),
        r < PALETTE_COUNT,
{
    (i + 1) % PALETTE_COUNT
}

/// Advancing the palette selection once per registry entry returns to
/// the palette it started from.
pub proof fn lemma_palette_cycle_wraps(i: int)
    requires
        0 <= i < PALETTE_COUNT,
    ensures
        next_palette_s(
            next_palette_s(
                next_palette_s(next_palette_s(next_palette_s(next_palette_s(i)))),
            ),
        ) == i,
{
}

} // verus!
