//! The viewport mapper: from a pixel grid, a centre point and a zoom
//! scale to the rectangle of the complex plane the grid shows.
//!
//! The base horizontal span is `3.5 / scale` plane units; the vertical
//! span divides the horizontal one by the `width / height` aspect ratio,
//! so zoom is tied uniformly to the wider dimension.  Pixel `(x, y)` maps
//! to `top_left + (x * step_x, y * step_y)` with one fixed step per axis,
//! so the per-pixel spacing is exactly constant.

use vstd::arithmetic::div_mod::{lemma_div_pos_is_pos, lemma_fundamental_div_mod};
use vstd::arithmetic::mul::{lemma_mul_inequality, lemma_mul_upper_bound};
use vstd::prelude::*;

use crate::fixed::{fx_div, fx_div_int, fx_div_v, fx_muldiv_int, mag, tz_div, FX_ONE};

verus! {

/// Raw span of the plane at scale one: 3.5 plane units.
pub const SPAN_FX: i64 = 15032385536;

/// Smallest admitted zoom scale (about `2^-12`), the zoom-out limit.
pub const SCALE_MIN_FX: i64 = 1048576;

/// Largest admitted zoom scale (about `2^20`), the zoom-in limit.
pub const SCALE_MAX_FX: i64 = 4503599627370496;

/// Largest admitted magnitude of a centre coordinate (32768 plane units).
pub const CENTER_LIMIT_FX: i64 = 140737488355328;

/// Largest admitted pixel dimension on either axis.
pub const DIM_MAX: usize = 8192;

/// Upper bound of the horizontal span at the smallest scale.
pub const VW_CAP_FX: i64 = SPAN_FX * 4096;

/// Upper bound of the vertical span (tallest aspect at smallest scale).
pub const VH_CAP_FX: i64 = VW_CAP_FX * 8192;

/// Every plane coordinate of a mapped pixel stays below this magnitude;
/// the escape iteration in turn admits any start point below it.
pub const COORD_LIMIT_FX: i64 = 0x1000_0000_0000_0000;

/// The rectangle of the plane a pixel grid shows: the top-left corner and
/// one fixed plane step per pixel on each axis.
#[derive(Clone, Copy, Debug, PartialEq, Eq, Structural)]
pub struct Viewport {
    pub width: usize,
    pub height: usize,
    pub vw: i64,
    pub vh: i64,
    pub left: i64,
    pub top: i64,
    pub step_x: i64,
    pub step_y: i64,
}

/// Raw horizontal plane span for a zoom scale: `3.5 / scale`.
pub open spec fn vw_s(scale: int) -> int {
    fx_div_v(SPAN_FX as int, scale)
}

/// Raw vertical plane span: the horizontal span divided by the
/// `width / height` aspect ratio.
pub open spec fn vh_s(scale: int, width: int, height: int) -> int {
    tz_div(vw_s(scale) * height, width)
}

/// Leftmost plane coordinate: the centre minus half the span.
pub open spec fn left_s(cx: int, scale: int) -> int {
    cx - tz_div(vw_s(scale), 2)
}

/// Topmost plane coordinate: the centre minus half the span.
pub open spec fn top_s(cy: int, scale: int, width: int, height: int) -> int {
    cy - tz_div(vh_s(scale, width, height), 2)
}

/// Horizontal plane step between adjacent pixels.
pub open spec fn step_x_s(scale: int, width: int) -> int {
    tz_div(vw_s(scale), width)
}

/// Vertical plane step between adjacent pixels.
pub open spec fn step_y_s(scale: int, width: int, height: int) -> int {
    tz_div(vh_s(scale, width, height), height)
}

/// Admissible mapper inputs: positive bounded dimensions, a zoom scale
/// inside the admitted range, and centre coordinates inside the admitted
/// square.
pub open spec fn viewport_inputs_ok(
    width: int,
    height: int,
    cx: int,
    cy: int,
    scale: int,
) -> bool {
    &&& 0 < width <= DIM_MAX
    &&& 0 < height <= DIM_MAX
    &&& SCALE_MIN_FX <= scale <= SCALE_MAX_FX
    &&& mag(cx) <= CENTER_LIMIT_FX
    &&& mag(cy) <= CENTER_LIMIT_FX
}

impl Viewport {
    /// The fields describe the rectangle these parameters map to.
    pub open spec fn matches(self, width: int, height: int, cx: int, cy: int, scale: int) -> bool {
        &&& self.width == width
        &&& self.height == height
        &&& self.vw == vw_s(scale)
        &&& self.vh == vh_s(scale, width, height)
        &&& self.left == left_s(cx, scale)
        &&& self.top == top_s(cy, scale, width, height)
        &&& self.step_x == step_x_s(scale, width)
        &&& self.step_y == step_y_s(scale, width, height)
    }

    /// Internal bounds every constructed viewport meets: non-negative
    /// spans and steps, whole pixel rows inside the spans, and every
    /// mapped coordinate inside the iteration limit.
    pub open spec fn wf(self) -> bool {
        &&& 0 < self.width <= DIM_MAX
        &&& 0 < self.height <= DIM_MAX
        &&& 0 <= self.vw <= VW_CAP_FX
        &&& 0 <= self.vh <= VH_CAP_FX
        &&& 0 <= self.step_x
        &&& 0 <= self.step_y
        &&& self.step_x * self.width <= self.vw
        &&& self.step_y * self.height <= self.vh
        &&& mag(self.left as int) + self.vw <= COORD_LIMIT_FX
        &&& mag(self.top as int) + self.vh <= COORD_LIMIT_FX
    }

    /// Raw horizontal plane coordinate of pixel column `x`.
    pub open spec fn plane_x_s(self, x: int) -> int {
        self.left + x * self.step_x
    }

    /// Raw vertical plane coordinate of pixel row `y`.
    pub open spec fn plane_y_s(self, y: int) -> int {
        self.top + y * self.step_y
    }
}

/// A mapped coordinate of a pixel inside the grid stays within the
/// iteration limit.
pub proof fn lemma_plane_in_limit(vp: Viewport, x: int, y: int)
    requires
        vp.wf(),
        0 <= x <= vp.width,
        0 <= y <= vp.height,
    ensures
        mag(vp.plane_x_s(x)) <= COORD_LIMIT_FX,
        mag(vp.plane_y_s(y)) <= COORD_LIMIT_FX,
        0 <= x * vp.step_x <= vp.vw,
        0 <= y * vp.step_y <= vp.vh,
{
    lemma_mul_inequality(x, vp.width as int, vp.step_x as int);
    lemma_mul_inequality(y, vp.height as int, vp.step_y as int);
    assert(0 <= x * vp.step_x) by (nonlinear_arith)
        requires
            0 <= x,
            0 <= vp.step_x,
    ;
    assert(0 <= y * vp.step_y) by (nonlinear_arith)
        requires
            0 <= y,
            0 <= vp.step_y,
    ;
}

/// Map a pixel grid, a centre and a zoom scale to the plane rectangle
/// they show.
pub fn get_viewport(width: usize, height: usize, cx: i64, cy: i64, scale: i64) -> (vp: Viewport)
    requires
        viewport_inputs_ok(width as int, height as int, cx as int, cy as int, scale as int),
    ensures
        vp.matches(width as int, height as int, cx as int, cy as int, scale as int),
        vp.wf(),
{
    proof {
        // The span is positive and at most the zoom-out cap.
        lemma_div_pos_is_pos((SPAN_FX as int) * (FX_ONE as int), scale as int);
        lemma_div_is_ordered_by_denominator_wrapper(
            (SPAN_FX as int) * (FX_ONE as int),
            SCALE_MIN_FX as int,
            scale as int,
        );
    }
    let vw = fx_div(SPAN_FX, scale);
    proof {
        lemma_mul_upper_bound(vw as int, VW_CAP_FX as int, height as int, DIM_MAX as int);
        assert(0 <= vw * height) by (nonlinear_arith)
            requires
                0 <= vw,
                0 <= height,
        ;
        lemma_div_nonincreasing_wrapper((vw as int) * (height as int), width as int);
    }
    let vh = fx_muldiv_int(vw, height as i64, width as i64);
    let half_w = fx_div_int(vw, 2);
    let half_h = fx_div_int(vh, 2);
    let left = cx - half_w;
    let top = cy - half_h;
    proof {
        lemma_div_nonincreasing_wrapper(vw as int, 2);
        lemma_div_nonincreasing_wrapper(vh as int, 2);
        lemma_div_pos_is_pos(vw as int, 2);
        lemma_div_pos_is_pos(vh as int, 2);
        lemma_div_pos_is_pos(vw as int, width as int);
        lemma_div_pos_is_pos(vh as int, height as int);
        lemma_step_in_span(vw as int, width as int);
        lemma_step_in_span(vh as int, height as int);
    }
    let step_x = fx_div_int(vw, width as i64);
    let step_y = fx_div_int(vh, height as i64);
    Viewport { width, height, vw, vh, left, top, step_x, step_y }
}

/// A whole grid of floor-divided steps stays inside the span.
proof fn lemma_step_in_span(span: int, n: int)
    requires
        0 <= span,
        0 < n,
    ensures
        (span / n) * n <= span,
        0 <= span - (span / n) * n < n,
{
    vstd::arithmetic::div_mod::lemma_remainder(span, n);
    assert((span / n) * n == span / n * n);
}

/// A larger denominator cannot enlarge a non-negative quotient.
proof fn lemma_div_is_ordered_by_denominator_wrapper(x: int, y: int, z: int)
    requires
        0 <= x,
        1 <= y <= z,
    ensures
        x / z <= x / y,
{
    vstd::arithmetic::div_mod::lemma_div_is_ordered_by_denominator(x, y, z);
}

/// Division by a positive denominator does not increase a non-negative
/// numerator.
proof fn lemma_div_nonincreasing_wrapper(x: int, d: int)
    requires
        0 <= x,
        1 <= d,
    ensures
        0 <= x / d <= x,
{
    vstd::arithmetic::div_mod::lemma_div_nonincreasing(x, d);
    vstd::arithmetic::div_mod::lemma_div_pos_is_pos(x, d);
}

/// Map a pixel grid if its dimensions admit one: invalid geometry (a
/// zero dimension, or one beyond `DIM_MAX`) is rejected before any
/// division can happen.
pub fn try_viewport(width: usize, height: usize, cx: i64, cy: i64, scale: i64) -> (r: Option<
    Viewport,
>)
    requires
        SCALE_MIN_FX <= scale <= SCALE_MAX_FX,
        mag(cx as int) <= CENTER_LIMIT_FX,
        mag(cy as int) <= CENTER_LIMIT_FX,
    ensures
        r is Some <==> (0 < width <= DIM_MAX && 0 < height <= DIM_MAX),
        r is Some ==> {
            &&& r->Some_0.matches(width as int, height as int, cx as int, cy as int, scale as int)
            &&& r->Some_0.wf()
        },
{
    if width == 0 || height == 0 || width > DIM_MAX || height > DIM_MAX {
        None
    } else {
        Some(get_viewport(width, height, cx, cy, scale))
    }
}

/// Raw plane coordinates of pixel `(x, y)` of a mapped grid.
pub fn pixel_to_plane(vp: &Viewport, x: usize, y: usize) -> (p: (i64, i64))
    requires
        vp.wf(),
        x < vp.width,
        y < vp.height,
    ensures
        p.0 == vp.plane_x_s(x as int),
        p.1 == vp.plane_y_s(y as int),
        mag(p.0 as int) <= COORD_LIMIT_FX,
        mag(p.1 as int) <= COORD_LIMIT_FX,
{
    proof {
        lemma_plane_in_limit(*vp, x as int, y as int);
    }
    let px = vp.left + (x as i64) * vp.step_x;
    let py = vp.top + (y as i64) * vp.step_y;
    (px, py)
}

/// Uniform scale: the plane distance between adjacent pixels is the same
/// everywhere on an axis, the grid of steps exhausts the span up to less
/// than one raw unit per pixel, and the left edge plus the full span
/// reaches the centre plus the upper half-span (exactly the half-span
/// when the raw span is even).
pub proof fn lemma_viewport_uniform(vp: Viewport, width: int, height: int, cx: int, cy: int, scale: int)
    requires
        viewport_inputs_ok(width, height, cx, cy, scale),
        vp.matches(width, height, cx, cy, scale),
        vp.wf(),
    ensures
        forall|x: int| #[trigger] vp.plane_x_s(x + 1) - vp.plane_x_s(x) == vp.step_x,
        forall|y: int| #[trigger] vp.plane_y_s(y + 1) - vp.plane_y_s(y) == vp.step_y,
        0 <= vp.vw - vp.plane_x_s(width) + vp.left < width,
        0 <= vp.vh - vp.plane_y_s(height) + vp.top < height,
        vp.left + vp.vw == cx + (vp.vw - tz_div(vp.vw as int, 2)),
        vp.top + vp.vh == cy + (vp.vh - tz_div(vp.vh as int, 2)),
        vp.vw % 2 == 0 ==> vp.left + vp.vw == cx + tz_div(vp.vw as int, 2),
        vp.vh % 2 == 0 ==> vp.top + vp.vh == cy + tz_div(vp.vh as int, 2),
{
    assert forall|x: int| #[trigger] vp.plane_x_s(x + 1) - vp.plane_x_s(x) == vp.step_x by {
        assert((x + 1) * vp.step_x == x * vp.step_x + vp.step_x) by (nonlinear_arith);
    }
    assert forall|y: int| #[trigger] vp.plane_y_s(y + 1) - vp.plane_y_s(y) == vp.step_y by {
        assert((y + 1) * vp.step_y == y * vp.step_y + vp.step_y) by (nonlinear_arith);
    }
    lemma_step_in_span(vp.vw as int, width);
    lemma_step_in_span(vp.vh as int, height);
    assert(vp.plane_x_s(width) - vp.left == width * vp.step_x);
    assert(width * vp.step_x == ((vp.vw as int) / width) * width) by (nonlinear_arith)
        requires
            vp.step_x == (vp.vw as int) / width,
    ;
    assert(vp.plane_y_s(height) - vp.top == height * vp.step_y);
    assert(height * vp.step_y == ((vp.vh as int) / height) * height) by (nonlinear_arith)
        requires
            vp.step_y == (vp.vh as int) / height,
    ;
    // Halving an even span is exact.
    if vp.vw % 2 == 0 {
        lemma_fundamental_div_mod(vp.vw as int, 2);
    }
    if vp.vh % 2 == 0 {
        lemma_fundamental_div_mod(vp.vh as int, 2);
    }
}

} // verus!
