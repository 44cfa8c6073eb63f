//! The snapshot exporter: the render pipeline at a fixed high
//! resolution, fed by an immutable copy of the view parameters.
//!
//! Export colouring uses the smoothed iteration measure to remove
//! banding; a point whose measure equals the iteration budget exactly is
//! still clamped to pure black.  The produced buffer is a flat row-major
//! list of RGB triples for an external image encoder; the caller copies
//! the view state at trigger time, so an in-flight export never reads
//! live state.

use vstd::prelude::*;

use crate::color::Rgb;
use crate::fixed::{fx_div_int, tz_div, FX_ONE};
use crate::iterate::{iterate_point_smooth, smooth_value_s};
use crate::palettes::{clamp01_s, palette_of_index, palette_rgb_s};
use crate::viewport::{get_viewport, left_s, step_x_s, step_y_s, top_s, DIM_MAX};
use crate::widget::{FractalSet, ViewState};

verus! {

/// Width of an exported still image.
pub const EXPORT_WIDTH: usize = 3840;

/// Height of an exported still image.
pub const EXPORT_HEIGHT: usize = 2160;

/// The smoothed measure of pixel `(x, y)` of an exported frame.
pub open spec fn export_measure_s(v: ViewState, width: int, height: int, x: int, y: int) -> int {
    let px = left_s(v.center_x as int, v.scale as int) + x * step_x_s(v.scale as int, width);
    let py = top_s(v.center_y as int, v.scale as int, width, height) + y * step_y_s(
        v.scale as int,
        width,
        height,
    );
    match v.set {
        FractalSet::Mandelbrot => smooth_value_s(0, 0, px, py, v.max_iterations as nat),
        FractalSet::Julia => smooth_value_s(
            px,
            py,
            v.real as int,
            v.imag as int,
            v.max_iterations as nat,
        ),
    }
}

/// The RGB triple of pixel `(x, y)` of an exported frame: pure black
/// when the smoothed measure equals the budget exactly, the active
/// palette at `measure / max` otherwise.
pub open spec fn export_pixel_s(v: ViewState, width: int, height: int, x: int, y: int) -> Rgb {
    let sm = export_measure_s(v, width, height, x, y);
    if sm == (v.max_iterations as int) * (FX_ONE as int) {
        Rgb { r: 0, g: 0, b: 0 }
    } else {
        palette_rgb_s(v.palette_kind_s(), clamp01_s(tz_div(sm, v.max_iterations as int)))
    }
}

/// A pixel whose raw escape count exhausts the iteration budget is
/// clamped to pure black in the exported frame too, whatever the
/// active palette.
pub proof fn lemma_export_inside_black(v: ViewState, width: int, height: int, x: int, y: int)
    requires
        crate::widget::pixel_count_s(v, width, height, x, y) >= v.max_iterations,
    ensures
        export_pixel_s(v, width, height, x, y) == (Rgb { r: 0, g: 0, b: 0 }),
{
    let px = left_s(v.center_x as int, v.scale as int) + x * step_x_s(v.scale as int, width);
    let py = top_s(v.center_y as int, v.scale as int, width, height) + y * step_y_s(
        v.scale as int,
        width,
        height,
    );
    match v.set {
        FractalSet::Mandelbrot => {
            crate::iterate::lemma_smooth_at_budget(0, 0, px, py, v.max_iterations as nat);
        },
        FractalSet::Julia => {
            crate::iterate::lemma_smooth_at_budget(
                px,
                py,
                v.real as int,
                v.imag as int,
                v.max_iterations as nat,
            );
        },
    }
}

/// Render a frame of smoothed pixels for export, row-major.  The frame
/// is a pure function of the captured view parameters and the
/// dimensions; invalid geometry degenerates to an empty buffer.
pub fn render_export(v: &ViewState, width: usize, height: usize) -> (pixels: Vec<Rgb>)
    requires
        v.wf(),
        width <= DIM_MAX,
        height <= DIM_MAX,
    ensures
        pixels@.len() == (if width == 0 || height == 0 {
            0int
        } else {
            width * height
        }),
        forall|y: int, x: int|
            0 <= y < height && 0 <= x < width ==> (#[trigger] pixels@[y * width + x])
                == export_pixel_s(*v, width as int, height as int, x, y),
{
    let mut pixels: Vec<Rgb> = Vec::new();
    if width == 0 || height == 0 {
        return pixels;
    }
    let vp = get_viewport(width, height, v.center_x, v.center_y, v.scale);
    let kind = palette_of_index(v.current_palette);
    let vv = *v;
    let mut y: usize = 0;
    while y < height
        invariant
            vv.wf(),
            vv == *v,
            0 < width <= DIM_MAX,
            0 < height <= DIM_MAX,
            y <= height,
            kind == vv.palette_kind_s(),
            vp.matches(width as int, height as int, vv.center_x as int, vv.center_y as int, vv.scale as int),
            vp.wf(),
            pixels@.len() == y * width,
            forall|yy: int, xx: int|
                0 <= yy < y && 0 <= xx < width ==> (#[trigger] pixels@[yy * width + xx])
                    == export_pixel_s(vv, width as int, height as int, xx, yy),
        decreases height - y,
    {
        let mut x: usize = 0;
        while x < width
            invariant
                vv.wf(),
                vv == *v,
                0 < width <= DIM_MAX,
                0 < height <= DIM_MAX,
                y < height,
                x <= width,
                kind == vv.palette_kind_s(),
                vp.matches(width as int, height as int, vv.center_x as int, vv.center_y as int, vv.scale as int),
                vp.wf(),
                pixels@.len() == y * width + x,
                forall|yy: int, xx: int|
                    0 <= yy < y && 0 <= xx < width ==> (#[trigger] pixels@[yy * width + xx])
                        == export_pixel_s(vv, width as int, height as int, xx, yy),
                forall|xx: int|
                    0 <= xx < x ==> (#[trigger] pixels@[y * width + xx]) == export_pixel_s(
                        vv,
                        width as int,
                        height as int,
                        xx,
                        y as int,
                    ),
            decreases width - x,
        {
            let p = crate::viewport::pixel_to_plane(&vp, x, y);
            let sm = match vv.set {
                FractalSet::Mandelbrot => iterate_point_smooth(
                    0,
                    0,
                    p.0,
                    p.1,
                    vv.max_iterations,
                ),
                FractalSet::Julia => iterate_point_smooth(
                    p.0,
                    p.1,
                    vv.real,
                    vv.imag,
                    vv.max_iterations,
                ),
            };
            let rgb = if sm == (vv.max_iterations as i64) * FX_ONE {
                Rgb { r: 0, g: 0, b: 0 }
            } else {
                assert(vv.max_iterations > 0);
                let t = fx_div_int(sm, vv.max_iterations as i64);
                let c = crate::palettes::palette_color(kind, t);
                c
            };
            pixels.push(rgb);
            x = x + 1;
            proof {
                assert forall|yy: int, xx: int| 0 <= yy < y && 0 <= xx < width implies (
                #[trigger] pixels@[yy * width + xx]) == export_pixel_s(
                    vv,
                    width as int,
                    height as int,
                    xx,
                    yy,
                ) by {
                    assert(yy * width + xx < y * width) by (nonlinear_arith)
                        requires
                            0 <= yy < y,
                            0 <= xx < width,
                    ;
                }
            }
        }
        proof {
            assert((y + 1) * width == y * width + width) by (nonlinear_arith);
            assert forall|yy: int, xx: int| 0 <= yy < y + 1 && 0 <= xx < width implies (
            #[trigger] pixels@[yy * width + xx]) == export_pixel_s(
                vv,
                width as int,
                height as int,
                xx,
                yy,
            ) by {
                if yy < y {
                    assert(pixels@[yy * width + xx] == export_pixel_s(
                        vv,
                        width as int,
                        height as int,
                        xx,
                        yy,
                    ));
                } else {
                    assert(pixels@[y * width + xx] == export_pixel_s(
                        vv,
                        width as int,
                        height as int,
                        xx,
                        y as int,
                    ));
                }
            }
        }
        y = y + 1;
    }
    proof {
        assert(height * width == width * height) by (nonlinear_arith);
    }
    pixels
}

/// Render the fixed-resolution export frame from a captured copy of the
/// view parameters.
pub fn render_export_full(v: &ViewState) -> (pixels: Vec<Rgb>)
    requires
        v.wf(),
    ensures
        pixels@.len() == EXPORT_WIDTH * EXPORT_HEIGHT,
        forall|y: int, x: int|
            0 <= y < EXPORT_HEIGHT && 0 <= x < EXPORT_WIDTH ==> (#[trigger] pixels@[y
                * EXPORT_WIDTH + x]) == export_pixel_s(
                *v,
                EXPORT_WIDTH as int,
                EXPORT_HEIGHT as int,
                x,
                y,
            ),
{
    render_export(v, EXPORT_WIDTH, EXPORT_HEIGHT)
}

} // verus!
