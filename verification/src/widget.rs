//! The frame renderer and its view state.
//!
//! A frame is a pure function of the view parameters and the target
//! dimensions; the widget memoizes one frame and recomputes it only when
//! a parameter mutation has marked the cache dirty or the dimensions
//! changed.  All view mutations go through one explicit transition
//! function that also reports whether a redraw is owed.

use vstd::prelude::*;

use crate::color::CellColor;
use crate::fixed::{frac_of, fx_div_v, fx_mul_v, mag, tz_div, FX_ONE};
use crate::iterate::{escape_count_s, iterate_point, MAX_ITER_LIMIT};
use crate::palettes::{
    next_palette_s,
    palette_of_index,
    palette_rgb_s,
    registry_s,
    PaletteKind,
    PALETTE_COUNT,
};
use crate::viewport::{
    get_viewport,
    left_s,
    step_x_s,
    step_y_s,
    top_s,
    CENTER_LIMIT_FX,
    DIM_MAX,
    SCALE_MAX_FX,
    SCALE_MIN_FX,
};

verus! {

/// Which fractal family is rendered.
#[derive(Clone, Copy, Debug, PartialEq, Eq, Structural)]
pub enum FractalSet {
    Mandelbrot,
    Julia,
}

/// The other family.
pub open spec fn toggle_set_s(s: FractalSet) -> FractalSet {
    match s {
        FractalSet::Mandelbrot => FractalSet::Julia,
        FractalSet::Julia => FractalSet::Mandelbrot,
    }
}

/// Toggling the fractal family is an involution.
pub proof fn lemma_toggle_involution(s: FractalSet)
    ensures
        toggle_set_s(toggle_set_s(s)) == s,
{
}

/// Raw fixed-point value of the pan step numerator `0.1`.
pub const TENTH_FX: i64 = 429496729;

/// Raw fixed-point value of the zoom factor `1.1`.
pub const ZOOM_FACTOR_FX: i64 = 4724464026;

/// The view parameters a frame is a pure function of.
#[derive(Clone, Copy, Debug, PartialEq, Eq, Structural)]
pub struct ViewState {
    pub center_x: i64,
    pub center_y: i64,
    pub scale: i64,
    pub max_iterations: u32,
    pub set: FractalSet,
    pub real: i64,
    pub imag: i64,
    pub current_palette: usize,
}

impl ViewState {
    /// The view invariant: the zoom scale and every coordinate stay
    /// inside the admitted ranges, the iteration budget inside its cap,
    /// and the palette selection inside the registry.
    pub open spec fn wf(self) -> bool {
        &&& SCALE_MIN_FX <= self.scale <= SCALE_MAX_FX
        &&& mag(self.center_x as int) <= CENTER_LIMIT_FX
        &&& mag(self.center_y as int) <= CENTER_LIMIT_FX
        &&& mag(self.real as int) <= CENTER_LIMIT_FX
        &&& mag(self.imag as int) <= CENTER_LIMIT_FX
        &&& self.max_iterations <= MAX_ITER_LIMIT
        &&& self.current_palette < PALETTE_COUNT
    }

    /// The palette the selection index points at.
    pub open spec fn palette_kind_s(self) -> PaletteKind {
        registry_s()[self.current_palette as int]
    }

    /// The colour of one escape count under these parameters: black at
    /// the budget, the active palette at `count / max` below it.
    pub fn color_of_count(&self, iterations: u32) -> (c: CellColor)
        requires
            self.wf(),
            iterations <= self.max_iterations,
        ensures
            c == color_of_count_s(*self, iterations as nat),
    {
        if iterations == self.max_iterations {
            CellColor::Black
        } else {
            let t = frac_of(iterations, self.max_iterations);
            let kind = palette_of_index(self.current_palette);
            let rgb = crate::palettes::palette_color(kind, t);
            proof {
                assert(crate::palettes::clamp01_s(t as int) == t as int);
            }
            CellColor::Rgb(rgb.r, rgb.g, rgb.b)
        }
    }

    /// The starting view: the Mandelbrot set centred on `(-0.5, 0)` at
    /// scale one, one hundred iterations, the first palette, and the
    /// fixed Julia constant `-0.5251993 - 0.5251993 i`.
    pub open spec fn initial_s() -> ViewState {
        ViewState {
            center_x: -2147483648i64,
            center_y: 0,
            scale: FX_ONE,
            max_iterations: 100,
            set: FractalSet::Mandelbrot,
            real: -2255713817i64,
            imag: -2255713817i64,
            current_palette: 0,
        }
    }
}

/// A centre coordinate clamped into the admitted square.
pub open spec fn clamp_center_s(v: int) -> int {
    if v > CENTER_LIMIT_FX {
        CENTER_LIMIT_FX as int
    } else if v < -CENTER_LIMIT_FX {
        -CENTER_LIMIT_FX as int
    } else {
        v
    }
}

/// A zoom scale clamped into the admitted range.
pub open spec fn clamp_scale_s(v: int) -> int {
    if v > SCALE_MAX_FX {
        SCALE_MAX_FX as int
    } else if v < SCALE_MIN_FX {
        SCALE_MIN_FX as int
    } else {
        v
    }
}

/// The raw pan step: `0.1 / scale` plane units, so panning slows down
/// as the zoom deepens.
pub open spec fn pan_step_s(scale: int) -> int {
    fx_div_v(TENTH_FX as int, scale)
}

/// Clamp a raw centre coordinate into the admitted square.
fn clamp_center(v: i64) -> (r: i64)
    ensures
        r == clamp_center_s(v as int),
{
    if v > CENTER_LIMIT_FX {
        CENTER_LIMIT_FX
    } else if v < -CENTER_LIMIT_FX {
        -CENTER_LIMIT_FX
    } else {
        v
    }
}

/// Clamp a raw zoom scale into the admitted range.
fn clamp_scale(v: i64) -> (r: i64)
    ensures
        r == clamp_scale_s(v as int),
{
    if v > SCALE_MAX_FX {
        SCALE_MAX_FX
    } else if v < SCALE_MIN_FX {
        SCALE_MIN_FX
    } else {
        v
    }
}

/// The logical input actions the explorer recognizes.
#[derive(Clone, Copy, Debug, PartialEq, Eq, Structural)]
pub enum Action {
    Quit,
    ZoomIn,
    ZoomOut,
    IterUp,
    IterDown,
    PanLeft,
    PanRight,
    PanUp,
    PanDown,
    NextPalette,
    ToggleSet,
    Screenshot,
    Nop,
}

/// Whether an action changes what the next frame shows, and therefore
/// owes a redraw.  `Quit`, `Screenshot` and unrecognized input do not
/// dirty the render cache.
pub open spec fn action_dirties_s(a: Action) -> bool {
    match a {
        Action::Quit => false,
        Action::Screenshot => false,
        Action::Nop => false,
        _ => true,
    }
}

/// The view state an action leads to.
pub open spec fn step_view_s(v: ViewState, a: Action) -> ViewState {
    match a {
        Action::Quit => v,
        Action::ZoomIn => ViewState {
            scale: clamp_scale_s(fx_mul_v(v.scale as int, ZOOM_FACTOR_FX as int)) as i64,
            ..v
        },
        Action::ZoomOut => ViewState {
            scale: clamp_scale_s(fx_div_v(v.scale as int, ZOOM_FACTOR_FX as int)) as i64,
            ..v
        },
        Action::IterUp => ViewState {
            max_iterations: if v.max_iterations < MAX_ITER_LIMIT {
                (v.max_iterations + 1) as u32
            } else {
                v.max_iterations
            },
            ..v
        },
        Action::IterDown => ViewState {
            max_iterations: if v.max_iterations > 0 {
                (v.max_iterations - 1) as u32
            } else {
                0
            },
            ..v
        },
        Action::PanLeft => ViewState {
            center_x: clamp_center_s(v.center_x - pan_step_s(v.scale as int)) as i64,
            ..v
        },
        Action::PanRight => ViewState {
            center_x: clamp_center_s(v.center_x + pan_step_s(v.scale as int)) as i64,
            ..v
        },
        Action::PanUp => ViewState {
            center_y: clamp_center_s(v.center_y - pan_step_s(v.scale as int)) as i64,
            ..v
        },
        Action::PanDown => ViewState {
            center_y: clamp_center_s(v.center_y + pan_step_s(v.scale as int)) as i64,
            ..v
        },
        Action::NextPalette => ViewState {
            current_palette: next_palette_s(v.current_palette as int) as usize,
            ..v
        },
        Action::ToggleSet => ViewState { set: toggle_set_s(v.set), ..v },
        Action::Screenshot => v,
        Action::Nop => v,
    }
}

/// The raw escape count of pixel `(x, y)` of a `width x height` frame:
/// the pixel's plane point is the Mandelbrot constant, or the Julia
/// start point, per the selected family.
pub open spec fn pixel_count_s(v: ViewState, width: int, height: int, x: int, y: int) -> nat {
    let px = left_s(v.center_x as int, v.scale as int) + x * step_x_s(v.scale as int, width);
    let py = top_s(v.center_y as int, v.scale as int, width, height) + y * step_y_s(
        v.scale as int,
        width,
        height,
    );
    match v.set {
        FractalSet::Mandelbrot => escape_count_s(0, 0, px, py, v.max_iterations as nat),
        FractalSet::Julia => escape_count_s(
            px,
            py,
            v.real as int,
            v.imag as int,
            v.max_iterations as nat,
        ),
    }
}

/// The colour of an escape count: pure black for a count that exhausted
/// the budget, the active palette at `count / max` otherwise.
pub open spec fn color_of_count_s(v: ViewState, count: nat) -> CellColor {
    if count >= v.max_iterations {
        CellColor::Black
    } else {
        let t = tz_div(count * (FX_ONE as int), v.max_iterations as int);
        let rgb = palette_rgb_s(v.palette_kind_s(), t);
        CellColor::Rgb(rgb.r, rgb.g, rgb.b)
    }
}

/// The colour of pixel `(x, y)` of a frame: the whole per-pixel
/// pipeline, mapper through palette.
pub open spec fn pixel_color_s(v: ViewState, width: int, height: int, x: int, y: int) -> CellColor {
    color_of_count_s(v, pixel_count_s(v, width, height, x, y))
}

/// A colour buffer holds exactly the frame the view parameters and the
/// dimensions describe: `height` rows of `width` pixels, row-major.
pub open spec fn buffer_ok(
    colors: Seq<Seq<CellColor>>,
    v: ViewState,
    width: int,
    height: int,
) -> bool {
    &&& colors.len() == height
    &&& forall|y: int| 0 <= y < height ==> (#[trigger] colors[y]).len() == width
    &&& forall|y: int, x: int|
        0 <= y < height && 0 <= x < width ==> (#[trigger] colors[y][x]) == pixel_color_s(
            v,
            width,
            height,
            x,
            y,
        )
}

/// Two buffers of the same frame are bit-identical: the frame is a pure
/// function of the view parameters and the dimensions.
pub proof fn lemma_render_deterministic(
    b1: Seq<Seq<CellColor>>,
    b2: Seq<Seq<CellColor>>,
    v: ViewState,
    width: int,
    height: int,
)
    requires
        buffer_ok(b1, v, width, height),
        buffer_ok(b2, v, width, height),
    ensures
        b1 == b2,
{
    assert forall|y: int| 0 <= y < height implies b1[y] == b2[y] by {
        assert(b1[y] =~= b2[y]);
    }
    assert(b1 =~= b2);
}

/// A pixel whose count exhausted the iteration budget is rendered pure
/// black, whatever the active palette.
pub proof fn lemma_inside_always_black(v: ViewState, width: int, height: int, x: int, y: int)
    requires
        pixel_count_s(v, width, height, x, y) >= v.max_iterations,
    ensures
        pixel_color_s(v, width, height, x, y) == CellColor::Black,
{
}

/// Toggling the fractal family twice restores the view state, so the
/// frame it describes is identical pixel for pixel.
pub proof fn lemma_toggle_twice_same_frame(v: ViewState, width: int, height: int)
    ensures
        step_view_s(step_view_s(v, Action::ToggleSet), Action::ToggleSet) == v,
        forall|x: int, y: int|
            #[trigger] pixel_color_s(
                step_view_s(step_view_s(v, Action::ToggleSet), Action::ToggleSet),
                width,
                height,
                x,
                y,
            ) == pixel_color_s(v, width, height, x, y),
{
    lemma_toggle_involution(v.set);
}

/// Advancing the palette selection once per registry entry restores the
/// view state.
pub proof fn lemma_palette_cycle_restores_view(v: ViewState)
    requires
        v.wf(),
    ensures
        step_view_s(
            step_view_s(
                step_view_s(
                    step_view_s(
                        step_view_s(step_view_s(v, Action::NextPalette), Action::NextPalette),
                        Action::NextPalette,
                    ),
                    Action::NextPalette,
                ),
                Action::NextPalette,
            ),
            Action::NextPalette,
        ) == v,
{
    crate::palettes::lemma_palette_cycle_wraps(v.current_palette as int);
}

/// The interactive fractal widget: the live view state, one memoized
/// colour buffer, and the cache bookkeeping that decides when the
/// buffer must be recomputed.
pub struct FractalWidget {
    pub view: ViewState,
    pub colors: Vec<Vec<CellColor>>,
    pub need_render: bool,
    pub last_rows: usize,
    pub last_cols: usize,
}

impl Default for FractalWidget {
    /// The fresh widget `FractalWidget::new` builds.
    fn default() -> (w: FractalWidget)
        ensures
            w.wf(),
            w.view == ViewState::initial_s(),
            w.need_render,
            w.colors@.len() == 0,
    {
        FractalWidget::new()
    }
}

impl FractalWidget {
    /// The widget invariant: the view is admissible, and a clean cache
    /// holds exactly the frame its parameters and dimensions describe.
    pub open spec fn wf(self) -> bool {
        &&& self.view.wf()
        &&& !self.need_render ==> buffer_ok(
            self.colors@.map_values(|row: Vec<CellColor>| row@),
            self.view,
            self.last_cols as int,
            self.last_rows as int,
        )
    }

    /// A fresh widget: the initial view, an empty buffer, a dirty cache.
    pub fn new() -> (w: FractalWidget)
        ensures
            w.wf(),
            w.view == ViewState::initial_s(),
            w.need_render,
            w.colors@.len() == 0,
    {
        FractalWidget {
            view: ViewState {
                center_x: -2147483648,
                center_y: 0,
                scale: FX_ONE,
                max_iterations: 100,
                set: FractalSet::Mandelbrot,
                real: -2255713817,
                imag: -2255713817,
                current_palette: 0,
            },
            colors: Vec::new(),
            need_render: true,
            last_rows: 0,
            last_cols: 0,
        }
    }

    /// Apply one input action to the view: the single place view
    /// parameters mutate.  Returns whether the action owes a redraw;
    /// exactly then the cache is marked dirty.
    pub fn apply_action(&mut self, a: Action) -> (dirty: bool)
        requires
            old(self).wf(),
        ensures
            final(self).wf(),
            final(self).view == step_view_s(old(self).view, a),
            final(self).colors == old(self).colors,
            final(self).last_rows == old(self).last_rows,
            final(self).last_cols == old(self).last_cols,
            dirty == action_dirties_s(a),
            final(self).need_render == (old(self).need_render || action_dirties_s(a)),
    {
        match a {
            Action::Quit => false,
            Action::ZoomIn => {
                proof {
                    crate::palettes::lemma_fx_mul_le(
                        self.view.scale as int,
                        ZOOM_FACTOR_FX as int,
                        SCALE_MAX_FX as int,
                        ZOOM_FACTOR_FX as int,
                    );
                }
                let z = crate::fixed::fx_mul(self.view.scale, ZOOM_FACTOR_FX);
                self.view.scale = clamp_scale(z);
                self.need_render = true;
                true
            },
            Action::ZoomOut => {
                proof {
                    vstd::arithmetic::div_mod::lemma_div_pos_is_pos(
                        (self.view.scale as int) * (FX_ONE as int),
                        ZOOM_FACTOR_FX as int,
                    );
                    vstd::arithmetic::div_mod::lemma_div_is_ordered_by_denominator(
                        (self.view.scale as int) * (FX_ONE as int),
                        FX_ONE as int,
                        ZOOM_FACTOR_FX as int,
                    );
                    vstd::arithmetic::div_mod::lemma_div_by_multiple(
                        self.view.scale as int,
                        FX_ONE as int,
                    );
                }
                let z = crate::fixed::fx_div(self.view.scale, ZOOM_FACTOR_FX);
                self.view.scale = clamp_scale(z);
                self.need_render = true;
                true
            },
            Action::IterUp => {
                if self.view.max_iterations < MAX_ITER_LIMIT {
                    self.view.max_iterations = self.view.max_iterations + 1;
                }
                self.need_render = true;
                true
            },
            Action::IterDown => {
                if self.view.max_iterations > 0 {
                    self.view.max_iterations = self.view.max_iterations - 1;
                }
                self.need_render = true;
                true
            },
            Action::PanLeft => {
                let step = self.pan_step();
                self.view.center_x = clamp_center(self.view.center_x - step);
                self.need_render = true;
                true
            },
            Action::PanRight => {
                let step = self.pan_step();
                self.view.center_x = clamp_center(self.view.center_x + step);
                self.need_render = true;
                true
            },
            Action::PanUp => {
                let step = self.pan_step();
                self.view.center_y = clamp_center(self.view.center_y - step);
                self.need_render = true;
                true
            },
            Action::PanDown => {
                let step = self.pan_step();
                self.view.center_y = clamp_center(self.view.center_y + step);
                self.need_render = true;
                true
            },
            Action::NextPalette => {
                self.view.current_palette = crate::palettes::next_palette(
                    self.view.current_palette,
                );
                self.need_render = true;
                true
            },
            Action::ToggleSet => {
                self.view.set = match self.view.set {
                    FractalSet::Mandelbrot => FractalSet::Julia,
                    FractalSet::Julia => FractalSet::Mandelbrot,
                };
                self.need_render = true;
                true
            },
            Action::Screenshot => false,
            Action::Nop => false,
        }
    }

    /// The raw pan step for the current zoom scale.
    fn pan_step(&self) -> (step: i64)
        requires
            self.view.wf(),
        ensures
            step == pan_step_s(self.view.scale as int),
            0 <= step <= TENTH_FX * 4096,
    {
        proof {
            vstd::arithmetic::div_mod::lemma_div_pos_is_pos(
                (TENTH_FX as int) * (FX_ONE as int),
                self.view.scale as int,
            );
            vstd::arithmetic::div_mod::lemma_div_is_ordered_by_denominator(
                (TENTH_FX as int) * (FX_ONE as int),
                SCALE_MIN_FX as int,
                self.view.scale as int,
            );
        }
        crate::fixed::fx_div(TENTH_FX, self.view.scale)
    }

    /// Replace the Julia constant, as the animation of the constant
    /// does once per frame; the coordinates are clamped into the
    /// admitted square and the cache is marked dirty.
    pub fn set_julia_constant(&mut self, re: i64, im: i64)
        requires
            old(self).wf(),
        ensures
            final(self).wf(),
            final(self).view == (ViewState {
                real: clamp_center_s(re as int) as i64,
                imag: clamp_center_s(im as int) as i64,
                ..old(self).view
            }),
            final(self).need_render,
            final(self).colors == old(self).colors,
    {
        self.view.real = clamp_center(re);
        self.view.imag = clamp_center(im);
        self.need_render = true;
    }

    /// Capture the view parameters by value, the immutable copy an
    /// in-flight export works from.
    pub fn capture_view(&self) -> (v: ViewState)
        ensures
            v == self.view,
    {
        self.view
    }

    /// The colour of one escape count under the current view: black at
    /// the budget, the active palette at `count / max` below it.
    pub fn get_color(&self, iterations: u32) -> (c: CellColor)
        requires
            self.view.wf(),
            iterations <= self.view.max_iterations,
        ensures
            c == color_of_count_s(self.view, iterations as nat),
    {
        self.view.color_of_count(iterations)
    }

    /// Render the frame for the given dimensions unless the memoized
    /// buffer already holds it: the cache is reused exactly when the
    /// dimensions are unchanged and no mutation dirtied the view.
    /// Afterwards the buffer holds the frame, pixel for pixel.
    pub fn compute(&mut self, width: usize, height: usize) -> (recomputed: bool)
        requires
            old(self).wf(),
            width <= DIM_MAX,
            height <= DIM_MAX,
        ensures
            final(self).wf(),
            final(self).view == old(self).view,
            !final(self).need_render,
            final(self).last_cols == width,
            final(self).last_rows == height,
            buffer_ok(
                final(self).colors@.map_values(|row: Vec<CellColor>| row@),
                old(self).view,
                width as int,
                height as int,
            ),
            recomputed == (old(self).need_render || old(self).last_rows != height || old(
                self,
            ).last_cols != width),
            !recomputed ==> final(self).colors == old(self).colors,
    {
        if !self.need_render && self.last_rows == height && self.last_cols == width {
            return false;
        }
        let v = self.view;
        let mut rows: Vec<Vec<CellColor>> = Vec::new();
        if width == 0 || height == 0 {
            // Invalid geometry is rejected before any division: the
            // frame degenerates to empty rows.
            let mut y: usize = 0;
            while y < height
                invariant
                    width == 0 || height == 0,
                    y <= height,
                    rows@.len() == y,
                    forall|yy: int| 0 <= yy < y ==> (#[trigger] rows@[yy])@.len() == 0,
                decreases height - y,
            {
                rows.push(Vec::new());
                y = y + 1;
            }
        } else {
            let vp = get_viewport(width, height, v.center_x, v.center_y, v.scale);
            let mut y: usize = 0;
            while y < height
                invariant
                    v.wf(),
                    0 < width <= DIM_MAX,
                    0 < height <= DIM_MAX,
                    y <= height,
                    vp.matches(width as int, height as int, v.center_x as int, v.center_y as int, v.scale as int),
                    vp.wf(),
                    rows@.len() == y,
                    forall|yy: int| 0 <= yy < y ==> (#[trigger] rows@[yy])@.len() == width,
                    forall|yy: int, xx: int|
                        0 <= yy < y && 0 <= xx < width ==> (#[trigger] rows@[yy]@[xx])
                            == pixel_color_s(v, width as int, height as int, xx, yy),
                decreases height - y,
            {
                let mut row: Vec<CellColor> = Vec::new();
                let mut x: usize = 0;
                while x < width
                    invariant
                        v.wf(),
                        0 < width <= DIM_MAX,
                        0 < height <= DIM_MAX,
                        y < height,
                        x <= width,
                        vp.matches(width as int, height as int, v.center_x as int, v.center_y as int, v.scale as int),
                        vp.wf(),
                        row@.len() == x,
                        forall|xx: int|
                            0 <= xx < x ==> (#[trigger] row@[xx]) == pixel_color_s(
                                v,
                                width as int,
                                height as int,
                                xx,
                                y as int,
                            ),
                    decreases width - x,
                {
                    let p = crate::viewport::pixel_to_plane(&vp, x, y);
                    let count = match v.set {
                        FractalSet::Mandelbrot => iterate_point(
                            0,
                            0,
                            p.0,
                            p.1,
                            v.max_iterations,
                        ),
                        FractalSet::Julia => iterate_point(
                            p.0,
                            p.1,
                            v.real,
                            v.imag,
                            v.max_iterations,
                        ),
                    };
                    let c = v.color_of_count(count);
                    row.push(c);
                    x = x + 1;
                }
                rows.push(row);
                y = y + 1;
            }
        }
        self.colors = rows;
        self.need_render = false;
        self.last_rows = height;
        self.last_cols = width;
        proof {
            let m = self.colors@.map_values(|row: Vec<CellColor>| row@);
            assert(m.len() == height);
            assert forall|yy: int| 0 <= yy < height implies (#[trigger] m[yy]).len() == width by {
                assert(m[yy] == self.colors@[yy]@);
            }
            assert forall|yy: int, xx: int|
                0 <= yy < height && 0 <= xx < width implies (#[trigger] m[yy][xx])
                == pixel_color_s(v, width as int, height as int, xx, yy) by {
                assert(m[yy] == self.colors@[yy]@);
            }
        }
        true
    }
}

} // verus!