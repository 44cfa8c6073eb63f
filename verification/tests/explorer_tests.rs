use fractouille::color::{color_to_rgb, CellColor, Rgb};
use fractouille::export::render_export;
use fractouille::fixed::FX_ONE;
use fractouille::iterate::iterate_point;
use fractouille::packer::pack_cells;
use fractouille::viewport::{get_viewport, pixel_to_plane, try_viewport, DIM_MAX};
use fractouille::widget::{Action, FractalSet, FractalWidget};

#[test]
fn named_colors_convert_losslessly() {
    let cases: [(CellColor, (u8, u8, u8)); 17] = [
        (CellColor::Black, (0, 0, 0)),
        (CellColor::Red, (255, 0, 0)),
        (CellColor::Green, (0, 255, 0)),
        (CellColor::Yellow, (255, 255, 0)),
        (CellColor::Blue, (0, 0, 255)),
        (CellColor::Magenta, (255, 0, 255)),
        (CellColor::Cyan, (0, 255, 255)),
        (CellColor::Gray, (128, 128, 128)),
        (CellColor::DarkGray, (64, 64, 64)),
        (CellColor::LightRed, (255, 128, 128)),
        (CellColor::LightGreen, (128, 255, 128)),
        (CellColor::LightYellow, (255, 255, 128)),
        (CellColor::LightBlue, (128, 128, 255)),
        (CellColor::LightMagenta, (255, 128, 255)),
        (CellColor::LightCyan, (128, 255, 255)),
        (CellColor::White, (255, 255, 255)),
        (CellColor::Rgb(12, 34, 56), (12, 34, 56)),
    ];
    for (c, (r, g, b)) in cases.iter() {
        assert_eq!(color_to_rgb(c), Rgb { r: *r, g: *g, b: *b });
    }
}

#[test]
fn viewport_maps_the_documented_rectangle() {
    // A 4 x 8 pixel grid at the default centre and scale: span 3.5 wide,
    // 7.0 tall, top-left corner (-2.25, -3.5), uniform steps of 0.875.
    let half = -(FX_ONE / 2);
    let vp = get_viewport(4, 8, half, 0, FX_ONE);
    assert_eq!(vp.vw, 15032385536); // 3.5
    assert_eq!(vp.vh, 30064771072); // 7.0
    assert_eq!(vp.left, -9663676416); // -2.25
    assert_eq!(vp.top, -15032385536); // -3.5
    assert_eq!(vp.step_x, 3758096384); // 0.875
    assert_eq!(vp.step_y, 3758096384); // 0.875
    let p00 = pixel_to_plane(&vp, 0, 0);
    assert_eq!(p00, (-9663676416, -15032385536));
}

#[test]
fn viewport_spacing_is_uniform() {
    let vp = get_viewport(640, 480, 123456789, -987654321, 3 * FX_ONE);
    let mut prev = pixel_to_plane(&vp, 0, 0);
    for x in 1..640usize {
        let p = pixel_to_plane(&vp, x, 0);
        assert_eq!(p.0 - prev.0, vp.step_x);
        assert_eq!(p.1, prev.1);
        prev = p;
    }
    // Top-left plus the full span reaches the centre plus the upper
    // half-span: the raw spans here are even, so halving is exact.
    assert_eq!(vp.left + vp.vw, 123456789 + vp.vw - vp.vw / 2);
}

#[test]
fn zero_dimensions_are_rejected() {
    assert!(try_viewport(0, 10, 0, 0, FX_ONE).is_none());
    assert!(try_viewport(10, 0, 0, 0, FX_ONE).is_none());
    assert!(try_viewport(DIM_MAX + 1, 10, 0, 0, FX_ONE).is_none());
    assert!(try_viewport(10, 10, 0, 0, FX_ONE).is_some());
}

#[test]
fn escape_is_classified_before_any_iteration() {
    // A start point beyond the threshold escapes at count zero for any
    // budget, and a zero budget classifies every point at count zero.
    assert_eq!(iterate_point(3 * FX_ONE, 0, 0, 0, 100), 0);
    assert_eq!(iterate_point(0, 0, 5 * FX_ONE, 0, 0), 0);
    assert_eq!(iterate_point(0, 0, 0, 0, 0), 0);
    assert_eq!(iterate_point(3 * FX_ONE, 0, 0, 0, 0), 0);
}

#[test]
fn origin_never_escapes() {
    assert_eq!(iterate_point(0, 0, 0, 0, 250), 250);
}

#[test]
fn far_constant_escapes_after_one_step() {
    // Mandelbrot start: z moves to c on the first step, and |c| > 2.
    assert_eq!(iterate_point(0, 0, -9663676416, -15032385536, 100), 1);
}

#[test]
fn first_frame_pixel_matches_the_documented_scenario() {
    // Mandelbrot, centre (-0.5, 0), scale 1, 100 iterations, palette 0,
    // on a 4 x 4 cell grid rendered at 8 plane rows: pixel (0, 0) maps
    // far outside the set, escapes at once, and takes a non-black colour
    // from the default palette.
    let mut w = FractalWidget::new();
    assert!(w.compute(4, 8));
    assert_eq!(w.colors.len(), 8);
    assert_eq!(w.colors[0].len(), 4);
    assert_eq!(w.colors[0][0], CellColor::Rgb(0, 0, 21));
    assert_ne!(w.colors[0][0], CellColor::Black);
    assert_ne!(w.colors[0][0], CellColor::Rgb(0, 0, 0));
}

#[test]
fn second_render_is_a_cache_hit_with_identical_buffer() {
    let mut w = FractalWidget::new();
    let first = w.compute(6, 10);
    assert!(first);
    let snapshot = w.colors.clone();
    let second = w.compute(6, 10);
    assert!(!second);
    assert_eq!(w.colors, snapshot);
}

#[test]
fn changed_dimensions_force_a_recompute() {
    let mut w = FractalWidget::new();
    assert!(w.compute(6, 10));
    assert!(w.compute(5, 10));
    assert!(w.compute(5, 10) == false);
}

#[test]
fn dirtying_mutations_force_a_recompute() {
    let mut w = FractalWidget::new();
    assert!(w.compute(4, 4));
    assert!(w.apply_action(Action::ZoomIn));
    assert!(w.compute(4, 4));
    assert!(w.apply_action(Action::NextPalette));
    assert!(w.compute(4, 4));
}

#[test]
fn unrecognized_input_does_not_dirty_the_cache() {
    let mut w = FractalWidget::new();
    assert!(w.compute(4, 4));
    assert!(!w.apply_action(Action::Nop));
    assert!(!w.apply_action(Action::Quit));
    assert!(!w.apply_action(Action::Screenshot));
    assert!(!w.compute(4, 4));
}

#[test]
fn toggling_the_set_twice_restores_the_frame() {
    let mut w = FractalWidget::new();
    assert!(w.compute(6, 8));
    let before = w.colors.clone();
    assert!(w.apply_action(Action::ToggleSet));
    assert_eq!(w.view.set, FractalSet::Julia);
    assert!(w.apply_action(Action::ToggleSet));
    assert_eq!(w.view.set, FractalSet::Mandelbrot);
    assert!(w.compute(6, 8));
    assert_eq!(w.colors, before);
}

#[test]
fn palette_cycle_returns_to_the_original_palette() {
    let mut w = FractalWidget::new();
    let start = w.view.current_palette;
    for _ in 0..6 {
        assert!(w.apply_action(Action::NextPalette));
    }
    assert_eq!(w.view.current_palette, start);
}

#[test]
fn iteration_bound_is_floored_at_zero() {
    let mut w = FractalWidget::new();
    w.view.max_iterations = 1;
    assert!(w.apply_action(Action::IterDown));
    assert_eq!(w.view.max_iterations, 0);
    assert!(w.apply_action(Action::IterDown));
    assert_eq!(w.view.max_iterations, 0);
    assert!(w.apply_action(Action::IterUp));
    assert_eq!(w.view.max_iterations, 1);
}

#[test]
fn zero_iteration_budget_renders_every_pixel_black() {
    // With no budget the loop condition decides before any increment:
    // every pixel counts as never escaping and is clamped to black.
    let mut w = FractalWidget::new();
    w.view.max_iterations = 0;
    w.need_render = true;
    assert!(w.compute(4, 4));
    for row in w.colors.iter() {
        for c in row.iter() {
            assert_eq!(*c, CellColor::Black);
        }
    }
}

#[test]
fn interior_pixels_are_black_under_every_palette() {
    // The centre of the default view lies inside the Mandelbrot set, so
    // its count reaches the budget and the colour is pure black no
    // matter which palette is active.
    let mut w = FractalWidget::new();
    for _ in 0..6 {
        w.apply_action(Action::NextPalette);
        assert!(w.compute(5, 6));
        // Row 3, column 2 maps near the centre (-0.5, 0), inside the set.
        assert_eq!(w.colors[3][2], CellColor::Black);
    }
}

#[test]
fn panning_moves_the_centre_by_the_scaled_step() {
    let mut w = FractalWidget::new();
    let cx = w.view.center_x;
    assert!(w.apply_action(Action::PanRight));
    // 0.1 / scale at scale one: the raw step of 0.1.
    assert_eq!(w.view.center_x, cx + 429496729);
    assert!(w.apply_action(Action::PanLeft));
    assert_eq!(w.view.center_x, cx);
    let cy = w.view.center_y;
    assert!(w.apply_action(Action::PanDown));
    assert_eq!(w.view.center_y, cy + 429496729);
    assert!(w.apply_action(Action::PanUp));
    assert_eq!(w.view.center_y, cy);
}

#[test]
fn zooming_scales_by_eleven_tenths() {
    let mut w = FractalWidget::new();
    assert!(w.apply_action(Action::ZoomIn));
    // 1.0 * 1.1 in raw fixed point.
    assert_eq!(w.view.scale, 4724464026);
    assert!(w.apply_action(Action::ZoomOut));
    assert_eq!(w.view.scale, 4294967296);
}

#[test]
fn packer_pairs_rows_and_shifts_columns() {
    let colors: Vec<Vec<CellColor>> = vec![
        vec![CellColor::Red, CellColor::Green, CellColor::Blue],
        vec![CellColor::Cyan, CellColor::Magenta, CellColor::Yellow],
        vec![CellColor::Black, CellColor::White, CellColor::Gray],
        vec![CellColor::Rgb(1, 2, 3), CellColor::Rgb(4, 5, 6), CellColor::Rgb(7, 8, 9)],
    ];
    let cells = pack_cells(&colors, 3, 2);
    assert_eq!(cells.len(), 2);
    assert_eq!(cells[0].len(), 3);
    // Cell column x reads buffer column (x + 1) mod width.
    assert_eq!(cells[0][0].fg, CellColor::Green);
    assert_eq!(cells[0][0].bg, CellColor::Magenta);
    assert_eq!(cells[0][1].fg, CellColor::Blue);
    assert_eq!(cells[0][1].bg, CellColor::Yellow);
    assert_eq!(cells[0][2].fg, CellColor::Red);
    assert_eq!(cells[0][2].bg, CellColor::Cyan);
    assert_eq!(cells[1][0].fg, CellColor::White);
    assert_eq!(cells[1][0].bg, CellColor::Rgb(4, 5, 6));
}

#[test]
fn export_buffer_has_the_requested_shape() {
    let w = FractalWidget::new();
    let mut v = w.capture_view();
    v.max_iterations = 8;
    let pixels = render_export(&v, 6, 5);
    assert_eq!(pixels.len(), 30);
}

#[test]
fn export_clamps_interior_points_to_black() {
    // Deep zoom near the origin: no orbit escapes a budget of 10, so the
    // smoothed measure equals the budget and every pixel is black.
    let w = FractalWidget::new();
    let mut v = w.capture_view();
    v.center_x = 0;
    v.center_y = 0;
    v.scale = 4503599627370496; // the zoom-in limit
    v.max_iterations = 10;
    let pixels = render_export(&v, 4, 4);
    assert_eq!(pixels.len(), 16);
    for p in pixels.iter() {
        assert_eq!(*p, Rgb { r: 0, g: 0, b: 0 });
    }
}

#[test]
fn export_colours_escaping_points_from_the_palette() {
    // A view far from the set: the first step already escapes, the
    // smoothed measure stays below the budget, and the grayscale palette
    // yields a non-black shade.  Two runs agree bit for bit.
    let w = FractalWidget::new();
    let mut v = w.capture_view();
    v.center_x = 10 * FX_ONE;
    v.center_y = 0;
    v.current_palette = 4; // grayscale
    v.max_iterations = 10;
    let a = render_export(&v, 3, 3);
    let b = render_export(&v, 3, 3);
    assert_eq!(a, b);
    assert_eq!(a.len(), 9);
    for p in a.iter() {
        assert_ne!(*p, Rgb { r: 0, g: 0, b: 0 });
        assert_eq!(p.r, p.g);
        assert_eq!(p.g, p.b);
    }
    // Exact smoothed shades: the corner escapes after one step with a
    // smoothed measure just below one of ten budgeted iterations.
    assert_eq!(a[0], Rgb { r: 23, g: 23, b: 23 });
    assert_eq!(a[4], Rgb { r: 21, g: 21, b: 21 });
}

#[test]
fn export_uses_a_captured_copy_of_the_view() {
    // Mutating the live widget after capture must not change an export
    // computed from the captured copy.
    let mut w = FractalWidget::new();
    let mut v = w.capture_view();
    v.max_iterations = 6;
    let before = render_export(&v, 4, 4);
    w.apply_action(Action::ZoomIn);
    w.apply_action(Action::NextPalette);
    w.apply_action(Action::ToggleSet);
    let after = render_export(&v, 4, 4);
    assert_eq!(before, after);
}

#[test]
fn julia_mode_iterates_from_the_plane_point() {
    // Julia with constant (0, 0): the orbit squares the start point, so
    // the grid centre never escapes while an off-centre point escapes
    // after two steps and takes the matching grayscale shade.
    let mut w = FractalWidget::new();
    assert!(w.apply_action(Action::ToggleSet));
    w.view.center_x = 0;
    w.view.center_y = 0;
    w.view.current_palette = 4; // grayscale
    w.need_render = true;
    w.set_julia_constant(0, 0);
    assert!(w.compute(4, 4));
    assert_eq!(w.colors[2][2], CellColor::Black);
    assert_eq!(w.colors[1][1], CellColor::Rgb(5, 5, 5));
}

#[test]
fn julia_constant_updates_clamp_and_dirty() {
    let mut w = FractalWidget::new();
    assert!(w.compute(3, 3));
    w.set_julia_constant(i64::MAX, i64::MIN);
    // Clamped into the admitted square: 32768 plane units.
    assert_eq!(w.view.real, 140737488355328);
    assert_eq!(w.view.imag, -140737488355328);
    assert!(w.need_render);
    assert!(w.compute(3, 3));
}
