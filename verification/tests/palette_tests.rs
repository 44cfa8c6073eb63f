use fractouille::color::Rgb;
use fractouille::fixed::FX_ONE;
use fractouille::palettes::{
    all_palettes, default_palette, electric_palette, fire_palette, grayscale_palette,
    next_palette, ocean_palette, palette_color, palette_of_index, rainbow_palette, PaletteKind,
    PALETTE_COUNT,
};

fn rgb(r: u8, g: u8, b: u8) -> Rgb {
    Rgb { r, g, b }
}

#[test]
fn palette_values_at_zero() {
    assert_eq!(default_palette(0), rgb(0, 0, 0));
    assert_eq!(fire_palette(0), rgb(0, 0, 64));
    assert_eq!(rainbow_palette(0), rgb(127, 243, 31));
    assert_eq!(ocean_palette(0), rgb(20, 80, 200));
    assert_eq!(grayscale_palette(0), rgb(0, 0, 0));
    assert_eq!(electric_palette(0), rgb(100, 0, 0));
}

#[test]
fn palette_values_at_one() {
    assert_eq!(default_palette(FX_ONE), rgb(0, 0, 0));
    assert_eq!(fire_palette(FX_ONE), rgb(255, 0, 0));
    assert_eq!(rainbow_palette(FX_ONE), rgb(91, 253, 58));
    assert_eq!(ocean_palette(FX_ONE), rgb(0, 200, 255));
    assert_eq!(grayscale_palette(FX_ONE), rgb(255, 255, 255));
    assert_eq!(electric_palette(FX_ONE), rgb(0, 200, 255));
}

#[test]
fn palette_values_at_half() {
    let half = FX_ONE / 2;
    assert_eq!(default_palette(half), rgb(143, 239, 135));
    assert_eq!(fire_palette(half), rgb(127, 90, 32));
    assert_eq!(rainbow_palette(half), rgb(145, 5, 211));
    assert_eq!(ocean_palette(half), rgb(10, 140, 227));
    assert_eq!(grayscale_palette(half), rgb(127, 127, 127));
    assert_eq!(electric_palette(half), rgb(50, 100, 152));
}

#[test]
fn palettes_are_deterministic() {
    // The same fraction always yields the same triple: no hidden state.
    let samples = [0i64, 1, 1000, FX_ONE / 7, FX_ONE / 3, FX_ONE / 2, FX_ONE - 1, FX_ONE];
    for &t in samples.iter() {
        assert_eq!(default_palette(t), default_palette(t));
        assert_eq!(fire_palette(t), fire_palette(t));
        assert_eq!(rainbow_palette(t), rainbow_palette(t));
        assert_eq!(ocean_palette(t), ocean_palette(t));
        assert_eq!(grayscale_palette(t), grayscale_palette(t));
        assert_eq!(electric_palette(t), electric_palette(t));
    }
}

#[test]
fn palette_color_clamps_out_of_range_fractions() {
    // Evaluation is total: fractions outside the unit interval clamp.
    assert_eq!(
        palette_color(PaletteKind::Grayscale, -5 * FX_ONE),
        grayscale_palette(0)
    );
    assert_eq!(
        palette_color(PaletteKind::Grayscale, 5 * FX_ONE),
        grayscale_palette(FX_ONE)
    );
    assert_eq!(
        palette_color(PaletteKind::Fire, FX_ONE / 2),
        fire_palette(FX_ONE / 2)
    );
}

#[test]
fn registry_holds_six_palettes_in_order() {
    let v = all_palettes();
    assert_eq!(v.len(), PALETTE_COUNT);
    assert_eq!(v[0], PaletteKind::Default);
    assert_eq!(v[1], PaletteKind::Fire);
    assert_eq!(v[2], PaletteKind::Rainbow);
    assert_eq!(v[3], PaletteKind::Ocean);
    assert_eq!(v[4], PaletteKind::Grayscale);
    assert_eq!(v[5], PaletteKind::Electric);
    for i in 0..PALETTE_COUNT {
        assert_eq!(palette_of_index(i), v[i]);
    }
}

#[test]
fn cycling_all_palettes_wraps_to_start() {
    // Advancing once per registry entry returns to the original index.
    for start in 0..PALETTE_COUNT {
        let mut i = start;
        for _ in 0..PALETTE_COUNT {
            i = next_palette(i);
        }
        assert_eq!(i, start);
    }
    assert_eq!(next_palette(PALETTE_COUNT - 1), 0);
}
