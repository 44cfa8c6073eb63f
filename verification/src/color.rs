//! Colours as the display and export collaborators see them.
//!
//! A cell colour is either one of the closed set of named terminal colours
//! or a direct 8-bit RGB triple; the conversion to a raw triple is total
//! and lossless, so an exported image can reproduce exactly what the
//! terminal showed.

use vstd::prelude::*;

verus! {

/// An 8-bit RGB triple, the unit of the export pixel buffer.
#[derive(Clone, Copy, Debug, PartialEq, Eq, Structural)]
pub struct Rgb {
    pub r: u8,
    pub g: u8,
    pub b: u8,
}

/// A colour as written into a terminal cell: a named terminal colour or a
/// direct triple.
#[derive(Clone, Copy, Debug, PartialEq, Eq, Structural)]
pub enum CellColor {
    Black,
    Red,
    Green,
    Yellow,
    Blue,
    Magenta,
    Cyan,
    Gray,
    DarkGray,
    LightRed,
    LightGreen,
    LightYellow,
    LightBlue,
    LightMagenta,
    LightCyan,
    White,
    Rgb(u8, u8, u8),
}

/// The RGB triple a cell colour stands for.
pub open spec fn rgb_of(c: CellColor) -> Rgb {
    match c {
        CellColor::Black => Rgb { r: 0, g: 0, b: 0 },
        CellColor::Red => Rgb { r: 255, g: 0, b: 0 },
        CellColor::Green => Rgb { r: 0, g: 255, b: 0 },
        CellColor::Yellow => Rgb { r: 255, g: 255, b: 0 },
        CellColor::Blue => Rgb { r: 0, g: 0, b: 255 },
        CellColor::Magenta => Rgb { r: 255, g: 0, b: 255 },
        CellColor::Cyan => Rgb { r: 0, g: 255, b: 255 },
        CellColor::Gray => Rgb { r: 128, g: 128, b: 128 },
        CellColor::DarkGray => Rgb { r: 64, g: 64, b: 64 },
        CellColor::LightRed => Rgb { r: 255, g: 128, b: 128 },
        CellColor::LightGreen => Rgb { r: 128, g: 255, b: 128 },
        CellColor::LightYellow => Rgb { r: 255, g: 255, b: 128 },
        CellColor::LightBlue => Rgb { r: 128, g: 128, b: 255 },
        CellColor::LightMagenta => Rgb { r: 255, g: 128, b: 255 },
        CellColor::LightCyan => Rgb { r: 128, g: 255, b: 255 },
        CellColor::White => Rgb { r: 255, g: 255, b: 255 },
        CellColor::Rgb(r, g, b) => Rgb { r, g, b },
    }
}

/// Lossless conversion from a cell colour to its RGB triple.
pub fn color_to_rgb(color: &CellColor) -> (rgb: Rgb)
    ensures
        rgb == rgb_of(*color),
{
    match *color {
        CellColor::Black => Rgb { r: 0, g: 0, b: 0 },
        CellColor::Red => Rgb { r: 255, g: 0, b: 0 },
        CellColor::Green => Rgb { r: 0, g: 255, b: 0 },
        CellColor::Yellow => Rgb { r: 255, g: 255, b: 0 },
        CellColor::Blue => Rgb { r: 0, g: 0, b: 255 },
        CellColor::Magenta => Rgb { r: 255, g: 0, b: 255 },
        CellColor::Cyan => Rgb { r: 0, g: 255, b: 255 },
        CellColor::Gray => Rgb { r: 128, g: 128, b: 128 },
        CellColor::DarkGray => Rgb { r: 64, g: 64, b: 64 },
        CellColor::LightRed => Rgb { r: 255, g: 128, b: 128 },
        CellColor::LightGreen => Rgb { r: 128, g: 255, b: 128 },
        CellColor::LightYellow => Rgb { r: 255, g: 255, b: 128 },
        CellColor::LightBlue => Rgb { r: 128, g: 128, b: 255 },
        CellColor::LightMagenta => Rgb { r: 255, g: 128, b: 255 },
        CellColor::LightCyan => Rgb { r: 128, g: 255, b: 255 },
        CellColor::White => Rgb { r: 255, g: 255, b: 255 },
        CellColor::Rgb(r, g, b) => Rgb { r, g, b },
    }
}

} // verus!
