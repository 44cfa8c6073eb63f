//! The display packer: two vertically stacked pixels per terminal cell.
//!
//! The colour buffer is rendered at double vertical density; each cell
//! shows its upper sub-pixel as the glyph foreground and its lower one
//! as the background, under the upper-half-block glyph.  Cell columns
//! read the buffer at a fixed one-position wraparound offset,
//! `(column + 1) mod width`, which compensates for how the external
//! display consumes its coordinate origin and must be reproduced
//! exactly.

use vstd::prelude::*;

use crate::color::CellColor;
use crate::viewport::DIM_MAX;

verus! {

/// The glyph every packed cell shows: the upper half block.
pub const HALF_BLOCK_GLYPH: char = '\u{2580}';

/// Foreground and background of one terminal cell.
#[derive(Clone, Copy, Debug, PartialEq, Eq, Structural)]
pub struct PackedCell {
    pub fg: CellColor,
    pub bg: CellColor,
}

/// The buffer column a cell column reads: one position to the right,
/// wrapping at the row end.
pub open spec fn packed_col_s(x: int, width: int) -> int {
    (x + 1) % width
}

/// Pack a colour buffer of `2 * cell_rows` rows into `cell_rows` rows
/// of terminal cells: cell `(x, y)` holds row `2y` of the shifted
/// column as its foreground and row `2y + 1` as its background.
pub fn pack_cells(colors: &Vec<Vec<CellColor>>, width: usize, cell_rows: usize) -> (cells: Vec<
    Vec<PackedCell>,
>)
    requires
        cell_rows <= DIM_MAX,
        colors@.len() == 2 * cell_rows,
        forall|y: int| 0 <= y < 2 * cell_rows ==> (#[trigger] colors@[y])@.len() == width,
    ensures
        cells@.len() == cell_rows,
        forall|y: int| 0 <= y < cell_rows ==> (#[trigger] cells@[y])@.len() == width,
        forall|y: int, x: int|
            0 <= y < cell_rows && 0 <= x < width ==> {
                &&& (#[trigger] cells@[y]@[x]).fg == colors@[2 * y]@[packed_col_s(x, width as int)]
                &&& cells@[y]@[x].bg == colors@[2 * y + 1]@[packed_col_s(x, width as int)]
            },
{
    let mut cells: Vec<Vec<PackedCell>> = Vec::new();
    let mut y: usize = 0;
    while y < cell_rows
        invariant
            cell_rows <= DIM_MAX,
            colors@.len() == 2 * cell_rows,
            forall|yy: int| 0 <= yy < 2 * cell_rows ==> (#[trigger] colors@[yy])@.len() == width,
            y <= cell_rows,
            cells@.len() == y,
            forall|yy: int| 0 <= yy < y ==> (#[trigger] cells@[yy])@.len() == width,
            forall|yy: int, xx: int|
                0 <= yy < y && 0 <= xx < width ==> {
                    &&& (#[trigger] cells@[yy]@[xx]).fg == colors@[2 * yy]@[packed_col_s(
                        xx,
                        width as int,
                    )]
                    &&& cells@[yy]@[xx].bg == colors@[2 * yy + 1]@[packed_col_s(xx, width as int)]
                },
        decreases cell_rows - y,
    {
        let mut row: Vec<PackedCell> = Vec::new();
        let mut x: usize = 0;
        while x < width
            invariant
                cell_rows <= DIM_MAX,
                colors@.len() == 2 * cell_rows,
                forall|yy: int| 0 <= yy < 2 * cell_rows ==> (#[trigger] colors@[yy])@.len()
                    == width,
                y < cell_rows,
                x <= width,
                row@.len() == x,
                forall|xx: int|
                    0 <= xx < x ==> {
                        &&& (#[trigger] row@[xx]).fg == colors@[2 * y]@[packed_col_s(
                            xx,
                            width as int,
                        )]
                        &&& row@[xx].bg == colors@[2 * y + 1]@[packed_col_s(xx, width as int)]
                    },
            decreases width - x,
        {
            let xi = (x + 1) % width;
            proof {
                vstd::arithmetic::div_mod::lemma_mod_bound((x + 1) as int, width as int);
            }
            let fg = colors[2 * y][xi];
            let bg = colors[2 * y + 1][xi];
            row.push(PackedCell { fg, bg });
            x = x + 1;
        }
        cells.push(row);
        y = y + 1;
    }
    cells
}

} // verus!
