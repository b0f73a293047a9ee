//! Placement of the ascii block and of the readout block in the grid.
use vstd::prelude::*;
use crate::grid::{Grid, Rect};
use crate::render::{capped, draw_text, lines_cols, put_lines, Text};

verus! {

/// Columns of the grid that the readout block leaves free beside the ascii
/// block.
pub const DATA_MARGIN: u16 = 4;

/// `a - b`, or zero where `b` is larger.
pub open spec fn sub_or_zero(a: int, b: int) -> int {
    if a > b { a - b } else { 0 }
}

/// `a + b`, or the largest `u16` where the sum is larger.
pub open spec fn add_capped(a: int, b: int) -> int {
    if a + b <= u16::MAX { a + b } else { u16::MAX as int }
}

/// The rectangle of the ascii block in a grid `grid_height` rows tall.
pub open spec fn ascii_rect_spec(ascii_size: Option<(u16, u16)>, grid_height: u16) -> Rect {
    let rows = sub_or_zero(grid_height as int, 1);
    match ascii_size {
        Some((w, h)) => Rect { x: 1, y: 1, width: w, height: if h < rows { h } else { rows as u16 } },
        None => Rect { x: 0, y: 1, width: 0, height: rows as u16 },
    }
}

/// The rectangle of an ascii block of the given width and height: at column
/// 1 of row 1, as tall as the block but for the grid's first row; with no
/// block, no columns at column 0 and every row but the first.
pub fn ascii_rect(ascii_size: Option<(u16, u16)>, grid_height: u16) -> (r: Rect)
    ensures
        r == ascii_rect_spec(ascii_size, grid_height),
{
    let rows: u16 = if grid_height > 0 { grid_height - 1 } else { 0 };
    match ascii_size {
        Some((w, h)) => Rect::new(1, 1, w, if h < rows { h } else { rows }),
        None => Rect::new(0, 1, 0, rows),
    }
}

/// The rectangle of the readout block: `padding` columns right of the ascii
/// block, on its rows, and as wide as the grid less the ascii block and the
/// margin, which is never less than zero.
pub fn data_rect(ascii: Rect, grid_width: u16, padding: u16) -> (r: Rect)
    ensures
        r.x == add_capped(add_capped(ascii.x as int, ascii.width as int), padding as int),
        r.y == ascii.y,
        r.width == sub_or_zero(grid_width as int, ascii.width as int + DATA_MARGIN as int),
        r.height == ascii.height,
        ascii.width as int + DATA_MARGIN as int >= grid_width ==> r.width == 0,
{
    let right = ascii.x.saturating_add(ascii.width);
    let x = right.saturating_add(padding);
    let width = grid_width.saturating_sub(ascii.width).saturating_sub(DATA_MARGIN);
    Rect::new(x, ascii.y, width, ascii.height)
}

/// Both rectangles of the report in a grid of the given size.
pub fn plan(ascii_size: Option<(u16, u16)>, grid_width: u16, grid_height: u16, padding: u16) -> (r: (Rect, Rect))
    ensures
        r.0 == ascii_rect_spec(ascii_size, grid_height),
        r.1.x == add_capped(add_capped(r.0.x as int, r.0.width as int), padding as int),
        r.1.y == r.0.y,
        r.1.width == sub_or_zero(grid_width as int, r.0.width as int + DATA_MARGIN as int),
        r.1.height == r.0.height,
{
    let a = ascii_rect(ascii_size, grid_height);
    let d = data_rect(a, grid_width, padding);
    (a, d)
}

/// Writes the ascii block at its place in the grid and returns the
/// rectangle that it was given.
pub fn draw_ascii(ascii: &Text, grid: &mut Grid) -> (r: Rect)
    requires
        old(grid).wf(),
    ensures
        r == ascii_rect_spec(
            Some((capped(lines_cols(ascii.lines@)) as u16, capped(ascii.lines@.len() as int) as u16)),
            old(grid).height,
        ),
        final(grid).wf(),
        final(grid).width == old(grid).width,
        final(grid).height == old(grid).height,
        final(grid).content@ == put_lines(
            old(grid).content@,
            old(grid).width as int,
            old(grid).height as int,
            r,
            ascii.lines@,
            if ascii.lines@.len() < r.height { ascii.lines@.len() as int } else { r.height as int },
        ),
{
    let w = ascii.width();
    let h = ascii.height();
    let area = ascii_rect(Some((w, h)), grid.height);
    draw_text(grid, area, ascii);
    area
}

} // verus!
