//! Transfer of the drawn part of a grid onto the terminal: where it goes and
//! which cells are written.
use vstd::prelude::*;
use crate::glyph::{glyph_cols, glyph_width};
use crate::grid::{blank_cell, index_spec, lemma_index_in_bounds, lemma_index_position_inverse, position_spec, Cell, Grid};
use crate::scan::{find_last_buffer_cell_index, find_widest_cell, column_drawn_up_to, drawn_up_to, occupied};

verus! {

/// One cell to be written on the terminal, at column `x` of row `y`.
#[derive(Clone, Copy, Debug, PartialEq, Eq, Structural)]
pub struct DrawOp {
    pub x: u16,
    pub y: u16,
    pub cell: Cell,
}

/// Why nothing can be transferred.
#[derive(Clone, Copy, Debug, PartialEq, Eq, Structural)]
pub enum FlushError {
    /// Every cell of the grid is blank: nothing was rendered.
    NothingDrawn,
}

/// Row `y` is the row of the last occupied cell of `g` in row-major order.
pub open spec fn is_last_row(g: Grid, y: int) -> bool {
    exists|x: int|
        {
            &&& g.in_bounds(x, y)
            &&& occupied(#[trigger] g.cell(x, y))
            &&& forall|j: int|
                index_spec(g.width as int, x, y) < j < g.content@.len()
                    ==> g.content@[j] == blank_cell()
        }
}

/// `w` is one past the rightmost occupied column over rows `0..=last_y`,
/// and at least one.
pub open spec fn is_content_width(g: Grid, last_y: int, w: int) -> bool {
    &&& w >= 1
    &&& forall|x: int, y: int| drawn_up_to(g, x, y, last_y) ==> x < w
    &&& w > 1 ==> column_drawn_up_to(g, w - 1, last_y)
}

/// The part of the grid that holds content: one past its rightmost column,
/// and its last row. Fails when every cell is blank.
pub fn content_extent(grid: &Grid) -> (r: Result<(u16, u16), FlushError>)
    requires
        grid.wf(),
    ensures
        r is Err <==> (forall|i: int|
            0 <= i < grid.content@.len() ==> grid.content@[i] == blank_cell()),
        r matches Ok((last_x, last_y)) ==> {
            &&& last_y < grid.height
            &&& is_last_row(*grid, last_y as int)
            &&& is_content_width(*grid, last_y as int, last_x as int)
        },
{
    match find_last_buffer_cell_index(grid) {
        None => Err(FlushError::NothingDrawn),
        Some((x, last_y)) => {
            let last_x = find_widest_cell(grid, last_y);
            assert(occupied(grid.cell(x as int, last_y as int)));
            Ok((last_x, last_y))
        },
    }
}

/// How many newlines go out before the copy, so that the terminal has room
/// for every row of the content.
pub fn reserved_rows(last_y: u16) -> (r: usize)
    ensures
        r == last_y + 1,
{
    last_y as usize + 1
}

/// Topmost terminal row of the copy: `cursor_y - last_y - 1`, or row 0 when
/// the cursor is nearer the top than that.
pub fn starting_row(cursor_y: u16, last_y: u16) -> (r: u16)
    ensures
        r == starting_spec(cursor_y as int, last_y as int),
        cursor_y <= last_y ==> r == 0,
{
    if cursor_y > last_y {
        cursor_y - last_y - 1
    } else {
        0
    }
}

pub open spec fn starting_spec(cursor_y: int, last_y: int) -> int {
    if cursor_y - last_y - 1 > 0 {
        cursor_y - last_y - 1
    } else {
        0
    }
}

/// How many of the cells that follow the first `n` cells are still covered
/// by a wide glyph among those `n`.
pub open spec fn skip_after(cells: Seq<Cell>, n: int) -> int
    decreases n,
{
    if n <= 0 {
        0
    } else {
        let s = skip_after(cells, n - 1);
        if s > 0 {
            s - 1
        } else if glyph_cols(cells[n - 1].symbol) == 0 {
            0
        } else {
            glyph_cols(cells[n - 1].symbol) - 1
        }
    }
}

/// Cell `i` starts a glyph of its own: it shows something that takes a
/// column, and no wide glyph before it covers it.
pub open spec fn is_primary(cells: Seq<Cell>, i: int) -> bool {
    &&& skip_after(cells, i) == 0
    &&& glyph_cols(cells[i].symbol) > 0
}

/// The write for cell `i` of `g`, if any: cells that start a glyph, left of
/// `last_x` and of the terminal's width, in rows up to `last_y`, go to the
/// same column, `start` rows lower.
pub open spec fn write_of(g: Grid, i: int, last_x: int, last_y: int, term_width: int, start: int) -> Option<DrawOp> {
    let (x, y) = position_spec(g.width as int, i);
    if is_primary(g.content@, i) && x < last_x && x < term_width && y <= last_y {
        Some(DrawOp { x: x as u16, y: (y + start) as u16, cell: g.content@[i] })
    } else {
        None
    }
}

/// The writes for the first `n` cells of `g`, in row-major order.
pub open spec fn writes(g: Grid, n: int, last_x: int, last_y: int, term_width: int, start: int) -> Seq<DrawOp>
    decreases n,
{
    if n <= 0 {
        Seq::empty()
    } else {
        let prev = writes(g, n - 1, last_x, last_y, term_width, start);
        match write_of(g, n - 1, last_x, last_y, term_width, start) {
            Some(op) => prev.push(op),
            None => prev,
        }
    }
}

/// The cells to write on the terminal: each cell of `grid` that starts a
/// glyph, lies left of `last_x` and of `term_width`, and in a row up to
/// `last_y`, moved down to begin at the row given by `starting_row`.
pub fn draw_instructions(grid: &Grid, last_x: u16, last_y: u16, term_width: u16, cursor_y: u16) -> (r: Vec<DrawOp>)
    requires
        grid.wf(),
    ensures
        r@ == writes(
            *grid,
            grid.content@.len() as int,
            last_x as int,
            last_y as int,
            term_width as int,
            starting_spec(cursor_y as int, last_y as int),
        ),
{
    let start = starting_row(cursor_y, last_y);
    let ghost s = start as int;
    let n = grid.content.len();
    let mut ops: Vec<DrawOp> = Vec::new();
    let mut skip: usize = 0;
    let mut i: usize = 0;
    while i < n
        invariant
            grid.wf(),
            n == grid.content@.len(),
            i <= n,
            s == starting_spec(cursor_y as int, last_y as int),
            start as int == s,
            skip == skip_after(grid.content@, i as int),
            skip <= 2,
            ops@ == writes(*grid, i as int, last_x as int, last_y as int, term_width as int, s),
        decreases n - i,
    {
        let c = grid.content[i];
        let mut primary = false;
        if skip > 0 {
            skip = skip - 1;
        } else {
            let w = glyph_width(c.symbol);
            if w > 0 {
                skip = w - 1;
                primary = true;
            }
        }
        if primary {
            let (x, y) = grid.pos_of(i);
            if x < last_x && x < term_width && y <= last_y {
                ops.push(DrawOp { x, y: y + start, cell: c });
            }
        }
        i = i + 1;
    }
    ops
}

/// A glyph two columns wide that starts a glyph of its own gets a write
/// where its cell is in range, and the cell after it, which it covers, gets
/// none.
pub proof fn lemma_wide_glyph_written_once(
    g: Grid,
    i: int,
    last_x: int,
    last_y: int,
    term_width: int,
    start: int,
)
    requires
        g.wf(),
        0 <= i,
        i + 1 < g.content@.len(),
        is_primary(g.content@, i),
        glyph_cols(g.content@[i].symbol) == 2,
    ensures
        write_of(g, i + 1, last_x, last_y, term_width, start) is None,
        ({
            let (x, y) = position_spec(g.width as int, i);
            x < last_x && x < term_width && y <= last_y ==> write_of(g, i, last_x, last_y, term_width, start)
                == Some(DrawOp { x: x as u16, y: (y + start) as u16, cell: g.content@[i] })
        }),
{
    assert(skip_after(g.content@, i + 1) == 1);
}

/// Two cells of a grid at the same linear position are the same cell.
proof fn lemma_same_index(g: Grid, x1: int, y1: int, x2: int, y2: int)
    requires
        g.wf(),
        g.in_bounds(x1, y1),
        g.in_bounds(x2, y2),
        index_spec(g.width as int, x1, y1) == index_spec(g.width as int, x2, y2),
    ensures
        x1 == x2,
        y1 == y2,
{
    let i = index_spec(g.width as int, x1, y1);
    lemma_index_in_bounds(g.width as int, g.height as int, x1, y1);
    lemma_index_position_inverse(g.width as int, g.height as int, x1, y1, i);
    lemma_index_position_inverse(g.width as int, g.height as int, x2, y2, i);
}

/// When a single cell (x0, y0) of a grid holds something, the content ends
/// in row `y0` and is `x0 + 1` columns wide.
pub proof fn lemma_single_cell_extent(g: Grid, x0: int, y0: int, last_y: int, last_x: int)
    requires
        g.wf(),
        g.in_bounds(x0, y0),
        occupied(g.cell(x0, y0)),
        forall|i: int|
            0 <= i < g.content@.len() && i != index_spec(g.width as int, x0, y0)
                ==> g.content@[i] == blank_cell(),
    ensures
        is_last_row(g, last_y) ==> last_y == y0,
        is_content_width(g, y0, last_x) ==> last_x == x0 + 1,
        is_last_row(g, y0),
{
    lemma_index_in_bounds(g.width as int, g.height as int, x0, y0);
    if is_last_row(g, last_y) {
        let x = choose|x: int|
            {
                &&& g.in_bounds(x, last_y)
                &&& occupied(#[trigger] g.cell(x, last_y))
                &&& forall|j: int|
                    index_spec(g.width as int, x, last_y) < j < g.content@.len()
                        ==> g.content@[j] == blank_cell()
            };
        lemma_index_in_bounds(g.width as int, g.height as int, x, last_y);
        lemma_same_index(g, x, last_y, x0, y0);
    }
    if is_content_width(g, y0, last_x) {
        assert(drawn_up_to(g, x0, y0, y0));
        if last_x > 1 {
            let y = choose|y: int| #[trigger] drawn_up_to(g, last_x - 1, y, y0);
            lemma_index_in_bounds(g.width as int, g.height as int, last_x - 1, y);
            lemma_same_index(g, last_x - 1, y, x0, y0);
        }
    }
    assert(g.in_bounds(x0, y0) && occupied(g.cell(x0, y0)));
}

} // verus!
