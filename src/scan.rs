//! Finding the part of a grid that holds drawn content.
use vstd::prelude::*;
use crate::grid::{blank_cell, index_spec, lemma_index_position_inverse, Cell, Grid};

verus! {

/// Something was drawn in the cell.
pub open spec fn occupied(c: Cell) -> bool {
    c != blank_cell()
}

/// Cell (x, y) lies in the grid, in a row no lower than `last_y`, and holds
/// something.
pub open spec fn drawn_up_to(g: Grid, x: int, y: int, last_y: int) -> bool {
    &&& g.in_bounds(x, y)
    &&& y <= last_y
    &&& occupied(g.cell(x, y))
}

/// Some cell of column `x`, in a row no lower than `last_y`, holds something.
pub open spec fn column_drawn_up_to(g: Grid, x: int, last_y: int) -> bool {
    exists|y: int| drawn_up_to(g, x, y, last_y)
}

/// Column and row of the last occupied cell in row-major order, or `None`
/// when every cell is blank.
pub fn find_last_buffer_cell_index(grid: &Grid) -> (r: Option<(u16, u16)>)
    requires
        grid.wf(),
    ensures
        r is None <==> (forall|i: int|
            0 <= i < grid.content@.len() ==> grid.content@[i] == blank_cell()),
        r matches Some((x, y)) ==> {
            &&& grid.in_bounds(x as int, y as int)
            &&& occupied(grid.cell(x as int, y as int))
            &&& forall|j: int|
                index_spec(grid.width as int, x as int, y as int) < j < grid.content@.len()
                    ==> grid.content@[j] == blank_cell()
        },
{
    let mut i: usize = grid.content.len();
    while i > 0
        invariant
            grid.wf(),
            i <= grid.content@.len(),
            forall|j: int| i <= j < grid.content@.len() ==> grid.content@[j] == blank_cell(),
        decreases i,
    {
        i = i - 1;
        if grid.content[i].is_occupied() {
            let (x, y) = grid.pos_of(i);
            proof {
                lemma_index_position_inverse(
                    grid.width as int,
                    grid.height as int,
                    0,
                    0,
                    i as int,
                );
            }
            return Some((x, y));
        }
    }
    None
}

/// The rightmost occupied column of row `y`, or `None` when the row is blank.
pub fn rightmost_in_row(grid: &Grid, y: u16) -> (r: Option<u16>)
    requires
        grid.wf(),
        y < grid.height,
    ensures
        r is None <==> (forall|x: int| 0 <= x < grid.width ==> !occupied(grid.cell(x, y as int))),
        r matches Some(x) ==> {
            &&& x < grid.width
            &&& occupied(grid.cell(x as int, y as int))
            &&& forall|x2: int| x < x2 < grid.width ==> !occupied(grid.cell(x2, y as int))
        },
{
    let mut x: u16 = grid.width;
    while x > 0
        invariant
            grid.wf(),
            y < grid.height,
            x <= grid.width,
            forall|x2: int| x <= x2 < grid.width ==> !occupied(grid.cell(x2, y as int)),
        decreases x,
    {
        x = x - 1;
        if grid.get(x, y).is_occupied() {
            return Some(x);
        }
    }
    None
}

/// One past the rightmost occupied column over rows `0..=last_y`, and at
/// least one: the width of the part of the grid that holds content.
pub fn find_widest_cell(grid: &Grid, last_y: u16) -> (r: u16)
    requires
        grid.wf(),
    ensures
        r >= 1,
        forall|x: int, y: int| drawn_up_to(*grid, x, y, last_y as int) ==> x < r,
        r > 1 ==> column_drawn_up_to(*grid, r - 1, last_y as int),
{
    let mut widest: u16 = 1;
    let mut y: u16 = 0;
    while y < grid.height && y <= last_y
        invariant
            grid.wf(),
            y <= grid.height,
            widest >= 1,
            widest <= grid.width || widest == 1,
            forall|x: int, y2: int| y2 < y && #[trigger] drawn_up_to(*grid, x, y2, last_y as int) ==> x < widest,
            widest > 1 ==> column_drawn_up_to(*grid, widest - 1, last_y as int),
        decreases grid.height - y,
    {
        match rightmost_in_row(grid, y) {
            Some(x) => {
                if x + 1 > widest {
                    widest = x + 1;
                    assert(drawn_up_to(*grid, widest - 1, y as int, last_y as int));
                }
            },
            None => {},
        }
        y = y + 1;
    }
    proof {
        assert forall|x: int, y2: int| drawn_up_to(*grid, x, y2, last_y as int) implies x < widest by {
            assert(y2 < y);
        }
    }
    widest
}

} // verus!
