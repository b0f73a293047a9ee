//! Styled character cells, rectangles and the cell grid that holds them.
use vstd::prelude::*;

verus! {

/// A terminal color.
#[derive(Clone, Copy, Debug, PartialEq, Eq, Structural)]
pub enum Color {
    Reset,
    Black,
    Red,
    Green,
    Yellow,
    Blue,
    Magenta,
    Cyan,
    Gray,
    DarkGray,
    LightRed,
    LightGreen,
    LightYellow,
    LightBlue,
    LightMagenta,
    LightCyan,
    White,
}

/// Colors and text modifiers (a bit set: bold, italic, ...) of a cell.
#[derive(Clone, Copy, Debug, PartialEq, Eq, Structural)]
pub struct Style {
    pub fg: Color,
    pub bg: Color,
    pub modifier: u16,
}

/// One character position of a terminal: a glyph and its style.
#[derive(Clone, Copy, Debug, PartialEq, Eq, Structural)]
pub struct Cell {
    pub symbol: char,
    pub fg: Color,
    pub bg: Color,
    pub modifier: u16,
}

/// The style with default colors and no modifiers.
pub open spec fn plain_style() -> Style {
    Style { fg: Color::Reset, bg: Color::Reset, modifier: 0 }
}

/// The cell of an untouched grid: a space, default colors, no modifiers.
pub open spec fn blank_cell() -> Cell {
    Cell { symbol: ' ', fg: Color::Reset, bg: Color::Reset, modifier: 0 }
}

/// The cell that shows `c` in style `s`.
pub open spec fn styled_cell(c: char, s: Style) -> Cell {
    Cell { symbol: c, fg: s.fg, bg: s.bg, modifier: s.modifier }
}

impl Style {
    pub fn plain() -> (r: Style)
        ensures
            r == plain_style(),
    {
        Style { fg: Color::Reset, bg: Color::Reset, modifier: 0 }
    }

    /// The plain style with foreground `fg`.
    pub fn fg(fg: Color) -> (r: Style)
        ensures
            r == (Style { fg: fg, bg: Color::Reset, modifier: 0 }),
    {
        Style { fg, bg: Color::Reset, modifier: 0 }
    }
}

impl Cell {
    pub fn blank() -> (r: Cell)
        ensures
            r == blank_cell(),
    {
        Cell { symbol: ' ', fg: Color::Reset, bg: Color::Reset, modifier: 0 }
    }

    pub fn styled(c: char, s: Style) -> (r: Cell)
        ensures
            r == styled_cell(c, s),
    {
        Cell { symbol: c, fg: s.fg, bg: s.bg, modifier: s.modifier }
    }

    /// Whether the cell differs from the blank cell, that is, whether
    /// something was drawn there.
    pub fn is_occupied(&self) -> (r: bool)
        ensures
            r == (*self != blank_cell()),
    {
        let b = Cell::blank();
        !(*self == b)
    }
}

/// A rectangle in grid coordinates.
#[derive(Clone, Copy, Debug, PartialEq, Eq, Structural)]
pub struct Rect {
    pub x: u16,
    pub y: u16,
    pub width: u16,
    pub height: u16,
}

impl Rect {
    pub fn new(x: u16, y: u16, width: u16, height: u16) -> (r: Rect)
        ensures
            r == (Rect { x, y, width, height }),
    {
        Rect { x, y, width, height }
    }
}

/// Linear position of column `x` of row `y` in a grid `w` columns wide.
pub open spec fn index_spec(w: int, x: int, y: int) -> int {
    y * w + x
}

/// Column and row of linear position `i` in a grid `w` columns wide.
pub open spec fn position_spec(w: int, i: int) -> (int, int) {
    (i % w, i / w)
}

/// `content` with cell (x, y) replaced by `c`, where (x, y) lies in a
/// `w` by `h` grid; unchanged elsewhere.
pub open spec fn put_cell(content: Seq<Cell>, w: int, h: int, x: int, y: int, c: Cell) -> Seq<Cell> {
    if 0 <= x < w && 0 <= y < h {
        content.update(index_spec(w, x, y), c)
    } else {
        content
    }
}

/// Linear positions of cells inside the grid lie inside its content.
pub proof fn lemma_index_in_bounds(w: int, h: int, x: int, y: int)
    requires
        0 <= x < w,
        0 <= y < h,
    ensures
        0 <= index_spec(w, x, y) < w * h,
        index_spec(w, x, y) + (w - x) <= w * h,
{
    assert(0 <= y * w + x && y * w + x + (w - x) <= w * h) by (nonlinear_arith)
        requires
            0 <= x < w,
            0 <= y < h,
    ;
}

/// Linear position and (column, row) are inverse to each other over the
/// cells of a `w` by `h` grid.
pub proof fn lemma_index_position_inverse(w: int, h: int, x: int, y: int, i: int)
    requires
        w > 0,
        h >= 0,
        0 <= x < w,
        0 <= y < h,
        0 <= i < w * h,
    ensures
        position_spec(w, index_spec(w, x, y)) == (x, y),
        index_spec(w, position_spec(w, i).0, position_spec(w, i).1) == i,
        0 <= position_spec(w, i).0 < w,
        0 <= position_spec(w, i).1 < h,
{
    vstd::arithmetic::div_mod::lemma_fundamental_div_mod_converse(y * w + x, w, y, x);
    vstd::arithmetic::div_mod::lemma_fundamental_div_mod(i, w);
    vstd::arithmetic::div_mod::lemma_mod_bound(i, w);
    vstd::arithmetic::div_mod::lemma_div_pos_is_pos(i, w);
    vstd::arithmetic::div_mod::lemma_div_is_ordered(i, w * h - 1, w);
    assert((w * h - 1) / w < h) by {
        assert((h - 1) * w + (w - 1) == w * h - 1) by (nonlinear_arith);
        vstd::arithmetic::div_mod::lemma_fundamental_div_mod_converse(w * h - 1, w, h - 1, w - 1);
    }
    assert(i == w * (i / w) + i % w);
    assert(w * (i / w) == (i / w) * w) by (nonlinear_arith);
}

/// `b` holds the same cells as `a` outside columns `x0..x1` of rows
/// `y0..y1` of a grid `w` columns wide.
pub open spec fn unchanged_outside(a: Seq<Cell>, b: Seq<Cell>, w: int, x0: int, y0: int, x1: int, y1: int) -> bool {
    &&& b.len() == a.len()
    &&& forall|i: int|
        0 <= i < a.len() && !(x0 <= position_spec(w, i).0 < x1 && y0 <= position_spec(w, i).1 < y1)
            ==> #[trigger] b[i] == a[i]
}

/// What is left alone outside a region is also left alone outside any
/// larger region; an empty region leaves everything alone.
pub proof fn lemma_unchanged_widen(
    a: Seq<Cell>,
    b: Seq<Cell>,
    w: int,
    x0: int,
    y0: int,
    x1: int,
    y1: int,
    p0: int,
    q0: int,
    p1: int,
    q1: int,
)
    requires
        unchanged_outside(a, b, w, x0, y0, x1, y1),
        x0 >= x1 || y0 >= y1 || (p0 <= x0 && x1 <= p1 && q0 <= y0 && y1 <= q1),
    ensures
        unchanged_outside(a, b, w, p0, q0, p1, q1),
{
}

/// Two changes inside a region leave everything outside it alone.
pub proof fn lemma_unchanged_trans(a: Seq<Cell>, b: Seq<Cell>, c: Seq<Cell>, w: int, x0: int, y0: int, x1: int, y1: int)
    requires
        unchanged_outside(a, b, w, x0, y0, x1, y1),
        unchanged_outside(b, c, w, x0, y0, x1, y1),
    ensures
        unchanged_outside(a, c, w, x0, y0, x1, y1),
{
    assert forall|i: int|
        0 <= i < a.len() && !(x0 <= position_spec(w, i).0 < x1 && y0 <= position_spec(w, i).1 < y1)
            implies #[trigger] c[i] == a[i] by {
        assert(c[i] == b[i]);
    }
}

/// Writing one cell changes no other.
pub proof fn lemma_put_cell_local(content: Seq<Cell>, w: int, h: int, x: int, y: int, c: Cell)
    requires
        w >= 0,
        h >= 0,
        content.len() == w * h,
    ensures
        unchanged_outside(content, put_cell(content, w, h, x, y, c), w, x, y, x + 1, y + 1),
{
    let r = put_cell(content, w, h, x, y, c);
    if 0 <= x < w && 0 <= y < h {
        let k = index_spec(w, x, y);
        lemma_index_in_bounds(w, h, x, y);
        lemma_index_position_inverse(w, h, x, y, k);
        assert forall|i: int|
            0 <= i < content.len() && !(x <= position_spec(w, i).0 < x + 1 && y <= position_spec(w, i).1 < y + 1)
                implies #[trigger] r[i] == content[i] by {
            assert(i != k);
        }
    }
}

/// A fixed-size grid of cells, stored row by row.
pub struct Grid {
    pub width: u16,
    pub height: u16,
    pub content: Vec<Cell>,
}

impl Grid {
    /// The content holds exactly one cell per (column, row).
    pub open spec fn wf(&self) -> bool {
        self.content@.len() == self.width as int * self.height as int
    }

    /// The cell at column `x` of row `y`.
    pub open spec fn cell(&self, x: int, y: int) -> Cell {
        self.content@[index_spec(self.width as int, x, y)]
    }

    pub open spec fn in_bounds(&self, x: int, y: int) -> bool {
        0 <= x < self.width && 0 <= y < self.height
    }

    /// A grid of the given size with every cell blank.
    pub fn empty(width: u16, height: u16) -> (r: Grid)
        requires
            width as int * height as int <= usize::MAX,
        ensures
            r.wf(),
            r.width == width,
            r.height == height,
            forall|i: int| 0 <= i < r.content@.len() ==> r.content@[i] == blank_cell(),
    {
        let n: usize = (width as usize) * (height as usize);
        let mut content: Vec<Cell> = Vec::with_capacity(n);
        let mut i: usize = 0;
        while i < n
            invariant
                i <= n,
                content@.len() == i,
                forall|j: int| 0 <= j < i ==> content@[j] == blank_cell(),
            decreases n - i,
        {
            content.push(Cell::blank());
            i = i + 1;
        }
        Grid { width, height, content }
    }

    /// Linear position of column `x` of row `y`.
    pub fn index_of(&self, x: u16, y: u16) -> (r: usize)
        requires
            self.wf(),
            self.in_bounds(x as int, y as int),
        ensures
            r == index_spec(self.width as int, x as int, y as int),
            r < self.content@.len(),
    {
        let _len = self.content.len();
        proof {
            lemma_index_in_bounds(self.width as int, self.height as int, x as int, y as int);
        }
        (y as usize) * (self.width as usize) + (x as usize)
    }

    /// Column and row of linear position `i`.
    pub fn pos_of(&self, i: usize) -> (r: (u16, u16))
        requires
            self.wf(),
            i < self.content@.len(),
        ensures
            (r.0 as int, r.1 as int) == position_spec(self.width as int, i as int),
            self.in_bounds(r.0 as int, r.1 as int),
    {
        proof {
            lemma_index_position_inverse(self.width as int, self.height as int, 0, 0, i as int);
        }
        let w = self.width as usize;
        ((i % w) as u16, (i / w) as u16)
    }

    /// The cell at (x, y); the blank cell outside the grid.
    pub fn get(&self, x: u16, y: u16) -> (r: Cell)
        requires
            self.wf(),
        ensures
            r == if self.in_bounds(x as int, y as int) {
                self.cell(x as int, y as int)
            } else {
                blank_cell()
            },
    {
        if x < self.width && y < self.height {
            let i = self.index_of(x, y);
            self.content[i]
        } else {
            Cell::blank()
        }
    }

    /// Writes `c` at (x, y); does nothing outside the grid.
    pub fn set(&mut self, x: u16, y: u16, c: Cell)
        requires
            old(self).wf(),
        ensures
            final(self).wf(),
            final(self).width == old(self).width,
            final(self).height == old(self).height,
            final(self).content@ == put_cell(
                old(self).content@,
                old(self).width as int,
                old(self).height as int,
                x as int,
                y as int,
                c,
            ),
    {
        if x < self.width && y < self.height {
            let i = self.index_of(x, y);
            self.content.set(i, c);
        }
    }
}

} // verus!
