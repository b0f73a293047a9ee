//! Writing styled text into a rectangle of a grid.
use vstd::prelude::*;
use crate::glyph::{glyph_cols, glyph_width};
use crate::grid::{
    blank_cell, lemma_put_cell_local, lemma_unchanged_trans, lemma_unchanged_widen, put_cell,
    styled_cell, unchanged_outside, Cell, Grid, Rect, Style,
};

verus! {

/// A run of glyphs in one style.
pub struct Span {
    pub content: Vec<char>,
    pub style: Style,
}

/// Lines of styled glyphs, each a sequence of spans.
pub struct Text {
    pub lines: Vec<Vec<Span>>,
}

/// `cells` with the `k` cells from column `x` of row `y` on made blank.
pub open spec fn blank_run(cells: Seq<Cell>, w: int, h: int, x: int, y: int, k: int) -> Seq<Cell>
    decreases k,
{
    if k <= 0 {
        cells
    } else {
        blank_run(put_cell(cells, w, h, x, y, blank_cell()), w, h, x + 1, y, k - 1)
    }
}

/// `cells` after writing the glyphs `gs` in style `st` from column `x` of
/// row `y`, with `room` columns available: glyphs of no width are passed
/// over, writing stops at the first glyph that does not fit, and the cells
/// that a wide glyph covers after its own are made blank.
pub open spec fn put_glyphs(
    cells: Seq<Cell>,
    w: int,
    h: int,
    x: int,
    y: int,
    gs: Seq<char>,
    st: Style,
    room: int,
) -> Seq<Cell>
    decreases gs.len(),
{
    if gs.len() == 0 {
        cells
    } else {
        let cw = glyph_cols(gs[0]) as int;
        if cw == 0 {
            put_glyphs(cells, w, h, x, y, gs.drop_first(), st, room)
        } else if cw > room {
            cells
        } else {
            put_glyphs(
                blank_run(put_cell(cells, w, h, x, y, styled_cell(gs[0], st)), w, h, x + 1, y, cw - 1),
                w,
                h,
                x + cw,
                y,
                gs.drop_first(),
                st,
                room - cw,
            )
        }
    }
}

/// Columns that writing `gs` with `room` columns available takes up.
pub open spec fn glyphs_cols(gs: Seq<char>, room: int) -> int
    decreases gs.len(),
{
    if gs.len() == 0 {
        0
    } else {
        let cw = glyph_cols(gs[0]) as int;
        if cw == 0 {
            glyphs_cols(gs.drop_first(), room)
        } else if cw > room {
            0
        } else {
            cw + glyphs_cols(gs.drop_first(), room - cw)
        }
    }
}

proof fn lemma_glyphs_cols_bounded(gs: Seq<char>, room: int)
    requires
        room >= 0,
    ensures
        0 <= glyphs_cols(gs, room) <= room,
    decreases gs.len(),
{
    if gs.len() > 0 {
        let cw = glyph_cols(gs[0]) as int;
        if cw == 0 {
            lemma_glyphs_cols_bounded(gs.drop_first(), room);
        } else if cw <= room {
            lemma_glyphs_cols_bounded(gs.drop_first(), room - cw);
        }
    }
}

proof fn lemma_blank_run_local(cells: Seq<Cell>, w: int, h: int, x: int, y: int, k: int)
    requires
        w >= 0,
        h >= 0,
        cells.len() == w * h,
        k >= 0,
    ensures
        unchanged_outside(cells, blank_run(cells, w, h, x, y, k), w, x, y, x + k, y + 1),
    decreases k,
{
    if k > 0 {
        let c1 = put_cell(cells, w, h, x, y, blank_cell());
        lemma_put_cell_local(cells, w, h, x, y, blank_cell());
        lemma_unchanged_widen(cells, c1, w, x, y, x + 1, y + 1, x, y, x + k, y + 1);
        lemma_blank_run_local(c1, w, h, x + 1, y, k - 1);
        lemma_unchanged_widen(c1, blank_run(c1, w, h, x + 1, y, k - 1), w, x + 1, y, x + k, y + 1, x, y, x + k, y + 1);
        lemma_unchanged_trans(cells, c1, blank_run(c1, w, h, x + 1, y, k - 1), w, x, y, x + k, y + 1);
    }
}

/// Writing glyphs with `room` columns changes no cell outside those columns
/// of the row.
pub proof fn lemma_put_glyphs_local(cells: Seq<Cell>, w: int, h: int, x: int, y: int, gs: Seq<char>, st: Style, room: int)
    requires
        w >= 0,
        h >= 0,
        cells.len() == w * h,
        room >= 0,
    ensures
        unchanged_outside(cells, put_glyphs(cells, w, h, x, y, gs, st, room), w, x, y, x + room, y + 1),
    decreases gs.len(),
{
    if gs.len() > 0 {
        let cw = glyph_cols(gs[0]) as int;
        if cw == 0 {
            lemma_put_glyphs_local(cells, w, h, x, y, gs.drop_first(), st, room);
        } else if cw <= room {
            let c1 = put_cell(cells, w, h, x, y, styled_cell(gs[0], st));
            lemma_put_cell_local(cells, w, h, x, y, styled_cell(gs[0], st));
            lemma_unchanged_widen(cells, c1, w, x, y, x + 1, y + 1, x, y, x + room, y + 1);
            let c2 = blank_run(c1, w, h, x + 1, y, cw - 1);
            lemma_blank_run_local(c1, w, h, x + 1, y, cw - 1);
            lemma_unchanged_widen(c1, c2, w, x + 1, y, x + cw, y + 1, x, y, x + room, y + 1);
            lemma_unchanged_trans(cells, c1, c2, w, x, y, x + room, y + 1);
            let c3 = put_glyphs(c2, w, h, x + cw, y, gs.drop_first(), st, room - cw);
            lemma_put_glyphs_local(c2, w, h, x + cw, y, gs.drop_first(), st, room - cw);
            lemma_unchanged_widen(c2, c3, w, x + cw, y, x + room, y + 1, x, y, x + room, y + 1);
            lemma_unchanged_trans(cells, c2, c3, w, x, y, x + room, y + 1);
        }
    }
}

/// Writes `c` at column `x` of row `y`; nothing outside the grid.
fn set_at(grid: &mut Grid, x: u32, y: u32, c: Cell)
    requires
        old(grid).wf(),
    ensures
        final(grid).wf(),
        final(grid).width == old(grid).width,
        final(grid).height == old(grid).height,
        final(grid).content@ == put_cell(
            old(grid).content@,
            old(grid).width as int,
            old(grid).height as int,
            x as int,
            y as int,
            c,
        ),
{
    if x < grid.width as u32 && y < grid.height as u32 {
        grid.set(x as u16, y as u16, c);
    }
}

/// Makes the `k` cells from column `x` of row `y` on blank.
fn blank_cells(grid: &mut Grid, x: u32, y: u32, k: u32)
    requires
        old(grid).wf(),
        x + k <= u32::MAX,
    ensures
        final(grid).wf(),
        final(grid).width == old(grid).width,
        final(grid).height == old(grid).height,
        final(grid).content@ == blank_run(
            old(grid).content@,
            old(grid).width as int,
            old(grid).height as int,
            x as int,
            y as int,
            k as int,
        ),
{
    let ghost w = grid.width as int;
    let ghost h = grid.height as int;
    let ghost target = blank_run(grid.content@, w, h, x as int, y as int, k as int);
    let mut j: u32 = 0;
    while j < k
        invariant
            grid.wf(),
            grid.width == w,
            grid.height == h,
            j <= k,
            x + k <= u32::MAX,
            blank_run(grid.content@, w, h, x + j, y as int, k - j) == target,
        decreases k - j,
    {
        set_at(grid, x + j, y, Cell::blank());
        j = j + 1;
    }
}

/// Writes the glyphs `gs` in style `st` from column `x` of row `y`, using at
/// most `room` columns, and returns how many columns they took.
pub fn put_str(grid: &mut Grid, x: u32, y: u32, gs: &Vec<char>, st: Style, room: u32) -> (used: u32)
    requires
        old(grid).wf(),
        x + room <= u32::MAX,
    ensures
        final(grid).wf(),
        final(grid).width == old(grid).width,
        final(grid).height == old(grid).height,
        final(grid).content@ == put_glyphs(
            old(grid).content@,
            old(grid).width as int,
            old(grid).height as int,
            x as int,
            y as int,
            gs@,
            st,
            room as int,
        ),
        used == glyphs_cols(gs@, room as int),
        used <= room,
{
    let ghost w = grid.width as int;
    let ghost h = grid.height as int;
    let ghost target = put_glyphs(grid.content@, w, h, x as int, y as int, gs@, st, room as int);
    let ghost total = glyphs_cols(gs@, room as int);
    proof {
        lemma_glyphs_cols_bounded(gs@, room as int);
    }
    let mut col: u32 = x;
    let mut left: u32 = room;
    let mut k: usize = 0;
    let mut done = false;
    assert(gs@.skip(0) =~= gs@);
    while k < gs.len() && !done
        invariant
            grid.wf(),
            grid.width == w,
            grid.height == h,
            k <= gs@.len(),
            col as int + left as int == x as int + room as int,
            x + room <= u32::MAX,
            col >= x,
            !done ==> put_glyphs(grid.content@, w, h, col as int, y as int, gs@.skip(k as int), st, left as int) == target,
            !done ==> col - x + glyphs_cols(gs@.skip(k as int), left as int) == total,
            done ==> grid.content@ == target && col - x == total,
        decreases gs@.len() - k + (if done { 0int } else { 1int }),
    {
        let c = gs[k];
        let cw = glyph_width(c) as u32;
        assert(gs@.skip(k as int).drop_first() =~= gs@.skip(k as int + 1));
        if cw == 0 {
            k = k + 1;
        } else if cw > left {
            done = true;
        } else {
            set_at(grid, col, y, Cell::styled(c, st));
            blank_cells(grid, col + 1, y, cw - 1);
            col = col + cw;
            left = left - cw;
            k = k + 1;
        }
    }
    proof {
        if !done {
            assert(gs@.skip(k as int) =~= Seq::<char>::empty());
        }
    }
    col - x
}

/// `cells` after writing the spans one after the other from column `x` of
/// row `y`, with `room` columns for all of them.
pub open spec fn put_spans(cells: Seq<Cell>, w: int, h: int, x: int, y: int, spans: Seq<Span>, room: int) -> Seq<Cell>
    decreases spans.len(),
{
    if spans.len() == 0 {
        cells
    } else {
        let used = glyphs_cols(spans[0].content@, room);
        put_spans(
            put_glyphs(cells, w, h, x, y, spans[0].content@, spans[0].style, room),
            w,
            h,
            x + used,
            y,
            spans.drop_first(),
            room - used,
        )
    }
}

/// `cells` after writing the first `n` lines, line `i` in row `area.y + i`
/// from column `area.x`, each cut to `area.width` columns.
pub open spec fn put_lines(cells: Seq<Cell>, w: int, h: int, area: Rect, lines: Seq<Vec<Span>>, n: int) -> Seq<Cell>
    decreases n,
{
    if n <= 0 {
        cells
    } else {
        put_spans(
            put_lines(cells, w, h, area, lines, n - 1),
            w,
            h,
            area.x as int,
            area.y + n - 1,
            lines[n - 1]@,
            area.width as int,
        )
    }
}

/// Writing spans with `room` columns changes no cell outside those columns
/// of the row.
pub proof fn lemma_put_spans_local(cells: Seq<Cell>, w: int, h: int, x: int, y: int, spans: Seq<Span>, room: int)
    requires
        w >= 0,
        h >= 0,
        cells.len() == w * h,
        room >= 0,
    ensures
        unchanged_outside(cells, put_spans(cells, w, h, x, y, spans, room), w, x, y, x + room, y + 1),
    decreases spans.len(),
{
    if spans.len() > 0 {
        let used = glyphs_cols(spans[0].content@, room);
        lemma_glyphs_cols_bounded(spans[0].content@, room);
        let c1 = put_glyphs(cells, w, h, x, y, spans[0].content@, spans[0].style, room);
        lemma_put_glyphs_local(cells, w, h, x, y, spans[0].content@, spans[0].style, room);
        let c2 = put_spans(c1, w, h, x + used, y, spans.drop_first(), room - used);
        lemma_put_spans_local(c1, w, h, x + used, y, spans.drop_first(), room - used);
        lemma_unchanged_widen(c1, c2, w, x + used, y, x + room, y + 1, x, y, x + room, y + 1);
        lemma_unchanged_trans(cells, c1, c2, w, x, y, x + room, y + 1);
    }
}

/// Writing the first `n` lines into `area` changes no cell outside its
/// columns and those `n` rows.
pub proof fn lemma_put_lines_local(cells: Seq<Cell>, w: int, h: int, area: Rect, lines: Seq<Vec<Span>>, n: int)
    requires
        w >= 0,
        h >= 0,
        cells.len() == w * h,
        n >= 0,
    ensures
        unchanged_outside(
            cells,
            put_lines(cells, w, h, area, lines, n),
            w,
            area.x as int,
            area.y as int,
            area.x + area.width,
            area.y + n,
        ),
    decreases n,
{
    if n > 0 {
        let c1 = put_lines(cells, w, h, area, lines, n - 1);
        lemma_put_lines_local(cells, w, h, area, lines, n - 1);
        lemma_unchanged_widen(cells, c1, w, area.x as int, area.y as int, area.x + area.width, area.y + n - 1,
            area.x as int, area.y as int, area.x + area.width, area.y + n);
        let c2 = put_spans(c1, w, h, area.x as int, area.y + n - 1, lines[n - 1]@, area.width as int);
        lemma_put_spans_local(c1, w, h, area.x as int, area.y + n - 1, lines[n - 1]@, area.width as int);
        lemma_unchanged_widen(c1, c2, w, area.x as int, area.y + n - 1, area.x + area.width, area.y + n,
            area.x as int, area.y as int, area.x + area.width, area.y + n);
        lemma_unchanged_trans(cells, c1, c2, w, area.x as int, area.y as int, area.x + area.width, area.y + n);
    }
}

/// Writes the spans one after the other from column `x` of row `y`, using at
/// most `room` columns for all of them.
pub fn put_spans_exec(grid: &mut Grid, x: u32, y: u32, spans: &Vec<Span>, room: u32)
    requires
        old(grid).wf(),
        x + room <= u32::MAX,
    ensures
        final(grid).wf(),
        final(grid).width == old(grid).width,
        final(grid).height == old(grid).height,
        final(grid).content@ == put_spans(
            old(grid).content@,
            old(grid).width as int,
            old(grid).height as int,
            x as int,
            y as int,
            spans@,
            room as int,
        ),
{
    let ghost w = grid.width as int;
    let ghost h = grid.height as int;
    let ghost target = put_spans(grid.content@, w, h, x as int, y as int, spans@, room as int);
    let mut col: u32 = x;
    let mut left: u32 = room;
    let mut k: usize = 0;
    assert(spans@.skip(0) =~= spans@);
    while k < spans.len()
        invariant
            grid.wf(),
            grid.width == w,
            grid.height == h,
            k <= spans@.len(),
            col as int + left as int == x as int + room as int,
            x + room <= u32::MAX,
            put_spans(grid.content@, w, h, col as int, y as int, spans@.skip(k as int), left as int) == target,
        decreases spans@.len() - k,
    {
        assert(spans@.skip(k as int).drop_first() =~= spans@.skip(k as int + 1));
        let used = put_str(grid, col, y, &spans[k].content, spans[k].style, left);
        col = col + used;
        left = left - used;
        k = k + 1;
    }
    assert(spans@.skip(k as int) =~= Seq::<Span>::empty());
}

/// Writes the lines of `text` into `area`, one per row from its top, each
/// cut to the area's width; lines below the area are left out.
pub fn draw_text(grid: &mut Grid, area: Rect, text: &Text)
    requires
        old(grid).wf(),
    ensures
        final(grid).wf(),
        final(grid).width == old(grid).width,
        final(grid).height == old(grid).height,
        final(grid).content@ == put_lines(
            old(grid).content@,
            old(grid).width as int,
            old(grid).height as int,
            area,
            text.lines@,
            if text.lines@.len() < area.height { text.lines@.len() as int } else { area.height as int },
        ),
        unchanged_outside(
            old(grid).content@,
            final(grid).content@,
            old(grid).width as int,
            area.x as int,
            area.y as int,
            area.x + area.width,
            area.y + area.height,
        ),
{
    let ghost w = grid.width as int;
    let ghost h = grid.height as int;
    let ghost start = grid.content@;
    let n: usize = if text.lines.len() < area.height as usize { text.lines.len() } else { area.height as usize };
    let mut r: usize = 0;
    while r < n
        invariant
            grid.wf(),
            grid.width == w,
            grid.height == h,
            r <= n,
            n <= text.lines@.len(),
            n <= area.height,
            grid.content@ == put_lines(start, w, h, area, text.lines@, r as int),
        decreases n - r,
    {
        put_spans_exec(grid, area.x as u32, area.y as u32 + r as u32, &text.lines[r], area.width as u32);
        r = r + 1;
    }
    proof {
        lemma_put_lines_local(start, w, h, area, text.lines@, n as int);
        lemma_unchanged_widen(start, grid.content@, w, area.x as int, area.y as int, area.x + area.width, area.y + n,
            area.x as int, area.y as int, area.x + area.width, area.y + area.height);
    }
}

/// The largest width or height that a rectangle can have.
pub const MAX_EXTENT: u16 = 65535;

/// Columns that the glyphs `gs` take up together.
pub open spec fn seq_cols(gs: Seq<char>) -> int
    decreases gs.len(),
{
    if gs.len() == 0 {
        0
    } else {
        seq_cols(gs.drop_last()) + glyph_cols(gs.last())
    }
}

/// Columns that a line of spans takes up.
pub open spec fn line_cols(spans: Seq<Span>) -> int
    decreases spans.len(),
{
    if spans.len() == 0 {
        0
    } else {
        line_cols(spans.drop_last()) + seq_cols(spans.last().content@)
    }
}

/// Columns that the widest of the lines takes up.
pub open spec fn lines_cols(lines: Seq<Vec<Span>>) -> int
    decreases lines.len(),
{
    if lines.len() == 0 {
        0
    } else {
        let a = lines_cols(lines.drop_last());
        let b = line_cols(lines.last()@);
        if a >= b { a } else { b }
    }
}

pub open spec fn capped(n: int) -> int {
    if n < MAX_EXTENT { n } else { MAX_EXTENT as int }
}

proof fn lemma_seq_cols_nonneg(gs: Seq<char>)
    ensures
        seq_cols(gs) >= 0,
    decreases gs.len(),
{
    if gs.len() > 0 {
        lemma_seq_cols_nonneg(gs.drop_last());
    }
}

proof fn lemma_line_cols_nonneg(spans: Seq<Span>)
    ensures
        line_cols(spans) >= 0,
    decreases spans.len(),
{
    if spans.len() > 0 {
        lemma_line_cols_nonneg(spans.drop_last());
        lemma_seq_cols_nonneg(spans.last().content@);
    }
}

/// Columns that `gs` takes up, capped at the largest extent.
fn glyphs_width(gs: &Vec<char>) -> (r: u16)
    ensures
        r == capped(seq_cols(gs@)),
{
    let mut acc: u16 = 0;
    let mut k: usize = 0;
    while k < gs.len()
        invariant
            k <= gs@.len(),
            acc == capped(seq_cols(gs@.take(k as int))),
        decreases gs@.len() - k,
    {
        proof {
            assert(gs@.take(k as int + 1).drop_last() =~= gs@.take(k as int));
            lemma_seq_cols_nonneg(gs@.take(k as int));
        }
        let cw = glyph_width(gs[k]) as u16;
        acc = if acc > MAX_EXTENT - cw { MAX_EXTENT } else { acc + cw };
        k = k + 1;
    }
    assert(gs@.take(k as int) =~= gs@);
    acc
}

impl Text {
    /// Columns that the widest line takes up, capped at the largest extent.
    pub fn width(&self) -> (r: u16)
        ensures
            r == capped(lines_cols(self.lines@)),
    {
        let mut widest: u16 = 0;
        let mut i: usize = 0;
        while i < self.lines.len()
            invariant
                i <= self.lines@.len(),
                widest == capped(lines_cols(self.lines@.take(i as int))),
            decreases self.lines@.len() - i,
        {
            let line = &self.lines[i];
            let mut acc: u16 = 0;
            let mut k: usize = 0;
            while k < line.len()
                invariant
                    k <= line@.len(),
                    acc == capped(line_cols(line@.take(k as int))),
                decreases line@.len() - k,
            {
                proof {
                    assert(line@.take(k as int + 1).drop_last() =~= line@.take(k as int));
                    lemma_line_cols_nonneg(line@.take(k as int));
                    lemma_seq_cols_nonneg(line@[k as int].content@);
                }
                let cw = glyphs_width(&line[k].content);
                acc = if acc > MAX_EXTENT - cw { MAX_EXTENT } else { acc + cw };
                k = k + 1;
            }
            assert(line@.take(k as int) =~= line@);
            assert(self.lines@.take(i as int + 1).drop_last() =~= self.lines@.take(i as int));
            if acc > widest {
                widest = acc;
            }
            i = i + 1;
        }
        assert(self.lines@.take(i as int) =~= self.lines@);
        widest
    }

    /// Number of lines, capped at the largest extent.
    pub fn height(&self) -> (r: u16)
        ensures
            r == capped(self.lines@.len() as int),
    {
        if self.lines.len() < MAX_EXTENT as usize {
            self.lines.len() as u16
        } else {
            MAX_EXTENT
        }
    }
}

} // verus!
