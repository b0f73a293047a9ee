//! The bordered list of readouts.
use vstd::prelude::*;
use crate::grid::{
    lemma_unchanged_trans, lemma_unchanged_widen, plain_style, position_spec, styled_cell,
    unchanged_outside, Cell, Grid, Rect, Style,
};
use crate::layout::{add_capped, sub_or_zero};
use crate::readout::{label_spec, Readout};
use crate::render::{lemma_put_glyphs_local, put_glyphs, put_str};
use crate::theme::Theme;

verus! {

/// The border glyph at column `cx` of row `cy` for a rounded border along
/// the edge of `area`; `None` off the edge, and everywhere when the area is
/// less than two cells wide or tall.
pub open spec fn border_at(area: Rect, cx: int, cy: int) -> Option<char> {
    let x0 = area.x as int;
    let y0 = area.y as int;
    let x1 = area.x + area.width - 1;
    let y1 = area.y + area.height - 1;
    if area.width < 2 || area.height < 2 || cx < x0 || cx > x1 || cy < y0 || cy > y1 {
        None
    } else if cy == y0 && cx == x0 {
        Some('╭')
    } else if cy == y0 && cx == x1 {
        Some('╮')
    } else if cy == y1 && cx == x0 {
        Some('╰')
    } else if cy == y1 && cx == x1 {
        Some('╯')
    } else if cy == y0 || cy == y1 {
        Some('─')
    } else if cx == x0 || cx == x1 {
        Some('│')
    } else {
        None
    }
}

/// `cells` of a grid `w` columns wide with the border of `area` drawn in
/// style `st`.
pub open spec fn bordered(cells: Seq<Cell>, w: int, area: Rect, st: Style) -> Seq<Cell> {
    Seq::new(
        cells.len(),
        |i: int|
            match border_at(area, position_spec(w, i).0, position_spec(w, i).1) {
                Some(c) => styled_cell(c, st),
                None => cells[i],
            },
    )
}

/// `cells` with the border of `area` drawn and `title` set into its top
/// edge, one column in from the corner and cut to fit between the corners.
pub open spec fn border_spec(cells: Seq<Cell>, w: int, h: int, area: Rect, title: Seq<char>, st: Style) -> Seq<Cell> {
    let b = bordered(cells, w, area, st);
    if area.width >= 2 && area.height >= 2 {
        put_glyphs(b, w, h, area.x + 1, area.y as int, title, st, area.width - 2)
    } else {
        b
    }
}

/// The border glyph at column `cx` of row `cy` for the edge of `area`.
pub fn border_glyph(area: Rect, cx: u16, cy: u16) -> (r: Option<char>)
    ensures
        r == border_at(area, cx as int, cy as int),
{
    let x0 = area.x as u32;
    let y0 = area.y as u32;
    if area.width < 2 || area.height < 2 {
        return None;
    }
    let x1 = x0 + area.width as u32 - 1;
    let y1 = y0 + area.height as u32 - 1;
    let cx = cx as u32;
    let cy = cy as u32;
    if cx < x0 || cx > x1 || cy < y0 || cy > y1 {
        None
    } else if cy == y0 && cx == x0 {
        Some('╭')
    } else if cy == y0 && cx == x1 {
        Some('╮')
    } else if cy == y1 && cx == x0 {
        Some('╰')
    } else if cy == y1 && cx == x1 {
        Some('╯')
    } else if cy == y0 || cy == y1 {
        Some('─')
    } else if cx == x0 || cx == x1 {
        Some('│')
    } else {
        None
    }
}

/// Draws a rounded border along the edge of `area`, with `title` in its top
/// edge.
pub fn draw_border(grid: &mut Grid, area: Rect, title: &Vec<char>, st: Style)
    requires
        old(grid).wf(),
    ensures
        final(grid).wf(),
        final(grid).width == old(grid).width,
        final(grid).height == old(grid).height,
        final(grid).content@ == border_spec(
            old(grid).content@,
            old(grid).width as int,
            old(grid).height as int,
            area,
            title@,
            st,
        ),
{
    let ghost w = grid.width as int;
    let ghost h = grid.height as int;
    let ghost start = grid.content@;
    let n = grid.content.len();
    let mut i: usize = 0;
    while i < n
        invariant
            grid.wf(),
            grid.width == w,
            grid.height == h,
            n == start.len(),
            i <= n,
            grid.content@.len() == n,
            forall|j: int| 0 <= j < i ==> grid.content@[j] == bordered(start, w, area, st)[j],
            forall|j: int| i <= j < n ==> grid.content@[j] == start[j],
        decreases n - i,
    {
        let (cx, cy) = grid.pos_of(i);
        match border_glyph(area, cx, cy) {
            Some(c) => {
                grid.content.set(i, Cell::styled(c, st));
            },
            None => {},
        }
        i = i + 1;
    }
    assert(grid.content@ =~= bordered(start, w, area, st));
    if area.width >= 2 && area.height >= 2 {
        put_str(grid, area.x as u32 + 1, area.y as u32, title, st, area.width as u32 - 2);
    }
}

/// The border and its title stay inside the area.
proof fn lemma_border_local(cells: Seq<Cell>, w: int, h: int, area: Rect, title: Seq<char>, st: Style)
    requires
        w >= 0,
        h >= 0,
        cells.len() == w * h,
    ensures
        unchanged_outside(
            cells,
            border_spec(cells, w, h, area, title, st),
            w,
            area.x as int,
            area.y as int,
            area.x + area.width,
            area.y + area.height,
        ),
{
    let b = bordered(cells, w, area, st);
    assert(unchanged_outside(cells, b, w, area.x as int, area.y as int, area.x + area.width, area.y + area.height));
    if area.width >= 2 && area.height >= 2 {
        let t = put_glyphs(b, w, h, area.x + 1, area.y as int, title, st, area.width - 2);
        lemma_put_glyphs_local(b, w, h, area.x + 1, area.y as int, title, st, area.width - 2);
        lemma_unchanged_widen(b, t, w, area.x + 1, area.y as int, area.x + 1 + area.width - 2, area.y + 1,
            area.x as int, area.y as int, area.x + area.width, area.y + area.height);
        lemma_unchanged_trans(cells, b, t, w, area.x as int, area.y as int, area.x + area.width, area.y + area.height);
    }
}

/// Longest label among the readouts.
pub open spec fn key_width(rs: Seq<Readout>) -> int
    decreases rs.len(),
{
    if rs.len() == 0 {
        0
    } else {
        let a = key_width(rs.drop_last());
        let b = label_spec(rs.last().key).len() as int;
        if a >= b { a } else { b }
    }
}

/// The part of `area` inside its border and the margins.
pub open spec fn inner_spec(area: Rect, hm: u16, vm: u16) -> Rect {
    Rect {
        x: add_capped(area.x as int, 1 + hm) as u16,
        y: add_capped(area.y as int, 1 + vm) as u16,
        width: sub_or_zero(area.width as int, 2 + 2 * hm) as u16,
        height: sub_or_zero(area.height as int, 2 + 2 * vm) as u16,
    }
}

/// `cells` with one readout written in row `y` from column `x`, in `room`
/// columns: its label in the key color, the separator `spacing` columns
/// after the longest label `kw`, and the value `spacing` columns after the
/// separator; each part is cut at the end of the room.
pub open spec fn put_readout(cells: Seq<Cell>, w: int, h: int, x: int, y: int, room: int, r: Readout, kw: int, t: Theme) -> Seq<Cell> {
    let key_style = Style { fg: t.key_color, bg: plain_style().bg, modifier: 0 };
    let sep_style = Style { fg: t.separator_color, bg: plain_style().bg, modifier: 0 };
    let c1 = put_glyphs(cells, w, h, x, y, label_spec(r.key), key_style, room);
    let sx = kw + t.spacing;
    let c2 = put_glyphs(c1, w, h, x + sx, y, t.separator@, sep_style, sub_or_zero(room, sx));
    let vx = sx + t.separator@.len() + t.spacing;
    put_glyphs(c2, w, h, x + vx, y, r.value@, plain_style(), sub_or_zero(room, vx))
}

/// `cells` with the first `n` readouts written in `area`, one per row from
/// its top.
pub open spec fn put_readouts(cells: Seq<Cell>, w: int, h: int, area: Rect, rs: Seq<Readout>, kw: int, t: Theme, n: int) -> Seq<Cell>
    decreases n,
{
    if n <= 0 {
        cells
    } else {
        put_readout(
            put_readouts(cells, w, h, area, rs, kw, t, n - 1),
            w,
            h,
            area.x as int,
            area.y + n - 1,
            area.width as int,
            rs[n - 1],
            kw,
            t,
        )
    }
}

/// A readout stays inside its room in its row.
proof fn lemma_put_readout_local(cells: Seq<Cell>, w: int, h: int, x: int, y: int, room: int, r: Readout, kw: int, t: Theme)
    requires
        w >= 0,
        h >= 0,
        cells.len() == w * h,
        room >= 0,
        kw >= 0,
    ensures
        unchanged_outside(cells, put_readout(cells, w, h, x, y, room, r, kw, t), w, x, y, x + room, y + 1),
{
    let key_style = Style { fg: t.key_color, bg: plain_style().bg, modifier: 0 };
    let sep_style = Style { fg: t.separator_color, bg: plain_style().bg, modifier: 0 };
    let c1 = put_glyphs(cells, w, h, x, y, label_spec(r.key), key_style, room);
    lemma_put_glyphs_local(cells, w, h, x, y, label_spec(r.key), key_style, room);
    let sx = kw + t.spacing;
    let c2 = put_glyphs(c1, w, h, x + sx, y, t.separator@, sep_style, sub_or_zero(room, sx));
    lemma_put_glyphs_local(c1, w, h, x + sx, y, t.separator@, sep_style, sub_or_zero(room, sx));
    lemma_unchanged_widen(c1, c2, w, x + sx, y, x + sx + sub_or_zero(room, sx), y + 1, x, y, x + room, y + 1);
    lemma_unchanged_trans(cells, c1, c2, w, x, y, x + room, y + 1);
    let vx = sx + t.separator@.len() + t.spacing;
    let c3 = put_glyphs(c2, w, h, x + vx, y, r.value@, plain_style(), sub_or_zero(room, vx));
    lemma_put_glyphs_local(c2, w, h, x + vx, y, r.value@, plain_style(), sub_or_zero(room, vx));
    lemma_unchanged_widen(c2, c3, w, x + vx, y, x + vx + sub_or_zero(room, vx), y + 1, x, y, x + room, y + 1);
    lemma_unchanged_trans(cells, c2, c3, w, x, y, x + room, y + 1);
}

/// The first `n` readouts stay inside the columns of `area` and its first
/// `n` rows.
proof fn lemma_put_readouts_local(cells: Seq<Cell>, w: int, h: int, area: Rect, rs: Seq<Readout>, kw: int, t: Theme, n: int)
    requires
        w >= 0,
        h >= 0,
        cells.len() == w * h,
        kw >= 0,
        n >= 0,
    ensures
        unchanged_outside(
            cells,
            put_readouts(cells, w, h, area, rs, kw, t, n),
            w,
            area.x as int,
            area.y as int,
            area.x + area.width,
            area.y + n,
        ),
    decreases n,
{
    if n > 0 {
        let c1 = put_readouts(cells, w, h, area, rs, kw, t, n - 1);
        lemma_put_readouts_local(cells, w, h, area, rs, kw, t, n - 1);
        lemma_unchanged_widen(cells, c1, w, area.x as int, area.y as int, area.x + area.width, area.y + n - 1,
            area.x as int, area.y as int, area.x + area.width, area.y + n);
        let c2 = put_readout(c1, w, h, area.x as int, area.y + n - 1, area.width as int, rs[n - 1], kw, t);
        lemma_put_readout_local(c1, w, h, area.x as int, area.y + n - 1, area.width as int, rs[n - 1], kw, t);
        lemma_unchanged_widen(c1, c2, w, area.x as int, area.y + n - 1, area.x + area.width, area.y + n,
            area.x as int, area.y as int, area.x + area.width, area.y + n);
        lemma_unchanged_trans(cells, c1, c2, w, area.x as int, area.y as int, area.x + area.width, area.y + n);
    }
}

/// Writing with no room leaves the cells as they were.
proof fn lemma_no_room(cells: Seq<Cell>, w: int, h: int, x: int, y: int, gs: Seq<char>, st: Style)
    ensures
        put_glyphs(cells, w, h, x, y, gs, st, 0) == cells,
    decreases gs.len(),
{
    if gs.len() > 0 {
        lemma_no_room(cells, w, h, x, y, gs.drop_first(), st);
    }
}

/// Longest label among the readouts.
fn longest_label(rs: &Vec<Readout>) -> (r: u16)
    ensures
        r == key_width(rs@),
        r <= 8,
{
    let mut kw: u16 = 0;
    let mut i: usize = 0;
    while i < rs.len()
        invariant
            i <= rs@.len(),
            kw == key_width(rs@.take(i as int)),
            kw <= 8,
        decreases rs@.len() - i,
    {
        assert(rs@.take(i as int + 1).drop_last() =~= rs@.take(i as int));
        let n = rs[i].key.label().len() as u16;
        if n > kw {
            kw = n;
        }
        i = i + 1;
    }
    assert(rs@.take(i as int) =~= rs@);
    kw
}

/// Writes one readout in row `y` from column `x`, in `room` columns.
fn draw_readout(grid: &mut Grid, x: u16, y: u32, room: u16, r: &Readout, kw: u16, t: &Theme)
    requires
        old(grid).wf(),
        kw <= 8,
    ensures
        final(grid).wf(),
        final(grid).width == old(grid).width,
        final(grid).height == old(grid).height,
        final(grid).content@ == put_readout(
            old(grid).content@,
            old(grid).width as int,
            old(grid).height as int,
            x as int,
            y as int,
            room as int,
            *r,
            kw as int,
            *t,
        ),
{
    let key_style = Style::fg(t.key_color);
    let sep_style = Style::fg(t.separator_color);
    let room32 = room as u32;
    let x32 = x as u32;
    let label = r.key.label();
    put_str(grid, x32, y, &label, key_style, room32);
    let sx: u32 = kw as u32 + t.spacing as u32;
    if sx < room32 {
        put_str(grid, x32 + sx, y, &t.separator, sep_style, room32 - sx);
    } else {
        proof {
            lemma_no_room(grid.content@, grid.width as int, grid.height as int, x + sx, y as int, t.separator@, sep_style);
        }
    }
    let sep_len = t.separator.len();
    if sx < room32 && sep_len < room32 as usize && sx + sep_len as u32 + (t.spacing as u32) < room32 {
        let vx = sx + sep_len as u32 + t.spacing as u32;
        put_str(grid, x32 + vx, y, &r.value, Style::plain(), room32 - vx);
    } else {
        proof {
            let vx = sx + t.separator@.len() + t.spacing;
            lemma_no_room(grid.content@, grid.width as int, grid.height as int, x + vx, y as int, r.value@, plain_style());
        }
    }
}

/// Writes the readouts into `area`: inside a rounded border titled with the
/// theme's box title and inset by its margins when the theme shows the box,
/// one readout per row from the top, as many as there are rows.
pub fn draw_readout_data(data: &Vec<Readout>, theme: &Theme, grid: &mut Grid, area: Rect)
    requires
        old(grid).wf(),
    ensures
        final(grid).wf(),
        final(grid).width == old(grid).width,
        final(grid).height == old(grid).height,
        ({
            let w = old(grid).width as int;
            let h = old(grid).height as int;
            let framed = if theme.box_visible {
                border_spec(old(grid).content@, w, h, area, theme.box_title@, plain_style())
            } else {
                old(grid).content@
            };
            let inner = if theme.box_visible {
                inner_spec(area, theme.horizontal_margin, theme.vertical_margin)
            } else {
                area
            };
            let n = if data@.len() < inner.height { data@.len() as int } else { inner.height as int };
            final(grid).content@ == put_readouts(framed, w, h, inner, data@, key_width(data@), *theme, n)
        }),
        unchanged_outside(
            old(grid).content@,
            final(grid).content@,
            old(grid).width as int,
            area.x as int,
            area.y as int,
            area.x + area.width,
            area.y + area.height,
        ),
{
    let ghost start = grid.content@;
    let ghost w = grid.width as int;
    let ghost h = grid.height as int;
    let inner = if theme.box_visible {
        draw_border(grid, area, &theme.box_title, Style::plain());
        let hm = theme.horizontal_margin as u32;
        let vm = theme.vertical_margin as u32;
        let x = if area.x as u32 + 1 + hm <= 65535 { (area.x as u32 + 1 + hm) as u16 } else { 65535 };
        let y = if area.y as u32 + 1 + vm <= 65535 { (area.y as u32 + 1 + vm) as u16 } else { 65535 };
        let width = if area.width as u32 > 2 + 2 * hm { (area.width as u32 - 2 - 2 * hm) as u16 } else { 0 };
        let height = if area.height as u32 > 2 + 2 * vm { (area.height as u32 - 2 - 2 * vm) as u16 } else { 0 };
        Rect::new(x, y, width, height)
    } else {
        area
    };
    let ghost framed = grid.content@;
    let kw = longest_label(data);
    let n: usize = if data.len() < inner.height as usize { data.len() } else { inner.height as usize };
    let mut i: usize = 0;
    while i < n
        invariant
            grid.wf(),
            grid.width == w,
            grid.height == h,
            i <= n,
            n <= data@.len(),
            n <= inner.height,
            kw == key_width(data@),
            kw <= 8,
            grid.content@ == put_readouts(framed, w, h, inner, data@, kw as int, *theme, i as int),
        decreases n - i,
    {
        draw_readout(grid, inner.x, inner.y as u32 + i as u32, inner.width, &data[i], kw, theme);
        i = i + 1;
    }
    proof {
        let ax = area.x as int;
        let ay = area.y as int;
        let ax1 = area.x + area.width;
        let ay1 = area.y + area.height;
        if theme.box_visible {
            lemma_border_local(start, w, h, area, theme.box_title@, plain_style());
        }
        assert(unchanged_outside(start, framed, w, ax, ay, ax1, ay1));
        lemma_put_readouts_local(framed, w, h, inner, data@, kw as int, *theme, n as int);
        lemma_unchanged_widen(framed, grid.content@, w, inner.x as int, inner.y as int, inner.x + inner.width, inner.y + n,
            ax, ay, ax1, ay1);
        lemma_unchanged_trans(start, framed, grid.content@, w, ax, ay, ax1, ay1);
    }
}

} // verus!
