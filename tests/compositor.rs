use macchina::flush::{content_extent, draw_instructions, reserved_rows, starting_row, FlushError};
use macchina::grid::{Cell, Color, Grid, Rect, Style};
use macchina::layout::{ascii_rect, data_rect, draw_ascii, plan};
use macchina::list::{border_glyph, draw_border, draw_readout_data};
use macchina::readout::{Readout, ReadoutKey};
use macchina::render::{draw_text, put_str, Span, Text};
use macchina::scan::{find_last_buffer_cell_index, find_widest_cell, rightmost_in_row};
use macchina::theme::Theme;

fn chars(s: &str) -> Vec<char> {
    s.chars().collect()
}

fn line(s: &str, style: Style) -> Vec<Span> {
    vec![Span { content: chars(s), style }]
}

fn row_text(g: &Grid, y: u16) -> String {
    (0..g.width).map(|x| g.get(x, y).symbol).collect()
}

fn theme(box_visible: bool) -> Theme {
    Theme {
        key_color: Color::Blue,
        separator_color: Color::White,
        separator: vec!['-'],
        padding: 2,
        spacing: 1,
        box_visible,
        box_title: chars("T"),
        horizontal_margin: 1,
        vertical_margin: 1,
        ascii_hidden: false,
    }
}

#[test]
fn index_and_position_are_inverse() {
    let g = Grid::empty(7, 3);
    for y in 0..3u16 {
        for x in 0..7u16 {
            let i = g.index_of(x, y);
            assert_eq!(i, (y as usize) * 7 + x as usize);
            assert_eq!(g.pos_of(i), (x, y));
        }
    }
    for i in 0..21usize {
        let (x, y) = g.pos_of(i);
        assert_eq!(g.index_of(x, y), i);
    }
}

#[test]
fn get_outside_the_grid_is_blank() {
    let mut g = Grid::empty(3, 2);
    g.set(1, 1, Cell::styled('x', Style::plain()));
    g.set(5, 1, Cell::styled('y', Style::plain()));
    assert_eq!(g.get(1, 1).symbol, 'x');
    assert_eq!(g.get(5, 1), Cell::blank());
    assert_eq!(g.get(0, 9), Cell::blank());
    assert_eq!(g.content.len(), 6);
}

#[test]
fn empty_grid_has_no_content() {
    let g = Grid::empty(10, 5);
    assert_eq!(find_last_buffer_cell_index(&g), None);
    assert_eq!(content_extent(&g), Err(FlushError::NothingDrawn));
    assert_eq!(rightmost_in_row(&g, 2), None);
    assert_eq!(find_widest_cell(&g, 4), 1);
}

#[test]
fn single_cell_gives_its_row_and_width() {
    for &(x0, y0) in &[(0u16, 0u16), (3, 2), (9, 4), (0, 4), (9, 0)] {
        let mut g = Grid::empty(10, 5);
        g.set(x0, y0, Cell::styled('#', Style::plain()));
        assert_eq!(find_last_buffer_cell_index(&g), Some((x0, y0)));
        assert_eq!(find_widest_cell(&g, y0), x0 + 1);
        assert_eq!(content_extent(&g), Ok((x0 + 1, y0)));
    }
}

#[test]
fn widest_ignores_rows_below_last() {
    let mut g = Grid::empty(10, 5);
    g.set(2, 0, Cell::styled('a', Style::plain()));
    g.set(8, 3, Cell::styled('b', Style::plain()));
    assert_eq!(find_widest_cell(&g, 2), 3);
    assert_eq!(find_widest_cell(&g, 3), 9);
    assert_eq!(content_extent(&g), Ok((9, 3)));
}

#[test]
fn styled_space_counts_as_content() {
    let mut g = Grid::empty(4, 2);
    g.set(2, 1, Cell::styled(' ', Style::fg(Color::Red)));
    assert!(g.get(2, 1).is_occupied());
    assert!(!g.get(1, 1).is_occupied());
    assert_eq!(content_extent(&g), Ok((3, 1)));
}

#[test]
fn data_rect_never_goes_negative() {
    let a = Rect::new(1, 1, 8, 6);
    let d = data_rect(a, 10, 2);
    assert_eq!(d, Rect::new(11, 1, 0, 6));
    let d = data_rect(Rect::new(1, 1, 6, 6), 10, 2);
    assert_eq!(d.width, 0);
    let d = data_rect(Rect::new(1, 1, 5, 6), 10, 2);
    assert_eq!(d, Rect::new(8, 1, 1, 6));
    let d = data_rect(Rect::new(1, 1, 20, 3), 500, 4);
    assert_eq!(d, Rect::new(25, 1, 476, 3));
}

#[test]
fn ascii_rect_is_cut_to_the_grid() {
    assert_eq!(ascii_rect(Some((12, 8)), 50), Rect::new(1, 1, 12, 8));
    assert_eq!(ascii_rect(Some((12, 80)), 50), Rect::new(1, 1, 12, 49));
    assert_eq!(ascii_rect(None, 50), Rect::new(0, 1, 0, 49));
    assert_eq!(ascii_rect(None, 0), Rect::new(0, 1, 0, 0));
    let (a, d) = plan(Some((2, 1)), 10, 5, 1);
    assert_eq!(a, Rect::new(1, 1, 2, 1));
    assert_eq!(d, Rect::new(4, 1, 4, 1));
    let (a, d) = plan(None, 500, 50, 2);
    assert_eq!(a, Rect::new(0, 1, 0, 49));
    assert_eq!(d, Rect::new(2, 1, 496, 49));
}

#[test]
fn starting_row_saturates() {
    assert_eq!(starting_row(10, 3), 6);
    assert_eq!(starting_row(4, 3), 0);
    assert_eq!(starting_row(3, 3), 0);
    assert_eq!(starting_row(0, 3), 0);
    assert_eq!(starting_row(0, 0), 0);
    assert_eq!(starting_row(u16::MAX, 0), u16::MAX - 1);
    assert_eq!(reserved_rows(3), 4);
}

#[test]
fn put_str_truncates_and_covers_wide_glyphs() {
    let mut g = Grid::empty(8, 1);
    let used = put_str(&mut g, 1, 0, &chars("a中b"), Style::plain(), 3);
    assert_eq!(used, 3);
    assert_eq!(g.get(1, 0).symbol, 'a');
    assert_eq!(g.get(2, 0).symbol, '中');
    assert_eq!(g.get(3, 0), Cell::blank());
    assert_eq!(g.get(4, 0), Cell::blank());
    let used = put_str(&mut g, 0, 0, &chars("xy"), Style::plain(), 0);
    assert_eq!(used, 0);
    assert_eq!(g.get(0, 0), Cell::blank());
    let used = put_str(&mut g, 5, 0, &chars("\u{7}z"), Style::plain(), 3);
    assert_eq!(used, 1);
    assert_eq!(g.get(5, 0).symbol, 'z');
}

#[test]
fn text_width_counts_display_columns() {
    let t = Text { lines: vec![line("中a", Style::plain()), line("abcd", Style::plain())] };
    assert_eq!(t.width(), 4);
    assert_eq!(t.height(), 2);
    let t = Text { lines: vec![line("中中中", Style::plain())] };
    assert_eq!(t.width(), 6);
    let t = Text { lines: vec![] };
    assert_eq!(t.width(), 0);
}

#[test]
fn draw_text_cuts_to_the_area() {
    let mut g = Grid::empty(10, 4);
    let t = Text {
        lines: vec![line("abcdef", Style::plain()), line("gh", Style::plain()), line("ij", Style::plain())],
    };
    draw_text(&mut g, Rect::new(2, 1, 3, 2), &t);
    assert_eq!(row_text(&g, 1), "  abc     ");
    assert_eq!(row_text(&g, 2), "  gh      ");
    assert_eq!(row_text(&g, 3), "          ");
}

#[test]
fn wide_glyph_is_written_once() {
    let mut g = Grid::empty(6, 1);
    put_str(&mut g, 2, 0, &chars("中"), Style::plain(), 4);
    let ops = draw_instructions(&g, 6, 0, 80, 5);
    let at2: Vec<_> = ops.iter().filter(|o| o.x == 2).collect();
    let at3: Vec<_> = ops.iter().filter(|o| o.x == 3).collect();
    assert_eq!(at2.len(), 1);
    assert_eq!(at2[0].cell.symbol, '中');
    assert_eq!(at2[0].y, 4);
    assert_eq!(at3.len(), 0);
    let xs: Vec<u16> = ops.iter().map(|o| o.x).collect();
    assert_eq!(xs, vec![0, 1, 2, 4, 5]);
}

#[test]
fn draw_instructions_clip_to_width_and_rows() {
    let mut g = Grid::empty(5, 3);
    g.set(4, 0, Cell::styled('e', Style::plain()));
    g.set(1, 2, Cell::styled('f', Style::plain()));
    let ops = draw_instructions(&g, 5, 1, 3, 20);
    assert_eq!(ops.len(), 6);
    assert!(ops.iter().all(|o| o.x < 3 && o.y >= 18 && o.y <= 19));
    let ops = draw_instructions(&g, 2, 2, 80, 1);
    assert_eq!(ops.len(), 6);
    assert!(ops.iter().any(|o| o.x == 1 && o.y == 2 && o.cell.symbol == 'f'));
}

#[test]
fn scenario_ascii_and_readout() {
    let mut g = Grid::empty(10, 5);
    let ascii = Text { lines: vec![line("AB", Style::fg(Color::LightBlue))] };
    let a = draw_ascii(&ascii, &mut g);
    assert_eq!(a, Rect::new(1, 1, 2, 1));
    let readout = Text { lines: vec![line("Host: box", Style::fg(Color::Blue))] };
    draw_text(&mut g, Rect::new(4, 1, 9, 1), &readout);
    assert_eq!(row_text(&g, 1), " AB Host: ");
    assert_eq!(find_last_buffer_cell_index(&g), Some((9, 1)));
    let (last_x, last_y) = content_extent(&g).unwrap();
    assert_eq!(last_y, 1);
    assert_eq!(last_x, 10);
    assert_eq!(reserved_rows(last_y), 2);
    let cursor_y = 12;
    let start = starting_row(cursor_y, last_y);
    assert_eq!(start, cursor_y - 2);
    let ops = draw_instructions(&g, last_x, last_y, 80, cursor_y);
    let row: Vec<_> = ops.iter().filter(|o| o.y == start + 1).collect();
    assert_eq!(row.len(), 10);
    for (x, o) in row.iter().enumerate() {
        assert_eq!(o.x as usize, x);
        assert_eq!(o.cell, g.get(x as u16, 1));
    }
    assert!(ops.iter().all(|o| o.y == start || o.y == start + 1));
    assert!(ops.iter().filter(|o| o.y == start).all(|o| o.cell == Cell::blank()));
    let ops = draw_instructions(&g, last_x, last_y, 80, 0);
    assert!(ops.iter().filter(|o| o.cell.symbol == 'H').all(|o| o.y == 1));
}

#[test]
fn scenario_cursor_near_top() {
    assert_eq!(starting_row(0, 3), 0);
    let mut g = Grid::empty(4, 4);
    g.set(0, 3, Cell::styled('z', Style::plain()));
    let ops = draw_instructions(&g, 1, 3, 80, 0);
    assert_eq!(ops.len(), 4);
    assert_eq!(ops[3].y, 3);
    assert_eq!(ops[3].cell.symbol, 'z');
}

#[test]
fn scenario_bordered_readouts() {
    let mut g = Grid::empty(30, 10);
    let data = vec![
        Readout::new(ReadoutKey::Host, chars("box")),
        Readout::new(ReadoutKey::Kernel, chars("6.1.0")),
        Readout::new(ReadoutKey::Shell, chars("zsh")),
    ];
    let area = Rect::new(2, 1, 22, 7);
    draw_readout_data(&data, &theme(true), &mut g, area);
    assert_eq!(g.get(2, 1).symbol, '╭');
    assert_eq!(g.get(23, 7).symbol, '╯');
    assert_eq!(g.get(23, 1).symbol, '╮');
    assert_eq!(g.get(2, 7).symbol, '╰');
    assert!(g.get(2, 1).is_occupied() && g.get(23, 7).is_occupied());
    assert_eq!(row_text(&g, 1), "  ╭T───────────────────╮      ");
    assert_eq!(row_text(&g, 3), "  │ Host   - box       │      ");
    assert_eq!(row_text(&g, 4), "  │ Kernel - 6.1.0     │      ");
    assert_eq!(row_text(&g, 5), "  │ Shell  - zsh       │      ");
    assert_eq!(g.get(4, 3).fg, Color::Blue);
    assert_eq!(g.get(11, 3).fg, Color::White);
    let (last_x, last_y) = content_extent(&g).unwrap();
    assert_eq!((last_x, last_y), (24, 7));
    assert!(last_x > 23 && last_y >= 7);
}

#[test]
fn readouts_without_box() {
    let mut g = Grid::empty(20, 3);
    let data = vec![
        Readout::new(ReadoutKey::OperatingSystem, chars("Arch")),
        Readout::new(ReadoutKey::Uptime, chars("1h")),
        Readout::new(ReadoutKey::Memory, chars("2G")),
    ];
    draw_readout_data(&data, &theme(false), &mut g, Rect::new(0, 0, 20, 2));
    assert_eq!(row_text(&g, 0), "OS     - Arch       ");
    assert_eq!(row_text(&g, 1), "Uptime - 1h         ");
    assert_eq!(row_text(&g, 2), "                    ");
}

#[test]
fn border_needs_two_by_two() {
    let mut g = Grid::empty(5, 5);
    draw_border(&mut g, Rect::new(0, 0, 1, 4), &chars("x"), Style::plain());
    assert_eq!(find_last_buffer_cell_index(&g), None);
    assert_eq!(border_glyph(Rect::new(0, 0, 3, 3), 1, 1), None);
    assert_eq!(border_glyph(Rect::new(0, 0, 3, 3), 1, 0), Some('─'));
    assert_eq!(border_glyph(Rect::new(0, 0, 3, 3), 0, 1), Some('│'));
    draw_border(&mut g, Rect::new(1, 1, 2, 2), &chars("long"), Style::plain());
    assert_eq!(row_text(&g, 1), " ╭╮  ");
    assert_eq!(row_text(&g, 2), " ╰╯  ");
}
