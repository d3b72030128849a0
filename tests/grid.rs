use vos::desktop::Desktop;
use vos::font::GlyphTable;
use vos::gop::{Color, Framebuffer, Rect, ScreenInfo};
use vos::terminal::{Cell, Terminal};

fn blank_glyphs() -> GlyphTable {
    GlyphTable::from_rows(vec![0u8; 256 * 16]).unwrap()
}

fn dirty_cells(t: &Terminal) -> Vec<(usize, usize)> {
    let mut out = Vec::new();
    for i in 0..t.dirty.len() {
        if t.dirty[i] {
            out.push((i / t.cols, i % t.cols));
        }
    }
    out
}

fn clean_terminal(cols: usize, rows: usize) -> (Terminal, Framebuffer) {
    let mut t = Terminal::new(cols, rows, 0, 0);
    let mut fb = Framebuffer::new(cols * 8, rows * 16);
    t.render(&mut fb, &blank_glyphs());
    (t, fb)
}

fn cell(ch: u8) -> Cell {
    Cell { ch, fg: Color::light_gray(), bg: Color::terminal_bg() }
}

#[test]
fn new_terminal_is_blank_and_dirty() {
    let t = Terminal::new(3, 2, 5, 7);
    assert_eq!(t.cells.len(), 6);
    assert!(t.cells.iter().all(|c| *c == cell(b' ')));
    assert!(t.dirty.iter().all(|d| *d));
    assert_eq!((t.cursor_col, t.cursor_row), (0, 0));
    assert_eq!(Cell::default(), cell(b' '));
}

#[test]
fn printable_write_dirties_written_cell_only_then_render_cleans() {
    let (mut t, mut fb) = clean_terminal(4, 3);
    t.write_byte(b'a');
    assert_eq!(t.cells[0], cell(b'a'));
    assert_eq!(dirty_cells(&t), vec![(0, 0)]);
    assert_eq!((t.cursor_row, t.cursor_col), (0, 1));
    t.write_byte(b'b');
    assert_eq!(dirty_cells(&t), vec![(0, 0), (0, 1)]);
    t.render(&mut fb, &blank_glyphs());
    assert!(dirty_cells(&t).is_empty());
}

#[test]
fn wrapping_write_dirties_the_new_row_cell() {
    let (mut t, mut fb) = clean_terminal(2, 3);
    t.write_str("ab");
    t.render(&mut fb, &blank_glyphs());
    assert_eq!((t.cursor_row, t.cursor_col), (0, 2));
    t.write_byte(b'c');
    assert_eq!(t.cells[2], cell(b'c'));
    assert_eq!((t.cursor_row, t.cursor_col), (1, 1));
    assert_eq!(dirty_cells(&t), vec![(1, 0)]);
}

#[test]
fn newline_past_last_row_scrolls() {
    let (mut t, mut fb) = clean_terminal(3, 3);
    t.write_str("abc\ndef\nghi");
    t.render(&mut fb, &blank_glyphs());
    t.write_byte(b'\n');
    assert_eq!((t.cursor_row, t.cursor_col), (2, 0));
    let text: Vec<u8> = t.cells.iter().map(|c| c.ch).collect();
    assert_eq!(text, b"defghi   ".to_vec());
    assert!(t.dirty.iter().all(|d| *d));
}

#[test]
fn writing_more_lines_than_rows_keeps_the_last_ones() {
    let mut t = Terminal::new(2, 2, 0, 0);
    t.write_str("1\n2\n3\n4");
    let text: Vec<u8> = t.cells.iter().map(|c| c.ch).collect();
    assert_eq!(text, b"3 4 ".to_vec());
    assert_eq!((t.cursor_row, t.cursor_col), (1, 1));
}

#[test]
fn carriage_return_acts_as_newline() {
    let mut t = Terminal::new(4, 3, 0, 0);
    t.write_str("ab\rc");
    assert_eq!(t.cells[4].ch, b'c');
    assert_eq!((t.cursor_row, t.cursor_col), (1, 1));
}

#[test]
fn backspace_blanks_previous_cell() {
    let (mut t, mut fb) = clean_terminal(4, 2);
    t.set_color(Color::green(), Color::black());
    t.write_str("xy");
    t.render(&mut fb, &blank_glyphs());
    t.write_byte(0x08);
    assert_eq!((t.cursor_row, t.cursor_col), (0, 1));
    assert_eq!(t.cells[1], Cell { ch: b' ', fg: Color::green(), bg: Color::black() });
    assert_eq!(dirty_cells(&t), vec![(0, 1), (0, 2)]);
}

#[test]
fn backspace_at_line_start_does_nothing_but_repaint_cursor_cell() {
    let (mut t, _fb) = clean_terminal(4, 2);
    t.write_byte(0x08);
    assert_eq!((t.cursor_row, t.cursor_col), (0, 0));
    assert!(t.cells.iter().all(|c| *c == cell(b' ')));
    assert_eq!(dirty_cells(&t), vec![(0, 0)]);
}

#[test]
fn clear_resets_cells_and_cursor() {
    let (mut t, _fb) = clean_terminal(3, 2);
    t.write_str("hey\nyo");
    t.clear();
    assert!(t.cells.iter().all(|c| *c == cell(b' ')));
    assert!(t.dirty.iter().all(|d| *d));
    assert_eq!((t.cursor_row, t.cursor_col), (0, 0));
}

#[test]
fn render_paints_glyphs_and_cursor_bar() {
    let mut rows = vec![0u8; 256 * 16];
    rows[b'A' as usize * 16] = 0b1000_0001;
    let glyphs = GlyphTable::from_rows(rows).unwrap();
    let mut t = Terminal::new(2, 1, 0, 0);
    let mut fb = Framebuffer::new(16, 16);
    fb.flush();
    fb.take_transfers();
    t.write_byte(b'A');
    t.render(&mut fb, &glyphs);
    assert_eq!(fb.get_pixel(0, 0), Color::light_gray());
    assert_eq!(fb.get_pixel(7, 0), Color::light_gray());
    assert_eq!(fb.get_pixel(1, 0), Color::terminal_bg());
    assert_eq!(fb.get_pixel(3, 5), Color::terminal_bg());
    // the cursor bar on the second cell
    assert_eq!(fb.get_pixel(8, 14), Color::light_gray());
    assert_eq!(fb.get_pixel(15, 15), Color::light_gray());
    assert_eq!(fb.get_pixel(8, 13), Color::terminal_bg());
    fb.flush();
    assert_eq!(fb.take_transfers(), vec![Rect { x: 0, y: 0, w: 16, h: 16 }]);
    // nothing dirty: only the cursor bar is repainted
    t.render(&mut fb, &glyphs);
    fb.flush();
    assert_eq!(fb.take_transfers(), vec![Rect { x: 8, y: 14, w: 8, h: 2 }]);
}

#[test]
fn glyph_table_needs_exact_size() {
    assert!(GlyphTable::from_rows(vec![0u8; 100]).is_none());
    assert!(GlyphTable::from_rows(vec![0u8; 4096]).is_some());
}

#[test]
fn draw_string_places_one_glyph_per_column_block() {
    let mut rows = vec![0u8; 256 * 16];
    rows[b'B' as usize * 16 + 2] = 0b0100_0000;
    let glyphs = GlyphTable::from_rows(rows).unwrap();
    let mut fb = Framebuffer::new(40, 20);
    fb.flush();
    fb.take_transfers();
    glyphs.draw_string(&mut fb, "AB", 4, 1, Color::white(), Color::red());
    assert_eq!(fb.get_pixel(13, 3), Color::white());
    assert_eq!(fb.get_pixel(5, 3), Color::red());
    assert_eq!(fb.get_pixel(3, 3), Color::black());
    fb.flush();
    assert_eq!(fb.take_transfers(), vec![Rect { x: 4, y: 1, w: 16, h: 16 }]);
}

#[test]
fn scenario_hi_newline_on_800_by_600() {
    let mut d = Desktop::new(ScreenInfo { width: 800, height: 600 }, blank_glyphs());
    assert_eq!((d.terminal.cols, d.terminal.rows), (96, 32));
    d.render();
    assert!(dirty_cells(&d.terminal).is_empty());
    d.terminal.write_str("hi\n");
    assert_eq!((d.terminal.cursor_row, d.terminal.cursor_col), (1, 0));
    assert_eq!(d.terminal.cells[0].ch, b'h');
    assert_eq!(d.terminal.cells[1].ch, b'i');
    // the two written cells, and the cell the cursor left for the new line
    assert_eq!(dirty_cells(&d.terminal), vec![(0, 0), (0, 1), (0, 2)]);
}

#[test]
fn newlines_scroll_once_per_line_past_the_last_row() {
    let (mut t, mut fb) = clean_terminal(2, 3);
    t.write_str("a\nb\nc");
    t.render(&mut fb, &blank_glyphs());
    t.cursor_row = 0;
    t.cursor_col = 0;
    t.write_str("\n\n\n\n");
    let text: Vec<u8> = t.cells.iter().map(|c| c.ch).collect();
    assert_eq!(text, b"c     ".to_vec());
    assert_eq!((t.cursor_row, t.cursor_col), (2, 0));
    assert!(t.dirty.iter().all(|d| *d));
}
