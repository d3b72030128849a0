//! The terminal grid: a fixed array of character cells with a dirty flag per
//! cell, a text cursor, and incremental repaint onto a pixel surface.

use vstd::prelude::*;
use vstd::string::StringSliceAdditionalSpecFns;
use crate::font::{GlyphTable, CHAR_HEIGHT, CHAR_WIDTH};
use crate::gop::{clip, lemma_cell_index, lemma_cell_index_unique, span, span_all, Color, Framebuffer, Rect};

verus! {

/// One character slot: a byte and the colours it is drawn in.
#[derive(Clone, Copy, Debug, PartialEq, Eq, Structural)]
pub struct Cell {
    pub ch: u8,
    pub fg: Color,
    pub bg: Color,
}

/// A space in the standard colours.
pub open spec fn blank_cell() -> Cell {
    Cell { ch: 32, fg: Color::spec_light_gray(), bg: Color::spec_terminal_bg() }
}

impl Default for Cell {
    fn default() -> (c: Cell)
        ensures
            c == blank_cell(),
    {
        Cell { ch: 32u8, fg: Color::light_gray(), bg: Color::terminal_bg() }
    }
}

/// What a terminal holds, as mathematical values.
pub struct GridView {
    pub cols: nat,
    pub rows: nat,
    pub cells: Seq<Cell>,
    pub dirty: Seq<bool>,
    pub col: nat,
    pub row: nat,
    pub prev_col: nat,
    pub prev_row: nat,
    pub fg: Color,
    pub bg: Color,
}

impl GridView {
    pub open spec fn wf(self) -> bool {
        &&& self.cols >= 1
        &&& self.rows >= 1
        &&& self.cells.len() == self.cols * self.rows
        &&& self.dirty.len() == self.cols * self.rows
        &&& self.row < self.rows
        &&& self.col <= self.cols
        &&& self.prev_row < self.rows
        &&& self.prev_col <= self.cols
    }

    /// Position in `cells` and `dirty` of the cell at `(col, row)`.
    pub open spec fn index(self, col: int, row: int) -> int {
        row * self.cols + col
    }

    pub open spec fn all_dirty(self) -> GridView {
        GridView { dirty: Seq::new(self.cols * self.rows, |i: int| true), ..self }
    }

    /// Every row moved up by one, a blank last row, the cursor on the last
    /// row, and every cell dirty.
    pub open spec fn scrolled(self) -> GridView {
        GridView {
            cells: Seq::new(
                self.cols * self.rows,
                |i: int|
                    if i < (self.rows - 1) * self.cols {
                        self.cells[i + self.cols]
                    } else {
                        blank_cell()
                    },
            ),
            row: (self.rows - 1) as nat,
            ..self
        }.all_dirty()
    }

    /// The cursor at the start of the next row, scrolling past the last one.
    pub open spec fn next_line(self) -> GridView {
        let g = GridView { col: 0, row: self.row + 1, ..self };
        if self.row + 1 >= self.rows {
            g.scrolled()
        } else {
            g
        }
    }

    pub open spec fn put(self, i: int, c: Cell) -> GridView {
        GridView { cells: self.cells.update(i, c), dirty: self.dirty.update(i, true), ..self }
    }

    /// The previous cursor cell marked dirty, where it is a cell.
    pub open spec fn mark_prev(self) -> GridView {
        if self.prev_row < self.rows && self.prev_col < self.cols {
            GridView {
                dirty: self.dirty.update(self.index(self.prev_col as int, self.prev_row as int), true),
                ..self
            }
        } else {
            self
        }
    }

    /// The grid after writing one byte: newline and carriage return move to
    /// the next row, backspace blanks the cell left of the cursor, and any
    /// other byte is stored at the cursor (wrapping first when the row is
    /// full) and moves the cursor right.
    pub open spec fn write(self, b: u8) -> GridView {
        let g = GridView { prev_col: self.col, prev_row: self.row, ..self };
        let moved = if b == 10 || b == 13 {
            g.next_line()
        } else if b == 8 {
            if g.col > 0 {
                let c = (g.col - 1) as nat;
                GridView { col: c, ..g }.put(g.index(c as int, g.row as int), Cell { ch: 32, fg: g.fg, bg: g.bg })
            } else {
                g
            }
        } else {
            let h = if g.col >= g.cols {
                g.next_line()
            } else {
                g
            };
            GridView {
                col: h.col + 1,
                ..h.put(h.index(h.col as int, h.row as int), Cell { ch: b, fg: h.fg, bg: h.bg })
            }
        };
        moved.mark_prev()
    }

    /// Blank cells everywhere, all dirty, and the cursor in the top-left corner.
    pub open spec fn cleared(self) -> GridView {
        GridView {
            cells: Seq::new(self.cols * self.rows, |i: int| blank_cell()),
            col: 0,
            row: 0,
            ..self
        }.all_dirty()
    }

    /// The same text, colours and cursor as `o`, whatever the dirty flags.
    pub open spec fn same_text(self, o: GridView) -> bool {
        GridView { dirty: o.dirty, ..self } == o
    }

    /// The same grid with no cell dirty, as a render leaves it.
    pub open spec fn clean(self) -> GridView {
        GridView { dirty: Seq::new(self.cols * self.rows, |i: int| false), ..self }
    }

    pub open spec fn write_all(self, bs: Seq<u8>) -> GridView
        decreases bs.len(),
    {
        if bs.len() == 0 {
            self
        } else {
            self.write_all(bs.drop_last()).write(bs.last())
        }
    }
}

/// A `cols` by `rows` grid of cells drawn with its top-left corner at
/// `(origin_x, origin_y)`.
pub struct Terminal {
    pub cols: usize,
    pub rows: usize,
    pub cells: Vec<Cell>,
    pub dirty: Vec<bool>,
    pub cursor_col: usize,
    pub cursor_row: usize,
    pub prev_cursor_col: usize,
    pub prev_cursor_row: usize,
    pub current_fg: Color,
    pub current_bg: Color,
    pub origin_x: usize,
    pub origin_y: usize,
}

impl View for Terminal {
    type V = GridView;

    open spec fn view(&self) -> GridView {
        GridView {
            cols: self.cols as nat,
            rows: self.rows as nat,
            cells: self.cells@,
            dirty: self.dirty@,
            col: self.cursor_col as nat,
            row: self.cursor_row as nat,
            prev_col: self.prev_cursor_col as nat,
            prev_row: self.prev_cursor_row as nat,
            fg: self.current_fg,
            bg: self.current_bg,
        }
    }
}

/// Room for a grid of that size at that origin, with one spare glyph width.
pub open spec fn fits_grid(cols: int, rows: int, origin_x: int, origin_y: int) -> bool {
    &&& cols * rows <= usize::MAX
    &&& origin_x + cols * CHAR_WIDTH + CHAR_WIDTH <= usize::MAX
    &&& origin_y + rows * CHAR_HEIGHT + CHAR_HEIGHT <= usize::MAX
}

impl Terminal {
    pub open spec fn wf(&self) -> bool {
        &&& self@.wf()
        &&& fits_grid(self.cols as int, self.rows as int, self.origin_x as int, self.origin_y as int)
    }

    /// A grid of blank, dirty cells with the cursor in the top-left corner.
    /// It needs a row and a column: in an empty grid a written byte would have
    /// no cell to go to, and a newline no row to scroll into.
    pub fn new(cols: usize, rows: usize, origin_x: usize, origin_y: usize) -> (t: Terminal)
        requires
            cols >= 1,
            rows >= 1,
            fits_grid(cols as int, rows as int, origin_x as int, origin_y as int),
        ensures
            t.wf(),
            t.origin_x == origin_x,
            t.origin_y == origin_y,
            t@ == (GridView {
                cols: cols as nat,
                rows: rows as nat,
                cells: Seq::new((cols * rows) as nat, |i: int| blank_cell()),
                dirty: Seq::new((cols * rows) as nat, |i: int| true),
                col: 0,
                row: 0,
                prev_col: 0,
                prev_row: 0,
                fg: Color::light_gray(),
                bg: Color::terminal_bg(),
            }),
    {
        let total = cols * rows;
        let cells = crate::gop::vec_filled(Cell::default(), total);
        let dirty = crate::gop::vec_filled(true, total);
        let t = Terminal {
            cols,
            rows,
            cells,
            dirty,
            cursor_col: 0,
            cursor_row: 0,
            prev_cursor_col: 0,
            prev_cursor_row: 0,
            current_fg: Color::light_gray(),
            current_bg: Color::terminal_bg(),
            origin_x,
            origin_y,
        };
        assert(t@.cells =~= Seq::new((cols * rows) as nat, |i: int| blank_cell()));
        assert(t@.dirty =~= Seq::new((cols * rows) as nat, |i: int| true));
        t
    }

    /// Colours for the bytes written from now on.
    pub fn set_color(&mut self, fg: Color, bg: Color)
        requires
            old(self).wf(),
        ensures
            final(self).wf(),
            final(self).origin_x == old(self).origin_x,
            final(self).origin_y == old(self).origin_y,
            final(self).cols == old(self).cols,
            final(self).rows == old(self).rows,
            final(self)@ == (GridView { fg, bg, ..old(self)@ }),
    {
        self.current_fg = fg;
        self.current_bg = bg;
    }

    /// Marks the cell that the cursor last left dirty, so that the cursor
    /// bar drawn there is painted over.
    fn mark_cursor_dirty(&mut self)
        requires
            old(self).wf(),
        ensures
            final(self).wf(),
            final(self).origin_x == old(self).origin_x,
            final(self).origin_y == old(self).origin_y,
            final(self).cols == old(self).cols,
            final(self).rows == old(self).rows,
            final(self)@ == old(self)@.mark_prev(),
    {
        if self.prev_cursor_row < self.rows && self.prev_cursor_col < self.cols {
            proof {
                lemma_cell_index(
                    self.prev_cursor_col as int,
                    self.prev_cursor_row as int,
                    self.cols as int,
                    self.rows as int,
                );
            }
            let i = self.prev_cursor_row * self.cols + self.prev_cursor_col;
            self.dirty.set(i, true);
        }
    }

    /// Moves every row up by one, blanks the last row, puts the cursor on
    /// it, and marks every cell dirty.
    fn scroll_up(&mut self)
        requires
            old(self).cols >= 1,
            old(self).rows >= 1,
            old(self).cells@.len() == old(self).cols * old(self).rows,
            old(self).dirty@.len() == old(self).cols * old(self).rows,
            old(self).cols * old(self).rows <= usize::MAX,
        ensures
            final(self)@ == old(self)@.scrolled(),
            final(self).origin_x == old(self).origin_x,
            final(self).origin_y == old(self).origin_y,
            final(self).cols == old(self).cols,
            final(self).rows == old(self).rows,
    {
        let n = self.cols * self.rows;
        assert((self.rows - 1) * self.cols == self.cols * self.rows - self.cols) by (nonlinear_arith);
        let keep = n - self.cols;
        let mut i: usize = 0;
        while i < keep
            invariant
                self.cols == old(self).cols,
                self.rows == old(self).rows,
                self.dirty == old(self).dirty,
                self.cursor_row == old(self).cursor_row,
                self.cursor_col == old(self).cursor_col,
                self.prev_cursor_col == old(self).prev_cursor_col,
                self.prev_cursor_row == old(self).prev_cursor_row,
                self.current_fg == old(self).current_fg,
                self.current_bg == old(self).current_bg,
                self.origin_x == old(self).origin_x,
                self.origin_y == old(self).origin_y,
                n == self.cols * self.rows,
                keep + self.cols == n,
                self.cells@.len() == n,
                i <= keep,
                forall|j: int| 0 <= j < i ==> self.cells@[j] == old(self).cells@[j + self.cols],
                forall|j: int| i <= j < n ==> self.cells@[j] == old(self).cells@[j],
            decreases keep - i,
        {
            let c = self.cells[i + self.cols];
            self.cells.set(i, c);
            i = i + 1;
        }
        while i < n
            invariant
                self.cols == old(self).cols,
                self.rows == old(self).rows,
                self.dirty == old(self).dirty,
                self.cursor_row == old(self).cursor_row,
                self.cursor_col == old(self).cursor_col,
                self.prev_cursor_col == old(self).prev_cursor_col,
                self.prev_cursor_row == old(self).prev_cursor_row,
                self.current_fg == old(self).current_fg,
                self.current_bg == old(self).current_bg,
                self.origin_x == old(self).origin_x,
                self.origin_y == old(self).origin_y,
                n == self.cols * self.rows,
                keep + self.cols == n,
                self.cells@.len() == n,
                keep <= i <= n,
                forall|j: int| 0 <= j < keep ==> self.cells@[j] == old(self).cells@[j + self.cols],
                forall|j: int| keep <= j < i ==> self.cells@[j] == blank_cell(),
            decreases n - i,
        {
            self.cells.set(i, Cell::default());
            i = i + 1;
        }
        self.set_all_dirty();
        self.cursor_row = self.rows - 1;
        assert(self@.cells =~= old(self)@.scrolled().cells);
        assert(self@.dirty =~= old(self)@.scrolled().dirty);
    }

    fn set_all_dirty(&mut self)
        requires
            old(self).dirty@.len() == old(self).cols * old(self).rows,
        ensures
            final(self)@ == old(self)@.all_dirty(),
            final(self).origin_x == old(self).origin_x,
            final(self).origin_y == old(self).origin_y,
            final(self).cols == old(self).cols,
            final(self).rows == old(self).rows,
    {
        let n = self.dirty.len();
        let mut i: usize = 0;
        while i < n
            invariant
                self.cols == old(self).cols,
                self.rows == old(self).rows,
                self.cells == old(self).cells,
                self.cursor_row == old(self).cursor_row,
                self.cursor_col == old(self).cursor_col,
                self.prev_cursor_col == old(self).prev_cursor_col,
                self.prev_cursor_row == old(self).prev_cursor_row,
                self.current_fg == old(self).current_fg,
                self.current_bg == old(self).current_bg,
                self.origin_x == old(self).origin_x,
                self.origin_y == old(self).origin_y,
                n == self.cols * self.rows,
                self.dirty@.len() == n,
                i <= n,
                forall|j: int| 0 <= j < i ==> self.dirty@[j],
            decreases n - i,
        {
            self.dirty.set(i, true);
            i = i + 1;
        }
        assert(self@.dirty =~= old(self)@.all_dirty().dirty);
    }

    fn next_line(&mut self)
        requires
            old(self).wf(),
        ensures
            final(self).wf(),
            final(self).origin_x == old(self).origin_x,
            final(self).origin_y == old(self).origin_y,
            final(self).cols == old(self).cols,
            final(self).rows == old(self).rows,
            final(self)@ == old(self)@.next_line(),
    {
        self.cursor_col = 0;
        self.cursor_row = self.cursor_row + 1;
        if self.cursor_row >= self.rows {
            self.scroll_up();
        }
    }

    /// Writes one byte at the cursor; see `GridView::write`.
    pub fn write_byte(&mut self, byte: u8)
        requires
            old(self).wf(),
        ensures
            final(self).wf(),
            final(self).origin_x == old(self).origin_x,
            final(self).origin_y == old(self).origin_y,
            final(self).cols == old(self).cols,
            final(self).rows == old(self).rows,
            final(self)@ == old(self)@.write(byte),
    {
        self.prev_cursor_col = self.cursor_col;
        self.prev_cursor_row = self.cursor_row;
        if byte == 10 || byte == 13 {
            self.next_line();
        } else if byte == 8 {
            if self.cursor_col > 0 {
                self.cursor_col = self.cursor_col - 1;
                proof {
                    lemma_cell_index(
                        self.cursor_col as int,
                        self.cursor_row as int,
                        self.cols as int,
                        self.rows as int,
                    );
                }
                let idx = self.cursor_row * self.cols + self.cursor_col;
                self.cells.set(idx, Cell { ch: 32u8, fg: self.current_fg, bg: self.current_bg });
                self.dirty.set(idx, true);
            }
        } else {
            if self.cursor_col >= self.cols {
                self.next_line();
            }
            proof {
                lemma_cell_index(
                    self.cursor_col as int,
                    self.cursor_row as int,
                    self.cols as int,
                    self.rows as int,
                );
            }
            let idx = self.cursor_row * self.cols + self.cursor_col;
            self.cells.set(idx, Cell { ch: byte, fg: self.current_fg, bg: self.current_bg });
            self.dirty.set(idx, true);
            self.cursor_col = self.cursor_col + 1;
        }
        self.mark_cursor_dirty();
    }

    /// Writes the bytes of `s` in order.
    pub fn write_str(&mut self, s: &str)
        requires
            old(self).wf(),
        ensures
            final(self).wf(),
            final(self).origin_x == old(self).origin_x,
            final(self).origin_y == old(self).origin_y,
            final(self).cols == old(self).cols,
            final(self).rows == old(self).rows,
            final(self)@ == old(self)@.write_all(s.spec_bytes()),
    {
        let bytes = s.as_bytes();
        let n = bytes.len();
        let mut i: usize = 0;
        while i < n
            invariant
                self.wf(),
                self.origin_x == old(self).origin_x,
                self.origin_y == old(self).origin_y,
                bytes@ == s.spec_bytes(),
                n == bytes@.len(),
                i <= n,
                self.cols == old(self).cols,
                self.rows == old(self).rows,
                self@ == old(self)@.write_all(bytes@.take(i as int)),
            decreases n - i,
        {
            self.write_byte(bytes[i]);
            assert(bytes@.take(i + 1).drop_last() =~= bytes@.take(i as int));
            i = i + 1;
        }
        assert(bytes@.take(n as int) =~= bytes@);
    }

    /// Blank cells everywhere, all dirty, and the cursor in the top-left corner.
    pub fn clear(&mut self)
        requires
            old(self).wf(),
        ensures
            final(self).wf(),
            final(self).origin_x == old(self).origin_x,
            final(self).origin_y == old(self).origin_y,
            final(self).cols == old(self).cols,
            final(self).rows == old(self).rows,
            final(self)@ == old(self)@.cleared(),
    {
        let n = self.cells.len();
        let mut i: usize = 0;
        while i < n
            invariant
                self.wf(),
                self.cols == old(self).cols,
                self.rows == old(self).rows,
                self.dirty == old(self).dirty,
                self.cursor_row == old(self).cursor_row,
                self.cursor_col == old(self).cursor_col,
                self.prev_cursor_col == old(self).prev_cursor_col,
                self.prev_cursor_row == old(self).prev_cursor_row,
                self.current_fg == old(self).current_fg,
                self.current_bg == old(self).current_bg,
                self.origin_x == old(self).origin_x,
                self.origin_y == old(self).origin_y,
                n == self.cells@.len(),
                i <= n,
                forall|j: int| 0 <= j < i ==> self.cells@[j] == blank_cell(),
            decreases n - i,
        {
            self.cells.set(i, Cell::default());
            i = i + 1;
        }
        self.set_all_dirty();
        self.cursor_col = 0;
        self.cursor_row = 0;
        assert(self@.cells =~= Seq::new(old(self)@.cols * old(self)@.rows, |i: int| blank_cell()));
    }

    /// Marks every cell dirty, so that the next render repaints the grid.
    pub fn mark_all_dirty(&mut self)
        requires
            old(self).wf(),
        ensures
            final(self).wf(),
            final(self).origin_x == old(self).origin_x,
            final(self).origin_y == old(self).origin_y,
            final(self).cols == old(self).cols,
            final(self).rows == old(self).rows,
            final(self)@ == old(self)@.all_dirty(),
    {
        self.set_all_dirty();
    }
    /// Left edge of the cell at flat position `i`.
    pub open spec fn cell_x(&self, i: int) -> int {
        self.origin_x + (i % self.cols as int) * CHAR_WIDTH
    }

    /// Top edge of the cell at flat position `i`.
    pub open spec fn cell_y(&self, i: int) -> int {
        self.origin_y + (i / self.cols as int) * CHAR_HEIGHT
    }

    /// The pixel lies on the grid.
    pub open spec fn in_grid(&self, px: int, py: int) -> bool {
        &&& self.origin_x <= px < self.origin_x + self.cols * CHAR_WIDTH
        &&& self.origin_y <= py < self.origin_y + self.rows * CHAR_HEIGHT
    }

    /// Flat position of the cell under a pixel of the grid.
    pub open spec fn cell_at(&self, px: int, py: int) -> int {
        ((py - self.origin_y) / CHAR_HEIGHT as int) * self.cols + (px - self.origin_x)
            / CHAR_WIDTH as int
    }

    /// The boxes that a render repaints, in order, on a `width` by `height`
    /// surface: that of each dirty cell, clipped, and the zero box for each
    /// clean one.
    pub open spec fn repaint_boxes(&self, width: int, height: int) -> Seq<Rect> {
        Seq::new(
            self.cells@.len(),
            |i: int|
                if self.dirty@[i] {
                    clip(self.cell_x(i), self.cell_y(i), CHAR_WIDTH as int, CHAR_HEIGHT as int, width, height)
                } else {
                    Rect { x: 0, y: 0, w: 0, h: 0 }
                },
        )
    }

    /// The cursor bar is drawn: the cursor stands on a cell.
    pub open spec fn has_bar(&self) -> bool {
        self.cursor_col < self.cols
    }

    /// The bottom two pixel rows of the cursor cell.
    pub open spec fn on_bar(&self, px: int, py: int) -> bool {
        &&& self.has_bar()
        &&& self.origin_x + self.cursor_col * CHAR_WIDTH <= px < self.origin_x + self.cursor_col
            * CHAR_WIDTH + CHAR_WIDTH
        &&& self.origin_y + self.cursor_row * CHAR_HEIGHT + CHAR_HEIGHT - 2 <= py < self.origin_y
            + self.cursor_row * CHAR_HEIGHT + CHAR_HEIGHT
    }

    /// The cursor bar clipped to a `width` by `height` surface.
    pub open spec fn bar_box(&self, width: int, height: int) -> Rect {
        if self.has_bar() {
            clip(
                self.origin_x + self.cursor_col * CHAR_WIDTH,
                self.origin_y + self.cursor_row * CHAR_HEIGHT + CHAR_HEIGHT - 2,
                CHAR_WIDTH as int,
                2,
                width,
                height,
            )
        } else {
            Rect { x: 0, y: 0, w: 0, h: 0 }
        }
    }

    /// What a render leaves at a pixel that showed `under`: the cursor bar,
    /// else the glyph of a dirty cell, else `under`.
    pub open spec fn painted(&self, glyphs: &GlyphTable, px: int, py: int, under: Color) -> Color {
        self.painted_with(self.dirty@, glyphs, px, py, under)
    }

    /// `painted`, with `dirty` in place of the grid's own dirty flags.
    pub open spec fn painted_with(
        &self,
        dirty: Seq<bool>,
        glyphs: &GlyphTable,
        px: int,
        py: int,
        under: Color,
    ) -> Color {
        if self.on_bar(px, py) || (self.in_grid(px, py) && dirty[self.cell_at(px, py)]) {
            self.shown(glyphs, px, py)
        } else {
            under
        }
    }

    /// Same cells, cursor, size and origin as `o`: the same picture, whatever
    /// the dirty flags.
    pub open spec fn same_picture(&self, o: &Terminal) -> bool {
        &&& self@.clean() == o@.clean()
        &&& self.origin_x == o.origin_x
        &&& self.origin_y == o.origin_y
    }

    /// What the grid shows at a pixel of it once fully painted: the cursor
    /// bar, or else the glyph of the cell there in the cell's colours.
    pub open spec fn shown(&self, glyphs: &GlyphTable, px: int, py: int) -> Color {
        if self.on_bar(px, py) {
            Color::spec_light_gray()
        } else {
            let c = self.cells@[self.cell_at(px, py)];
            glyphs.shade(
                c.ch,
                (px - self.origin_x) % CHAR_WIDTH as int,
                (py - self.origin_y) % CHAR_HEIGHT as int,
                c.fg,
                c.bg,
            )
        }
    }

    /// What a render repaints lies on the surface.
    pub proof fn lemma_repaint_on_surface(&self, fb: &Framebuffer)
        requires
            self.wf(),
            fb.wf(),
        ensures
            span_all(self.repaint_boxes(fb.width as int, fb.height as int)).within(fb.full()),
            span_all(self.repaint_boxes(fb.width as int, fb.height as int)).fits(),
            self.bar_box(fb.width as int, fb.height as int).within(fb.full()),
            self.bar_box(fb.width as int, fb.height as int).fits(),
    {
        let boxes = self.repaint_boxes(fb.width as int, fb.height as int);
        assert forall|i: int| 0 <= i < boxes.len() implies (#[trigger] boxes[i]).fits() by {}
        assert forall|i: int, px: int, py: int|
            0 <= i < boxes.len() && #[trigger] boxes[i].has(px, py) implies fb.full().has(px, py) by {}
        crate::gop::lemma_flush_sends_bounding_box(boxes, fb.full());
    }

    proof fn lemma_cell_box(&self, px: int, py: int, col: int, row: int)
        requires
            self.wf(),
            0 <= col < self.cols,
            0 <= row < self.rows,
        ensures
            (self.in_grid(px, py) && self.cell_at(px, py) == row * self.cols + col) <==> (
            self.origin_x + col * CHAR_WIDTH <= px < self.origin_x + col * CHAR_WIDTH
                + CHAR_WIDTH && self.origin_y + row * CHAR_HEIGHT <= py < self.origin_y + row
                * CHAR_HEIGHT + CHAR_HEIGHT),
            self.origin_x + col * CHAR_WIDTH <= px < self.origin_x + col * CHAR_WIDTH
                + CHAR_WIDTH ==> (px - self.origin_x) % CHAR_WIDTH as int == px - (self.origin_x
                + col * CHAR_WIDTH),
            self.origin_y + row * CHAR_HEIGHT <= py < self.origin_y + row * CHAR_HEIGHT
                + CHAR_HEIGHT ==> (py - self.origin_y) % CHAR_HEIGHT as int == py - (self.origin_y
                + row * CHAR_HEIGHT),
    {
        if self.in_grid(px, py) && self.cell_at(px, py) == row * self.cols + col {
            let c = (px - self.origin_x) / CHAR_WIDTH as int;
            let r = (py - self.origin_y) / CHAR_HEIGHT as int;
            lemma_cell_index_unique(c, r, col, row, self.cols as int);
        }
    }

    /// Paints the glyph of every dirty cell and clears its flag, then paints
    /// the cursor bar at the cursor cell whether or not that cell was dirty.
    pub fn render(&mut self, fb: &mut Framebuffer, glyphs: &GlyphTable)
        requires
            old(self).wf(),
            old(fb).wf(),
            glyphs.wf(),
        ensures
            final(self).wf(),
            final(self).origin_x == old(self).origin_x,
            final(self).origin_y == old(self).origin_y,
            final(self).cols == old(self).cols,
            final(self).rows == old(self).rows,
            final(self)@ == (GridView {
                dirty: Seq::new(old(self)@.cols * old(self)@.rows, |i: int| false),
                ..old(self)@
            }),
            final(fb).wf(),
            final(fb).width == old(fb).width,
            final(fb).height == old(fb).height,
            final(fb).pending() == old(fb).pending(),
            final(fb).dirty_region() == span(
                span(
                    old(fb).dirty_region(),
                    span_all(old(self).repaint_boxes(old(fb).width as int, old(fb).height as int)),
                ),
                old(self).bar_box(old(fb).width as int, old(fb).height as int),
            ),
            forall|px: int, py: int| #[trigger]
                final(fb).on_surface(px, py) ==> final(fb).pixel_at(px, py) == old(self).painted(
                    glyphs,
                    px,
                    py,
                    old(fb).pixel_at(px, py),
                ),
    {
        let ghost w = fb.width as int;
        let ghost h = fb.height as int;
        let ghost boxes = self.repaint_boxes(w, h);
        let ghost old_self = *self;
        let n = self.cols * self.rows;
        let mut i: usize = 0;
        let mut row: usize = 0;
        let mut col: usize = 0;
        while i < n
            invariant
                self.wf(),
                fb.wf(),
                glyphs.wf(),
                old_self == *old(self),
                old_self.wf(),
                self.cols == old_self.cols,
                self.rows == old_self.rows,
                self.cells == old_self.cells,
                self.cursor_col == old_self.cursor_col,
                self.cursor_row == old_self.cursor_row,
                self.prev_cursor_col == old_self.prev_cursor_col,
                self.prev_cursor_row == old_self.prev_cursor_row,
                self.current_fg == old_self.current_fg,
                self.current_bg == old_self.current_bg,
                self.origin_x == old_self.origin_x,
                self.origin_y == old_self.origin_y,
                boxes == old_self.repaint_boxes(w, h),
                n == self.cols * self.rows,
                i <= n,
                i == row * self.cols + col,
                col < self.cols,
                i < n ==> row < self.rows,
                forall|j: int| 0 <= j < i ==> !self.dirty@[j],
                forall|j: int| i <= j < n ==> self.dirty@[j] == old_self.dirty@[j],
                fb.width == w,
                fb.height == h,
                fb.pending() == old(fb).pending(),
                old(fb).dirty_region().fits(),
                span_all(boxes.take(i as int)).fits(),
                fb.dirty_region() == span(old(fb).dirty_region(), span_all(boxes.take(i as int))),
                forall|px: int, py: int| #[trigger]
                    fb.on_surface(px, py) ==> fb.pixel_at(px, py) == if old_self.in_grid(px, py)
                        && old_self.cell_at(px, py) < i && old_self.dirty@[old_self.cell_at(
                        px,
                        py,
                    )] {
                        let c = old_self.cells@[old_self.cell_at(px, py)];
                        glyphs.shade(
                            c.ch,
                            (px - old_self.origin_x) % CHAR_WIDTH as int,
                            (py - old_self.origin_y) % CHAR_HEIGHT as int,
                            c.fg,
                            c.bg,
                        )
                    } else {
                        old(fb).pixel_at(px, py)
                    },
            decreases n - i,
        {
            proof {
                lemma_cell_index(col as int, row as int, self.cols as int, self.rows as int);
                vstd::arithmetic::div_mod::lemma_fundamental_div_mod_converse(
                    i as int,
                    self.cols as int,
                    row as int,
                    col as int,
                );
                assert(boxes.take(i + 1).drop_last() =~= boxes.take(i as int));
                assert(boxes[i as int] == if old_self.dirty@[i as int] {
                    clip(
                        self.origin_x + col * CHAR_WIDTH,
                        self.origin_y + row * CHAR_HEIGHT,
                        CHAR_WIDTH as int,
                        CHAR_HEIGHT as int,
                        w,
                        h,
                    )
                } else {
                    Rect { x: 0, y: 0, w: 0, h: 0 }
                });
                crate::gop::lemma_span(span_all(boxes.take(i as int)), boxes[i as int]);
                assert(row * CHAR_HEIGHT + CHAR_HEIGHT <= self.rows * CHAR_HEIGHT) by (nonlinear_arith)
                    requires
                        row < self.rows,
                ;
                assert(col * CHAR_WIDTH + CHAR_WIDTH <= self.cols * CHAR_WIDTH) by (nonlinear_arith)
                    requires
                        col < self.cols,
                ;
            }
            let ghost prev = *fb;
            if self.dirty[i] {
                self.dirty.set(i, false);
                let cell = self.cells[i];
                let x = self.origin_x + col * CHAR_WIDTH;
                let y = self.origin_y + row * CHAR_HEIGHT;
                glyphs.draw_char(fb, cell.ch, x, y, cell.fg, cell.bg);
                proof {
                    crate::gop::lemma_span_assoc(
                        old(fb).dirty_region(),
                        span_all(boxes.take(i as int)),
                        boxes[i as int],
                    );
                    assert forall|px: int, py: int| #[trigger]
                        fb.on_surface(px, py) implies fb.pixel_at(px, py) == if old_self.in_grid(
                            px,
                            py,
                        ) && old_self.cell_at(px, py) < i + 1 && old_self.dirty@[old_self.cell_at(
                            px,
                            py,
                        )] {
                            let c = old_self.cells@[old_self.cell_at(px, py)];
                            glyphs.shade(
                                c.ch,
                                (px - old_self.origin_x) % CHAR_WIDTH as int,
                                (py - old_self.origin_y) % CHAR_HEIGHT as int,
                                c.fg,
                                c.bg,
                            )
                        } else {
                            old(fb).pixel_at(px, py)
                        } by {
                        assert(prev.on_surface(px, py));
                        old_self.lemma_cell_box(px, py, col as int, row as int);
                    }
                }
            } else {
                proof {
                    assert forall|px: int, py: int| #[trigger]
                        fb.on_surface(px, py) implies fb.pixel_at(px, py) == if old_self.in_grid(
                            px,
                            py,
                        ) && old_self.cell_at(px, py) < i + 1 && old_self.dirty@[old_self.cell_at(
                            px,
                            py,
                        )] {
                            let c = old_self.cells@[old_self.cell_at(px, py)];
                            glyphs.shade(
                                c.ch,
                                (px - old_self.origin_x) % CHAR_WIDTH as int,
                                (py - old_self.origin_y) % CHAR_HEIGHT as int,
                                c.fg,
                                c.bg,
                            )
                        } else {
                            old(fb).pixel_at(px, py)
                        } by {
                        old_self.lemma_cell_box(px, py, col as int, row as int);
                    }
                }
            }
            i = i + 1;
            if col + 1 == self.cols {
                proof {
                    assert((row + 1) * self.cols == row * self.cols + self.cols) by (nonlinear_arith);
                    if i < n {
                        assert(row + 1 < self.rows) by (nonlinear_arith)
                            requires
                                (row + 1) * self.cols < self.cols * self.rows,
                                self.cols >= 1,
                        ;
                    }
                }
                col = 0;
                row = row + 1;
            } else {
                col = col + 1;
            }
        }
        proof {
            assert(boxes.take(n as int) =~= boxes);
            fb.lemma_wf_bounds();
        }
        let ghost before_bar = *fb;
        if self.cursor_col < self.cols {
            proof {
                assert(self.cursor_row * CHAR_HEIGHT + CHAR_HEIGHT <= self.rows * CHAR_HEIGHT) by (nonlinear_arith)
                    requires
                        self.cursor_row < self.rows,
                ;
                assert(self.cursor_col * CHAR_WIDTH + CHAR_WIDTH <= self.cols * CHAR_WIDTH) by (nonlinear_arith)
                    requires
                        self.cursor_col < self.cols,
                ;
            }
            let x = self.origin_x + self.cursor_col * CHAR_WIDTH;
            let y = self.origin_y + self.cursor_row * CHAR_HEIGHT + CHAR_HEIGHT - 2;
            fb.fill_rect(x, y, CHAR_WIDTH, 2, Color::light_gray());
            proof {
                assert forall|px: int, py: int| #[trigger]
                    fb.on_surface(px, py) implies fb.pixel_at(px, py) == old(self).painted(
                        glyphs,
                        px,
                        py,
                        old(fb).pixel_at(px, py),
                    ) by {
                    assert(before_bar.on_surface(px, py));
                    if old_self.in_grid(px, py) {
                        lemma_cell_index(
                            (px - self.origin_x) / CHAR_WIDTH as int,
                            (py - self.origin_y) / CHAR_HEIGHT as int,
                            self.cols as int,
                            self.rows as int,
                        );
                    }
                }
            }
        } else {
            proof {
                assert forall|px: int, py: int| #[trigger]
                    fb.on_surface(px, py) implies fb.pixel_at(px, py) == old(self).painted(
                        glyphs,
                        px,
                        py,
                        old(fb).pixel_at(px, py),
                    ) by {
                    assert(before_bar.on_surface(px, py));
                    if old_self.in_grid(px, py) {
                        lemma_cell_index(
                            (px - self.origin_x) / CHAR_WIDTH as int,
                            (py - self.origin_y) / CHAR_HEIGHT as int,
                            self.cols as int,
                            self.rows as int,
                        );
                    }
                }
            }
        }
        assert(self@.dirty =~= Seq::new(old(self)@.cols * old(self)@.rows, |i: int| false));
    }
}

/// Writing a printable byte into a clean grid leaves exactly two cells dirty:
/// the one written and the one the cursor stood on (the same cell unless the
/// row was full and the write wrapped). The one exception is a wrap from the
/// last row, which scrolls and marks every cell dirty.
pub proof fn lemma_printable_write_dirties_written_and_prior(g: GridView, b: u8)
    requires
        g.wf(),
        forall|i: int| 0 <= i < g.dirty.len() ==> !g.dirty[i],
        b != 10 && b != 13 && b != 8,
        !(g.col >= g.cols && g.row + 1 >= g.rows),
    ensures
        ({
            let written = if g.col >= g.cols {
                g.index(0, g.row + 1 as int)
            } else {
                g.index(g.col as int, g.row as int)
            };
            let after = g.write(b);
            &&& after.wf()
            &&& after.cells[written] == (Cell { ch: b, fg: g.fg, bg: g.bg })
            &&& forall|i: int|
                0 <= i < after.dirty.len() ==> (after.dirty[i] <==> (i == written || (g.col
                    < g.cols && i == g.index(g.col as int, g.row as int))))
        }),
{
    if g.col >= g.cols {
        lemma_cell_index(0, g.row + 1 as int, g.cols as int, g.rows as int);
    } else {
        lemma_cell_index(g.col as int, g.row as int, g.cols as int, g.rows as int);
    }
}

/// A newline on the last row scrolls: afterwards each row holds what the row
/// below it held, the last row is blank, every cell is dirty, and the cursor
/// is at the start of the last row.
pub proof fn lemma_newline_on_last_row_scrolls(g: GridView, b: u8)
    requires
        g.wf(),
        g.row == g.rows - 1,
        b == 10 || b == 13,
    ensures
        ({
            let after = g.write(b);
            &&& after.wf()
            &&& after.row == g.rows - 1
            &&& after.col == 0
            &&& forall|r: int, c: int|
                0 <= r < g.rows - 1 && 0 <= c < g.cols ==> after.cells[#[trigger] g.index(c, r)]
                    == g.cells[g.index(c, r + 1)]
            &&& forall|c: int|
                0 <= c < g.cols ==> after.cells[#[trigger] g.index(c, g.rows - 1)] == blank_cell()
            &&& forall|i: int| 0 <= i < after.dirty.len() ==> after.dirty[i]
        }),
{
    let after = g.write(b);
    let moved = GridView { prev_col: g.col, prev_row: g.row, ..g }.next_line();
    assert(moved.dirty.len() == g.cols * g.rows);
    assert(forall|i: int| 0 <= i < moved.dirty.len() ==> moved.dirty[i]);
    if g.col < g.cols {
        lemma_cell_index(g.col as int, g.row as int, g.cols as int, g.rows as int);
    }
    assert(after == moved.mark_prev());
    assert(forall|i: int| 0 <= i < after.dirty.len() ==> after.dirty[i]);
    assert(after.wf());
    assert forall|r: int, c: int| 0 <= r < g.rows - 1 && 0 <= c < g.cols implies after.cells[
        #[trigger] g.index(c, r)] == g.cells[g.index(c, r + 1)] by {
        assert(r * g.cols + c < (g.rows - 1) * g.cols) by (nonlinear_arith)
            requires
                0 <= r < g.rows - 1,
                0 <= c < g.cols,
        ;
        assert((r + 1) * g.cols + c == r * g.cols + c + g.cols) by (nonlinear_arith);
        assert((g.rows - 1) * g.cols + g.cols == g.cols * g.rows) by (nonlinear_arith);
    }
    assert forall|c: int| 0 <= c < g.cols implies after.cells[#[trigger] g.index(c, g.rows - 1)]
        == blank_cell() by {
        lemma_cell_index(c, g.rows - 1, g.cols as int, g.rows as int);
    }
}

/// `n` newlines.
pub open spec fn newlines(n: nat) -> Seq<u8> {
    Seq::new(n, |i: int| 10u8)
}

/// Rows scrolled away while `n` newlines are written from row `row` of a
/// grid of `rows` rows.
pub open spec fn scrolls(row: int, n: int, rows: int) -> int {
    if row + n > rows - 1 {
        row + n - (rows - 1)
    } else {
        0
    }
}

/// Writing `n` newlines from row `row` moves the cursor down `n` rows to the
/// start of a row, stopping at the last row; every newline past the last row
/// scrolls the grid up by one, so that row `i` then holds what row `i + k`
/// held, `k` being the number of scrolls, and rows with nothing left below
/// them are blank; after any scroll every cell is dirty.
pub proof fn lemma_newlines_scroll(g: GridView, n: nat)
    requires
        g.wf(),
    ensures
        ({
            let after = g.write_all(newlines(n));
            let k = scrolls(g.row as int, n as int, g.rows as int);
            &&& after.wf()
            &&& after.cols == g.cols && after.rows == g.rows
            &&& after.row == g.row + n - k
            &&& n > 0 ==> after.col == 0
            &&& forall|i: int, j: int|
                0 <= i < g.rows && 0 <= j < g.cols ==> after.cells[#[trigger] g.index(j, i)] == if i
                    + k < g.rows {
                    g.cells[g.index(j, i + k)]
                } else {
                    blank_cell()
                }
            &&& k > 0 ==> forall|m: int| 0 <= m < after.dirty.len() ==> after.dirty[m]
        }),
    decreases n,
{
    if n == 0 {
        assert(newlines(0) =~= Seq::<u8>::empty());
        assert forall|i: int, j: int| 0 <= i < g.rows && 0 <= j < g.cols implies g.write_all(
            newlines(n),
        ).cells[#[trigger] g.index(j, i)] == g.cells[g.index(j, i)] by {}
    } else {
        let m = (n - 1) as nat;
        assert(newlines(n).drop_last() =~= newlines(m));
        lemma_newlines_scroll(g, m);
        let a = g.write_all(newlines(m));
        let k0 = scrolls(g.row as int, m as int, g.rows as int);
        let k = scrolls(g.row as int, n as int, g.rows as int);
        let after = a.write(10);
        assert(g.write_all(newlines(n)) == after);
        if a.row + 1 >= a.rows {
            lemma_newline_on_last_row_scrolls(a, 10);
            assert(k == k0 + 1);
            assert forall|i: int, j: int|
                0 <= i < g.rows && 0 <= j < g.cols implies after.cells[#[trigger] g.index(j, i)] == if i
                    + k < g.rows {
                    g.cells[g.index(j, i + k)]
                } else {
                    blank_cell()
                } by {
                if i < g.rows - 1 {
                    assert(a.index(j, i) == g.index(j, i));
                    assert(after.cells[a.index(j, i)] == a.cells[a.index(j, i + 1)]);
                    assert(a.cells[g.index(j, i + 1)] == if i + 1 + k0 < g.rows {
                        g.cells[g.index(j, i + 1 + k0)]
                    } else {
                        blank_cell()
                    });
                } else {
                    assert(after.cells[a.index(j, g.rows - 1)] == blank_cell());
                }
            }
        } else {
            assert(k == 0 && k0 == 0);
            if a.col < a.cols {
                lemma_cell_index(a.col as int, a.row as int, a.cols as int, a.rows as int);
            }
            assert(after.cells == a.cells);
        }
    }
}

} // verus!