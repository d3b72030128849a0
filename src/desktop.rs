//! The desktop: a terminal window with a title bar and close button, a
//! taskbar with a start button, a start menu, and click dispatch by
//! rectangle hit-testing.

use vstd::prelude::*;
use vstd::string::StringSliceAdditionalSpecFns;
use crate::font::{GlyphTable, CHAR_HEIGHT, CHAR_WIDTH};
use crate::gop::{lemma_cell_index, lemma_span_full, span, span_all, Color, Framebuffer, ScreenInfo};
use crate::terminal::{GridView, Terminal};

pub use crate::gop::Rect;

verus! {

pub const TASKBAR_HEIGHT: usize = 32;

pub const TERMINAL_MARGIN: usize = 16;

pub const TITLE_BAR_HEIGHT: usize = 24;

pub const START_BTN_WIDTH: usize = 80;

pub const MENU_WIDTH: usize = 200;

pub const MENU_ITEM_HEIGHT: usize = 28;

pub const MENU_HEIGHT: usize = 3 * MENU_ITEM_HEIGHT + 8;

/// The narrowest screen whose terminal has a column. On a screen narrower
/// than the version label and its margin the label starts at the left edge.
pub const MIN_SCREEN_WIDTH: usize = 40;

/// The shortest screen whose terminal has a row and whose start menu fits
/// above the taskbar.
pub const MIN_SCREEN_HEIGHT: usize = 124;

/// The longest screen side whose pixel coordinates fit the pointer's `i32`.
pub const MAX_SCREEN_SIDE: usize = 0x7fff_ffff;

pub const TITLE_TEXT: &'static str = "VOS Terminal";

pub const START_LABEL: &'static str = "VOS";

pub const VERSION_LABEL: &'static str = "v0.1.0";

pub const MENU_TERMINAL_LABEL: &'static str = "Terminal";

pub const MENU_INFO_LABEL: &'static str = "Info";

pub const MENU_REBOOT_LABEL: &'static str = "Reboot";

/// What a click asks for.
#[derive(Clone, Copy, Debug, PartialEq, Eq, Structural)]
pub enum ClickAction {
    NoAction,
    CloseTerminal,
    ToggleStartMenu,
    MenuTerminal,
    MenuInfo,
    MenuReboot,
}

/// The close button in the window's title bar.
pub open spec fn close_rect(width: int) -> Rect {
    Rect { x: (width - TERMINAL_MARGIN - 20) as usize, y: (TERMINAL_MARGIN + 6) as usize, w: 12, h: 12 }
}

/// The start button at the left end of the taskbar.
pub open spec fn start_rect(height: int) -> Rect {
    Rect { x: 0, y: (height - TASKBAR_HEIGHT) as usize, w: START_BTN_WIDTH, h: TASKBAR_HEIGHT }
}

/// Top edge of the start menu, which sits on the taskbar.
pub open spec fn menu_top(height: int) -> int {
    height - TASKBAR_HEIGHT - MENU_HEIGHT
}

/// Row `i` of the start menu.
pub open spec fn menu_row_rect(height: int, i: int) -> Rect {
    Rect {
        x: 0,
        y: (menu_top(height) + 4 + i * MENU_ITEM_HEIGHT) as usize,
        w: MENU_WIDTH,
        h: MENU_ITEM_HEIGHT,
    }
}

/// The action of row `i` of the start menu.
pub open spec fn menu_action(i: int) -> ClickAction {
    if i == 0 {
        ClickAction::MenuTerminal
    } else if i == 1 {
        ClickAction::MenuInfo
    } else {
        ClickAction::MenuReboot
    }
}

/// The top pixel row of the gradient background is `(20, 30, 60)` and each
/// channel grows toward the bottom.
pub open spec fn gradient(y: int, height: int) -> Color {
    Color {
        r: (20 + y * 15 / height) as u8,
        g: (30 + y * 25 / height) as u8,
        b: (60 + y * 40 / height) as u8,
    }
}

pub struct Desktop {
    pub fb: Framebuffer,
    pub terminal: Terminal,
    pub glyphs: GlyphTable,
    pub screen_w: usize,
    pub screen_h: usize,
    pub term_x: usize,
    pub term_y: usize,
    pub term_w: usize,
    pub term_h: usize,
    pub background_cache: Vec<Color>,
    pub needs_full_redraw: bool,
    pub start_menu_open: bool,
    pub mouse_x: i32,
    pub mouse_y: i32,
    pub close_button_rect: Rect,
    pub start_button_rect: Rect,
    pub menu_rects: [Rect; 3],
    pub menu_y: usize,
}

/// Pixel `(x, y)` of a row-major `w`-wide buffer.
pub open spec fn cache_at(cache: Seq<Color>, w: int, x: int, y: int) -> Color {
    cache[y * w + x]
}

/// `cache` holds the gradient background of a `w` by `h` screen.
pub open spec fn is_gradient(cache: Seq<Color>, w: int, h: int) -> bool {
    forall|x: int, y: int|
        0 <= x < w && 0 <= y < h ==> #[trigger] cache_at(cache, w, x, y) == gradient(y, h)
}

/// Screen sizes that the desktop's geometry fits.
pub open spec fn screen_ok(width: int, height: int) -> bool {
    &&& MIN_SCREEN_WIDTH <= width <= MAX_SCREEN_SIDE
    &&& MIN_SCREEN_HEIGHT <= height <= MAX_SCREEN_SIDE
    &&& width * height <= usize::MAX
}

fn gradient_pixel(y: usize, height: usize) -> (c: Color)
    requires
        y < height <= i32::MAX,
    ensures
        c == gradient(y as int, height as int),
{
    let y64 = y as u64;
    let h64 = height as u64;
    Color {
        r: (20 + y64 * 15 / h64) as u8,
        g: (30 + y64 * 25 / h64) as u8,
        b: (60 + y64 * 40 / h64) as u8,
    }
}

/// The gradient background, row-major.
fn gradient_pixels(width: usize, height: usize) -> (v: Vec<Color>)
    requires
        1 <= width,
        1 <= height <= i32::MAX,
        width * height <= usize::MAX,
    ensures
        v@.len() == width * height,
        forall|j: int| 0 <= j < v@.len() ==> #[trigger] v@[j] == gradient(j / width as int, height as int),
{
    let mut v: Vec<Color> = Vec::new();
    let mut y: usize = 0;
    while y < height
        invariant
            1 <= width,
            1 <= height <= i32::MAX,
            width * height <= usize::MAX,
            y <= height,
            v@.len() == y * width,
            forall|j: int| 0 <= j < v@.len() ==> v@[j] == gradient(j / width as int, height as int),
        decreases height - y,
    {
        let pixel = gradient_pixel(y, height);
        let mut x: usize = 0;
        proof {
            assert(y * width + width <= width * height) by (nonlinear_arith)
                requires
                    y < height,
                    width >= 1,
            ;
        }
        while x < width
            invariant
                1 <= width,
                y < height,
                width * height <= usize::MAX,
                x <= width,
                v@.len() == y * width + x,
                y * width + width <= width * height,
                pixel == gradient(y as int, height as int),
                forall|j: int| 0 <= j < v@.len() ==> v@[j] == gradient(j / width as int, height as int),
            decreases width - x,
        {
            proof {
                vstd::arithmetic::div_mod::lemma_fundamental_div_mod_converse(
                    (y * width + x) as int,
                    width as int,
                    y as int,
                    x as int,
                );
            }
            v.push(pixel);
            x = x + 1;
        }
        proof {
            assert((y + 1) * width == y * width + width) by (nonlinear_arith);
        }
        y = y + 1;
    }
    assert(height * width == width * height) by (nonlinear_arith);
    v
}

/// Whether the desktop can be laid out on a screen of this size.
pub fn screen_ok_at(width: usize, height: usize) -> (r: bool)
    ensures
        r == screen_ok(width as int, height as int),
{
    if width < MIN_SCREEN_WIDTH || height < MIN_SCREEN_HEIGHT || width > MAX_SCREEN_SIDE
        || height > MAX_SCREEN_SIDE {
        return false;
    }
    width.checked_mul(height).is_some()
}

impl Desktop {
    pub open spec fn wf(&self) -> bool {
        let w = self.screen_w as int;
        let h = self.screen_h as int;
        &&& screen_ok(w, h)
        &&& self.fb.wf()
        &&& self.fb.width == self.screen_w
        &&& self.fb.height == self.screen_h
        &&& self.terminal.wf()
        &&& self.glyphs.wf()
        &&& self.background_cache@.len() == self.fb.pixels@.len()
        &&& is_gradient(self.background_cache@, w, h)
        &&& self.term_x == TERMINAL_MARGIN
        &&& self.term_y == TERMINAL_MARGIN
        &&& self.term_w == w - 2 * TERMINAL_MARGIN
        &&& self.term_h == h - TASKBAR_HEIGHT - 2 * TERMINAL_MARGIN
        &&& self.terminal.origin_x == self.term_x
        &&& self.terminal.origin_y == self.term_y + TITLE_BAR_HEIGHT
        &&& self.terminal.cols == self.term_w / CHAR_WIDTH
        &&& self.terminal.rows == (self.term_h - TITLE_BAR_HEIGHT) as int / CHAR_HEIGHT as int
        &&& self.close_button_rect == close_rect(w)
        &&& self.start_button_rect == start_rect(h)
        &&& self.menu_y == menu_top(h)
        &&& forall|i: int| 0 <= i < 3 ==> #[trigger] self.menu_rects@[i] == menu_row_rect(h, i)
    }

    /// The fields fixed at construction are those of `o`.
    pub open spec fn same_geometry(&self, o: &Desktop) -> bool {
        &&& self.glyphs == o.glyphs
        &&& self.screen_w == o.screen_w
        &&& self.screen_h == o.screen_h
        &&& self.term_x == o.term_x
        &&& self.term_y == o.term_y
        &&& self.term_w == o.term_w
        &&& self.term_h == o.term_h
        &&& self.background_cache == o.background_cache
        &&& self.close_button_rect == o.close_button_rect
        &&& self.start_button_rect == o.start_button_rect
        &&& self.menu_rects == o.menu_rects
        &&& self.menu_y == o.menu_y
    }

    /// The fields that describe the layout, the menu and the pointer are
    /// those of `o`.
    pub open spec fn same_layout(&self, o: &Desktop) -> bool {
        &&& self.glyphs == o.glyphs
        &&& self.screen_w == o.screen_w
        &&& self.screen_h == o.screen_h
        &&& self.term_x == o.term_x
        &&& self.term_y == o.term_y
        &&& self.term_w == o.term_w
        &&& self.term_h == o.term_h
        &&& self.background_cache == o.background_cache
        &&& self.start_menu_open == o.start_menu_open
        &&& self.mouse_x == o.mouse_x
        &&& self.mouse_y == o.mouse_y
        &&& self.close_button_rect == o.close_button_rect
        &&& self.start_button_rect == o.start_button_rect
        &&& self.menu_rects == o.menu_rects
        &&& self.menu_y == o.menu_y
    }

    /// A desktop for a screen of the given size, with the terminal window
    /// inset by a margin and the taskbar along the bottom edge. Nothing is
    /// drawn yet; the first render repaints everything.
    pub fn new(screen: ScreenInfo, glyphs: GlyphTable) -> (d: Desktop)
        requires
            screen_ok(screen.width as int, screen.height as int),
            glyphs.wf(),
        ensures
            d.wf(),
            d.screen_w == screen.width,
            d.screen_h == screen.height,
            d.glyphs == glyphs,
            d.needs_full_redraw,
            !d.start_menu_open,
            d.mouse_x == screen.width / 2,
            d.mouse_y == screen.height / 2,
            d.terminal@ == (GridView {
                cols: d.terminal@.cols,
                rows: d.terminal@.rows,
                cells: Seq::new(d.terminal@.cols * d.terminal@.rows, |i: int| crate::terminal::blank_cell()),
                dirty: Seq::new(d.terminal@.cols * d.terminal@.rows, |i: int| true),
                col: 0,
                row: 0,
                prev_col: 0,
                prev_row: 0,
                fg: Color::light_gray(),
                bg: Color::terminal_bg(),
            }),
            d.fb.pending() == Seq::<Rect>::empty(),
            d.fb.dirty_region() == d.fb.full(),
            forall|x: int, y: int| d.fb.on_surface(x, y) ==> d.fb.pixel_at(x, y) == Color::black(),
            forall|x: int, y: int| #[trigger]
                d.fb.on_surface(x, y) ==> d.background_cache@[y * screen.width + x] == gradient(
                    y,
                    screen.height as int,
                ),
    {
        let width = screen.width;
        let height = screen.height;
        let term_x = TERMINAL_MARGIN;
        let term_y = TERMINAL_MARGIN;
        let term_w = width - 2 * TERMINAL_MARGIN;
        let term_h = height - TASKBAR_HEIGHT - 2 * TERMINAL_MARGIN;
        let text_y = term_y + TITLE_BAR_HEIGHT;
        let text_h = term_h - TITLE_BAR_HEIGHT;
        let cols = term_w / CHAR_WIDTH;
        let rows = text_h / CHAR_HEIGHT;
        proof {
            assert(cols * rows <= width * height) by (nonlinear_arith)
                requires
                    cols <= width,
                    rows <= height,
            ;
        }
        let fb = Framebuffer::new(width, height);
        let terminal = Terminal::new(cols, rows, term_x, text_y);
        let background_cache = gradient_pixels(width, height);
        let taskbar_y = height - TASKBAR_HEIGHT;
        let menu_y = taskbar_y - MENU_HEIGHT;
        let d = Desktop {
            fb,
            terminal,
            glyphs,
            screen_w: width,
            screen_h: height,
            term_x,
            term_y,
            term_w,
            term_h,
            background_cache,
            needs_full_redraw: true,
            start_menu_open: false,
            mouse_x: (width / 2) as i32,
            mouse_y: (height / 2) as i32,
            close_button_rect: Rect { x: term_x + term_w - 20, y: term_y + 6, w: 12, h: 12 },
            start_button_rect: Rect { x: 0, y: taskbar_y, w: START_BTN_WIDTH, h: TASKBAR_HEIGHT },
            menu_rects: [
                Rect { x: 0, y: menu_y + 4, w: MENU_WIDTH, h: MENU_ITEM_HEIGHT },
                Rect { x: 0, y: menu_y + 4 + MENU_ITEM_HEIGHT, w: MENU_WIDTH, h: MENU_ITEM_HEIGHT },
                Rect { x: 0, y: menu_y + 4 + 2 * MENU_ITEM_HEIGHT, w: MENU_WIDTH, h: MENU_ITEM_HEIGHT },
            ],
            menu_y,
        };
        assert(d.menu_rects@[0] == menu_row_rect(height as int, 0));
        assert(d.menu_rects@[1] == menu_row_rect(height as int, 1));
        assert(d.menu_rects@[2] == menu_row_rect(height as int, 2));
        assert forall|x: int, y: int| d.fb.on_surface(x, y) implies d.background_cache@[y * width + x]
            == gradient(y, height as int) by {
            lemma_cell_index(x, y, width as int, height as int);
            vstd::arithmetic::div_mod::lemma_fundamental_div_mod_converse(y * width + x, width as int, y, x);
        }
        assert forall|x: int, y: int| 0 <= x < width && 0 <= y < height implies #[trigger] cache_at(
            d.background_cache@,
            width as int,
            x,
            y,
        ) == gradient(y, height as int) by {
            assert(d.fb.on_surface(x, y));
        }
        d
    }

    /// The window below its title bar.
    pub open spec fn body_rect(&self) -> Rect {
        Rect {
            x: self.term_x,
            y: (self.term_y + TITLE_BAR_HEIGHT) as usize,
            w: self.term_w,
            h: (self.term_h - TITLE_BAR_HEIGHT) as usize,
        }
    }

    /// The window title's text, which may run past a narrow window.
    pub open spec fn title_text_box(&self) -> Rect {
        Rect {
            x: (self.term_x + 8) as usize,
            y: (self.term_y + (TITLE_BAR_HEIGHT - CHAR_HEIGHT) / 2) as usize,
            w: (12 * CHAR_WIDTH) as usize,
            h: CHAR_HEIGHT,
        }
    }

    /// The start menu's panel.
    pub open spec fn menu_box(&self) -> Rect {
        Rect { x: 0, y: self.menu_y, w: MENU_WIDTH, h: MENU_HEIGHT }
    }

    /// The pointer is over `r`.
    pub open spec fn hovers(&self, r: Rect) -> bool {
        r.has(self.mouse_x as int, self.mouse_y as int)
    }

    pub open spec fn close_color(&self) -> Color {
        if self.hovers(self.close_button_rect) {
            Color { r: 232, g: 17, b: 35 }
        } else {
            Color { r: 255, g: 80, b: 80 }
        }
    }

    pub open spec fn start_color(&self) -> Color {
        if self.start_menu_open || self.hovers(self.start_button_rect) {
            Color { r: 60, g: 60, b: 65 }
        } else {
            Color { r: 45, g: 45, b: 48 }
        }
    }

    pub open spec fn menu_row_color(&self, i: int) -> Color {
        if self.hovers(self.menu_rects@[i]) {
            Color { r: 55, g: 55, b: 60 }
        } else {
            Color { r: 40, g: 40, b: 45 }
        }
    }

    /// The title bar along the top of the window.
    pub open spec fn title_bar_rect(&self) -> Rect {
        Rect { x: self.term_x, y: self.term_y, w: self.term_w, h: TITLE_BAR_HEIGHT }
    }

    /// Left edge of the version label: eight pixels in from the right edge,
    /// or the left edge on a screen too narrow for that.
    pub open spec fn version_x(&self) -> int {
        if self.screen_w >= 6 * CHAR_WIDTH + 8 {
            self.screen_w - 6 * CHAR_WIDTH - 8
        } else {
            0
        }
    }

    /// Pixel `(px, py)` of `text` drawn from `(x0, y0)` in `fg` on `bg`.
    pub open spec fn label_pixel(
        &self,
        text: Seq<u8>,
        x0: int,
        y0: int,
        px: int,
        py: int,
        fg: Color,
        bg: Color,
    ) -> Color {
        self.glyphs.shade(
            text[(px - x0) / CHAR_WIDTH as int],
            (px - x0) % CHAR_WIDTH as int,
            py - y0,
            fg,
            bg,
        )
    }

    /// The window as drawn over a pixel that showed `under`: the body, the
    /// close button, the title text and the title bar.
    pub open spec fn window_pixel(&self, px: int, py: int, under: Color) -> Color {
        if self.body_rect().has(px, py) {
            Color::spec_terminal_bg()
        } else if self.close_button_rect.has(px, py) {
            self.close_color()
        } else if self.title_text_box().has(px, py) {
            self.label_pixel(
                TITLE_TEXT.spec_bytes(),
                self.title_text_box().x as int,
                self.title_text_box().y as int,
                px,
                py,
                Color::spec_white(),
                Color { r: 50, g: 50, b: 55 },
            )
        } else if self.title_bar_rect().has(px, py) {
            Color { r: 50, g: 50, b: 55 }
        } else {
            under
        }
    }

    /// The taskbar at a pixel of it: the version label, the divider right of
    /// the start button, the start label, the start button, the separator
    /// along the top, and the bar itself.
    pub open spec fn taskbar_pixel(&self, px: int, py: int) -> Color {
        let y = self.screen_h - TASKBAR_HEIGHT;
        let vx = self.version_x();
        if vx <= px < vx + 6 * CHAR_WIDTH && y + 8 <= py < y + 8 + CHAR_HEIGHT {
            self.label_pixel(
                VERSION_LABEL.spec_bytes(),
                vx,
                y + 8,
                px,
                py,
                Color::spec_light_gray(),
                Color { r: 45, g: 45, b: 48 },
            )
        } else if px == START_BTN_WIDTH && y + 4 <= py < y + TASKBAR_HEIGHT - 4 {
            Color { r: 70, g: 70, b: 75 }
        } else if 8 <= px < 8 + 3 * CHAR_WIDTH && y + 8 <= py < y + 8 + CHAR_HEIGHT {
            self.label_pixel(
                START_LABEL.spec_bytes(),
                8,
                y + 8,
                px,
                py,
                Color::spec_cyan(),
                self.start_color(),
            )
        } else if px < START_BTN_WIDTH && y + 1 <= py {
            self.start_color()
        } else if py == y {
            Color { r: 70, g: 70, b: 75 }
        } else {
            Color { r: 45, g: 45, b: 48 }
        }
    }

    /// The label of menu row `i`.
    pub open spec fn menu_label(i: int) -> Seq<u8> {
        if i == 0 {
            MENU_TERMINAL_LABEL.spec_bytes()
        } else if i == 1 {
            MENU_INFO_LABEL.spec_bytes()
        } else {
            MENU_REBOOT_LABEL.spec_bytes()
        }
    }

    /// Menu row `i` at a pixel of it: its label, or its hover colour.
    pub open spec fn menu_row_pixel(&self, i: int, px: int, py: int) -> Color {
        let r = self.menu_rects@[i];
        if 16 <= px < 16 + CHAR_WIDTH * Self::menu_label(i).len() && r.y + 6 <= py < r.y + 6
            + CHAR_HEIGHT {
            self.label_pixel(
                Self::menu_label(i),
                16,
                r.y + 6,
                px,
                py,
                Color::spec_white(),
                self.menu_row_color(i),
            )
        } else {
            self.menu_row_color(i)
        }
    }

    /// The open start menu at a pixel of its panel: a row, the right and top
    /// borders, and the panel.
    pub open spec fn menu_pixel(&self, px: int, py: int) -> Color {
        if self.menu_rects@[0].has(px, py) {
            self.menu_row_pixel(0, px, py)
        } else if self.menu_rects@[1].has(px, py) {
            self.menu_row_pixel(1, px, py)
        } else if self.menu_rects@[2].has(px, py) {
            self.menu_row_pixel(2, px, py)
        } else if px == MENU_WIDTH - 1 || py == self.menu_y {
            Color { r: 70, g: 70, b: 75 }
        } else {
            Color { r: 40, g: 40, b: 45 }
        }
    }

    /// What a full render shows at `(px, py)`: the open menu, the taskbar,
    /// the terminal's grid, the window, and the gradient background, each
    /// over those after it.
    pub open spec fn full_frame_pixel(&self, px: int, py: int) -> Color {
        if self.start_menu_open && self.menu_box().has(px, py) {
            self.menu_pixel(px, py)
        } else if py >= self.screen_h - TASKBAR_HEIGHT {
            self.taskbar_pixel(px, py)
        } else if self.terminal.in_grid(px, py) {
            self.terminal.shown(&self.glyphs, px, py)
        } else {
            self.window_pixel(px, py, gradient(py, self.screen_h as int))
        }
    }

    /// `fb` holds the frame that a full render leaves.
    pub open spec fn shows_full_frame(&self, fb: &Framebuffer) -> bool {
        forall|px: int, py: int| #[trigger]
            fb.on_surface(px, py) ==> fb.pixel_at(px, py) == self.full_frame_pixel(px, py)
    }

    /// The frame a full render leaves does not depend on the surface it
    /// started from.
    pub proof fn lemma_full_frame_ignores_surface(&self, o: &Desktop, f: &Framebuffer)
        requires
            self.same_layout(o),
            self.terminal.same_picture(&o.terminal),
            self.shows_full_frame(f),
        ensures
            o.shows_full_frame(f),
    {
        assert(self.terminal.cells@ == o.terminal.cells@);
        assert(self.terminal.cols == o.terminal.cols && self.terminal.rows == o.terminal.rows);
        assert(self.terminal.cursor_col == o.terminal.cursor_col);
        assert(self.terminal.cursor_row == o.terminal.cursor_row);
        assert forall|px: int, py: int| #[trigger] f.on_surface(px, py) implies f.pixel_at(px, py)
            == o.full_frame_pixel(px, py) by {
            assert(self.full_frame_pixel(px, py) == o.full_frame_pixel(px, py));
        }
    }

    /// Everything but the surface is as in `o`, and the surface keeps its
    /// size, its queue and a wholly dirty region.
    pub open spec fn painted_over(&self, o: &Desktop) -> bool {
        &&& self.wf()
        &&& self.same_layout(o)
        &&& self.terminal == o.terminal
        &&& self.needs_full_redraw == o.needs_full_redraw
        &&& self.fb.width == o.fb.width
        &&& self.fb.height == o.fb.height
        &&& self.fb.pending() == o.fb.pending()
        &&& self.fb.dirty_region() == self.fb.full()
    }

    fn draw_background(&mut self)
        requires
            old(self).wf(),
        ensures
            final(self).painted_over(old(self)),
            final(self).fb.pixels@ == old(self).background_cache@,
    {
        self.fb.load_pixels(&self.background_cache);
    }

    fn draw_terminal_window(&mut self)
        requires
            old(self).wf(),
            old(self).fb.dirty_region() == old(self).fb.full(),
        ensures
            final(self).painted_over(old(self)),
            forall|px: int, py: int| #[trigger]
                final(self).fb.on_surface(px, py) ==> final(self).fb.pixel_at(px, py)
                    == old(self).window_pixel(px, py, old(self).fb.pixel_at(px, py)),
    {
        let ghost f0 = self.fb;
        self.fb.fill_rect(self.term_x, self.term_y, self.term_w, TITLE_BAR_HEIGHT, Color::title_bar());
        proof {
            lemma_span_full(&f0, self.term_x as int, self.term_y as int, self.term_w as int, TITLE_BAR_HEIGHT as int);
        }
        let ghost f1 = self.fb;
        proof {
            reveal_strlit("VOS Terminal");
            assert(TITLE_TEXT@.len() == 12);
            assert(vstd::string::is_ascii(TITLE_TEXT));
            assert(TITLE_TEXT.spec_bytes().len() == 12);
        }
        let title_y = self.term_y + (TITLE_BAR_HEIGHT - CHAR_HEIGHT) / 2;
        self.glyphs.draw_string(&mut self.fb, TITLE_TEXT, self.term_x + 8, title_y, Color::white(), Color::title_bar());
        proof {
            lemma_span_full(&f1, self.term_x + 8, title_y as int, 12 * CHAR_WIDTH as int, CHAR_HEIGHT as int);
        }
        let ghost f2 = self.fb;
        let hover_close = self.close_button_rect.contains(self.mouse_x, self.mouse_y);
        let btn_color = if hover_close {
            Color::bright_red()
        } else {
            Color::red()
        };
        let r = self.close_button_rect;
        self.fb.fill_rect(r.x, r.y, r.w, r.h, btn_color);
        proof {
            lemma_span_full(&f2, r.x as int, r.y as int, r.w as int, r.h as int);
        }
        let ghost f3 = self.fb;
        self.fb.fill_rect(
            self.term_x,
            self.term_y + TITLE_BAR_HEIGHT,
            self.term_w,
            self.term_h - TITLE_BAR_HEIGHT,
            Color::terminal_bg(),
        );
        proof {
            lemma_span_full(
                &f3,
                self.term_x as int,
                self.term_y + TITLE_BAR_HEIGHT,
                self.term_w as int,
                self.term_h - TITLE_BAR_HEIGHT,
            );
            assert forall|px: int, py: int| #[trigger] self.fb.on_surface(px, py) implies self.fb.pixel_at(px, py)
                == old(self).window_pixel(px, py, old(self).fb.pixel_at(px, py)) by {
                assert(f0.on_surface(px, py));
                assert(f1.on_surface(px, py));
                assert(f2.on_surface(px, py));
                assert(f3.on_surface(px, py));
            }
        }
    }

    fn draw_taskbar(&mut self)
        requires
            old(self).wf(),
            old(self).fb.dirty_region() == old(self).fb.full(),
        ensures
            final(self).painted_over(old(self)),
            forall|px: int, py: int| #[trigger]
                final(self).fb.on_surface(px, py) ==> final(self).fb.pixel_at(px, py) == if py
                    >= old(self).screen_h - TASKBAR_HEIGHT {
                    old(self).taskbar_pixel(px, py)
                } else {
                    old(self).fb.pixel_at(px, py)
                },
    {
        let y = self.screen_h - TASKBAR_HEIGHT;
        let ghost f0 = self.fb;
        self.fb.fill_rect(0, y, self.screen_w, TASKBAR_HEIGHT, Color::taskbar());
        proof {
            lemma_span_full(&f0, 0, y as int, self.screen_w as int, TASKBAR_HEIGHT as int);
        }
        let ghost f1 = self.fb;
        self.fb.fill_rect(0, y, self.screen_w, 1, Color::divider());
        proof {
            lemma_span_full(&f1, 0, y as int, self.screen_w as int, 1);
        }
        let ghost f2 = self.fb;
        let hover_start = self.start_button_rect.contains(self.mouse_x, self.mouse_y);
        let btn_bg = if self.start_menu_open || hover_start {
            Color::taskbar_hover()
        } else {
            Color::taskbar()
        };
        self.fb.fill_rect(0, y + 1, START_BTN_WIDTH, TASKBAR_HEIGHT - 1, btn_bg);
        proof {
            lemma_span_full(&f2, 0, y + 1, START_BTN_WIDTH as int, TASKBAR_HEIGHT - 1);
        }
        let ghost f3 = self.fb;
        let label_y = y + (TASKBAR_HEIGHT - CHAR_HEIGHT) / 2;
        proof {
            reveal_strlit("VOS");
            assert(START_LABEL@.len() == 3);
            assert(vstd::string::is_ascii(START_LABEL));
            assert(START_LABEL.spec_bytes().len() == 3);
        }
        self.glyphs.draw_string(&mut self.fb, START_LABEL, 8, label_y, Color::cyan(), btn_bg);
        proof {
            lemma_span_full(&f3, 8, label_y as int, 3 * CHAR_WIDTH as int, CHAR_HEIGHT as int);
        }
        let ghost f4 = self.fb;
        self.fb.fill_rect(START_BTN_WIDTH, y + 4, 1, TASKBAR_HEIGHT - 8, Color::divider());
        proof {
            lemma_span_full(&f4, START_BTN_WIDTH as int, y + 4, 1, TASKBAR_HEIGHT - 8);
        }
        let ghost f5 = self.fb;
        proof {
            reveal_strlit("v0.1.0");
            assert(VERSION_LABEL@.len() == 6);
            assert(vstd::string::is_ascii(VERSION_LABEL));
            assert(VERSION_LABEL.spec_bytes().len() == 6);
        }
        let ver_x = if self.screen_w >= 6 * CHAR_WIDTH + 8 {
            self.screen_w - 6 * CHAR_WIDTH - 8
        } else {
            0
        };
        self.glyphs.draw_string(&mut self.fb, VERSION_LABEL, ver_x, label_y, Color::light_gray(), Color::taskbar());
        proof {
            lemma_span_full(&f5, ver_x as int, label_y as int, 6 * CHAR_WIDTH as int, CHAR_HEIGHT as int);
            assert forall|px: int, py: int| #[trigger] self.fb.on_surface(px, py) implies self.fb.pixel_at(px, py)
                == if py >= old(self).screen_h - TASKBAR_HEIGHT {
                old(self).taskbar_pixel(px, py)
            } else {
                old(self).fb.pixel_at(px, py)
            } by {
                assert(f0.on_surface(px, py));
                assert(f1.on_surface(px, py));
                assert(f2.on_surface(px, py));
                assert(f3.on_surface(px, py));
                assert(f4.on_surface(px, py));
                assert(f5.on_surface(px, py));
            }
        }
    }

    fn draw_menu_item(&mut self, i: usize, label: &str)
        requires
            old(self).wf(),
            old(self).fb.dirty_region() == old(self).fb.full(),
            i < 3,
            label.spec_bytes() == Self::menu_label(i as int),
            label.spec_bytes().len() <= 8,
        ensures
            final(self).painted_over(old(self)),
            forall|px: int, py: int| #[trigger]
                final(self).fb.on_surface(px, py) ==> final(self).fb.pixel_at(px, py) == if old(
                    self,
                ).menu_rects@[i as int].has(px, py) {
                    old(self).menu_row_pixel(i as int, px, py)
                } else {
                    old(self).fb.pixel_at(px, py)
                },
    {
        let r = self.menu_rects[i];
        let hover = r.contains(self.mouse_x, self.mouse_y);
        let bg = if hover {
            Color::menu_hover()
        } else {
            Color::menu_bg()
        };
        let ghost f0 = self.fb;
        self.fb.fill_rect(r.x, r.y, r.w, r.h, bg);
        proof {
            lemma_span_full(&f0, r.x as int, r.y as int, r.w as int, r.h as int);
        }
        let ghost f1 = self.fb;
        let text_y = r.y + (MENU_ITEM_HEIGHT - CHAR_HEIGHT) / 2;
        self.glyphs.draw_string(&mut self.fb, label, 16, text_y, Color::white(), bg);
        proof {
            lemma_span_full(&f1, 16, text_y as int, CHAR_WIDTH * label.spec_bytes().len(), CHAR_HEIGHT as int);
            assert forall|px: int, py: int| #[trigger] self.fb.on_surface(px, py) implies self.fb.pixel_at(px, py)
                == if old(self).menu_rects@[i as int].has(px, py) {
                old(self).menu_row_pixel(i as int, px, py)
            } else {
                old(self).fb.pixel_at(px, py)
            } by {
                assert(f0.on_surface(px, py));
                assert(f1.on_surface(px, py));
            }
        }
    }

    fn draw_start_menu(&mut self)
        requires
            old(self).wf(),
            old(self).fb.dirty_region() == old(self).fb.full(),
        ensures
            final(self).painted_over(old(self)),
            forall|px: int, py: int| #[trigger]
                final(self).fb.on_surface(px, py) ==> final(self).fb.pixel_at(px, py) == if old(
                    self,
                ).menu_box().has(px, py) {
                    old(self).menu_pixel(px, py)
                } else {
                    old(self).fb.pixel_at(px, py)
                },
    {
        let ghost f0 = self.fb;
        self.fb.fill_rect(0, self.menu_y, MENU_WIDTH, MENU_HEIGHT, Color::menu_bg());
        proof {
            lemma_span_full(&f0, 0, self.menu_y as int, MENU_WIDTH as int, MENU_HEIGHT as int);
        }
        let ghost f1 = self.fb;
        self.fb.fill_rect(0, self.menu_y, MENU_WIDTH, 1, Color::divider());
        proof {
            lemma_span_full(&f1, 0, self.menu_y as int, MENU_WIDTH as int, 1);
        }
        let ghost f2 = self.fb;
        self.fb.fill_rect(MENU_WIDTH - 1, self.menu_y, 1, MENU_HEIGHT, Color::divider());
        proof {
            lemma_span_full(&f2, MENU_WIDTH - 1, self.menu_y as int, 1, MENU_HEIGHT as int);
            reveal_strlit("Terminal");
            reveal_strlit("Info");
            reveal_strlit("Reboot");
            assert(MENU_TERMINAL_LABEL@.len() == 8);
            assert(vstd::string::is_ascii(MENU_TERMINAL_LABEL));
            assert(MENU_INFO_LABEL@.len() == 4);
            assert(vstd::string::is_ascii(MENU_INFO_LABEL));
            assert(MENU_REBOOT_LABEL@.len() == 6);
            assert(vstd::string::is_ascii(MENU_REBOOT_LABEL));
        }
        let ghost f3 = self.fb;
        self.draw_menu_item(0, MENU_TERMINAL_LABEL);
        let ghost f4 = self.fb;
        self.draw_menu_item(1, MENU_INFO_LABEL);
        let ghost f5 = self.fb;
        self.draw_menu_item(2, MENU_REBOOT_LABEL);
        proof {
            assert(self.menu_rects@[0] == menu_row_rect(self.screen_h as int, 0));
            assert(self.menu_rects@[1] == menu_row_rect(self.screen_h as int, 1));
            assert(self.menu_rects@[2] == menu_row_rect(self.screen_h as int, 2));
            assert forall|px: int, py: int| #[trigger] self.fb.on_surface(px, py) implies self.fb.pixel_at(px, py)
                == if old(self).menu_box().has(px, py) {
                old(self).menu_pixel(px, py)
            } else {
                old(self).fb.pixel_at(px, py)
            } by {
                assert(f0.on_surface(px, py));
                assert(f1.on_surface(px, py));
                assert(f2.on_surface(px, py));
                assert(f3.on_surface(px, py));
                assert(f4.on_surface(px, py));
                assert(f5.on_surface(px, py));
            }
        }
    }

    /// Repaints everything: background, window, the whole grid, taskbar and,
    /// when open, the start menu; then flushes the whole surface.
    pub fn render_full(&mut self)
        requires
            old(self).wf(),
        ensures
            final(self).wf(),
            final(self).same_layout(old(self)),
            final(self).needs_full_redraw == old(self).needs_full_redraw,
            final(self).terminal@ == (GridView {
                dirty: Seq::new(old(self).terminal@.cols * old(self).terminal@.rows, |i: int| false),
                ..old(self).terminal@
            }),
            final(self).fb.dirty_region() == (Rect { x: 0, y: 0, w: 0, h: 0 }),
            final(self).fb.pending() == old(self).fb.pending().push(old(self).fb.full()),
            old(self).shows_full_frame(&final(self).fb),
    {
        let ghost d0 = *self;
        self.draw_background();
        let ghost f1 = self.fb;
        self.draw_terminal_window();
        let ghost f2 = self.fb;
        self.terminal.mark_all_dirty();
        let ghost t = self.terminal;
        self.terminal.render(&mut self.fb, &self.glyphs);
        proof {
            t.lemma_repaint_on_surface(&f2);
            crate::gop::lemma_span_within_full(&f2, span_all(t.repaint_boxes(f2.width as int, f2.height as int)));
            crate::gop::lemma_span_within_full(&f2, t.bar_box(f2.width as int, f2.height as int));
        }
        let ghost f3 = self.fb;
        self.draw_taskbar();
        let ghost f4 = self.fb;
        if self.start_menu_open {
            self.draw_start_menu();
        }
        let ghost f5 = self.fb;
        self.fb.flush();
        proof {
            assert((d0.term_h - TITLE_BAR_HEIGHT) as int / CHAR_HEIGHT as int * CHAR_HEIGHT as int
                <= d0.term_h - TITLE_BAR_HEIGHT);
            assert(d0.term_w as int / CHAR_WIDTH as int * CHAR_WIDTH as int <= d0.term_w);
            assert forall|px: int, py: int| #[trigger] self.fb.on_surface(px, py) implies self.fb.pixel_at(px, py)
                == d0.full_frame_pixel(px, py) by {
                assert(f1.on_surface(px, py));
                assert(f2.on_surface(px, py));
                assert(f3.on_surface(px, py));
                assert(f4.on_surface(px, py));
                assert(f5.on_surface(px, py));
                lemma_cell_index(px, py, d0.screen_w as int, d0.screen_h as int);
                assert(cache_at(d0.background_cache@, d0.screen_w as int, px, py) == gradient(
                    py,
                    d0.screen_h as int,
                ));
                assert(f1.pixel_at(px, py) == gradient(py, d0.screen_h as int));
                if d0.terminal.in_grid(px, py) {
                    let r = (py - d0.terminal.origin_y) / CHAR_HEIGHT as int;
                    let c = (px - d0.terminal.origin_x) / CHAR_WIDTH as int;
                    lemma_cell_index(c, r, d0.terminal.cols as int, d0.terminal.rows as int);
                    assert(t.dirty@[d0.terminal.cell_at(px, py)]);
                    assert(f3.pixel_at(px, py) == d0.terminal.shown(&d0.glyphs, px, py));
                    assert(py < d0.screen_h - TASKBAR_HEIGHT);
                } else {
                    assert(!d0.terminal.on_bar(px, py));
                    assert(f3.pixel_at(px, py) == f2.pixel_at(px, py));
                }
            }
        }
    }

    /// Draws a frame: a full repaint when one is due, which clears the flag;
    /// otherwise only the terminal's dirty cells and its cursor bar. Either
    /// way the dirty region is then flushed.
    pub fn render(&mut self)
        requires
            old(self).wf(),
        ensures
            final(self).wf(),
            final(self).same_layout(old(self)),
            !final(self).needs_full_redraw,
            final(self).terminal@ == (GridView {
                dirty: Seq::new(old(self).terminal@.cols * old(self).terminal@.rows, |i: int| false),
                ..old(self).terminal@
            }),
            final(self).fb.dirty_region() == (Rect { x: 0, y: 0, w: 0, h: 0 }),
            old(self).needs_full_redraw ==> {
                &&& final(self).fb.pending() == old(self).fb.pending().push(old(self).fb.full())
                &&& old(self).shows_full_frame(&final(self).fb)
            },
            !old(self).needs_full_redraw ==> {
                let w = old(self).fb.width as int;
                let h = old(self).fb.height as int;
                let sent = span(
                    span(old(self).fb.dirty_region(), span_all(old(self).terminal.repaint_boxes(w, h))),
                    old(self).terminal.bar_box(w, h),
                );
                &&& final(self).fb.pending() == if sent.is_empty() {
                    old(self).fb.pending()
                } else {
                    old(self).fb.pending().push(sent)
                }
                &&& forall|px: int, py: int| #[trigger]
                    final(self).fb.on_surface(px, py) ==> final(self).fb.pixel_at(px, py)
                        == old(self).terminal.painted(&old(self).glyphs, px, py, old(self).fb.pixel_at(px, py))
            },
    {
        if self.needs_full_redraw {
            self.render_full();
            self.needs_full_redraw = false;
        } else {
            self.terminal.render(&mut self.fb, &self.glyphs);
            let ghost f = self.fb;
            self.fb.flush();
            assert forall|px: int, py: int| #[trigger] self.fb.on_surface(px, py) implies self.fb.pixel_at(px, py)
                == old(self).terminal.painted(&old(self).glyphs, px, py, old(self).fb.pixel_at(px, py)) by {
                assert(f.on_surface(px, py));
            }
        }
    }

    /// The action of a click at `(x, y)`: with the menu open, a menu row's
    /// action, or `NoAction` off both the menu rows and the start button;
    /// otherwise `ToggleStartMenu` on the start button, `CloseTerminal` on
    /// the close button, and `NoAction` elsewhere.
    pub open spec fn click_action(&self, x: int, y: int) -> ClickAction {
        if self.start_menu_open && self.menu_rects@[0].has(x, y) {
            menu_action(0)
        } else if self.start_menu_open && self.menu_rects@[1].has(x, y) {
            menu_action(1)
        } else if self.start_menu_open && self.menu_rects@[2].has(x, y) {
            menu_action(2)
        } else if self.start_menu_open && !self.start_button_rect.has(x, y) {
            ClickAction::NoAction
        } else if self.start_button_rect.has(x, y) {
            ClickAction::ToggleStartMenu
        } else if self.close_button_rect.has(x, y) {
            ClickAction::CloseTerminal
        } else {
            ClickAction::NoAction
        }
    }

    /// Whether the start menu is open after a click at `(x, y)`.
    pub open spec fn menu_open_after(&self, x: int, y: int) -> bool {
        if self.start_menu_open && !self.start_button_rect.has(x, y) {
            false
        } else if self.start_button_rect.has(x, y) {
            !self.start_menu_open
        } else {
            self.start_menu_open
        }
    }

    /// Whether a click at `(x, y)` calls for a full redraw: it does whenever
    /// it changes the menu.
    pub open spec fn click_redraws(&self, x: int, y: int) -> bool {
        self.start_menu_open || self.start_button_rect.has(x, y)
    }

    /// The fields other than the menu and redraw flags are those of `o`.
    pub open spec fn same_but_flags(&self, o: &Desktop) -> bool {
        &&& self.fb == o.fb
        &&& self.terminal == o.terminal
        &&& self.glyphs == o.glyphs
        &&& self.screen_w == o.screen_w
        &&& self.screen_h == o.screen_h
        &&& self.term_x == o.term_x
        &&& self.term_y == o.term_y
        &&& self.term_w == o.term_w
        &&& self.term_h == o.term_h
        &&& self.background_cache == o.background_cache
        &&& self.mouse_x == o.mouse_x
        &&& self.mouse_y == o.mouse_y
        &&& self.close_button_rect == o.close_button_rect
        &&& self.start_button_rect == o.start_button_rect
        &&& self.menu_rects == o.menu_rects
        &&& self.menu_y == o.menu_y
    }

    /// Dispatches a click at `(x, y)`; see `click_action`. A click that
    /// closes or toggles the menu also asks for a full redraw.
    pub fn handle_click(&mut self, x: i32, y: i32) -> (r: ClickAction)
        requires
            old(self).wf(),
        ensures
            final(self).wf(),
            final(self).same_but_flags(old(self)),
            r == old(self).click_action(x as int, y as int),
            final(self).start_menu_open == old(self).menu_open_after(x as int, y as int),
            final(self).needs_full_redraw == (old(self).needs_full_redraw || old(self).click_redraws(
                x as int,
                y as int,
            )),
    {
        if self.start_menu_open {
            let mut i: usize = 0;
            while i < 3
                invariant
                    i <= 3,
                    *self == *old(self),
                    self.wf(),
                    self.start_menu_open,
                    forall|j: int| 0 <= j < i ==> !self.menu_rects@[j].has(x as int, y as int),
                decreases 3 - i,
            {
                if self.menu_rects[i].contains(x, y) {
                    self.start_menu_open = false;
                    self.needs_full_redraw = true;
                    proof {
                        if i > 0 {
                            assert(!self.menu_rects@[0].has(x as int, y as int));
                        }
                        if i > 1 {
                            assert(!self.menu_rects@[1].has(x as int, y as int));
                        }
                    }
                    return if i == 0 {
                        ClickAction::MenuTerminal
                    } else if i == 1 {
                        ClickAction::MenuInfo
                    } else {
                        ClickAction::MenuReboot
                    };
                }
                i = i + 1;
            }
            if !self.start_button_rect.contains(x, y) {
                self.start_menu_open = false;
                self.needs_full_redraw = true;
                return ClickAction::NoAction;
            }
        }
        if self.start_button_rect.contains(x, y) {
            self.start_menu_open = !self.start_menu_open;
            self.needs_full_redraw = true;
            return ClickAction::ToggleStartMenu;
        }
        if self.close_button_rect.contains(x, y) {
            return ClickAction::CloseTerminal;
        }
        ClickAction::NoAction
    }
}

/// With the start menu open, a click on menu row `i` gives that row's action
/// and closes the menu; a click on neither a menu row nor the start button
/// gives `NoAction` and closes the menu. Both ask for a full redraw.
pub proof fn lemma_open_menu_click(d: &Desktop, x: int, y: int)
    requires
        d.wf(),
        d.start_menu_open,
    ensures
        forall|i: int|
            0 <= i < 3 && #[trigger] menu_row_rect(d.screen_h as int, i).has(x, y) ==> {
                &&& d.click_action(x, y) == menu_action(i)
                &&& !d.menu_open_after(x, y)
                &&& d.click_redraws(x, y)
            },
        (forall|i: int| 0 <= i < 3 ==> !(#[trigger] menu_row_rect(d.screen_h as int, i).has(x, y)))
            && !start_rect(d.screen_h as int).has(x, y) ==> {
            &&& d.click_action(x, y) == ClickAction::NoAction
            &&& !d.menu_open_after(x, y)
            &&& d.click_redraws(x, y)
        },
{
    assert(d.menu_rects@[0] == menu_row_rect(d.screen_h as int, 0));
    assert(d.menu_rects@[1] == menu_row_rect(d.screen_h as int, 1));
    assert(d.menu_rects@[2] == menu_row_rect(d.screen_h as int, 2));
}

/// A click on the start button gives `ToggleStartMenu` and flips whether
/// the menu is open, whether it was open or not, and asks for a full redraw.
pub proof fn lemma_start_button_toggles(d: &Desktop, x: int, y: int)
    requires
        d.wf(),
        start_rect(d.screen_h as int).has(x, y),
    ensures
        d.click_action(x, y) == ClickAction::ToggleStartMenu,
        d.menu_open_after(x, y) == !d.start_menu_open,
        d.click_redraws(x, y),
{
    assert(d.menu_rects@[0] == menu_row_rect(d.screen_h as int, 0));
    assert(d.menu_rects@[1] == menu_row_rect(d.screen_h as int, 1));
    assert(d.menu_rects@[2] == menu_row_rect(d.screen_h as int, 2));
}

} // verus!
