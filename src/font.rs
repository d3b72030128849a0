//! The glyph table: a fixed-size monochrome bitmap for each byte value, and
//! drawing of characters and strings with it.

use vstd::prelude::*;
use vstd::string::StringSliceAdditionalSpecFns;
use crate::gop::{clip, lemma_span_assoc, span, Color, Framebuffer};

verus! {

pub const CHAR_WIDTH: usize = 8;

pub const CHAR_HEIGHT: usize = 16;

/// Number of byte values that have a glyph.
pub const GLYPH_COUNT: usize = 256;

/// `CHAR_HEIGHT` bitmap rows for each byte value, one byte per row with the
/// leftmost pixel in the most significant bit.
pub struct GlyphTable {
    pub rows: Vec<u8>,
}

impl GlyphTable {
    pub open spec fn wf(&self) -> bool {
        self.rows@.len() == GLYPH_COUNT * CHAR_HEIGHT
    }

    /// Whether pixel `(dx, dy)` of the glyph of `ch` is set.
    pub open spec fn lit(&self, ch: u8, dx: int, dy: int) -> bool {
        self.rows@[ch * CHAR_HEIGHT + dy] & (0x80u8 >> (dx as u8)) != 0
    }

    /// The colour of pixel `(dx, dy)` of `ch` drawn in `fg` on `bg`.
    pub open spec fn shade(&self, ch: u8, dx: int, dy: int, fg: Color, bg: Color) -> Color {
        if self.lit(ch, dx, dy) {
            fg
        } else {
            bg
        }
    }

    /// A table over the given bitmap rows, if there are exactly enough of them.
    pub fn from_rows(rows: Vec<u8>) -> (t: Option<GlyphTable>)
        ensures
            t is Some <==> rows@.len() == GLYPH_COUNT * CHAR_HEIGHT,
            t is Some ==> t->0.rows@ == rows@,
    {
        if rows.len() == GLYPH_COUNT * CHAR_HEIGHT {
            Some(GlyphTable { rows })
        } else {
            None
        }
    }

    fn pixel(&self, ch: u8, dx: usize, dy: usize, fg: Color, bg: Color) -> (c: Color)
        requires
            self.wf(),
            dx < CHAR_WIDTH,
            dy < CHAR_HEIGHT,
        ensures
            c == self.shade(ch, dx as int, dy as int, fg, bg),
    {
        let bits = self.rows[ch as usize * CHAR_HEIGHT + dy];
        if bits & (0x80u8 >> (dx as u8)) != 0 {
            fg
        } else {
            bg
        }
    }

    /// Paints the glyph of `ch` with its top-left corner at `(x, y)`, clipped
    /// to the surface, and marks the clipped box dirty.
    pub fn draw_char(
        &self,
        fb: &mut Framebuffer,
        ch: u8,
        x: usize,
        y: usize,
        fg: Color,
        bg: Color,
    )
        requires
            self.wf(),
            old(fb).wf(),
            x + CHAR_WIDTH <= usize::MAX,
            y + CHAR_HEIGHT <= usize::MAX,
        ensures
            final(fb).wf(),
            final(fb).width == old(fb).width,
            final(fb).height == old(fb).height,
            final(fb).pending() == old(fb).pending(),
            final(fb).dirty_region() == span(
                old(fb).dirty_region(),
                clip(
                    x as int,
                    y as int,
                    CHAR_WIDTH as int,
                    CHAR_HEIGHT as int,
                    old(fb).width as int,
                    old(fb).height as int,
                ),
            ),
            forall|px: int, py: int| #[trigger]
                final(fb).on_surface(px, py) ==> final(fb).pixel_at(px, py) == if x <= px < x
                    + CHAR_WIDTH && y <= py < y + CHAR_HEIGHT {
                    self.shade(ch, px - x, py - y, fg, bg)
                } else {
                    old(fb).pixel_at(px, py)
                },
    {
        fb.mark_dirty(x, y, CHAR_WIDTH, CHAR_HEIGHT);
        let ghost dirty = fb.dirty_region();
        let mut dy: usize = 0;
        while dy < CHAR_HEIGHT
            invariant
                self.wf(),
                fb.wf(),
                fb.width == old(fb).width,
                fb.height == old(fb).height,
                fb.pending() == old(fb).pending(),
                fb.dirty_region() == dirty,
                x + CHAR_WIDTH <= usize::MAX,
                y + CHAR_HEIGHT <= usize::MAX,
                dy <= CHAR_HEIGHT,
                forall|px: int, py: int| #[trigger]
                    fb.on_surface(px, py) ==> fb.pixel_at(px, py) == if x <= px < x + CHAR_WIDTH
                        && y <= py < y + dy {
                        self.shade(ch, px - x, py - y, fg, bg)
                    } else {
                        old(fb).pixel_at(px, py)
                    },
            decreases CHAR_HEIGHT - dy,
        {
            let mut dx: usize = 0;
            while dx < CHAR_WIDTH
                invariant
                    self.wf(),
                    fb.wf(),
                    fb.width == old(fb).width,
                    fb.height == old(fb).height,
                    fb.pending() == old(fb).pending(),
                    fb.dirty_region() == dirty,
                    x + CHAR_WIDTH <= usize::MAX,
                    y + CHAR_HEIGHT <= usize::MAX,
                    dy < CHAR_HEIGHT,
                    dx <= CHAR_WIDTH,
                    forall|px: int, py: int| #[trigger]
                        fb.on_surface(px, py) ==> fb.pixel_at(px, py) == if x <= px < x
                            + CHAR_WIDTH && (y <= py < y + dy || (py == y + dy && px < x + dx)) {
                            self.shade(ch, px - x, py - y, fg, bg)
                        } else {
                            old(fb).pixel_at(px, py)
                        },
                decreases CHAR_WIDTH - dx,
            {
                let c = self.pixel(ch, dx, dy, fg, bg);
                let ghost prev = *fb;
                fb.set_pixel_raw(x + dx, y + dy, c);
                assert forall|px: int, py: int| #[trigger]
                    fb.on_surface(px, py) implies fb.pixel_at(px, py) == if x <= px < x
                        + CHAR_WIDTH && (y <= py < y + dy || (py == y + dy && px < x + dx + 1)) {
                        self.shade(ch, px - x, py - y, fg, bg)
                    } else {
                        old(fb).pixel_at(px, py)
                    } by {
                    assert(prev.on_surface(px, py));
                }
                dx = dx + 1;
            }
            dy = dy + 1;
        }
    }

    /// Paints the bytes of `s` left to right from `(x, y)`, one glyph per
    /// `CHAR_WIDTH` columns, clipped to the surface, and marks the clipped
    /// text box dirty.
    pub fn draw_string(
        &self,
        fb: &mut Framebuffer,
        s: &str,
        x: usize,
        y: usize,
        fg: Color,
        bg: Color,
    )
        requires
            self.wf(),
            old(fb).wf(),
            x + CHAR_WIDTH * s.spec_bytes().len() + CHAR_WIDTH <= usize::MAX,
            y + CHAR_HEIGHT <= usize::MAX,
        ensures
            final(fb).wf(),
            final(fb).width == old(fb).width,
            final(fb).height == old(fb).height,
            final(fb).pending() == old(fb).pending(),
            final(fb).dirty_region() == span(
                old(fb).dirty_region(),
                clip(
                    x as int,
                    y as int,
                    CHAR_WIDTH * s.spec_bytes().len(),
                    CHAR_HEIGHT as int,
                    old(fb).width as int,
                    old(fb).height as int,
                ),
            ),
            forall|px: int, py: int| #[trigger]
                final(fb).on_surface(px, py) ==> final(fb).pixel_at(px, py) == if x <= px < x
                    + CHAR_WIDTH * s.spec_bytes().len() && y <= py < y + CHAR_HEIGHT {
                    self.shade(
                        s.spec_bytes()[(px - x) / CHAR_WIDTH as int],
                        (px - x) % CHAR_WIDTH as int,
                        py - y,
                        fg,
                        bg,
                    )
                } else {
                    old(fb).pixel_at(px, py)
                },
    {
        let bytes = s.as_bytes();
        let n = bytes.len();
        proof {
            fb.lemma_wf_bounds();
        }
        let mut i: usize = 0;
        let mut cx: usize = x;
        while i < n
            invariant
                self.wf(),
                fb.wf(),
                bytes@ == s.spec_bytes(),
                old(fb).dirty_region().fits(),
                n == bytes@.len(),
                i <= n,
                cx == x + CHAR_WIDTH * i,
                x + CHAR_WIDTH * n + CHAR_WIDTH <= usize::MAX,
                y + CHAR_HEIGHT <= usize::MAX,
                fb.width == old(fb).width,
                fb.height == old(fb).height,
                fb.pending() == old(fb).pending(),
                fb.dirty_region() == span(
                    old(fb).dirty_region(),
                    clip(
                        x as int,
                        y as int,
                        CHAR_WIDTH * i,
                        CHAR_HEIGHT as int,
                        old(fb).width as int,
                        old(fb).height as int,
                    ),
                ),
                forall|px: int, py: int| #[trigger]
                    fb.on_surface(px, py) ==> fb.pixel_at(px, py) == if x <= px < x + CHAR_WIDTH
                        * i && y <= py < y + CHAR_HEIGHT {
                        self.shade(
                            bytes@[(px - x) / CHAR_WIDTH as int],
                            (px - x) % CHAR_WIDTH as int,
                            py - y,
                            fg,
                            bg,
                        )
                    } else {
                        old(fb).pixel_at(px, py)
                    },
            decreases n - i,
        {
            let ghost prev = *fb;
            self.draw_char(fb, bytes[i], cx, y, fg, bg);
            proof {
                let w = old(fb).width as int;
                let h = old(fb).height as int;
                lemma_span_assoc(
                    old(fb).dirty_region(),
                    clip(x as int, y as int, CHAR_WIDTH * i, CHAR_HEIGHT as int, w, h),
                    clip(cx as int, y as int, CHAR_WIDTH as int, CHAR_HEIGHT as int, w, h),
                );
                assert forall|px: int, py: int| #[trigger]
                    fb.on_surface(px, py) implies fb.pixel_at(px, py) == if x <= px < x
                        + CHAR_WIDTH * (i + 1) && y <= py < y + CHAR_HEIGHT {
                        self.shade(
                            bytes@[(px - x) / CHAR_WIDTH as int],
                            (px - x) % CHAR_WIDTH as int,
                            py - y,
                            fg,
                            bg,
                        )
                    } else {
                        old(fb).pixel_at(px, py)
                    } by {
                    assert(prev.on_surface(px, py));
                }
            }
            i = i + 1;
            cx = cx + CHAR_WIDTH;
        }
    }
}

} // verus!
