//! The mouse pointer: its position from relative motion samples, click
//! detection, and the arrow drawn over the surface with the pixels beneath it
//! saved so that it can be removed without a trace.

use vstd::prelude::*;
use crate::gop::{clip, span, Color, Framebuffer, Rect};

verus! {

pub const CURSOR_WIDTH: usize = 12;

pub const CURSOR_HEIGHT: usize = 19;

/// Columns of the arrow that hold a painted pixel: the last column of the
/// bitmap is transparent on every row.
pub const ARROW_WIDTH: usize = 11;

/// Pixels in the save buffer: the largest footprint of the arrow.
pub const CURSOR_AREA: usize = 228;

/// Row `dy` of the arrow as two masks, outline then fill; bit `dx` stands
/// for column `dx`.
pub open spec fn arrow_masks(dy: int) -> (u16, u16) {
    if dy == 0 {
        (0x001, 0x000)
    } else if dy == 1 {
        (0x003, 0x000)
    } else if dy == 2 {
        (0x005, 0x002)
    } else if dy == 3 {
        (0x009, 0x006)
    } else if dy == 4 {
        (0x011, 0x00e)
    } else if dy == 5 {
        (0x021, 0x01e)
    } else if dy == 6 {
        (0x041, 0x03e)
    } else if dy == 7 {
        (0x081, 0x07e)
    } else if dy == 8 {
        (0x101, 0x0fe)
    } else if dy == 9 {
        (0x201, 0x1fe)
    } else if dy == 10 {
        (0x7c1, 0x03e)
    } else if dy == 11 {
        (0x049, 0x036)
    } else if dy == 12 {
        (0x095, 0x062)
    } else if dy == 13 {
        (0x093, 0x060)
    } else if dy == 14 {
        (0x121, 0x0c0)
    } else if dy == 15 {
        (0x120, 0x0c0)
    } else if dy == 16 {
        (0x240, 0x180)
    } else if dy == 17 {
        (0x140, 0x080)
    } else if dy == 18 {
        (0x080, 0x000)
    } else {
        (0, 0)
    }
}

/// Pixel `(dx, dy)` of the arrow: 0 transparent, 1 black outline, 2 white fill.
pub open spec fn arrow_shape(dy: int, dx: int) -> u8 {
    let (outline, fill) = arrow_masks(dy);
    if (outline >> (dx as u16)) & 1u16 == 1u16 {
        1
    } else if (fill >> (dx as u16)) & 1u16 == 1u16 {
        2
    } else {
        0
    }
}

fn arrow_row(dy: usize) -> (m: (u16, u16))
    ensures
        m == arrow_masks(dy as int),
{
    if dy == 0 {
        (0x001, 0x000)
    } else if dy == 1 {
        (0x003, 0x000)
    } else if dy == 2 {
        (0x005, 0x002)
    } else if dy == 3 {
        (0x009, 0x006)
    } else if dy == 4 {
        (0x011, 0x00e)
    } else if dy == 5 {
        (0x021, 0x01e)
    } else if dy == 6 {
        (0x041, 0x03e)
    } else if dy == 7 {
        (0x081, 0x07e)
    } else if dy == 8 {
        (0x101, 0x0fe)
    } else if dy == 9 {
        (0x201, 0x1fe)
    } else if dy == 10 {
        (0x7c1, 0x03e)
    } else if dy == 11 {
        (0x049, 0x036)
    } else if dy == 12 {
        (0x095, 0x062)
    } else if dy == 13 {
        (0x093, 0x060)
    } else if dy == 14 {
        (0x121, 0x0c0)
    } else if dy == 15 {
        (0x120, 0x0c0)
    } else if dy == 16 {
        (0x240, 0x180)
    } else if dy == 17 {
        (0x140, 0x080)
    } else if dy == 18 {
        (0x080, 0x000)
    } else {
        (0, 0)
    }
}

fn arrow_shape_at(dy: usize, dx: usize) -> (k: u8)
    requires
        dx < CURSOR_WIDTH,
    ensures
        k == arrow_shape(dy as int, dx as int),
{
    let (outline, fill) = arrow_row(dy);
    if (outline >> (dx as u16)) & 1u16 == 1u16 {
        1
    } else if (fill >> (dx as u16)) & 1u16 == 1u16 {
        2
    } else {
        0
    }
}

/// `a / b` rounded toward zero, as Rust's integer division rounds.
pub open spec fn div_toward_zero(a: int, b: int) -> int {
    if a >= 0 {
        a / b
    } else {
        -((-a) / b)
    }
}

pub open spec fn clamp(v: int, lo: int, hi: int) -> int {
    if v < lo {
        lo
    } else if v > hi {
        hi
    } else {
        v
    }
}

/// What the pixel under `(px, py)` shows after a saved region is put back:
/// the saved pixel inside `region`, `under` elsewhere.
pub open spec fn restored(saved: Seq<Color>, region: Rect, px: int, py: int, under: Color) -> Color {
    if region.has(px, py) {
        saved[(py - region.y) * CURSOR_WIDTH + (px - region.x)]
    } else {
        under
    }
}

/// One reading of the pointer device: motion since the last reading and
/// the state of the two buttons.
#[derive(Clone, Copy, Debug, PartialEq, Eq, Structural)]
pub struct PointerSample {
    pub dx: i32,
    pub dy: i32,
    pub left: bool,
    pub right: bool,
}

pub struct MouseState {
    pub x: i32,
    pub y: i32,
    pub left_button: bool,
    pub right_button: bool,
    pub left_clicked: bool,
    pub screen_w: i32,
    pub screen_h: i32,
    pub save_buffer: Vec<Color>,
    pub save_x: usize,
    pub save_y: usize,
    pub save_w: usize,
    pub save_h: usize,
    pub visible: bool,
    pub sensitivity: i32,
}

impl MouseState {
    pub open spec fn wf(&self) -> bool {
        &&& self.screen_w >= 1
        &&& self.screen_h >= 1
        &&& 0 <= self.x < self.screen_w
        &&& 0 <= self.y < self.screen_h
        &&& self.sensitivity > 0
        &&& self.save_buffer@.len() == CURSOR_AREA
        &&& self.save_w <= CURSOR_WIDTH
        &&& self.save_h <= CURSOR_HEIGHT
        &&& self.save_x + self.save_w <= usize::MAX
        &&& self.save_y + self.save_h <= usize::MAX
    }

    /// The region whose pixels the save buffer holds.
    pub open spec fn saved_region(&self) -> Rect {
        Rect { x: self.save_x, y: self.save_y, w: self.save_w, h: self.save_h }
    }

    /// The part of the arrow's painted columns at the current position that
    /// lies on a `width` by `height` surface.
    pub open spec fn footprint(&self, width: int, height: int) -> Rect {
        clip(self.x as int, self.y as int, ARROW_WIDTH as int, CURSOR_HEIGHT as int, width, height)
    }

    /// The save buffer after a snapshot of the footprint on `fb`.
    pub open spec fn snapshot(&self, fb: &Framebuffer) -> Seq<Color> {
        let r = self.footprint(fb.width as int, fb.height as int);
        Seq::new(
            CURSOR_AREA as nat,
            |i: int|
                if i % (CURSOR_WIDTH as int) < r.w && i / (CURSOR_WIDTH as int) < r.h {
                    fb.pixel_at(r.x + i % CURSOR_WIDTH as int, r.y + i / CURSOR_WIDTH as int)
                } else {
                    self.save_buffer@[i]
                },
        )
    }

    /// The pixel at `(px, py)` of `fb` with the arrow drawn over it.
    pub open spec fn overlay(&self, fb: &Framebuffer, px: int, py: int) -> Color {
        if self.footprint(fb.width as int, fb.height as int).has(px, py) {
            let k = arrow_shape(py - self.y, px - self.x);
            if k == 1 {
                Color::spec_black()
            } else if k == 2 {
                Color::spec_white()
            } else {
                fb.pixel_at(px, py)
            }
        } else {
            fb.pixel_at(px, py)
        }
    }

    /// A hidden pointer in the middle of a `screen_w` by `screen_h` screen.
    pub fn new(screen_w: usize, screen_h: usize) -> (m: MouseState)
        requires
            1 <= screen_w <= i32::MAX,
            1 <= screen_h <= i32::MAX,
        ensures
            m.wf(),
            m.x == screen_w / 2,
            m.y == screen_h / 2,
            m.screen_w == screen_w,
            m.screen_h == screen_h,
            !m.left_button && !m.right_button && !m.left_clicked,
            !m.visible,
            m.saved_region() == (Rect { x: 0, y: 0, w: 0, h: 0 }),
            m.sensitivity == 1000,
    {
        MouseState {
            x: (screen_w / 2) as i32,
            y: (screen_h / 2) as i32,
            left_button: false,
            right_button: false,
            left_clicked: false,
            screen_w: screen_w as i32,
            screen_h: screen_h as i32,
            save_buffer: crate::gop::vec_filled(Color::black(), CURSOR_AREA),
            save_x: 0,
            save_y: 0,
            save_w: 0,
            save_h: 0,
            visible: false,
            sensitivity: 1000,
        }
    }

    /// Moves by the sample's motion divided by the sensitivity (rounded
    /// toward zero), clamped to the screen, and takes its buttons; a left
    /// press that was not down before is a click.
    pub fn update(&mut self, state: &PointerSample)
        requires
            old(self).wf(),
        ensures
            final(self).wf(),
            final(self).x == old(self).next_x(state),
            final(self).y == old(self).next_y(state),
            final(self).left_button == state.left,
            final(self).right_button == state.right,
            final(self).left_clicked == (state.left && !old(self).left_button),
            final(self).screen_w == old(self).screen_w,
            final(self).screen_h == old(self).screen_h,
            final(self).sensitivity == old(self).sensitivity,
            final(self).visible == old(self).visible,
            final(self).save_buffer == old(self).save_buffer,
            final(self).saved_region() == old(self).saved_region(),
    {
        let prev_left = self.left_button;
        let s = self.sensitivity as i64;
        let dx: i64 = if state.dx >= 0 {
            state.dx as i64 / s
        } else {
            -((-(state.dx as i64)) / s)
        };
        let dy: i64 = if state.dy >= 0 {
            state.dy as i64 / s
        } else {
            -((-(state.dy as i64)) / s)
        };
        let nx = self.x as i64 + dx;
        let ny = self.y as i64 + dy;
        let max_x = self.screen_w as i64 - 1;
        let max_y = self.screen_h as i64 - 1;
        self.x = if nx < 0 {
            0
        } else if nx > max_x {
            max_x as i32
        } else {
            nx as i32
        };
        self.y = if ny < 0 {
            0
        } else if ny > max_y {
            max_y as i32
        } else {
            ny as i32
        };
        self.left_button = state.left;
        self.right_button = state.right;
        self.left_clicked = self.left_button && !prev_left;
    }

    /// Takes `val` as the motion divisor when it is positive.
    pub fn set_sensitivity(&mut self, val: i32)
        requires
            old(self).wf(),
        ensures
            final(self).wf(),
            final(self).sensitivity == if val > 0 {
                val
            } else {
                old(self).sensitivity
            },
            final(self).x == old(self).x,
            final(self).y == old(self).y,
            final(self).left_button == old(self).left_button,
            final(self).right_button == old(self).right_button,
            final(self).left_clicked == old(self).left_clicked,
            final(self).screen_w == old(self).screen_w,
            final(self).screen_h == old(self).screen_h,
            final(self).visible == old(self).visible,
            final(self).save_buffer == old(self).save_buffer,
            final(self).saved_region() == old(self).saved_region(),
    {
        if val > 0 {
            self.sensitivity = val;
        }
    }

    /// The pointer is not where it was.
    pub fn moved(&self, old_x: i32, old_y: i32) -> (r: bool)
        ensures
            r == (self.x != old_x || self.y != old_y),
    {
        self.x != old_x || self.y != old_y
    }
    /// Where `update` with sample `s` puts the pointer, across.
    pub open spec fn next_x(&self, s: &PointerSample) -> int {
        clamp(self.x + div_toward_zero(s.dx as int, self.sensitivity as int), 0, self.screen_w - 1)
    }

    /// Where `update` with sample `s` puts the pointer, down.
    pub open spec fn next_y(&self, s: &PointerSample) -> int {
        clamp(self.y + div_toward_zero(s.dy as int, self.sensitivity as int), 0, self.screen_h - 1)
    }

    /// The fields that say where the pointer is and how it moves.
    pub open spec fn same_pointer(&self, o: &MouseState) -> bool {
        &&& self.x == o.x
        &&& self.y == o.y
        &&& self.left_button == o.left_button
        &&& self.right_button == o.right_button
        &&& self.left_clicked == o.left_clicked
        &&& self.screen_w == o.screen_w
        &&& self.screen_h == o.screen_h
        &&& self.sensitivity == o.sensitivity
    }

    /// Saves the pixels under the arrow's footprint at the current position,
    /// paints the arrow's outline and fill over them, marks the footprint
    /// dirty, and records the arrow as visible. Does nothing when no part of
    /// the arrow is on the surface.
    pub fn draw_cursor(&mut self, fb: &mut Framebuffer)
        requires
            old(self).wf(),
            old(fb).wf(),
        ensures
            final(self).wf(),
            final(self).same_pointer(old(self)),
            final(fb).wf(),
            final(fb).width == old(fb).width,
            final(fb).height == old(fb).height,
            final(fb).pending() == old(fb).pending(),
            ({
                let r = old(self).footprint(old(fb).width as int, old(fb).height as int);
                if r.is_empty() {
                    &&& *final(fb) == *old(fb)
                    &&& *final(self) == *old(self)
                } else {
                    &&& final(self).visible
                    &&& final(self).saved_region() == r
                    &&& final(self).save_buffer@ == old(self).snapshot(old(fb))
                    &&& final(fb).dirty_region() == span(old(fb).dirty_region(), r)
                    &&& forall|px: int, py: int| #[trigger]
                        final(fb).on_surface(px, py) ==> final(fb).pixel_at(px, py)
                            == old(self).overlay(old(fb), px, py)
                }
            }),
    {
        let cx = self.x as usize;
        let cy = self.y as usize;
        let draw_w = if fb.width <= cx {
            0
        } else if fb.width - cx < ARROW_WIDTH {
            fb.width - cx
        } else {
            ARROW_WIDTH
        };
        let draw_h = if fb.height <= cy {
            0
        } else if fb.height - cy < CURSOR_HEIGHT {
            fb.height - cy
        } else {
            CURSOR_HEIGHT
        };
        if draw_w == 0 || draw_h == 0 {
            return;
        }
        self.save_x = cx;
        self.save_y = cy;
        self.save_w = draw_w;
        self.save_h = draw_h;
        let mut dy: usize = 0;
        while dy < draw_h
            invariant
                self.wf(),
                self.same_pointer(old(self)),
                self.visible == old(self).visible,
                self.save_x == cx && self.save_y == cy,
                self.save_w == draw_w && self.save_h == draw_h,
                cx == old(self).x && cy == old(self).y,
                cx + draw_w <= fb.width,
                cy + draw_h <= fb.height,
                draw_w <= CURSOR_WIDTH,
                draw_h <= CURSOR_HEIGHT,
                *fb == *old(fb),
                fb.wf(),
                dy <= draw_h,
                forall|r: int, c: int|
                    0 <= r < CURSOR_HEIGHT && 0 <= c < CURSOR_WIDTH ==> #[trigger] self.save_buffer@[r
                        * CURSOR_WIDTH + c] == if r < dy && c < draw_w {
                        fb.pixel_at(cx + c, cy + r)
                    } else {
                        old(self).save_buffer@[r * CURSOR_WIDTH + c]
                    },
            decreases draw_h - dy,
        {
            let mut dx: usize = 0;
            while dx < draw_w
                invariant
                    self.wf(),
                    self.same_pointer(old(self)),
                    self.visible == old(self).visible,
                    self.save_x == cx && self.save_y == cy,
                    self.save_w == draw_w && self.save_h == draw_h,
                    cx == old(self).x && cy == old(self).y,
                    cx + draw_w <= fb.width,
                    cy + draw_h <= fb.height,
                    draw_w <= CURSOR_WIDTH,
                    draw_h <= CURSOR_HEIGHT,
                    *fb == *old(fb),
                    fb.wf(),
                    dy < draw_h,
                    dx <= draw_w,
                    forall|r: int, c: int|
                        0 <= r < CURSOR_HEIGHT && 0 <= c < CURSOR_WIDTH ==> #[trigger] self.save_buffer@[r
                            * CURSOR_WIDTH + c] == if (r < dy || (r == dy && c < dx)) && c < draw_w {
                            fb.pixel_at(cx + c, cy + r)
                        } else {
                            old(self).save_buffer@[r * CURSOR_WIDTH + c]
                        },
                decreases draw_w - dx,
            {
                let p = fb.get_pixel(cx + dx, cy + dy);
                self.save_buffer.set(dy * CURSOR_WIDTH + dx, p);
                proof {
                    assert forall|r: int, c: int|
                        0 <= r < CURSOR_HEIGHT && 0 <= c < CURSOR_WIDTH implies #[trigger] self.save_buffer@[r
                            * CURSOR_WIDTH + c] == if (r < dy || (r == dy && c < dx + 1)) && c < draw_w {
                            fb.pixel_at(cx + c, cy + r)
                        } else {
                            old(self).save_buffer@[r * CURSOR_WIDTH + c]
                        } by {
                        if r * CURSOR_WIDTH + c == dy * CURSOR_WIDTH + dx {
                            crate::gop::lemma_cell_index_unique(c, r, dx as int, dy as int, CURSOR_WIDTH as int);
                        }
                    }
                }
                dx = dx + 1;
            }
            dy = dy + 1;
        }
        proof {
            let snap = old(self).snapshot(old(fb));
            assert forall|i: int| 0 <= i < CURSOR_AREA implies self.save_buffer@[i] == snap[i] by {
                let r = i / (CURSOR_WIDTH as int);
                let c = i % (CURSOR_WIDTH as int);
                assert(i == r * CURSOR_WIDTH + c);
                assert(self.save_buffer@[r * CURSOR_WIDTH + c] == self.save_buffer@[i]);
            }
            assert(self.save_buffer@ =~= snap);
        }
        fb.mark_dirty(cx, cy, draw_w, draw_h);
        let ghost marked = fb.dirty_region();
        let mut dy: usize = 0;
        while dy < draw_h
            invariant
                fb.wf(),
                fb.width == old(fb).width,
                fb.height == old(fb).height,
                fb.pending() == old(fb).pending(),
                fb.dirty_region() == marked,
                cx == old(self).x && cy == old(self).y,
                cx + draw_w <= fb.width,
                cy + draw_h <= fb.height,
                draw_w <= CURSOR_WIDTH,
                draw_h <= CURSOR_HEIGHT,
                draw_w == old(self).footprint(fb.width as int, fb.height as int).w,
                draw_h == old(self).footprint(fb.width as int, fb.height as int).h,
                dy <= draw_h,
                forall|px: int, py: int| #[trigger]
                    fb.on_surface(px, py) ==> fb.pixel_at(px, py) == if cy <= py < cy + dy {
                        old(self).overlay(old(fb), px, py)
                    } else {
                        old(fb).pixel_at(px, py)
                    },
            decreases draw_h - dy,
        {
            let mut dx: usize = 0;
            while dx < draw_w
                invariant
                    fb.wf(),
                    fb.width == old(fb).width,
                    fb.height == old(fb).height,
                    fb.pending() == old(fb).pending(),
                    fb.dirty_region() == marked,
                    cx == old(self).x && cy == old(self).y,
                    cx + draw_w <= fb.width,
                    cy + draw_h <= fb.height,
                    draw_w <= CURSOR_WIDTH,
                    draw_h <= CURSOR_HEIGHT,
                    draw_w == old(self).footprint(fb.width as int, fb.height as int).w,
                    draw_h == old(self).footprint(fb.width as int, fb.height as int).h,
                    dy < draw_h,
                    dx <= draw_w,
                    forall|px: int, py: int| #[trigger]
                        fb.on_surface(px, py) ==> fb.pixel_at(px, py) == if cy <= py < cy + dy || (
                        py == cy + dy && px < cx + dx) {
                            old(self).overlay(old(fb), px, py)
                        } else {
                            old(fb).pixel_at(px, py)
                        },
                decreases draw_w - dx,
            {
                let k = arrow_shape_at(dy, dx);
                let ghost prev = *fb;
                if k == 1 {
                    fb.set_pixel_raw(cx + dx, cy + dy, Color::black());
                } else if k == 2 {
                    fb.set_pixel_raw(cx + dx, cy + dy, Color::white());
                }
                assert forall|px: int, py: int| #[trigger]
                    fb.on_surface(px, py) implies fb.pixel_at(px, py) == if cy <= py < cy + dy || (
                    py == cy + dy && px < cx + dx + 1) {
                        old(self).overlay(old(fb), px, py)
                    } else {
                        old(fb).pixel_at(px, py)
                    } by {
                    assert(prev.on_surface(px, py));
                }
                dx = dx + 1;
            }
            dy = dy + 1;
        }
        self.visible = true;
    }

    /// Puts back the saved pixels, marks their region dirty, and records the
    /// arrow as hidden. Does nothing when the arrow is not visible.
    pub fn erase_cursor(&mut self, fb: &mut Framebuffer)
        requires
            old(self).wf(),
            old(fb).wf(),
        ensures
            final(self).wf(),
            final(self).same_pointer(old(self)),
            !final(self).visible,
            final(self).save_buffer == old(self).save_buffer,
            final(self).saved_region() == old(self).saved_region(),
            final(fb).wf(),
            final(fb).width == old(fb).width,
            final(fb).height == old(fb).height,
            final(fb).pending() == old(fb).pending(),
            final(fb).dirty_region() == if old(self).visible {
                span(
                    old(fb).dirty_region(),
                    clip(
                        old(self).save_x as int,
                        old(self).save_y as int,
                        old(self).save_w as int,
                        old(self).save_h as int,
                        old(fb).width as int,
                        old(fb).height as int,
                    ),
                )
            } else {
                old(fb).dirty_region()
            },
            forall|px: int, py: int| #[trigger]
                final(fb).on_surface(px, py) ==> final(fb).pixel_at(px, py) == if old(self).visible {
                    restored(old(self).save_buffer@, old(self).saved_region(), px, py, old(fb).pixel_at(px, py))
                } else {
                    old(fb).pixel_at(px, py)
                },
    {
        if !self.visible {
            return;
        }
        let sx = self.save_x;
        let sy = self.save_y;
        let mut dy: usize = 0;
        while dy < self.save_h
            invariant
                self.wf(),
                *self == *old(self),
                sx == self.save_x && sy == self.save_y,
                fb.wf(),
                fb.width == old(fb).width,
                fb.height == old(fb).height,
                fb.pending() == old(fb).pending(),
                fb.dirty_region() == old(fb).dirty_region(),
                dy <= self.save_h,
                forall|px: int, py: int| #[trigger]
                    fb.on_surface(px, py) ==> fb.pixel_at(px, py) == if sy <= py < sy + dy {
                        restored(self.save_buffer@, self.saved_region(), px, py, old(fb).pixel_at(px, py))
                    } else {
                        old(fb).pixel_at(px, py)
                    },
            decreases self.save_h - dy,
        {
            let mut dx: usize = 0;
            while dx < self.save_w
                invariant
                    self.wf(),
                    *self == *old(self),
                    sx == self.save_x && sy == self.save_y,
                    fb.wf(),
                    fb.width == old(fb).width,
                    fb.height == old(fb).height,
                    fb.pending() == old(fb).pending(),
                    fb.dirty_region() == old(fb).dirty_region(),
                    dy < self.save_h,
                    dx <= self.save_w,
                    forall|px: int, py: int| #[trigger]
                        fb.on_surface(px, py) ==> fb.pixel_at(px, py) == if (sy <= py < sy + dy) || (
                        py == sy + dy && sx <= px < sx + dx) {
                            restored(self.save_buffer@, self.saved_region(), px, py, old(fb).pixel_at(px, py))
                        } else {
                            old(fb).pixel_at(px, py)
                        },
                decreases self.save_w - dx,
            {
                let saved = self.save_buffer[dy * CURSOR_WIDTH + dx];
                let ghost prev = *fb;
                fb.set_pixel_raw(sx + dx, sy + dy, saved);
                assert forall|px: int, py: int| #[trigger]
                    fb.on_surface(px, py) implies fb.pixel_at(px, py) == if (sy <= py < sy + dy) || (
                    py == sy + dy && sx <= px < sx + dx + 1) {
                        restored(self.save_buffer@, self.saved_region(), px, py, old(fb).pixel_at(px, py))
                    } else {
                        old(fb).pixel_at(px, py)
                    } by {
                    assert(prev.on_surface(px, py));
                }
                dx = dx + 1;
            }
            dy = dy + 1;
        }
        let ghost prev = *fb;
        fb.mark_dirty(sx, sy, self.save_w, self.save_h);
        assert forall|px: int, py: int| #[trigger]
            fb.on_surface(px, py) implies fb.pixel_at(px, py) == restored(
                old(self).save_buffer@,
                old(self).saved_region(),
                px,
                py,
                old(fb).pixel_at(px, py),
            ) by {
            assert(prev.on_surface(px, py));
        }
        self.visible = false;
    }
}

/// Erasing the arrow right after drawing it leaves every pixel as it was
/// before the draw, wherever the arrow stands, clipped at an edge or not.
/// Drawing saves `snapshot(fb)` for the region `footprint` and leaves the
/// surface showing `overlay`; erasing puts `restored` back over that.
pub proof fn lemma_erase_after_draw_restores(m: &MouseState, fb: &Framebuffer)
    requires
        m.wf(),
        fb.wf(),
        !m.footprint(fb.width as int, fb.height as int).is_empty(),
    ensures
        forall|px: int, py: int| #[trigger]
            fb.on_surface(px, py) ==> restored(
                m.snapshot(fb),
                m.footprint(fb.width as int, fb.height as int),
                px,
                py,
                m.overlay(fb, px, py),
            ) == fb.pixel_at(px, py),
{
    let r = m.footprint(fb.width as int, fb.height as int);
    assert forall|px: int, py: int| #[trigger] fb.on_surface(px, py) implies restored(
        m.snapshot(fb),
        r,
        px,
        py,
        m.overlay(fb, px, py),
    ) == fb.pixel_at(px, py) by {
        if r.has(px, py) {
            let i = (py - r.y) * CURSOR_WIDTH + (px - r.x);
            vstd::arithmetic::div_mod::lemma_fundamental_div_mod_converse(
                i,
                CURSOR_WIDTH as int,
                py - r.y,
                px - r.x,
            );
        }
    }
}

} // verus!
