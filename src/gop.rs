//! The pixel surface: an owned pixel buffer plus the one rectangle that bounds
//! every pixel changed since the last flush.

use vstd::prelude::*;

verus! {

/// A 24-bit colour.
#[derive(Clone, Copy, Debug, PartialEq, Eq, Structural)]
pub struct Color {
    pub r: u8,
    pub g: u8,
    pub b: u8,
}

impl Color {
    pub fn new(r: u8, g: u8, b: u8) -> (c: Color)
        ensures
            c == (Color { r, g, b }),
    {
        Color { r, g, b }
    }

    pub open spec fn spec_black() -> Color {
        Color { r: 0, g: 0, b: 0 }
    }

    #[verifier::when_used_as_spec(spec_black)]
    pub fn black() -> (c: Color)
        ensures
            c == Color::spec_black(),
    {
        Color { r: 0, g: 0, b: 0 }
    }

    pub open spec fn spec_white() -> Color {
        Color { r: 255, g: 255, b: 255 }
    }

    #[verifier::when_used_as_spec(spec_white)]
    pub fn white() -> (c: Color)
        ensures
            c == Color::spec_white(),
    {
        Color { r: 255, g: 255, b: 255 }
    }

    pub open spec fn spec_light_gray() -> Color {
        Color { r: 200, g: 200, b: 200 }
    }

    #[verifier::when_used_as_spec(spec_light_gray)]
    pub fn light_gray() -> (c: Color)
        ensures
            c == Color::spec_light_gray(),
    {
        Color { r: 200, g: 200, b: 200 }
    }

    pub open spec fn spec_terminal_bg() -> Color {
        Color { r: 12, g: 12, b: 12 }
    }

    #[verifier::when_used_as_spec(spec_terminal_bg)]
    pub fn terminal_bg() -> (c: Color)
        ensures
            c == Color::spec_terminal_bg(),
    {
        Color { r: 12, g: 12, b: 12 }
    }

    pub fn taskbar() -> (c: Color)
        ensures
            c == (Color { r: 45, g: 45, b: 48 }),
    {
        Color { r: 45, g: 45, b: 48 }
    }

    pub open spec fn spec_green() -> Color {
        Color { r: 80, g: 220, b: 80 }
    }

    #[verifier::when_used_as_spec(spec_green)]
    pub fn green() -> (c: Color)
        ensures
            c == Color::spec_green(),
    {
        Color { r: 80, g: 220, b: 80 }
    }

    pub open spec fn spec_red() -> Color {
        Color { r: 255, g: 80, b: 80 }
    }

    #[verifier::when_used_as_spec(spec_red)]
    pub fn red() -> (c: Color)
        ensures
            c == Color::spec_red(),
    {
        Color { r: 255, g: 80, b: 80 }
    }

    pub fn bright_red() -> (c: Color)
        ensures
            c == (Color { r: 232, g: 17, b: 35 }),
    {
        Color { r: 232, g: 17, b: 35 }
    }

    pub open spec fn spec_cyan() -> Color {
        Color { r: 100, g: 200, b: 255 }
    }

    #[verifier::when_used_as_spec(spec_cyan)]
    pub fn cyan() -> (c: Color)
        ensures
            c == Color::spec_cyan(),
    {
        Color { r: 100, g: 200, b: 255 }
    }

    pub fn yellow() -> (c: Color)
        ensures
            c == (Color { r: 255, g: 255, b: 100 }),
    {
        Color { r: 255, g: 255, b: 100 }
    }

    pub fn title_bar() -> (c: Color)
        ensures
            c == (Color { r: 50, g: 50, b: 55 }),
    {
        Color { r: 50, g: 50, b: 55 }
    }

    pub fn menu_bg() -> (c: Color)
        ensures
            c == (Color { r: 40, g: 40, b: 45 }),
    {
        Color { r: 40, g: 40, b: 45 }
    }

    pub fn menu_hover() -> (c: Color)
        ensures
            c == (Color { r: 55, g: 55, b: 60 }),
    {
        Color { r: 55, g: 55, b: 60 }
    }

    pub fn taskbar_hover() -> (c: Color)
        ensures
            c == (Color { r: 60, g: 60, b: 65 }),
    {
        Color { r: 60, g: 60, b: 65 }
    }

    pub fn divider() -> (c: Color)
        ensures
            c == (Color { r: 70, g: 70, b: 75 }),
    {
        Color { r: 70, g: 70, b: 75 }
    }
}

/// An axis-aligned box: columns `x .. x + w`, rows `y .. y + h`.
#[derive(Clone, Copy, Debug, PartialEq, Eq, Structural)]
pub struct Rect {
    pub x: usize,
    pub y: usize,
    pub w: usize,
    pub h: usize,
}

impl Rect {
    pub open spec fn is_empty(self) -> bool {
        self.w == 0 || self.h == 0
    }

    /// Both far edges are representable.
    pub open spec fn fits(self) -> bool {
        self.x + self.w <= usize::MAX && self.y + self.h <= usize::MAX
    }

    /// Every point of `self` lies in `o`.
    pub open spec fn within(self, o: Rect) -> bool {
        self.is_empty() || (o.x <= self.x && self.x + self.w <= o.x + o.w && o.y <= self.y
            && self.y + self.h <= o.y + o.h)
    }

    /// The point `(px, py)` lies inside the box.
    pub open spec fn has(self, px: int, py: int) -> bool {
        self.x <= px < self.x + self.w && self.y <= py < self.y + self.h
    }

    pub fn contains(&self, px: i32, py: i32) -> (r: bool)
        ensures
            r == self.has(px as int, py as int),
    {
        px >= 0 && py >= 0 && px as usize >= self.x && px as usize - self.x < self.w
            && py as usize >= self.y && py as usize - self.y < self.h
    }
}

/// The smallest box holding every point of `a` and of `b`.
pub open spec fn span(a: Rect, b: Rect) -> Rect {
    if b.is_empty() {
        a
    } else if a.is_empty() {
        b
    } else {
        let x0 = if a.x <= b.x { a.x } else { b.x };
        let y0 = if a.y <= b.y { a.y } else { b.y };
        let x1 = if a.x + a.w >= b.x + b.w { a.x + a.w } else { b.x + b.w };
        let y1 = if a.y + a.h >= b.y + b.h { a.y + a.h } else { b.y + b.h };
        Rect { x: x0, y: y0, w: (x1 - x0) as usize, h: (y1 - y0) as usize }
    }
}

/// The part of the box at `(x, y)` of size `w` by `h` that lies on a
/// `width` by `height` surface; the zero box where nothing does.
pub open spec fn clip(x: int, y: int, w: int, h: int, width: int, height: int) -> Rect {
    if w <= 0 || h <= 0 || x >= width || y >= height {
        Rect { x: 0, y: 0, w: 0, h: 0 }
    } else {
        let x1 = if x + w <= width { x + w } else { width };
        let y1 = if y + h <= height { y + h } else { height };
        Rect { x: x as usize, y: y as usize, w: (x1 - x) as usize, h: (y1 - y) as usize }
    }
}

/// The dirty regions accumulated over a sequence of changed boxes.
pub open spec fn span_all(rs: Seq<Rect>) -> Rect
    decreases rs.len(),
{
    if rs.len() == 0 {
        Rect { x: 0, y: 0, w: 0, h: 0 }
    } else {
        span(span_all(rs.drop_last()), rs.last())
    }
}

/// The span of two boxes holds both of them and lies in any box that holds both.
pub proof fn lemma_span(a: Rect, b: Rect)
    requires
        a.fits(),
        b.fits(),
    ensures
        span(a, b).fits(),
        span(a, b).is_empty() <==> (a.is_empty() && b.is_empty()),
        forall|px: int, py: int| a.has(px, py) ==> span(a, b).has(px, py),
        forall|px: int, py: int| b.has(px, py) ==> span(a, b).has(px, py),
        forall|c: Rect| a.within(c) && b.within(c) ==> span(a, b).within(c),
{
}

/// Spans can be taken in any grouping.
pub proof fn lemma_span_assoc(a: Rect, b: Rect, c: Rect)
    requires
        a.fits(),
        b.fits(),
        c.fits(),
    ensures
        span(span(a, b), c) == span(a, span(b, c)),
{
}

/// Adding a clipped box to the whole surface leaves the whole surface.
pub proof fn lemma_span_full(fb: &Framebuffer, x: int, y: int, w: int, h: int)
    requires
        fb.wf(),
        x >= 0,
        y >= 0,
    ensures
        span(fb.full(), clip(x, y, w, h, fb.width as int, fb.height as int)) == fb.full(),
{
}

/// Adding to the whole surface a box that lies on it leaves the whole surface.
pub proof fn lemma_span_within_full(fb: &Framebuffer, r: Rect)
    requires
        fb.wf(),
        r.within(fb.full()),
        r.fits(),
    ensures
        span(fb.full(), r) == fb.full(),
{
}

proof fn lemma_within_of_points(a: Rect, c: Rect)
    requires
        forall|px: int, py: int| a.has(px, py) ==> c.has(px, py),
    ensures
        a.within(c),
{
    if !a.is_empty() {
        assert(a.has(a.x as int, a.y as int));
        assert(a.has(a.x + a.w - 1, a.y + a.h - 1));
    }
}

/// Flushing sends exactly the bounding box of what was written since the
/// previous flush. Starting from a clean surface, the dirty region after
/// writing the boxes `rs` (each already clipped to the surface) is
/// `span_all(rs)`, and that box holds every written pixel, lies within any box
/// `b` that holds every written pixel, and is empty only when nothing was
/// written, in which case the flush queues nothing.
pub proof fn lemma_flush_sends_bounding_box(rs: Seq<Rect>, b: Rect)
    requires
        forall|i: int| 0 <= i < rs.len() ==> (#[trigger] rs[i]).fits(),
    ensures
        span_all(rs).fits(),
        forall|i: int, px: int, py: int|
            0 <= i < rs.len() && #[trigger] rs[i].has(px, py) ==> span_all(rs).has(px, py),
        (forall|i: int, px: int, py: int|
            0 <= i < rs.len() && #[trigger] rs[i].has(px, py) ==> b.has(px, py)) ==> span_all(
            rs,
        ).within(b),
        span_all(rs).is_empty() <==> forall|i: int| 0 <= i < rs.len() ==> (#[trigger] rs[i]).is_empty(),
    decreases rs.len(),
{
    if rs.len() > 0 {
        let pre = rs.drop_last();
        lemma_flush_sends_bounding_box(pre, b);
        assert forall|i: int| 0 <= i < pre.len() implies (#[trigger] pre[i]).fits() by {
            assert(pre[i] == rs[i]);
        }
        lemma_span(span_all(pre), rs.last());
        assert forall|i: int, px: int, py: int|
            0 <= i < rs.len() && #[trigger] rs[i].has(px, py) implies span_all(rs).has(px, py) by {
            if i < rs.len() - 1 {
                assert(pre[i] == rs[i]);
            }
        }
        if forall|i: int, px: int, py: int|
            0 <= i < rs.len() && #[trigger] rs[i].has(px, py) ==> b.has(px, py) {
            assert forall|i: int, px: int, py: int|
                0 <= i < pre.len() && #[trigger] pre[i].has(px, py) implies b.has(px, py) by {
                assert(pre[i] == rs[i]);
            }
            assert forall|px: int, py: int| rs.last().has(px, py) implies b.has(px, py) by {
                assert(rs[rs.len() - 1].has(px, py));
            }
            lemma_within_of_points(rs.last(), b);
        }
        if span_all(rs).is_empty() {
            assert forall|i: int| 0 <= i < rs.len() implies (#[trigger] rs[i]).is_empty() by {
                if i < rs.len() - 1 {
                    assert(pre[i] == rs[i]);
                }
            }
        }
        if forall|i: int| 0 <= i < rs.len() ==> (#[trigger] rs[i]).is_empty() {
            assert forall|i: int| 0 <= i < pre.len() implies (#[trigger] pre[i]).is_empty() by {
                assert(pre[i] == rs[i]);
            }
            assert(rs[rs.len() - 1].is_empty());
        }
    }
}

/// Dimensions of the display mode in use.
#[derive(Clone, Copy, Debug, PartialEq, Eq, Structural)]
pub struct ScreenInfo {
    pub width: usize,
    pub height: usize,
}

/// Pixels of a `width` by `height` surface, row-major, and the bounding box
/// of those changed since the last flush.
///
/// A flush does not talk to the display itself: it queues the box to send,
/// and the owner of the display takes the queue with `take_transfers`.
pub struct Framebuffer {
    pub pixels: Vec<Color>,
    pub width: usize,
    pub height: usize,
    pub dirty: Rect,
    pub transfers: Vec<Rect>,
}

/// Row-major position `y * w + x` of a point of a `w` by `h` grid lies in the grid.
pub proof fn lemma_cell_index(x: int, y: int, w: int, h: int)
    requires
        0 <= x < w,
        0 <= y < h,
    ensures
        0 <= y * w + x < w * h,
        y * w + x + 1 <= w * h,
{
    assert(0 <= y * w + x < w * h) by (nonlinear_arith)
        requires
            0 <= x < w,
            0 <= y < h,
    ;
}

/// Distinct points of a grid `w` wide have distinct row-major positions.
pub proof fn lemma_cell_index_unique(x1: int, y1: int, x2: int, y2: int, w: int)
    requires
        0 <= x1 < w,
        0 <= x2 < w,
        0 <= y1,
        0 <= y2,
        y1 * w + x1 == y2 * w + x2,
    ensures
        x1 == x2,
        y1 == y2,
{
    assert(y1 == y2) by (nonlinear_arith)
        requires
            0 <= x1 < w,
            0 <= x2 < w,
            0 <= y1,
            0 <= y2,
            y1 * w + x1 == y2 * w + x2,
    ;
}

impl Framebuffer {
    pub open spec fn wf(&self) -> bool {
        &&& self.pixels@.len() == self.width * self.height
        &&& self.width * self.height <= usize::MAX
        &&& self.dirty.is_empty() ==> self.dirty == Rect { x: 0, y: 0, w: 0, h: 0 }
        &&& self.dirty.x + self.dirty.w <= self.width
        &&& self.dirty.y + self.dirty.h <= self.height
    }

    /// The bounding box of the pixels changed since the last flush.
    pub open spec fn dirty_region(&self) -> Rect {
        self.dirty
    }

    /// The boxes flushed and not yet handed to the display, oldest first.
    pub open spec fn pending(&self) -> Seq<Rect> {
        self.transfers@
    }

    pub open spec fn pixel_at(&self, x: int, y: int) -> Color {
        self.pixels@[y * self.width + x]
    }

    pub open spec fn on_surface(&self, x: int, y: int) -> bool {
        0 <= x < self.width && 0 <= y < self.height
    }

    /// The box that holds the whole surface.
    pub open spec fn full(&self) -> Rect {
        clip(0, 0, self.width as int, self.height as int, self.width as int, self.height as int)
    }

    /// The buffer's length and the dirty region's bounds.
    pub proof fn lemma_wf_bounds(&self)
        requires
            self.wf(),
        ensures
            self.pixels@.len() == self.width * self.height,
            self.dirty_region().within(self.full()),
            self.dirty_region().fits(),
    {
    }

    /// A black surface, wholly dirty so that the first flush sends every pixel.
    pub fn new(width: usize, height: usize) -> (fb: Framebuffer)
        requires
            width * height <= usize::MAX,
        ensures
            fb.wf(),
            fb.width == width,
            fb.height == height,
            forall|x: int, y: int| fb.on_surface(x, y) ==> fb.pixel_at(x, y) == Color::black(),
            fb.dirty_region() == fb.full(),
            fb.pending() == Seq::<Rect>::empty(),
    {
        let total: usize = width * height;
        let pixels = vec_filled(Color::black(), total);
        let full = if width == 0 || height == 0 {
            Rect { x: 0, y: 0, w: 0, h: 0 }
        } else {
            Rect { x: 0, y: 0, w: width, h: height }
        };
        let fb = Framebuffer { pixels, width, height, dirty: full, transfers: Vec::new() };
        assert forall|x: int, y: int| fb.on_surface(x, y) implies fb.pixel_at(x, y)
            == Color::black() by {
            lemma_cell_index(x, y, width as int, height as int);
        }
        fb
    }

    /// Grows the dirty region by the part of the given box that lies on the
    /// surface. Callers that wrote pixels with `set_pixel_raw` mark them here.
    pub fn mark_dirty(&mut self, x: usize, y: usize, w: usize, h: usize)
        requires
            old(self).wf(),
        ensures
            final(self).wf(),
            final(self).pixels == old(self).pixels,
            final(self).width == old(self).width,
            final(self).height == old(self).height,
            final(self).pending() == old(self).pending(),
            final(self).dirty_region() == span(
                old(self).dirty_region(),
                clip(x as int, y as int, w as int, h as int, old(self).width as int, old(self).height as int),
            ),
    {
        if w == 0 || h == 0 || x >= self.width || y >= self.height {
            return;
        }
        let x_end = if w <= self.width - x { x + w } else { self.width };
        let y_end = if h <= self.height - y { y + h } else { self.height };
        if self.dirty.w == 0 || self.dirty.h == 0 {
            self.dirty = Rect { x, y, w: x_end - x, h: y_end - y };
        } else {
            let x0 = if self.dirty.x <= x { self.dirty.x } else { x };
            let y0 = if self.dirty.y <= y { self.dirty.y } else { y };
            let x1 = if self.dirty.x + self.dirty.w >= x_end { self.dirty.x + self.dirty.w } else { x_end };
            let y1 = if self.dirty.y + self.dirty.h >= y_end { self.dirty.y + self.dirty.h } else { y_end };
            self.dirty = Rect { x: x0, y: y0, w: x1 - x0, h: y1 - y0 };
        }
    }

    /// Forces the next flush to send the whole surface.
    pub fn mark_all_dirty(&mut self)
        requires
            old(self).wf(),
        ensures
            final(self).wf(),
            final(self).pixels == old(self).pixels,
            final(self).width == old(self).width,
            final(self).height == old(self).height,
            final(self).pending() == old(self).pending(),
            final(self).dirty_region() == final(self).full(),
    {
        if self.width == 0 || self.height == 0 {
            self.dirty = Rect { x: 0, y: 0, w: 0, h: 0 };
        } else {
            self.dirty = Rect { x: 0, y: 0, w: self.width, h: self.height };
        }
    }

    /// Writes one pixel, if it is on the surface, and marks it dirty.
    pub fn set_pixel(&mut self, x: usize, y: usize, color: Color)
        requires
            old(self).wf(),
        ensures
            final(self).wf(),
            final(self).width == old(self).width,
            final(self).height == old(self).height,
            final(self).pending() == old(self).pending(),
            final(self).dirty_region() == span(
                old(self).dirty_region(),
                clip(x as int, y as int, 1, 1, old(self).width as int, old(self).height as int),
            ),
            forall|px: int, py: int| #[trigger]
                final(self).on_surface(px, py) ==> final(self).pixel_at(px, py) == if px == x
                    && py == y {
                    color
                } else {
                    old(self).pixel_at(px, py)
                },
    {
        self.mark_dirty(x, y, 1, 1);
        self.set_pixel_raw(x, y, color);
    }

    /// Writes one pixel, if it is on the surface, without marking it dirty:
    /// for writes that the caller covers with its own `mark_dirty`.
    pub fn set_pixel_raw(&mut self, x: usize, y: usize, pixel: Color)
        requires
            old(self).wf(),
        ensures
            final(self).wf(),
            final(self).width == old(self).width,
            final(self).height == old(self).height,
            final(self).pending() == old(self).pending(),
            final(self).dirty_region() == old(self).dirty_region(),
            forall|px: int, py: int| #[trigger]
                final(self).on_surface(px, py) ==> final(self).pixel_at(px, py) == if px == x
                    && py == y {
                    pixel
                } else {
                    old(self).pixel_at(px, py)
                },
    {
        if x < self.width && y < self.height {
            proof {
                lemma_cell_index(x as int, y as int, self.width as int, self.height as int);
            }
            let i = y * self.width + x;
            self.pixels.set(i, pixel);
            proof {
                assert forall|px: int, py: int| #[trigger]
                    self.on_surface(px, py) implies self.pixel_at(px, py) == if px == x && py
                        == y {
                        pixel
                    } else {
                        old(self).pixel_at(px, py)
                    } by {
                    lemma_cell_index(px, py, self.width as int, self.height as int);
                    if py * self.width + px == y * self.width + x {
                        lemma_cell_index_unique(px, py, x as int, y as int, self.width as int);
                    }
                }
            }
        }
    }

    /// Paints the part of the box at `(x, y)` of size `w` by `h` that lies on
    /// the surface, and marks that part dirty.
    pub fn fill_rect(&mut self, x: usize, y: usize, w: usize, h: usize, color: Color)
        requires
            old(self).wf(),
        ensures
            final(self).wf(),
            final(self).width == old(self).width,
            final(self).height == old(self).height,
            final(self).pending() == old(self).pending(),
            final(self).dirty_region() == span(
                old(self).dirty_region(),
                clip(x as int, y as int, w as int, h as int, old(self).width as int, old(self).height as int),
            ),
            forall|px: int, py: int| #[trigger]
                final(self).on_surface(px, py) ==> final(self).pixel_at(px, py) == if clip(
                    x as int,
                    y as int,
                    w as int,
                    h as int,
                    old(self).width as int,
                    old(self).height as int,
                ).has(px, py) {
                    color
                } else {
                    old(self).pixel_at(px, py)
                },
    {
        self.mark_dirty(x, y, w, h);
        if w == 0 || h == 0 || x >= self.width || y >= self.height {
            return;
        }
        let x_end = if w <= self.width - x { x + w } else { self.width };
        let y_end = if h <= self.height - y { y + h } else { self.height };
        let ghost dirty = self.dirty;
        let mut row = y;
        while row < y_end
            invariant
                self.wf(),
                self.width == old(self).width,
                self.height == old(self).height,
                self.pending() == old(self).pending(),
                self.dirty == dirty,
                y <= row <= y_end,
                x < x_end <= self.width,
                y_end <= self.height,
                forall|px: int, py: int| #[trigger]
                    self.on_surface(px, py) ==> self.pixel_at(px, py) == if x <= px < x_end && y
                        <= py < row {
                        color
                    } else {
                        old(self).pixel_at(px, py)
                    },
            decreases y_end - row,
        {
            let mut col = x;
            while col < x_end
                invariant
                    self.wf(),
                    self.width == old(self).width,
                    self.height == old(self).height,
                    self.pending() == old(self).pending(),
                    self.dirty == dirty,
                    y <= row < y_end,
                    x <= col <= x_end,
                    x_end <= self.width,
                    y_end <= self.height,
                    forall|px: int, py: int| #[trigger]
                        self.on_surface(px, py) ==> self.pixel_at(px, py) == if (x <= px < x_end
                            && y <= py < row) || (py == row && x <= px < col) {
                            color
                        } else {
                            old(self).pixel_at(px, py)
                        },
                decreases x_end - col,
            {
                let ghost prev = *self;
                self.set_pixel_raw(col, row, color);
                assert forall|px: int, py: int| #[trigger]
                    self.on_surface(px, py) implies self.pixel_at(px, py) == if (x <= px < x_end
                        && y <= py < row) || (py == row && x <= px < col + 1) {
                        color
                    } else {
                        old(self).pixel_at(px, py)
                    } by {
                    assert(prev.on_surface(px, py));
                }
                col = col + 1;
            }
            row = row + 1;
        }
    }

    /// Replaces every pixel with those of `src` and marks the whole surface dirty.
    pub fn load_pixels(&mut self, src: &Vec<Color>)
        requires
            old(self).wf(),
            src@.len() == old(self).pixels@.len(),
        ensures
            final(self).wf(),
            final(self).width == old(self).width,
            final(self).height == old(self).height,
            final(self).pending() == old(self).pending(),
            final(self).pixels@ == src@,
            final(self).dirty_region() == final(self).full(),
    {
        let n = self.pixels.len();
        let mut i: usize = 0;
        while i < n
            invariant
                self.wf(),
                self.width == old(self).width,
                self.height == old(self).height,
                self.pending() == old(self).pending(),
                n == src@.len(),
                self.pixels@.len() == n,
                i <= n,
                forall|j: int| 0 <= j < i ==> self.pixels@[j] == src@[j],
            decreases n - i,
        {
            self.pixels.set(i, src[i]);
            i = i + 1;
        }
        assert(self.pixels@ =~= src@);
        self.mark_all_dirty();
    }

    /// Queues the dirty region for the display, if there is one, and leaves
    /// the surface clean either way.
    pub fn flush(&mut self)
        requires
            old(self).wf(),
        ensures
            final(self).wf(),
            final(self).pixels == old(self).pixels,
            final(self).width == old(self).width,
            final(self).height == old(self).height,
            final(self).dirty_region() == (Rect { x: 0, y: 0, w: 0, h: 0 }),
            final(self).pending() == if old(self).dirty_region().is_empty() {
                old(self).pending()
            } else {
                old(self).pending().push(old(self).dirty_region())
            },
    {
        if self.dirty.w == 0 || self.dirty.h == 0 {
            return;
        }
        self.transfers.push(self.dirty);
        self.dirty = Rect { x: 0, y: 0, w: 0, h: 0 };
    }

    /// Hands over the queued transfers, oldest first, and empties the queue.
    pub fn take_transfers(&mut self) -> (r: Vec<Rect>)
        requires
            old(self).wf(),
        ensures
            final(self).wf(),
            final(self).pixels == old(self).pixels,
            final(self).width == old(self).width,
            final(self).height == old(self).height,
            final(self).dirty_region() == old(self).dirty_region(),
            final(self).pending() == Seq::<Rect>::empty(),
            r@ == old(self).pending(),
    {
        let mut r: Vec<Rect> = Vec::new();
        core::mem::swap(&mut r, &mut self.transfers);
        r
    }

    /// The pixel at `(x, y)`; black off the surface.
    pub fn get_pixel(&self, x: usize, y: usize) -> (p: Color)
        requires
            self.wf(),
        ensures
            p == if self.on_surface(x as int, y as int) {
                self.pixel_at(x as int, y as int)
            } else {
                Color::black()
            },
    {
        if x < self.width && y < self.height {
            proof {
                lemma_cell_index(x as int, y as int, self.width as int, self.height as int);
            }
            self.pixels[y * self.width + x]
        } else {
            Color::black()
        }
    }
}

/// A vector of `n` copies of `v`.
pub fn vec_filled<T: Copy>(v: T, n: usize) -> (r: Vec<T>)
    ensures
        r@.len() == n,
        forall|i: int| 0 <= i < n ==> r@[i] == v,
{
    let mut r: Vec<T> = Vec::with_capacity(n);
    let mut i: usize = 0;
    while i < n
        invariant
            i <= n,
            r@.len() == i,
            forall|j: int| 0 <= j < i ==> r@[j] == v,
        decreases n - i,
    {
        r.push(v);
        i = i + 1;
    }
    r
}

/// Largest display mode, in each direction, that the shell asks for.
pub const MAX_MODE_WIDTH: usize = 1280;

pub const MAX_MODE_HEIGHT: usize = 1024;

pub open spec fn mode_fits(m: (usize, usize)) -> bool {
    m.0 <= MAX_MODE_WIDTH && m.1 <= MAX_MODE_HEIGHT
}

pub open spec fn mode_area(m: (usize, usize)) -> int {
    m.0 * m.1
}

/// Of the modes (width, height) that fit within the largest size asked for,
/// the position of the one with the most pixels, the last such on a tie;
/// `None` when none fits.
pub fn choose_mode(modes: &Vec<(usize, usize)>) -> (r: Option<usize>)
    ensures
        r is None <==> forall|j: int| 0 <= j < modes@.len() ==> !mode_fits(#[trigger] modes@[j]),
        r is Some ==> {
            let i = r->0 as int;
            &&& 0 <= i < modes@.len()
            &&& mode_fits(modes@[i])
            &&& forall|j: int|
                0 <= j < modes@.len() && mode_fits(#[trigger] modes@[j]) ==> mode_area(modes@[j])
                    <= mode_area(modes@[i])
            &&& forall|j: int|
                i < j < modes@.len() && mode_fits(#[trigger] modes@[j]) ==> mode_area(modes@[j])
                    < mode_area(modes@[i])
        },
{
    let mut best: Option<usize> = None;
    let mut best_area: usize = 0;
    let mut i: usize = 0;
    while i < modes.len()
        invariant
            i <= modes@.len(),
            best is None <==> forall|j: int| 0 <= j < i ==> !mode_fits(#[trigger] modes@[j]),
            best is Some ==> {
                let b = best->0 as int;
                &&& 0 <= b < i
                &&& mode_fits(modes@[b])
                &&& best_area == mode_area(modes@[b])
                &&& forall|j: int|
                    0 <= j < i && mode_fits(#[trigger] modes@[j]) ==> mode_area(modes@[j]) <= best_area
                &&& forall|j: int|
                    b < j < i && mode_fits(#[trigger] modes@[j]) ==> mode_area(modes@[j]) < best_area
            },
        decreases modes@.len() - i,
    {
        let (w, h) = modes[i];
        if w <= MAX_MODE_WIDTH && h <= MAX_MODE_HEIGHT {
            assert(w * h <= MAX_MODE_WIDTH * MAX_MODE_HEIGHT) by (nonlinear_arith)
                requires
                    w <= MAX_MODE_WIDTH,
                    h <= MAX_MODE_HEIGHT,
            ;
            let area = w * h;
            if best.is_none() || area >= best_area {
                best = Some(i);
                best_area = area;
            }
        }
        i = i + 1;
    }
    best
}

} // verus!