use vos::gop::{Color, Framebuffer, Rect};
use vos::mouse::{MouseState, PointerSample};

fn sample(dx: i32, dy: i32, left: bool) -> PointerSample {
    PointerSample { dx, dy, left, right: false }
}

fn patterned(w: usize, h: usize) -> Framebuffer {
    let mut fb = Framebuffer::new(w, h);
    for y in 0..h {
        for x in 0..w {
            fb.set_pixel(x, y, Color::new((x * 7 % 256) as u8, (y * 13 % 256) as u8, ((x + y) % 256) as u8));
        }
    }
    fb.flush();
    fb.take_transfers();
    fb
}

#[test]
fn new_pointer_is_centred_and_hidden() {
    let m = MouseState::new(800, 600);
    assert_eq!((m.x, m.y), (400, 300));
    assert!(!m.visible);
    assert!(!m.left_clicked);
}

#[test]
fn update_scales_motion_toward_zero_and_clamps() {
    let mut m = MouseState::new(800, 600);
    m.update(&sample(2500, -2500, false));
    assert_eq!((m.x, m.y), (402, 298));
    m.update(&sample(-999, 999, false));
    assert_eq!((m.x, m.y), (402, 298));
    m.update(&sample(i32::MAX, i32::MIN, false));
    assert_eq!((m.x, m.y), (799, 0));
    m.set_sensitivity(1);
    m.update(&sample(-5000, 10000, false));
    assert_eq!((m.x, m.y), (0, 599));
}

#[test]
fn set_sensitivity_ignores_non_positive() {
    let mut m = MouseState::new(100, 100);
    m.set_sensitivity(0);
    m.set_sensitivity(-3);
    m.update(&sample(5000, 0, false));
    assert_eq!(m.x, 55);
    m.set_sensitivity(10);
    m.update(&sample(25, 0, false));
    assert_eq!(m.x, 57);
}

#[test]
fn press_counts_as_one_click() {
    let mut m = MouseState::new(100, 100);
    m.update(&sample(0, 0, true));
    assert!(m.left_clicked);
    m.update(&sample(0, 0, true));
    assert!(!m.left_clicked);
    m.update(&sample(0, 0, false));
    assert!(!m.left_clicked);
    m.update(&sample(0, 0, true));
    assert!(m.left_clicked);
}

#[test]
fn moved_compares_positions() {
    let m = MouseState::new(100, 100);
    assert!(!m.moved(50, 50));
    assert!(m.moved(50, 49));
}

#[test]
fn draw_cursor_paints_arrow_and_saves_pixels() {
    let mut fb = patterned(40, 40);
    let before = fb.pixels.clone();
    let mut m = MouseState::new(40, 40);
    m.draw_cursor(&mut fb);
    assert!(m.visible);
    assert_eq!((m.save_x, m.save_y, m.save_w, m.save_h), (20, 20, 11, 19));
    // tip outline, fill below it, transparent to the right
    assert_eq!(fb.get_pixel(20, 20), Color::black());
    assert_eq!(fb.get_pixel(21, 22), Color::white());
    assert_eq!(fb.pixels[20 * 40 + 25], before[20 * 40 + 25]);
    assert_eq!(m.save_buffer[0], before[20 * 40 + 20]);
    fb.flush();
    assert_eq!(fb.take_transfers(), vec![Rect { x: 20, y: 20, w: 11, h: 19 }]);
}

#[test]
fn erase_after_draw_restores_every_pixel() {
    let mut fb = patterned(40, 40);
    let before = fb.pixels.clone();
    let mut m = MouseState::new(40, 40);
    m.draw_cursor(&mut fb);
    assert_ne!(fb.pixels, before);
    m.erase_cursor(&mut fb);
    assert_eq!(fb.pixels, before);
    assert!(!m.visible);
    fb.flush();
    assert_eq!(fb.take_transfers(), vec![Rect { x: 20, y: 20, w: 11, h: 19 }]);
}

#[test]
fn erase_after_draw_restores_at_the_corner() {
    let mut fb = patterned(30, 25);
    let before = fb.pixels.clone();
    let mut m = MouseState::new(30, 25);
    m.set_sensitivity(1);
    m.update(&sample(100, 100, false));
    assert_eq!((m.x, m.y), (29, 24));
    m.draw_cursor(&mut fb);
    assert_eq!((m.save_w, m.save_h), (1, 1));
    assert_eq!(fb.get_pixel(29, 24), Color::black());
    m.erase_cursor(&mut fb);
    assert_eq!(fb.pixels, before);
}

#[test]
fn erase_when_hidden_does_nothing() {
    let mut fb = patterned(20, 20);
    let before = fb.pixels.clone();
    let mut m = MouseState::new(20, 20);
    m.erase_cursor(&mut fb);
    assert_eq!(fb.pixels, before);
    fb.flush();
    assert!(fb.take_transfers().is_empty());
}

#[test]
fn draw_off_surface_does_nothing() {
    let mut fb = patterned(10, 10);
    let before = fb.pixels.clone();
    let mut m = MouseState::new(100, 100);
    m.draw_cursor(&mut fb);
    assert!(!m.visible);
    assert_eq!(fb.pixels, before);
}
