use vos::gop::{choose_mode, Color, Framebuffer, Rect};

fn clean_surface(w: usize, h: usize) -> Framebuffer {
    let mut fb = Framebuffer::new(w, h);
    fb.flush();
    fb.take_transfers();
    fb
}

fn rect(x: usize, y: usize, w: usize, h: usize) -> Rect {
    Rect { x, y, w, h }
}

#[test]
fn new_surface_is_black_and_fully_dirty() {
    let mut fb = Framebuffer::new(4, 3);
    assert_eq!(fb.pixels.len(), 12);
    assert!(fb.pixels.iter().all(|p| *p == Color::black()));
    fb.flush();
    assert_eq!(fb.take_transfers(), vec![rect(0, 0, 4, 3)]);
}

#[test]
fn flush_with_nothing_changed_sends_nothing() {
    let mut fb = clean_surface(10, 10);
    fb.flush();
    assert!(fb.take_transfers().is_empty());
}

#[test]
fn flush_sends_bounding_box_of_written_pixels() {
    let mut fb = clean_surface(100, 80);
    fb.set_pixel(10, 20, Color::white());
    fb.set_pixel(30, 5, Color::white());
    fb.fill_rect(50, 60, 4, 3, Color::red());
    fb.flush();
    assert_eq!(fb.take_transfers(), vec![rect(10, 5, 44, 58)]);
    fb.flush();
    assert!(fb.take_transfers().is_empty());
}

#[test]
fn flush_resets_between_frames() {
    let mut fb = clean_surface(20, 20);
    fb.set_pixel(1, 1, Color::white());
    fb.flush();
    fb.set_pixel(15, 15, Color::white());
    fb.flush();
    assert_eq!(fb.take_transfers(), vec![rect(1, 1, 1, 1), rect(15, 15, 1, 1)]);
}

#[test]
fn fill_rect_clips_to_surface() {
    let mut fb = clean_surface(10, 8);
    fb.fill_rect(7, 6, 10, 10, Color::green());
    assert_eq!(fb.get_pixel(9, 7), Color::green());
    assert_eq!(fb.get_pixel(7, 6), Color::green());
    assert_eq!(fb.get_pixel(6, 6), Color::black());
    fb.flush();
    assert_eq!(fb.take_transfers(), vec![rect(7, 6, 3, 2)]);
}

#[test]
fn writes_off_surface_change_nothing() {
    let mut fb = clean_surface(10, 8);
    fb.set_pixel(10, 0, Color::white());
    fb.set_pixel(0, 8, Color::white());
    fb.fill_rect(12, 0, 5, 5, Color::white());
    fb.fill_rect(0, 0, 0, 5, Color::white());
    fb.flush();
    assert!(fb.take_transfers().is_empty());
    assert!(fb.pixels.iter().all(|p| *p == Color::black()));
    assert_eq!(fb.get_pixel(50, 50), Color::black());
}

#[test]
fn raw_writes_are_not_marked_dirty() {
    let mut fb = clean_surface(10, 8);
    fb.set_pixel_raw(3, 4, Color::white());
    assert_eq!(fb.get_pixel(3, 4), Color::white());
    fb.flush();
    assert!(fb.take_transfers().is_empty());
    fb.mark_dirty(3, 4, 1, 1);
    fb.flush();
    assert_eq!(fb.take_transfers(), vec![rect(3, 4, 1, 1)]);
}

#[test]
fn mark_all_dirty_sends_whole_surface() {
    let mut fb = clean_surface(6, 5);
    fb.mark_all_dirty();
    fb.flush();
    assert_eq!(fb.take_transfers(), vec![rect(0, 0, 6, 5)]);
}

#[test]
fn load_pixels_replaces_everything() {
    let mut fb = clean_surface(2, 2);
    let src = vec![Color::red(), Color::green(), Color::cyan(), Color::white()];
    fb.load_pixels(&src);
    assert_eq!(fb.pixels, src);
    assert_eq!(fb.get_pixel(0, 1), Color::cyan());
    fb.flush();
    assert_eq!(fb.take_transfers(), vec![rect(0, 0, 2, 2)]);
}

#[test]
fn rect_contains_is_half_open() {
    let r = rect(10, 20, 5, 4);
    assert!(r.contains(10, 20));
    assert!(r.contains(14, 23));
    assert!(!r.contains(15, 23));
    assert!(!r.contains(14, 24));
    assert!(!r.contains(9, 20));
    assert!(!r.contains(-1, -1));
    assert!(!rect(0, 0, 0, 5).contains(0, 0));
}

#[test]
fn color_values() {
    assert_eq!(Color::new(1, 2, 3), Color { r: 1, g: 2, b: 3 });
    assert_eq!(Color::light_gray(), Color { r: 200, g: 200, b: 200 });
    assert_eq!(Color::terminal_bg(), Color { r: 12, g: 12, b: 12 });
    assert_eq!(Color::bright_red(), Color { r: 232, g: 17, b: 35 });
}

#[test]
fn choose_mode_takes_largest_fitting() {
    let modes = vec![(640, 480), (1920, 1080), (1280, 1024), (800, 600), (1280, 1024), (1024, 1280)];
    assert_eq!(choose_mode(&modes), Some(4));
    assert_eq!(choose_mode(&vec![(640, 480), (800, 600), (1024, 768)]), Some(2));
    assert_eq!(choose_mode(&vec![(1920, 1080), (2560, 1440)]), None);
    assert_eq!(choose_mode(&vec![]), None);
}
