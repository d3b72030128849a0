use vos::desktop::{screen_ok_at, ClickAction, Desktop};
use vos::font::GlyphTable;
use vos::gop::{Color, Rect, ScreenInfo};

fn desktop() -> Desktop {
    let glyphs = GlyphTable::from_rows(vec![0u8; 256 * 16]).unwrap();
    Desktop::new(ScreenInfo { width: 800, height: 600 }, glyphs)
}

#[test]
fn geometry_of_800_by_600() {
    let d = desktop();
    assert_eq!(d.close_button_rect, Rect { x: 764, y: 22, w: 12, h: 12 });
    assert_eq!(d.start_button_rect, Rect { x: 0, y: 568, w: 80, h: 32 });
    assert_eq!(d.menu_y, 476);
    assert_eq!(d.menu_rects[0], Rect { x: 0, y: 480, w: 200, h: 28 });
    assert_eq!(d.menu_rects[2], Rect { x: 0, y: 536, w: 200, h: 28 });
    assert_eq!((d.terminal.origin_x, d.terminal.origin_y), (16, 40));
    assert_eq!((d.mouse_x, d.mouse_y), (400, 300));
    assert!(d.needs_full_redraw);
    assert!(!d.start_menu_open);
    assert_eq!(d.background_cache[0], Color::new(20, 30, 60));
    assert_eq!(d.background_cache[599 * 800 + 5], Color::new(34, 54, 99));
}

#[test]
fn start_button_toggles_from_either_state() {
    let mut d = desktop();
    d.needs_full_redraw = false;
    assert_eq!(d.handle_click(10, 580), ClickAction::ToggleStartMenu);
    assert!(d.start_menu_open);
    assert!(d.needs_full_redraw);
    d.needs_full_redraw = false;
    assert_eq!(d.handle_click(79, 599), ClickAction::ToggleStartMenu);
    assert!(!d.start_menu_open);
    assert!(d.needs_full_redraw);
}

#[test]
fn menu_rows_give_their_actions_and_close_the_menu() {
    let expected = [ClickAction::MenuTerminal, ClickAction::MenuInfo, ClickAction::MenuReboot];
    for i in 0..3 {
        let mut d = desktop();
        d.handle_click(10, 580);
        d.needs_full_redraw = false;
        let y = 480 + 28 * i as i32 + 5;
        assert_eq!(d.handle_click(100, y), expected[i]);
        assert!(!d.start_menu_open);
        assert!(d.needs_full_redraw);
    }
}

#[test]
fn click_elsewhere_closes_open_menu() {
    let mut d = desktop();
    d.handle_click(10, 580);
    d.needs_full_redraw = false;
    assert_eq!(d.handle_click(400, 300), ClickAction::NoAction);
    assert!(!d.start_menu_open);
    assert!(d.needs_full_redraw);
}

#[test]
fn menu_rows_do_nothing_when_closed() {
    let mut d = desktop();
    d.needs_full_redraw = false;
    assert_eq!(d.handle_click(100, 485), ClickAction::NoAction);
    assert!(!d.start_menu_open);
    assert!(!d.needs_full_redraw);
}

#[test]
fn close_button_click() {
    let mut d = desktop();
    d.needs_full_redraw = false;
    let r = d.close_button_rect;
    assert_eq!(d.handle_click(r.x as i32, r.y as i32), ClickAction::CloseTerminal);
    assert_eq!(d.handle_click((r.x + r.w - 1) as i32, (r.y + r.h - 1) as i32), ClickAction::CloseTerminal);
    assert!(!d.start_menu_open);
    assert!(!d.needs_full_redraw);
    assert_eq!(d.handle_click((r.x + r.w) as i32, r.y as i32), ClickAction::NoAction);
    // with the menu open, the first click only closes the menu
    d.handle_click(10, 580);
    assert_eq!(d.handle_click(r.x as i32 + 3, r.y as i32 + 3), ClickAction::NoAction);
    assert!(!d.start_menu_open);
    assert_eq!(d.handle_click(r.x as i32 + 3, r.y as i32 + 3), ClickAction::CloseTerminal);
}

#[test]
fn full_render_sends_whole_screen_and_draws_chrome() {
    let mut d = desktop();
    d.render();
    assert!(!d.needs_full_redraw);
    assert_eq!(d.fb.take_transfers(), vec![Rect { x: 0, y: 0, w: 800, h: 600 }]);
    assert_eq!(d.fb.get_pixel(770, 28), Color::red());
    assert_eq!(d.fb.get_pixel(5, 590), Color::taskbar());
    assert_eq!(d.fb.get_pixel(2, 2), Color::new(20, 30, 60));
    assert_eq!(d.fb.get_pixel(400, 300), Color::terminal_bg());
    // the cursor bar in the first cell
    assert_eq!(d.fb.get_pixel(16, 54), Color::light_gray());
    assert!(d.terminal.dirty.iter().all(|x| !*x));
}

#[test]
fn hover_colours_follow_the_pointer() {
    let mut d = desktop();
    d.mouse_x = 770;
    d.mouse_y = 28;
    d.render();
    assert_eq!(d.fb.get_pixel(770, 28), Color::bright_red());
    d.mouse_x = 5;
    d.mouse_y = 590;
    d.needs_full_redraw = true;
    d.render();
    assert_eq!(d.fb.get_pixel(770, 28), Color::red());
    assert_eq!(d.fb.get_pixel(5, 590), Color::taskbar_hover());
}

#[test]
fn open_menu_is_drawn_with_hovered_row() {
    let mut d = desktop();
    d.handle_click(10, 580);
    d.mouse_x = 150;
    d.mouse_y = 510;
    d.render();
    assert_eq!(d.fb.get_pixel(150, 510), Color::menu_hover());
    assert_eq!(d.fb.get_pixel(150, 485), Color::menu_bg());
    assert_eq!(d.fb.get_pixel(5, 590), Color::taskbar_hover());
}

#[test]
fn fast_render_sends_only_changed_cells() {
    let mut d = desktop();
    d.render();
    d.fb.take_transfers();
    d.terminal.write_byte(b'x');
    d.render();
    assert_eq!(d.fb.take_transfers(), vec![Rect { x: 16, y: 40, w: 16, h: 16 }]);
}

#[test]
fn screen_size_limits() {
    assert!(screen_ok_at(800, 600));
    assert!(screen_ok_at(40, 124));
    assert!(screen_ok_at(55, 600));
    assert!(!screen_ok_at(39, 600));
    assert!(!screen_ok_at(800, 123));
    assert!(!screen_ok_at(1 << 31, 600));
}

#[test]
fn full_render_draws_every_part_of_the_chrome() {
    let mut d = desktop();
    d.render();
    // title bar, away from the title text and the close button
    assert_eq!(d.fb.get_pixel(400, 18), Color::title_bar());
    // taskbar: separator on its top row, bar, divider, start face
    assert_eq!(d.fb.get_pixel(400, 568), Color::divider());
    assert_eq!(d.fb.get_pixel(400, 590), Color::taskbar());
    assert_eq!(d.fb.get_pixel(80, 580), Color::divider());
    assert_eq!(d.fb.get_pixel(60, 570), Color::taskbar());
    // labels drawn with a blank font show their backgrounds
    assert_eq!(d.fb.get_pixel(10, 580), Color::taskbar());
    assert_eq!(d.fb.get_pixel(750, 580), Color::taskbar());
    assert_eq!(d.fb.get_pixel(30, 25), Color::title_bar());
}

#[test]
fn open_menu_borders() {
    let mut d = desktop();
    d.handle_click(10, 580);
    d.render();
    assert_eq!(d.fb.get_pixel(100, 476), Color::divider());
    assert_eq!(d.fb.get_pixel(199, 478), Color::divider());
    assert_eq!(d.fb.get_pixel(100, 478), Color::menu_bg());
    assert_eq!(d.fb.get_pixel(199, 490), Color::menu_bg());
}

#[test]
fn narrow_screen_renders() {
    let glyphs = GlyphTable::from_rows(vec![0u8; 256 * 16]).unwrap();
    let mut d = Desktop::new(ScreenInfo { width: 40, height: 200 }, glyphs);
    assert_eq!(d.terminal.cols, 1);
    assert_eq!(d.close_button_rect, Rect { x: 4, y: 22, w: 12, h: 12 });
    d.render();
    assert_eq!(d.fb.take_transfers(), vec![Rect { x: 0, y: 0, w: 40, h: 200 }]);
    assert_eq!(d.fb.get_pixel(39, 190), Color::taskbar());
}
