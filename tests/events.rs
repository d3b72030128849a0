use vos::desktop::{ClickAction, Desktop};
use vos::font::GlyphTable;
use vos::gop::{Color, ScreenInfo};
use vos::mouse::{MouseState, PointerSample};
use vos::shell::{
    echo, handle_key_input, handle_mouse_poll, help_text, render_full_with_cursor,
    render_with_cursor, write_banner, write_error, write_prompt, write_unknown_command, KeyInput,
};

fn setup() -> (Desktop, MouseState) {
    let glyphs = GlyphTable::from_rows(vec![0u8; 256 * 16]).unwrap();
    let d = Desktop::new(ScreenInfo { width: 800, height: 600 }, glyphs);
    let mut m = MouseState::new(800, 600);
    m.set_sensitivity(1);
    (d, m)
}

fn text(d: &Desktop, row: usize) -> String {
    let cols = d.terminal.cols;
    d.terminal.cells[row * cols..(row + 1) * cols].iter().map(|c| c.ch as char).collect::<String>().trim_end().to_string()
}

fn click_at(d: &mut Desktop, m: &mut MouseState, x: i32, y: i32, info: &str) -> ClickAction {
    let dx = x - m.x;
    let dy = y - m.y;
    handle_mouse_poll(d, m, &PointerSample { dx, dy, left: false, right: false }, info);
    handle_mouse_poll(d, m, &PointerSample { dx: 0, dy: 0, left: true, right: false }, info)
}

#[test]
fn frame_draws_cursor_over_rendered_desktop() {
    let (mut d, mut m) = setup();
    render_with_cursor(&mut d, &mut m);
    assert!(m.visible);
    assert!(!d.needs_full_redraw);
    assert_eq!(d.fb.get_pixel(400, 300), Color::black());
    let sent = d.fb.take_transfers();
    assert_eq!(sent.len(), 2);
    assert_eq!((sent[0].w, sent[0].h), (800, 600));
}

#[test]
fn typing_buffers_and_echoes() {
    let (mut d, mut m) = setup();
    render_full_with_cursor(&mut d, &mut m);
    let mut buf: Vec<char> = Vec::new();
    assert_eq!(handle_key_input(&mut buf, &mut d, &mut m, KeyInput::Char('l')), None);
    assert_eq!(handle_key_input(&mut buf, &mut d, &mut m, KeyInput::Char('s')), None);
    assert_eq!(buf, vec!['l', 's']);
    assert_eq!(text(&d, 0), "ls");
    assert_eq!(handle_key_input(&mut buf, &mut d, &mut m, KeyInput::Char('\u{8}')), None);
    assert_eq!(buf, vec!['l']);
    assert_eq!(text(&d, 0), "l");
    assert_eq!(handle_key_input(&mut buf, &mut d, &mut m, KeyInput::Delete), None);
    assert!(buf.is_empty());
    assert_eq!(handle_key_input(&mut buf, &mut d, &mut m, KeyInput::Delete), None);
    assert_eq!((d.terminal.cursor_row, d.terminal.cursor_col), (0, 0));
    assert_eq!(handle_key_input(&mut buf, &mut d, &mut m, KeyInput::Other), None);
    assert_eq!(handle_key_input(&mut buf, &mut d, &mut m, KeyInput::Char('\u{1}')), None);
    assert!(buf.is_empty());
    handle_key_input(&mut buf, &mut d, &mut m, KeyInput::Char('o'));
    handle_key_input(&mut buf, &mut d, &mut m, KeyInput::Char('k'));
    assert_eq!(handle_key_input(&mut buf, &mut d, &mut m, KeyInput::Char('\r')), Some(vec!['o', 'k']));
    assert_eq!((d.terminal.cursor_row, d.terminal.cursor_col), (1, 0));
    assert!(d.terminal.dirty.iter().all(|x| !*x));
}

#[test]
fn pointer_motion_moves_the_cursor_overlay() {
    let (mut d, mut m) = setup();
    render_full_with_cursor(&mut d, &mut m);
    d.fb.take_transfers();
    let r = handle_mouse_poll(&mut d, &mut m, &PointerSample { dx: 10, dy: 0, left: false, right: false }, "");
    assert_eq!(r, ClickAction::NoAction);
    assert_eq!((m.x, m.y), (410, 300));
    assert_eq!((d.mouse_x, d.mouse_y), (410, 300));
    assert_eq!(d.fb.get_pixel(410, 300), Color::black());
    assert_eq!(d.fb.get_pixel(400, 300), Color::terminal_bg());
    let sent = d.fb.take_transfers();
    assert_eq!(sent.len(), 1);
    assert_eq!((sent[0].x, sent[0].y, sent[0].w, sent[0].h), (400, 300, 21, 19));
}

#[test]
fn clicking_close_clears_terminal() {
    let (mut d, mut m) = setup();
    d.terminal.write_str("old text\n");
    render_full_with_cursor(&mut d, &mut m);
    assert_eq!(click_at(&mut d, &mut m, 770, 28, ""), ClickAction::CloseTerminal);
    assert_eq!(text(&d, 0), "Terminal cleared.");
    assert_eq!(text(&d, 1), "");
    assert!(!d.needs_full_redraw);
}

#[test]
fn menu_rows_apply_their_effects() {
    let (mut d, mut m) = setup();
    render_full_with_cursor(&mut d, &mut m);
    assert_eq!(click_at(&mut d, &mut m, 10, 580, ""), ClickAction::ToggleStartMenu);
    assert!(d.start_menu_open);
    assert_eq!(click_at(&mut d, &mut m, 50, 515, "fw 1.0\n"), ClickAction::MenuInfo);
    assert!(!d.start_menu_open);
    assert_eq!(text(&d, 0), "fw 1.0");
    click_at(&mut d, &mut m, 10, 580, "");
    assert_eq!(click_at(&mut d, &mut m, 50, 485, ""), ClickAction::MenuTerminal);
    assert_eq!(text(&d, 1), "Terminal is active.");
    assert_eq!(d.terminal.current_fg, Color::white());
    click_at(&mut d, &mut m, 10, 580, "");
    assert_eq!(click_at(&mut d, &mut m, 50, 540, ""), ClickAction::MenuReboot);
    assert_eq!(text(&d, 2), "Rebooting...");
}

#[test]
fn holding_the_button_clicks_once() {
    let (mut d, mut m) = setup();
    render_full_with_cursor(&mut d, &mut m);
    assert_eq!(click_at(&mut d, &mut m, 10, 580, ""), ClickAction::ToggleStartMenu);
    let r = handle_mouse_poll(&mut d, &mut m, &PointerSample { dx: 0, dy: 0, left: true, right: false }, "");
    assert_eq!(r, ClickAction::NoAction);
    assert!(d.start_menu_open);
}

#[test]
fn banner_prompt_and_errors() {
    let (mut d, _m) = setup();
    write_banner(&mut d.terminal);
    assert_eq!(text(&d, 0), "  _    _____  ___");
    assert_eq!(text(&d, 6), " VOS v0.1.0 - UEFI GUI Shell");
    assert_eq!(d.terminal.cells[6 * 96 + 1].fg, Color::white());
    assert_eq!(d.terminal.cells[1].fg, Color::cyan());
    assert_eq!((d.terminal.cursor_row, d.terminal.cursor_col), (9, 0));
    write_prompt(&mut d.terminal);
    assert_eq!(text(&d, 9), "vos>");
    assert_eq!(d.terminal.cells[9 * 96].fg, Color::green());
    assert_eq!(d.terminal.current_fg, Color::light_gray());
    echo(&mut d.terminal, "hello");
    assert_eq!(text(&d, 9), "vos> hello");
    write_unknown_command(&mut d.terminal, "frob");
    assert_eq!(text(&d, 10), "Unknown command: frob");
    assert_eq!(d.terminal.cells[10 * 96].fg, Color::red());
    write_error(&mut d.terminal, "Cannot open '", "x'");
    assert_eq!(text(&d, 11), "Cannot open 'x'");
    assert_eq!(d.terminal.current_fg, Color::light_gray());
}

#[test]
fn help_lists_commands() {
    let h = help_text();
    assert!(h.starts_with("Available commands:\n  help    - show this message\n"));
    assert!(h.ends_with("  reboot  - reboot the system\n"));
    assert_eq!(h.lines().count(), 12);
}
