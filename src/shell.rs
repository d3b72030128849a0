//! The decisions of the event loop: what a key press or a pointer sample
//! does to the desktop, and the per-frame order of cursor erase, repaint,
//! cursor draw and flush. Waiting for events and reading devices is left to
//! the caller.

use vstd::prelude::*;
use vstd::string::StringSliceAdditionalSpecFns;
use crate::desktop::{ClickAction, Desktop};
use crate::gop::{Color, Framebuffer, Rect};
use crate::mouse::{restored, MouseState, PointerSample};
use crate::terminal::{GridView, Terminal};

verus! {

pub const BANNER_ART: &'static str = "  _    _____  ___\n | |  / / __ \\/ __|\n | | / / /_/ /\\__ \\\n | |/ / ____/ ___) |\n |___/_/    /____/\n\n";

pub const BANNER_TEXT: &'static str = " VOS v0.1.0 - UEFI GUI Shell\n Type 'help' for available commands.\n\n";

pub const PROMPT: &'static str = "vos> ";

pub const CLEARED_MSG: &'static str = "Terminal cleared.\n";

pub const ACTIVE_MSG: &'static str = "Terminal is active.\n";

pub const REBOOT_MSG: &'static str = "Rebooting...\n";

pub const UNKNOWN_MSG: &'static str = "Unknown command: ";

pub const HELP_TEXT: &'static str = "Available commands:\n  help    - show this message\n  echo    - echo text back\n  clear   - clear screen\n  info    - show system info\n  mem     - show memory info\n  ls      - list directory (ls [path])\n  cat     - read file (cat <file>)\n  write   - write file (write <file> <text>)\n  mkdir   - create directory\n  rm      - delete file\n  reboot  - reboot the system\n";

/// A key as the shell sees it.
#[derive(Clone, Copy, Debug, PartialEq, Eq, Structural)]
pub enum KeyInput {
    /// A printable key, or return, or backspace.
    Char(char),
    /// The delete key.
    Delete,
    /// Any other key.
    Other,
}

/// The pointer overlay belongs to the desktop's screen.
pub open spec fn paired(d: &Desktop, m: &MouseState) -> bool {
    &&& d.wf()
    &&& m.wf()
    &&& m.screen_w == d.screen_w
    &&& m.screen_h == d.screen_h
}

/// `fb` shows `frame` with the arrow of `m` over it, `m` holds what the
/// arrow covers, and erasing the arrow gives back `frame` exactly.
pub open spec fn cursor_over(fb: &Framebuffer, m: &MouseState, frame: &Framebuffer) -> bool {
    &&& frame.width == fb.width
    &&& frame.height == fb.height
    &&& m.visible
    &&& m.saved_region() == m.footprint(fb.width as int, fb.height as int)
    &&& forall|px: int, py: int| #[trigger]
        fb.on_surface(px, py) ==> fb.pixel_at(px, py) == m.overlay(frame, px, py)
    &&& forall|px: int, py: int| #[trigger]
        frame.on_surface(px, py) ==> uncovered(m, fb.pixel_at(px, py), px, py) == frame.pixel_at(
            px,
            py,
        )
}

/// What the pixel at `(px, py)`, now `p`, shows once the cursor drawn by `m`
/// is erased.
pub open spec fn uncovered(m: &MouseState, p: Color, px: int, py: int) -> Color {
    if m.visible {
        restored(m.save_buffer@, m.saved_region(), px, py, p)
    } else {
        p
    }
}

/// The end of every frame: the arrow drawn over what the surface shows,
/// then a flush.
fn finish_frame(desktop: &mut Desktop, mouse: &mut MouseState)
    requires
        paired(old(desktop), old(mouse)),
    ensures
        paired(final(desktop), final(mouse)),
        final(desktop).same_layout(old(desktop)),
        final(desktop).terminal == old(desktop).terminal,
        final(desktop).needs_full_redraw == old(desktop).needs_full_redraw,
        final(desktop).fb.dirty_region() == (Rect { x: 0, y: 0, w: 0, h: 0 }),
        final(mouse).same_pointer(old(mouse)),
        final(mouse).save_buffer@ == old(mouse).snapshot(&old(desktop).fb),
        cursor_over(&final(desktop).fb, final(mouse), &old(desktop).fb),
{
    let ghost m0 = *mouse;
    let ghost f0 = desktop.fb;
    mouse.draw_cursor(&mut desktop.fb);
    let ghost drawn = desktop.fb;
    desktop.fb.flush();
    proof {
        crate::mouse::lemma_erase_after_draw_restores(&m0, &f0);
        assert forall|px: int, py: int| #[trigger] desktop.fb.on_surface(px, py) implies desktop.fb.pixel_at(
            px,
            py,
        ) == mouse.overlay(&f0, px, py) by {
            assert(drawn.on_surface(px, py));
        }
        assert forall|px: int, py: int| #[trigger] f0.on_surface(px, py) implies uncovered(
            mouse,
            desktop.fb.pixel_at(px, py),
            px,
            py,
        ) == f0.pixel_at(px, py) by {
            assert(drawn.on_surface(px, py));
            assert(desktop.fb.on_surface(px, py));
        }
    }
}

/// One frame: erase the old cursor, repaint what changed (or everything when
/// a full redraw is due), draw the cursor at its current position, flush.
/// The frame under the arrow is the full frame, or else the terminal's
/// repaint over the old surface with the old arrow erased.
pub fn render_with_cursor(desktop: &mut Desktop, mouse: &mut MouseState)
    requires
        paired(old(desktop), old(mouse)),
    ensures
        paired(final(desktop), final(mouse)),
        final(desktop).same_layout(old(desktop)),
        !final(desktop).needs_full_redraw,
        final(desktop).terminal@ == old(desktop).terminal@.clean(),
        final(desktop).fb.dirty_region() == (Rect { x: 0, y: 0, w: 0, h: 0 }),
        final(mouse).same_pointer(old(mouse)),
        final(mouse).visible,
        final(mouse).saved_region() == old(mouse).footprint(
            old(desktop).screen_w as int,
            old(desktop).screen_h as int,
        ),
        exists|frame: Framebuffer|
            #![trigger cursor_over(&final(desktop).fb, final(mouse), &frame)]
            {
                &&& cursor_over(&final(desktop).fb, final(mouse), &frame)
                &&& final(mouse).save_buffer@ == old(mouse).snapshot(&frame)
                &&& old(desktop).needs_full_redraw ==> old(desktop).shows_full_frame(&frame)
                &&& !old(desktop).needs_full_redraw ==> forall|px: int, py: int| #[trigger]
                    frame.on_surface(px, py) ==> frame.pixel_at(px, py)
                        == old(desktop).terminal.painted(
                        &old(desktop).glyphs,
                        px,
                        py,
                        uncovered(old(mouse), old(desktop).fb.pixel_at(px, py), px, py),
                    )
            },
{
    mouse.erase_cursor(&mut desktop.fb);
    let ghost erased = desktop.fb;
    let ghost erased_desktop = *desktop;
    desktop.render();
    let ghost frame = desktop.fb;
    let ghost before_draw = *mouse;
    finish_frame(desktop, mouse);
    proof {
        assert(before_draw.snapshot(&frame) =~= old(mouse).snapshot(&frame));
        if old(desktop).needs_full_redraw {
            erased_desktop.lemma_full_frame_ignores_surface(old(desktop), &frame);
        } else {
            assert forall|px: int, py: int| #[trigger] frame.on_surface(px, py) implies frame.pixel_at(px, py)
                == old(desktop).terminal.painted(
                &old(desktop).glyphs,
                px,
                py,
                uncovered(old(mouse), old(desktop).fb.pixel_at(px, py), px, py),
            ) by {
                assert(erased.on_surface(px, py));
            }
        }
        assert(cursor_over(&desktop.fb, mouse, &frame));
    }
}

/// A frame with a full redraw.
pub fn render_full_with_cursor(desktop: &mut Desktop, mouse: &mut MouseState)
    requires
        paired(old(desktop), old(mouse)),
    ensures
        paired(final(desktop), final(mouse)),
        final(desktop).same_layout(old(desktop)),
        !final(desktop).needs_full_redraw,
        final(desktop).terminal@ == old(desktop).terminal@.clean(),
        final(desktop).fb.dirty_region() == (Rect { x: 0, y: 0, w: 0, h: 0 }),
        final(mouse).same_pointer(old(mouse)),
        final(mouse).visible,
        exists|frame: Framebuffer|
            #![trigger cursor_over(&final(desktop).fb, final(mouse), &frame)]
            {
                &&& cursor_over(&final(desktop).fb, final(mouse), &frame)
                &&& final(mouse).save_buffer@ == old(mouse).snapshot(&frame)
                &&& old(desktop).shows_full_frame(&frame)
                &&& final(desktop).shows_full_frame(&frame)
            },
{
    desktop.needs_full_redraw = true;
    let ghost flagged = *desktop;
    render_with_cursor(desktop, mouse);
    proof {
        let frame = choose|frame: Framebuffer|
            #![trigger cursor_over(&desktop.fb, mouse, &frame)]
            {
                &&& cursor_over(&desktop.fb, mouse, &frame)
                &&& mouse.save_buffer@ == old(mouse).snapshot(&frame)
                &&& flagged.needs_full_redraw ==> flagged.shows_full_frame(&frame)
                &&& !flagged.needs_full_redraw ==> forall|px: int, py: int| #[trigger]
                    frame.on_surface(px, py) ==> frame.pixel_at(px, py)
                        == flagged.terminal.painted(
                        &flagged.glyphs,
                        px,
                        py,
                        uncovered(old(mouse), flagged.fb.pixel_at(px, py), px, py),
                    )
            };
        flagged.lemma_full_frame_ignores_surface(old(desktop), &frame);
        flagged.lemma_full_frame_ignores_surface(desktop, &frame);
    }
}

/// A key echoed as byte `b`: `d1` is `d0` with `b` written to the terminal and
/// a frame drawn, that frame being the full frame when one was due, or else
/// the repaint of the cells `b` dirtied over the surface with the old arrow
/// erased.
pub open spec fn echoed(d0: &Desktop, m0: &MouseState, d1: &Desktop, m1: &MouseState, b: u8) -> bool {
    &&& d1.terminal@ == d0.terminal@.write(b).clean()
    &&& !d1.needs_full_redraw
    &&& d1.fb.dirty_region() == (Rect { x: 0, y: 0, w: 0, h: 0 })
    &&& m1.same_pointer(m0)
    &&& exists|frame: Framebuffer|
        #![trigger cursor_over(&d1.fb, m1, &frame)]
        {
            &&& cursor_over(&d1.fb, m1, &frame)
            &&& d0.needs_full_redraw ==> d1.shows_full_frame(&frame)
            &&& !d0.needs_full_redraw ==> forall|px: int, py: int| #[trigger]
                frame.on_surface(px, py) ==> frame.pixel_at(px, py) == d1.terminal.painted_with(
                    d0.terminal@.write(b).dirty,
                    &d1.glyphs,
                    px,
                    py,
                    uncovered(m0, d0.fb.pixel_at(px, py), px, py),
                )
        }
}

/// Nothing drawn and nothing written: surface, terminal, flags and pointer
/// as they were.
pub open spec fn untouched(d0: &Desktop, m0: &MouseState, d1: &Desktop, m1: &MouseState) -> bool {
    &&& d1.fb == d0.fb
    &&& d1.terminal == d0.terminal
    &&& d1.needs_full_redraw == d0.needs_full_redraw
    &&& *m1 == *m0
}

/// Writes `b` to the terminal and draws a frame.
fn echo_byte(desktop: &mut Desktop, mouse: &mut MouseState, b: u8)
    requires
        paired(old(desktop), old(mouse)),
    ensures
        paired(final(desktop), final(mouse)),
        final(desktop).same_layout(old(desktop)),
        echoed(old(desktop), old(mouse), final(desktop), final(mouse), b),
{
    desktop.terminal.write_byte(b);
    let ghost written = *desktop;
    render_with_cursor(desktop, mouse);
    proof {
        let frame = choose|frame: Framebuffer|
            #![trigger cursor_over(&desktop.fb, mouse, &frame)]
            {
                &&& cursor_over(&desktop.fb, mouse, &frame)
                &&& mouse.save_buffer@ == old(mouse).snapshot(&frame)
                &&& written.needs_full_redraw ==> written.shows_full_frame(&frame)
                &&& !written.needs_full_redraw ==> forall|px: int, py: int| #[trigger]
                    frame.on_surface(px, py) ==> frame.pixel_at(px, py)
                        == written.terminal.painted(
                        &written.glyphs,
                        px,
                        py,
                        uncovered(old(mouse), written.fb.pixel_at(px, py), px, py),
                    )
            };
        if written.needs_full_redraw {
            written.lemma_full_frame_ignores_surface(desktop, &frame);
        } else {
            assert(desktop.terminal.cells@ == written.terminal.cells@);
            assert(desktop.terminal.cursor_col == written.terminal.cursor_col);
            assert(desktop.terminal.cursor_row == written.terminal.cursor_row);
            assert forall|px: int, py: int| #[trigger] frame.on_surface(px, py) implies frame.pixel_at(px, py)
                == desktop.terminal.painted_with(
                old(desktop).terminal@.write(b).dirty,
                &desktop.glyphs,
                px,
                py,
                uncovered(old(mouse), old(desktop).fb.pixel_at(px, py), px, py),
            ) by {}
        }
        assert(cursor_over(&desktop.fb, mouse, &frame));
    }
}

/// Handles one key of line input. Return or enter ends the line: it is
/// echoed as a newline and handed back. Backspace and delete drop the last
/// buffered character and erase it on screen. Any other character from the
/// space up is buffered and echoed. Every echo draws a frame (see `echoed`);
/// a key that is not echoed changes nothing.
pub fn handle_key_input(
    buf: &mut Vec<char>,
    desktop: &mut Desktop,
    mouse: &mut MouseState,
    key: KeyInput,
) -> (r: Option<Vec<char>>)
    requires
        paired(old(desktop), old(mouse)),
    ensures
        paired(final(desktop), final(mouse)),
        final(desktop).same_layout(old(desktop)),
        ({
            let erase = old(buf)@.len() > 0 && (key == KeyInput::Delete || key == KeyInput::Char(
                '\u{8}',
            ));
            match key {
                KeyInput::Char(c) => if c == '\r' || c == '\n' {
                    &&& r is Some && r->0@ == old(buf)@
                    &&& final(buf)@ == old(buf)@
                    &&& echoed(old(desktop), old(mouse), final(desktop), final(mouse), 10)
                } else if c == '\u{8}' {
                    &&& r is None
                    &&& erase ==> final(buf)@ == old(buf)@.drop_last() && echoed(
                        old(desktop),
                        old(mouse),
                        final(desktop),
                        final(mouse),
                        8,
                    )
                    &&& !erase ==> final(buf)@ == old(buf)@ && untouched(
                        old(desktop),
                        old(mouse),
                        final(desktop),
                        final(mouse),
                    )
                } else if c >= ' ' {
                    &&& r is None
                    &&& final(buf)@ == old(buf)@.push(c)
                    &&& echoed(old(desktop), old(mouse), final(desktop), final(mouse), c as u8)
                } else {
                    &&& r is None
                    &&& final(buf)@ == old(buf)@
                    &&& untouched(old(desktop), old(mouse), final(desktop), final(mouse))
                },
                KeyInput::Delete => {
                    &&& r is None
                    &&& erase ==> final(buf)@ == old(buf)@.drop_last() && echoed(
                        old(desktop),
                        old(mouse),
                        final(desktop),
                        final(mouse),
                        8,
                    )
                    &&& !erase ==> final(buf)@ == old(buf)@ && untouched(
                        old(desktop),
                        old(mouse),
                        final(desktop),
                        final(mouse),
                    )
                },
                KeyInput::Other => {
                    &&& r is None
                    &&& final(buf)@ == old(buf)@
                    &&& untouched(old(desktop), old(mouse), final(desktop), final(mouse))
                },
            }
        }),
{
    match key {
        KeyInput::Char(ch) => {
            if ch == '\r' || ch == '\n' {
                echo_byte(desktop, mouse, 10);
                return Some(buf.clone());
            }
            if ch == '\u{8}' {
                if buf.len() > 0 {
                    buf.pop();
                    echo_byte(desktop, mouse, 8);
                }
                return None;
            }
            if ch >= ' ' {
                buf.push(ch);
                echo_byte(desktop, mouse, ch as u8);
            }
            None
        },
        KeyInput::Delete => {
            if buf.len() > 0 {
                buf.pop();
                echo_byte(desktop, mouse, 8);
            }
            None
        },
        KeyInput::Other => None,
    }
}

/// The terminal after the visible effect of a click's action: the close
/// button clears it and says so, the menu's Terminal row switches to white
/// text and says so, Info prints `info`, and Reboot announces the reboot.
pub open spec fn after_action(g: GridView, r: ClickAction, info: Seq<u8>) -> GridView {
    match r {
        ClickAction::CloseTerminal => g.cleared().write_all(CLEARED_MSG.spec_bytes()),
        ClickAction::MenuTerminal => GridView {
            fg: Color::spec_white(),
            bg: Color::spec_terminal_bg(),
            ..g
        }.write_all(ACTIVE_MSG.spec_bytes()),
        ClickAction::MenuInfo => g.write_all(info),
        ClickAction::MenuReboot => g.write_all(REBOOT_MSG.spec_bytes()),
        _ => g,
    }
}

/// Handles one pointer sample. The pointer moves as `MouseState::update`
/// says. A new left press is a click at the new position: it is dispatched
/// by `Desktop::handle_click`, its action's effect is applied to the
/// terminal (see `after_action`; `info` is the text that Info prints), and a
/// full frame follows whenever the click did anything. Motion without a click
/// moves the cursor overlay, with a full redraw first when the menu is open
/// or either position is on the close or start button. Returns the click's
/// action; `MenuReboot` is left to the caller to carry out.
pub fn handle_mouse_poll(
    desktop: &mut Desktop,
    mouse: &mut MouseState,
    sample: &PointerSample,
    info: &str,
) -> (r: ClickAction)
    requires
        paired(old(desktop), old(mouse)),
    ensures
        paired(final(desktop), final(mouse)),
        final(desktop).same_geometry(old(desktop)),
        ({
            let nx = old(mouse).next_x(sample);
            let ny = old(mouse).next_y(sample);
            let clicked = sample.left && !old(mouse).left_button;
            let expected = after_action(old(desktop).terminal@, r, info.spec_bytes());
            &&& final(mouse).x == nx
            &&& final(mouse).y == ny
            &&& final(mouse).left_button == sample.left
            &&& final(mouse).right_button == sample.right
            &&& final(mouse).left_clicked == clicked
            &&& final(mouse).sensitivity == old(mouse).sensitivity
            &&& final(desktop).mouse_x == nx
            &&& final(desktop).mouse_y == ny
            &&& r == if clicked {
                old(desktop).click_action(nx, ny)
            } else {
                ClickAction::NoAction
            }
            &&& final(desktop).start_menu_open == if clicked {
                old(desktop).menu_open_after(nx, ny)
            } else {
                old(desktop).start_menu_open
            }
            &&& final(desktop).terminal@.same_text(expected)
            &&& clicked && (r != ClickAction::NoAction || old(desktop).needs_full_redraw
                || old(desktop).click_redraws(nx, ny)) ==> {
                &&& !final(desktop).needs_full_redraw
                &&& final(desktop).terminal@ == expected.clean()
                &&& final(desktop).fb.dirty_region() == (Rect { x: 0, y: 0, w: 0, h: 0 })
                &&& final(mouse).visible
                &&& exists|frame: Framebuffer|
                    #![trigger cursor_over(&final(desktop).fb, final(mouse), &frame)]
                    cursor_over(&final(desktop).fb, final(mouse), &frame)
                        && final(desktop).shows_full_frame(&frame)
            }
            &&& !clicked && (nx != old(mouse).x || ny != old(mouse).y) ==> {
                let hover_change = old(desktop).start_menu_open
                    || old(desktop).close_button_rect.has(nx, ny)
                    || old(desktop).close_button_rect.has(old(mouse).x as int, old(mouse).y as int)
                    || old(desktop).start_button_rect.has(nx, ny)
                    || old(desktop).start_button_rect.has(old(mouse).x as int, old(mouse).y as int);
                &&& final(mouse).visible
                &&& final(mouse).saved_region() == final(mouse).footprint(
                    old(desktop).screen_w as int,
                    old(desktop).screen_h as int,
                )
                &&& final(desktop).fb.dirty_region() == (Rect { x: 0, y: 0, w: 0, h: 0 })
                &&& hover_change ==> !final(desktop).needs_full_redraw && final(desktop).terminal@
                    == old(desktop).terminal@.clean()
                &&& !hover_change ==> final(desktop).needs_full_redraw
                    == old(desktop).needs_full_redraw && final(desktop).terminal
                    == old(desktop).terminal
                &&& exists|frame: Framebuffer|
                    #![trigger cursor_over(&final(desktop).fb, final(mouse), &frame)]
                    {
                        &&& cursor_over(&final(desktop).fb, final(mouse), &frame)
                        &&& hover_change ==> final(desktop).shows_full_frame(&frame)
                        &&& !hover_change ==> forall|px: int, py: int| #[trigger]
                            frame.on_surface(px, py) ==> frame.pixel_at(px, py) == uncovered(
                                old(mouse),
                                old(desktop).fb.pixel_at(px, py),
                                px,
                                py,
                            )
                    }
            }
            &&& !clicked && nx == old(mouse).x && ny == old(mouse).y ==> {
                &&& final(desktop).fb == old(desktop).fb
                &&& final(desktop).terminal == old(desktop).terminal
                &&& final(desktop).needs_full_redraw == old(desktop).needs_full_redraw
                &&& final(mouse).visible == old(mouse).visible
            }
        }),
{
    let old_x = mouse.x;
    let old_y = mouse.y;
    mouse.update(sample);
    desktop.mouse_x = mouse.x;
    desktop.mouse_y = mouse.y;
    if mouse.left_clicked {
        let action = desktop.handle_click(mouse.x, mouse.y);
        match action {
            ClickAction::ToggleStartMenu => {
                render_full_with_cursor(desktop, mouse);
            },
            ClickAction::CloseTerminal => {
                desktop.terminal.clear();
                desktop.terminal.write_str(CLEARED_MSG);
                render_full_with_cursor(desktop, mouse);
            },
            ClickAction::MenuTerminal => {
                desktop.terminal.set_color(Color::white(), Color::terminal_bg());
                desktop.terminal.write_str(ACTIVE_MSG);
                render_full_with_cursor(desktop, mouse);
            },
            ClickAction::MenuInfo => {
                desktop.terminal.write_str(info);
                render_full_with_cursor(desktop, mouse);
            },
            ClickAction::MenuReboot => {
                desktop.terminal.write_str(REBOOT_MSG);
                render_full_with_cursor(desktop, mouse);
            },
            ClickAction::NoAction => {
                if desktop.needs_full_redraw {
                    render_full_with_cursor(desktop, mouse);
                }
            },
        }
        action
    } else {
        if mouse.moved(old_x, old_y) {
            mouse.erase_cursor(&mut desktop.fb);
            let need_redraw = desktop.start_menu_open || desktop.close_button_rect.contains(
                mouse.x,
                mouse.y,
            ) || desktop.close_button_rect.contains(old_x, old_y)
                || desktop.start_button_rect.contains(mouse.x, mouse.y)
                || desktop.start_button_rect.contains(old_x, old_y);
            let ghost erased = desktop.fb;
            let ghost before_render = *desktop;
            if need_redraw {
                desktop.needs_full_redraw = true;
                desktop.render();
            }
            let ghost frame = desktop.fb;
            finish_frame(desktop, mouse);
            proof {
                if need_redraw {
                    let f = Desktop { needs_full_redraw: true, ..before_render };
                    f.lemma_full_frame_ignores_surface(desktop, &frame);
                } else {
                    assert forall|px: int, py: int| #[trigger] frame.on_surface(px, py) implies frame.pixel_at(
                        px,
                        py,
                    ) == uncovered(old(mouse), old(desktop).fb.pixel_at(px, py), px, py) by {
                        assert(erased.on_surface(px, py));
                    }
                }
                assert(cursor_over(&desktop.fb, mouse, &frame));
            }
        }
        ClickAction::NoAction
    }
}

/// The list of commands that `help` prints.
pub fn help_text() -> (s: &'static str)
    ensures
        s@ == HELP_TEXT@,
{
    HELP_TEXT
}

/// The start-up banner: the logo in cyan, then two lines in white.
pub fn write_banner(t: &mut Terminal)
    requires
        old(t).wf(),
    ensures
        final(t).wf(),
        final(t).origin_x == old(t).origin_x,
        final(t).origin_y == old(t).origin_y,
        final(t).cols == old(t).cols,
        final(t).rows == old(t).rows,
        final(t)@ == (GridView {
            fg: Color::spec_white(),
            bg: Color::spec_terminal_bg(),
            ..(GridView {
                fg: Color::spec_cyan(),
                bg: Color::spec_terminal_bg(),
                ..old(t)@
            }).write_all(BANNER_ART.spec_bytes())
        }).write_all(BANNER_TEXT.spec_bytes()),
{
    t.set_color(Color::cyan(), Color::terminal_bg());
    t.write_str(BANNER_ART);
    t.set_color(Color::white(), Color::terminal_bg());
    t.write_str(BANNER_TEXT);
}

/// The prompt in green, leaving the colours at light grey for the input.
pub fn write_prompt(t: &mut Terminal)
    requires
        old(t).wf(),
    ensures
        final(t).wf(),
        final(t).origin_x == old(t).origin_x,
        final(t).origin_y == old(t).origin_y,
        final(t).cols == old(t).cols,
        final(t).rows == old(t).rows,
        final(t)@ == (GridView {
            fg: Color::spec_light_gray(),
            bg: Color::spec_terminal_bg(),
            ..(GridView { fg: Color::spec_green(), bg: Color::spec_terminal_bg(), ..old(t)@ }).write_all(
                PROMPT.spec_bytes(),
            )
        }),
{
    t.set_color(Color::green(), Color::terminal_bg());
    t.write_str(PROMPT);
    t.set_color(Color::light_gray(), Color::terminal_bg());
}

/// `text` and a newline, in the current colours.
pub fn echo(t: &mut Terminal, text: &str)
    requires
        old(t).wf(),
    ensures
        final(t).wf(),
        final(t).origin_x == old(t).origin_x,
        final(t).origin_y == old(t).origin_y,
        final(t).cols == old(t).cols,
        final(t).rows == old(t).rows,
        final(t)@ == old(t)@.write_all(text.spec_bytes()).write(10),
{
    t.write_str(text);
    t.write_byte(10);
}

/// `first`, `second` and a newline in red, leaving the colours at light grey.
pub fn write_error(t: &mut Terminal, first: &str, second: &str)
    requires
        old(t).wf(),
    ensures
        final(t).wf(),
        final(t).origin_x == old(t).origin_x,
        final(t).origin_y == old(t).origin_y,
        final(t).cols == old(t).cols,
        final(t).rows == old(t).rows,
        final(t)@ == (GridView {
            fg: Color::spec_light_gray(),
            bg: Color::spec_terminal_bg(),
            ..(GridView { fg: Color::spec_red(), bg: Color::spec_terminal_bg(), ..old(t)@ }).write_all(
                first.spec_bytes(),
            ).write_all(second.spec_bytes()).write(10)
        }),
{
    t.set_color(Color::red(), Color::terminal_bg());
    t.write_str(first);
    t.write_str(second);
    t.write_byte(10);
    t.set_color(Color::light_gray(), Color::terminal_bg());
}

/// The line shown for a command word that no handler takes.
pub fn write_unknown_command(t: &mut Terminal, cmd: &str)
    requires
        old(t).wf(),
    ensures
        final(t).wf(),
        final(t).origin_x == old(t).origin_x,
        final(t).origin_y == old(t).origin_y,
        final(t).cols == old(t).cols,
        final(t).rows == old(t).rows,
        final(t)@ == (GridView {
            fg: Color::spec_light_gray(),
            bg: Color::spec_terminal_bg(),
            ..(GridView { fg: Color::spec_red(), bg: Color::spec_terminal_bg(), ..old(t)@ }).write_all(
                UNKNOWN_MSG.spec_bytes(),
            ).write_all(cmd.spec_bytes()).write(10)
        }),
{
    write_error(t, UNKNOWN_MSG, cmd);
}

} // verus!