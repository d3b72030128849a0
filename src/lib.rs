//! A small windowing shell drawn by hand onto a pixel buffer: a pixel surface
//! with dirty-rectangle tracking, a terminal character grid, a mouse cursor
//! overlay, and a desktop with a title bar, a taskbar and a start menu.

pub mod desktop;
pub mod font;
pub mod gop;
pub mod memory;
pub mod mouse;
pub mod shell;
pub mod terminal;
