//! Keyboard and mouse handling: each terminal event becomes a change of the
//! editor state, plus possibly a file operation for the caller.

use crate::app::{
    spec_action_view, spec_apply_redo, spec_apply_undo, spec_default_file, spec_ensure_cursor_visible,
    spec_execute_command, spec_finish_stroke, spec_paint_pixel, spec_paint_pixel_stroke,
    spec_canvas_area_height, spec_pixel_height, spec_pixel_width, spec_screen_in_range, spec_screen_to_canvas, spec_scroll_in_range, App, AppMode, AppView, FileAction, FileActionView,
    law_finish_stroke_keeps_history_consistent, law_fresh_history_consistent,
    law_paint_keeps_history_consistent, law_redo_keeps_history_consistent,
    law_stroke_pixel_keeps_history_consistent, law_undo_keeps_history_consistent,
    spec_history_consistent, spec_view_renderable, law_scroll_keeps_view_renderable,
    law_stroke_stays_recorded, law_undo_after_stroke,
};
use crate::history::{spec_apply_forward, spec_recorded_on, HistoryEntry, HistoryModel};
use crate::color::{rgb_to_hex, spec_rgb_to_hex};
use crate::command::{spec_parse_command, CommandView};
use crate::text::{decimal_string, spec_decimal};
use vstd::prelude::*;

verus! {

/// A key, as far as the editor tells keys apart.
#[derive(Clone, Copy, PartialEq, Eq, Debug)]
pub enum KeyCode {
    Char(char),
    Esc,
    Enter,
    Backspace,
    Up,
    Down,
    Left,
    Right,
    Delete,
    /// Any other key.
    Other,
}

/// A key press and whether Control was held.
#[derive(Clone, Copy, PartialEq, Eq, Debug)]
pub struct KeyEvent {
    pub code: KeyCode,
    pub ctrl: bool,
}

/// A mouse button.
#[derive(Clone, Copy, PartialEq, Eq, Debug)]
pub enum MouseButton {
    Left,
    Right,
    Middle,
}

/// What the mouse did.
#[derive(Clone, Copy, PartialEq, Eq, Debug)]
pub enum MouseEventKind {
    Down(MouseButton),
    Up(MouseButton),
    Drag(MouseButton),
    ScrollUp,
    ScrollDown,
    /// Moves without a button, horizontal scrolling and the like.
    Other,
}

/// A mouse event at a terminal cell.
#[derive(Clone, Copy, PartialEq, Eq, Debug)]
pub struct MouseEvent {
    pub kind: MouseEventKind,
    pub column: u16,
    pub row: u16,
}

/// A terminal event.
#[derive(Clone, Copy, PartialEq, Eq, Debug)]
pub enum Event {
    Key(KeyEvent),
    Mouse(MouseEvent),
    Resize(u16, u16),
    /// Focus, paste and the like.
    Other,
}

/// The status message on entering command mode.
pub open spec fn spec_command_mode_message() -> Seq<char> {
    "命令模式（输入命令后按 Enter 执行，ESC 返回）"@
}

/// The status message after choosing palette entry `i` of colour `c`.
pub open spec fn spec_palette_message(i: nat, c: (u8, u8, u8)) -> Seq<char> {
    "调色板 "@ + spec_decimal(i) + ": "@ + spec_rgb_to_hex(c)
}

/// The status message after a zoom change.
pub open spec fn spec_zoom_message(z: u16) -> Seq<char> {
    "缩放: "@ + spec_decimal(z as nat) + "x"@
}

/// A key in draw mode.
pub open spec fn spec_draw_key(a: AppView, k: KeyEvent, term: Option<(u16, u16)>) -> (
    AppView,
    Option<FileActionView>,
) {
    match k.code {
        KeyCode::Char(c) => {
            if c == 'q' && k.ctrl {
                (AppView { running: false, ..a }, None)
            } else if c == 's' && k.ctrl {
                (a, Some(FileActionView::Save(spec_default_file())))
            } else if c == 'z' && k.ctrl {
                (spec_apply_undo(a), None)
            } else if c == 'y' && k.ctrl {
                (spec_apply_redo(a), None)
            } else if c == ' ' {
                (spec_paint_pixel(a, a.cursor_x, a.cursor_y, Some(a.brush_color)), None)
            } else if '0' <= c <= '9' {
                let i = ((c as u32) - 48) as usize;
                (
                    AppView {
                        active_palette_index: i,
                        brush_color: a.palette[i as int],
                        status_message: spec_palette_message(i as nat, a.palette[i as int]),
                        ..a
                    },
                    None,
                )
            } else {
                (a, None)
            }
        },
        KeyCode::Esc => (
            AppView {
                mode: AppMode::Command,
                command_buffer: Seq::empty(),
                status_message: spec_command_mode_message(),
                ..a
            },
            None,
        ),
        KeyCode::Up => (
            spec_ensure_cursor_visible(
                AppView {
                    cursor_y: if a.cursor_y > 0 {
                        (a.cursor_y - 1) as u16
                    } else {
                        a.cursor_y
                    },
                    ..a
                },
                term,
            ),
            None,
        ),
        KeyCode::Down => (
            spec_ensure_cursor_visible(
                AppView {
                    cursor_y: if a.cursor_y < 65535 {
                        (a.cursor_y + 1) as u16
                    } else {
                        a.cursor_y
                    },
                    ..a
                },
                term,
            ),
            None,
        ),
        KeyCode::Left => (
            spec_ensure_cursor_visible(
                AppView {
                    cursor_x: if a.cursor_x > 0 {
                        (a.cursor_x - 1) as u16
                    } else {
                        a.cursor_x
                    },
                    ..a
                },
                term,
            ),
            None,
        ),
        KeyCode::Right => (
            spec_ensure_cursor_visible(
                AppView {
                    cursor_x: if a.cursor_x < 65535 {
                        (a.cursor_x + 1) as u16
                    } else {
                        a.cursor_x
                    },
                    ..a
                },
                term,
            ),
            None,
        ),
        KeyCode::Delete => (spec_paint_pixel(a, a.cursor_x, a.cursor_y, None), None),
        _ => (a, None),
    }
}

/// A key in command mode.
pub open spec fn spec_command_key(a: AppView, k: KeyEvent) -> (AppView, Option<FileActionView>) {
    match k.code {
        KeyCode::Esc => (
            AppView {
                mode: AppMode::Draw,
                command_buffer: Seq::empty(),
                status_message: Seq::empty(),
                ..a
            },
            None,
        ),
        KeyCode::Enter => spec_execute_command(
            AppView { mode: AppMode::Draw, command_buffer: Seq::empty(), ..a },
            a.command_buffer,
        ),
        KeyCode::Backspace => (
            AppView {
                command_buffer: if a.command_buffer.len() > 0 {
                    a.command_buffer.drop_last()
                } else {
                    a.command_buffer
                },
                ..a
            },
            None,
        ),
        KeyCode::Char(c) => (
            if k.ctrl {
                a
            } else {
                AppView { command_buffer: a.command_buffer.push(c), ..a }
            },
            None,
        ),
        _ => (a, None),
    }
}

/// A mouse event: button presses start a stroke at the pixel under the
/// pointer (left paints with the brush, right erases), drags extend it,
/// release ends it, the wheel zooms between 1 and 8.
pub open spec fn spec_mouse(a: AppView, m: MouseEvent, term: Option<(u16, u16)>) -> AppView {
    let target = spec_screen_to_canvas(a, m.column, m.row, term);
    match m.kind {
        MouseEventKind::Down(MouseButton::Left) => match target {
            Some((x, y)) => spec_paint_pixel_stroke(
                AppView { is_drawing: true, current_stroke: Seq::empty(), ..a },
                x,
                y,
                Some(a.brush_color),
            ),
            None => a,
        },
        MouseEventKind::Down(MouseButton::Right) => match target {
            Some((x, y)) => spec_paint_pixel_stroke(
                AppView { is_drawing: true, current_stroke: Seq::empty(), ..a },
                x,
                y,
                None,
            ),
            None => a,
        },
        MouseEventKind::Drag(MouseButton::Left) => match target {
            Some((x, y)) => if a.is_drawing {
                spec_paint_pixel_stroke(a, x, y, Some(a.brush_color))
            } else {
                a
            },
            None => a,
        },
        MouseEventKind::Drag(MouseButton::Right) => match target {
            Some((x, y)) => if a.is_drawing {
                spec_paint_pixel_stroke(a, x, y, None)
            } else {
                a
            },
            None => a,
        },
        MouseEventKind::Up(_) => if a.is_drawing {
            spec_finish_stroke(a)
        } else {
            a
        },
        MouseEventKind::ScrollUp => if a.zoom < 8 {
            AppView {
                zoom: (a.zoom + 1) as u16,
                status_message: spec_zoom_message((a.zoom + 1) as u16),
                ..a
            }
        } else {
            a
        },
        MouseEventKind::ScrollDown => if a.zoom > 1 {
            AppView {
                zoom: (a.zoom - 1) as u16,
                status_message: spec_zoom_message((a.zoom - 1) as u16),
                ..a
            }
        } else {
            a
        },
        _ => a,
    }
}

/// What `handle_event` does: with the help panel shown, a key closes it and
/// the mouse is ignored; otherwise keys go by mode and mouse events act on
/// the canvas.
pub open spec fn spec_handle_event(a: AppView, e: Event, term: Option<(u16, u16)>) -> (
    AppView,
    Option<FileActionView>,
) {
    match e {
        Event::Key(k) => if a.show_help {
            (AppView { show_help: false, ..a }, None)
        } else {
            match a.mode {
                AppMode::Draw => spec_draw_key(a, k, term),
                AppMode::Command => spec_command_key(a, k),
            }
        },
        Event::Mouse(m) => if a.show_help {
            (a, None)
        } else {
            (spec_mouse(a, m, term), None)
        },
        _ => (a, None),
    }
}

/// Whether the cursor scrolling after moving to `b` stays within `i32`.
pub open spec fn spec_scroll_ok(b: AppView, term: Option<(u16, u16)>) -> bool {
    term is None || spec_scroll_in_range(b)
}

/// Whether mapping the cell `(col, row)` to the canvas stays within `i32`.
pub open spec fn spec_screen_ok(a: AppView, col: u16, row: u16, term: Option<(u16, u16)>) -> bool {
    (term matches Some((_, h)) && row < spec_canvas_area_height(h)) ==> spec_screen_in_range(a, col, row)
}

/// Whether the coordinate arithmetic of handling `e` stays within `i32`
/// (it overflows only for view offsets far beyond any that scrolling sets).
pub open spec fn spec_event_in_range(a: AppView, e: Event, term: Option<(u16, u16)>) -> bool {
    match e {
        Event::Key(k) => a.show_help || a.mode == AppMode::Command || match k.code {
            KeyCode::Up => spec_scroll_ok(
                AppView {
                    cursor_y: if a.cursor_y > 0 {
                        (a.cursor_y - 1) as u16
                    } else {
                        a.cursor_y
                    },
                    ..a
                },
                term,
            ),
            KeyCode::Down => spec_scroll_ok(
                AppView {
                    cursor_y: if a.cursor_y < 65535 {
                        (a.cursor_y + 1) as u16
                    } else {
                        a.cursor_y
                    },
                    ..a
                },
                term,
            ),
            KeyCode::Left => spec_scroll_ok(
                AppView {
                    cursor_x: if a.cursor_x > 0 {
                        (a.cursor_x - 1) as u16
                    } else {
                        a.cursor_x
                    },
                    ..a
                },
                term,
            ),
            KeyCode::Right => spec_scroll_ok(
                AppView {
                    cursor_x: if a.cursor_x < 65535 {
                        (a.cursor_x + 1) as u16
                    } else {
                        a.cursor_x
                    },
                    ..a
                },
                term,
            ),
            _ => true,
        },
        Event::Mouse(m) => a.show_help || match m.kind {
            MouseEventKind::Down(MouseButton::Left) | MouseEventKind::Down(MouseButton::Right) => spec_screen_ok(a, m.column, m.row, term),
            MouseEventKind::Drag(MouseButton::Left) | MouseEventKind::Drag(MouseButton::Right) => !a.is_drawing || spec_screen_ok(a, m.column, m.row, term),
            _ => true,
        },
        _ => true,
    }
}

/// Whether the cursor offsets at `(cx, cy)` fit in `i32` for scrolling at
/// zoom `z`.
fn scroll_fits(cx: u16, cy: u16, vx: i32, vy: i32, z: u16, term: Option<(u16, u16)>) -> (r: bool)
    ensures
        r == (term is None || ({
            let pw = spec_pixel_width(z);
            let ph = spec_pixel_height(z);
            &&& cx * pw + pw <= 0x7fff_ffff
            &&& cy * ph + ph <= 0x7fff_ffff
            &&& -0x8000_0000 <= cx * pw - vx
            &&& cx * pw - vx + pw <= 0x7fff_ffff
            &&& -0x8000_0000 <= cy * ph - vy
            &&& cy * ph - vy + ph <= 0x7fff_ffff
        })),
{
    match term {
        None => true,
        Some(_) => {
            let pw: i64 = 2 * z as i64;
            let ph: i64 = z as i64;
            assert(cx * pw <= 65535 * 131070 && cy * ph <= 65535 * 65535) by (nonlinear_arith)
                requires
                    0 <= pw <= 131070,
                    0 <= ph <= 65535,
                    cx <= 65535,
                    cy <= 65535,
            ;
            let px: i64 = cx as i64 * pw;
            let py: i64 = cy as i64 * ph;
            let sc: i64 = px - vx as i64;
            let sr: i64 = py - vy as i64;
            px + pw <= 0x7fff_ffff && py + ph <= 0x7fff_ffff && -0x8000_0000 <= sc && sc + pw
                <= 0x7fff_ffff && -0x8000_0000 <= sr && sr + ph <= 0x7fff_ffff
        },
    }
}

/// Whether the cell `(col, row)` can be mapped at zoom `z` (see
/// `spec_screen_in_range`), where the mapping does arithmetic.
fn screen_fits(col: u16, row: u16, vx: i32, vy: i32, z: u16, term: Option<(u16, u16)>) -> (r: bool)
    ensures
        r == ((term matches Some((_, h)) && row < spec_canvas_area_height(h)) ==> (z >= 1 && col + vx
            <= 0x7fff_ffff && row + vy <= 0x7fff_ffff)),
{
    match term {
        Some((_, h)) => {
            if row < h.saturating_sub(2) {
                z >= 1 && col as i64 + vx as i64 <= 0x7fff_ffff && row as i64 + vy as i64 <= 0x7fff_ffff
            } else {
                true
            }
        },
        None => true,
    }
}

/// Whether handling `event` keeps its coordinate arithmetic within `i32`
/// (see `spec_event_in_range`).
pub fn event_in_range(app: &App, event: Event, term_size: Option<(u16, u16)>) -> (r: bool)
    ensures
        r == spec_event_in_range(app@, event, term_size),
{
    match event {
        Event::Key(k) => {
            if app.show_help {
                return true;
            }
            match app.mode {
                AppMode::Command => true,
                AppMode::Draw => match k.code {
                    KeyCode::Up => {
                        let y = if app.cursor_y > 0 {
                            app.cursor_y - 1
                        } else {
                            app.cursor_y
                        };
                        scroll_fits(app.cursor_x, y, app.viewport_x, app.viewport_y, app.zoom, term_size)
                    },
                    KeyCode::Down => {
                        let y = if app.cursor_y < u16::MAX {
                            app.cursor_y + 1
                        } else {
                            app.cursor_y
                        };
                        scroll_fits(app.cursor_x, y, app.viewport_x, app.viewport_y, app.zoom, term_size)
                    },
                    KeyCode::Left => {
                        let x = if app.cursor_x > 0 {
                            app.cursor_x - 1
                        } else {
                            app.cursor_x
                        };
                        scroll_fits(x, app.cursor_y, app.viewport_x, app.viewport_y, app.zoom, term_size)
                    },
                    KeyCode::Right => {
                        let x = if app.cursor_x < u16::MAX {
                            app.cursor_x + 1
                        } else {
                            app.cursor_x
                        };
                        scroll_fits(x, app.cursor_y, app.viewport_x, app.viewport_y, app.zoom, term_size)
                    },
                    _ => true,
                },
            }
        },
        Event::Mouse(m) => {
            if app.show_help {
                return true;
            }
            let fits = screen_fits(m.column, m.row, app.viewport_x, app.viewport_y, app.zoom, term_size);
            match m.kind {
                MouseEventKind::Down(MouseButton::Left) => fits,
                MouseEventKind::Down(MouseButton::Right) => fits,
                MouseEventKind::Drag(MouseButton::Left) => !app.is_drawing || fits,
                MouseEventKind::Drag(MouseButton::Right) => !app.is_drawing || fits,
                _ => true,
            }
        },
        _ => true,
    }
}

/// Appends `c` to `s` (`String::push`).
#[verifier::external_body]
fn push_char(s: &mut String, c: char)
    ensures
        final(s)@ == old(s)@.push(c),
{
    s.push(c);
}

/// Removes the last character of `s`, if any (`String::pop`).
#[verifier::external_body]
fn pop_char(s: &mut String) -> (r: Option<char>)
    ensures
        old(s)@.len() == 0 ==> r is None && final(s)@ == old(s)@,
        old(s)@.len() > 0 ==> r == Some(old(s)@.last()) && final(s)@ == old(s)@.drop_last(),
{
    s.pop()
}

/// Handles a key in draw mode.
fn handle_draw_mode_key(app: &mut App, key: KeyEvent, term_size: Option<(u16, u16)>) -> (r: Option<
    FileAction,
>)
    requires
        spec_event_in_range(old(app)@, Event::Key(key), term_size),
        old(app)@.mode == AppMode::Draw,
        !old(app)@.show_help,
    ensures
        (final(app)@, spec_action_view(r)) == spec_draw_key(old(app)@, key, term_size),
{
    proof {
        reveal_strlit("canvas.json");
        reveal_strlit("命令模式（输入命令后按 Enter 执行，ESC 返回）");
    }
    match key.code {
        KeyCode::Char(c) => {
            if c == 'q' && key.ctrl {
                app.running = false;
            } else if c == 's' && key.ctrl {
                return Some(FileAction::Save("canvas.json".to_owned()));
            } else if c == 'z' && key.ctrl {
                app.apply_undo();
            } else if c == 'y' && key.ctrl {
                app.apply_redo();
            } else if c == ' ' {
                app.paint_pixel(app.cursor_x, app.cursor_y, Some(app.brush_color));
            } else if '0' <= c && c <= '9' {
                let index: usize = ((c as u32) - 48) as usize;
                app.active_palette_index = index;
                app.brush_color = app.palette[index];
                let mut m = "调色板 ".to_owned();
                let n = decimal_string(index as u32);
                m.append(n.as_str());
                m.append(": ");
                let hex = rgb_to_hex(app.brush_color);
                m.append(hex.as_str());
                app.status_message = m;
            }
        },
        KeyCode::Esc => {
            app.mode = AppMode::Command;
            app.command_buffer = String::new();
            app.status_message = "命令模式（输入命令后按 Enter 执行，ESC 返回）".to_owned();
        },
        KeyCode::Up => {
            if app.cursor_y > 0 {
                app.cursor_y = app.cursor_y - 1;
            }
            app.ensure_cursor_visible(term_size);
        },
        KeyCode::Down => {
            if app.cursor_y < u16::MAX {
                app.cursor_y = app.cursor_y + 1;
            }
            app.ensure_cursor_visible(term_size);
        },
        KeyCode::Left => {
            if app.cursor_x > 0 {
                app.cursor_x = app.cursor_x - 1;
            }
            app.ensure_cursor_visible(term_size);
        },
        KeyCode::Right => {
            if app.cursor_x < u16::MAX {
                app.cursor_x = app.cursor_x + 1;
            }
            app.ensure_cursor_visible(term_size);
        },
        KeyCode::Delete => {
            app.paint_pixel(app.cursor_x, app.cursor_y, None);
        },
        _ => {},
    }
    None
}

/// Handles a key in command mode.
fn handle_command_mode_key(app: &mut App, key: KeyEvent) -> (r: Option<FileAction>)
    ensures
        (final(app)@, spec_action_view(r)) == spec_command_key(old(app)@, key),
{
    match key.code {
        KeyCode::Esc => {
            app.mode = AppMode::Draw;
            app.command_buffer = String::new();
            app.status_message = String::new();
            None
        },
        KeyCode::Enter => {
            let mut input = String::new();
            core::mem::swap(&mut input, &mut app.command_buffer);
            app.mode = AppMode::Draw;
            app.execute_command(input.as_str())
        },
        KeyCode::Backspace => {
            pop_char(&mut app.command_buffer);
            None
        },
        KeyCode::Char(c) => {
            if !key.ctrl {
                push_char(&mut app.command_buffer, c);
            }
            None
        },
        _ => None,
    }
}

/// Handles a mouse event.
fn handle_mouse_event(app: &mut App, mouse: MouseEvent, term_size: Option<(u16, u16)>)
    requires
        spec_event_in_range(old(app)@, Event::Mouse(mouse), term_size),
        !old(app)@.show_help,
    ensures
        final(app)@ == spec_mouse(old(app)@, mouse, term_size),
{
    match mouse.kind {
        MouseEventKind::Down(MouseButton::Left) => {
            if let Some((cx, cy)) = app.screen_to_canvas(mouse.column, mouse.row, term_size) {
                app.is_drawing = true;
                app.current_stroke = Vec::new();
                app.paint_pixel_stroke(cx, cy, Some(app.brush_color));
            }
        },
        MouseEventKind::Down(MouseButton::Right) => {
            if let Some((cx, cy)) = app.screen_to_canvas(mouse.column, mouse.row, term_size) {
                app.is_drawing = true;
                app.current_stroke = Vec::new();
                app.paint_pixel_stroke(cx, cy, None);
            }
        },
        MouseEventKind::Drag(MouseButton::Left) => {
            if app.is_drawing {
                if let Some((cx, cy)) = app.screen_to_canvas(mouse.column, mouse.row, term_size) {
                    app.paint_pixel_stroke(cx, cy, Some(app.brush_color));
                }
            }
        },
        MouseEventKind::Drag(MouseButton::Right) => {
            if app.is_drawing {
                if let Some((cx, cy)) = app.screen_to_canvas(mouse.column, mouse.row, term_size) {
                    app.paint_pixel_stroke(cx, cy, None);
                }
            }
        },
        MouseEventKind::Up(_) => {
            if app.is_drawing {
                app.finish_stroke();
            }
        },
        MouseEventKind::ScrollUp => {
            if app.zoom < 8 {
                app.zoom = app.zoom + 1;
                app.status_message = zoom_message(app.zoom);
            }
        },
        MouseEventKind::ScrollDown => {
            if app.zoom > 1 {
                app.zoom = app.zoom - 1;
                app.status_message = zoom_message(app.zoom);
            }
        },
        _ => {},
    }
}

/// The message after a zoom change.
fn zoom_message(z: u16) -> (r: String)
    ensures
        r@ == spec_zoom_message(z),
{
    let mut m = "缩放: ".to_owned();
    let n = decimal_string(z as u32);
    m.append(n.as_str());
    m.append("x");
    m
}

/// Dispatches a terminal event: with the help panel shown a key closes it
/// and the mouse is ignored; keys otherwise go by mode; mouse events act on
/// the canvas. `term_size` is the terminal's `(width, height)` if it could
/// be read. A file operation is returned for the caller to perform.
pub fn handle_event(app: &mut App, event: Event, term_size: Option<(u16, u16)>) -> (r: Option<
    FileAction,
>)
    requires
        spec_event_in_range(old(app)@, event, term_size),
    ensures
        (final(app)@, spec_action_view(r)) == spec_handle_event(old(app)@, event, term_size),
{
    match event {
        Event::Key(key_event) => {
            if app.show_help {
                app.show_help = false;
                return None;
            }
            match app.mode {
                AppMode::Draw => handle_draw_mode_key(app, key_event, term_size),
                AppMode::Command => handle_command_mode_key(app, key_event),
            }
        },
        Event::Mouse(mouse_event) => {
            if app.show_help {
                return None;
            }
            handle_mouse_event(app, mouse_event, term_size);
            None
        },
        _ => None,
    }
}

/// Whether handling `e` records a change of its own, takes one back, clears
/// the canvas or starts a new stroke: in draw mode the space bar, Delete,
/// Ctrl+Z and Ctrl+Y; in command mode Enter on a line that paints, undoes,
/// redoes or clears; a button press on a canvas pixel.
pub open spec fn spec_event_edits(a: AppView, e: Event, term: Option<(u16, u16)>) -> bool {
    &&& !a.show_help
    &&& match e {
        Event::Key(k) => match a.mode {
            AppMode::Draw => match k.code {
                KeyCode::Char(c) => c == ' ' || (k.ctrl && (c == 'z' || c == 'y')),
                KeyCode::Delete => true,
                _ => false,
            },
            AppMode::Command => k.code == KeyCode::Enter && match spec_parse_command(a.command_buffer) {
                Some(CommandView::Paint(_, _, _)) => true,
                Some(CommandView::Undo) => true,
                Some(CommandView::Redo) => true,
                Some(CommandView::Clear) => true,
                _ => false,
            },
        },
        Event::Mouse(m) => (m.kind == MouseEventKind::Down(MouseButton::Left) || m.kind
            == MouseEventKind::Down(MouseButton::Right)) && spec_screen_to_canvas(
            a,
            m.column,
            m.row,
            term,
        ) is Some,
        _ => false,
    }
}

/// Whether handling `e` clears the canvas (Enter on `:clear`).
pub open spec fn spec_event_clears(a: AppView, e: Event) -> bool {
    &&& !a.show_help
    &&& e matches Event::Key(k)
    &&& a.mode == AppMode::Command
    &&& k.code == KeyCode::Enter
    &&& spec_parse_command(a.command_buffer) == Some(CommandView::Clear)
}

/// Handling any event keeps the history accounting for the canvas (from an
/// empty canvas after a clear), unless a stroke is unfinished and the event
/// edits on its own.
pub proof fn law_event_keeps_history_consistent(
    a: AppView,
    base: Map<(u16, u16), crate::color::Rgb>,
    e: Event,
    term: Option<(u16, u16)>,
)
    requires
        spec_history_consistent(a, base),
        a.current_stroke.len() == 0 || !spec_event_edits(a, e, term),
    ensures
        spec_history_consistent(
            spec_handle_event(a, e, term).0,
            if spec_event_clears(a, e) {
                Map::empty()
            } else {
                base
            },
        ),
{
    if a.show_help {
        return;
    }
    match e {
        Event::Key(k) => match a.mode {
            AppMode::Draw => match k.code {
                KeyCode::Char(c) => {
                    if c == 'q' && k.ctrl {
                    } else if c == 's' && k.ctrl {
                    } else if c == 'z' && k.ctrl {
                        law_undo_keeps_history_consistent(a, base);
                    } else if c == 'y' && k.ctrl {
                        law_redo_keeps_history_consistent(a, base);
                    } else if c == ' ' {
                        law_paint_keeps_history_consistent(
                            a,
                            base,
                            a.cursor_x,
                            a.cursor_y,
                            Some(a.brush_color),
                        );
                    }
                },
                KeyCode::Delete => {
                    law_paint_keeps_history_consistent(a, base, a.cursor_x, a.cursor_y, None);
                },
                _ => {},
            },
            AppMode::Command => {
                if k.code == KeyCode::Enter {
                    let a1 = AppView { mode: AppMode::Draw, command_buffer: Seq::empty(), ..a };
                    assert(spec_history_consistent(a1, base));
                    match spec_parse_command(a.command_buffer) {
                        Some(CommandView::Paint(x, y, c)) => {
                            law_paint_keeps_history_consistent(a1, base, x, y, Some(c));
                        },
                        Some(CommandView::Undo) => {
                            law_undo_keeps_history_consistent(a1, base);
                        },
                        Some(CommandView::Redo) => {
                            law_redo_keeps_history_consistent(a1, base);
                        },
                        Some(CommandView::Clear) => {
                            let b = spec_handle_event(a, e, term).0;
                            law_fresh_history_consistent(b);
                        },
                        _ => {},
                    }
                }
            },
        },
        Event::Mouse(m) => {
            let target = spec_screen_to_canvas(a, m.column, m.row, term);
            match m.kind {
                MouseEventKind::Down(b) => {
                    if let Some((x, y)) = target {
                        let a1 = AppView { is_drawing: true, current_stroke: Seq::empty(), ..a };
                        if b != MouseButton::Middle {
                            assert(a1.current_stroke =~= a.current_stroke);
                        }
                        if b == MouseButton::Left {
                            law_stroke_pixel_keeps_history_consistent(a1, base, x, y, Some(a.brush_color));
                        } else if b == MouseButton::Right {
                            law_stroke_pixel_keeps_history_consistent(a1, base, x, y, None);
                        }
                    }
                },
                MouseEventKind::Drag(b) => {
                    if let Some((x, y)) = target {
                        if a.is_drawing {
                            if b == MouseButton::Left {
                                law_stroke_pixel_keeps_history_consistent(a, base, x, y, Some(a.brush_color));
                            } else if b == MouseButton::Right {
                                law_stroke_pixel_keeps_history_consistent(a, base, x, y, None);
                            }
                        }
                    }
                },
                MouseEventKind::Up(_) => {
                    if a.is_drawing {
                        law_finish_stroke_keeps_history_consistent(a, base);
                    }
                },
                _ => {},
            }
        },
        _ => {},
    }
}

/// Handling any event keeps the view renderable: the zoom stays between 1
/// and 8, and the view offsets within the range that rendering handles.
pub proof fn law_event_keeps_view_renderable(a: AppView, e: Event, term: Option<(u16, u16)>)
    requires
        spec_view_renderable(a),
    ensures
        spec_view_renderable(spec_handle_event(a, e, term).0),
{
    if !a.show_help {
        if let Event::Key(k) = e {
            if a.mode == AppMode::Draw {
                match k.code {
                    KeyCode::Up => {
                        law_scroll_keeps_view_renderable(
                            AppView {
                                cursor_y: if a.cursor_y > 0 {
                                    (a.cursor_y - 1) as u16
                                } else {
                                    a.cursor_y
                                },
                                ..a
                            },
                            term,
                        );
                    },
                    KeyCode::Down => {
                        law_scroll_keeps_view_renderable(
                            AppView {
                                cursor_y: if a.cursor_y < 65535 {
                                    (a.cursor_y + 1) as u16
                                } else {
                                    a.cursor_y
                                },
                                ..a
                            },
                            term,
                        );
                    },
                    KeyCode::Left => {
                        law_scroll_keeps_view_renderable(
                            AppView {
                                cursor_x: if a.cursor_x > 0 {
                                    (a.cursor_x - 1) as u16
                                } else {
                                    a.cursor_x
                                },
                                ..a
                            },
                            term,
                        );
                    },
                    KeyCode::Right => {
                        law_scroll_keeps_view_renderable(
                            AppView {
                                cursor_x: if a.cursor_x < 65535 {
                                    (a.cursor_x + 1) as u16
                                } else {
                                    a.cursor_x
                                },
                                ..a
                            },
                            term,
                        );
                    },
                    _ => {},
                }
            }
        }
    }
}

/// The state after handling the events `es` in order.
pub open spec fn spec_run_events(a: AppView, es: Seq<Event>, term: Option<(u16, u16)>) -> AppView
    decreases es.len(),
{
    if es.len() == 0 {
        a
    } else {
        spec_run_events(spec_handle_event(a, es[0], term).0, es.drop_first(), term)
    }
}

/// While a stroke is drawn on `c`: the history is `h`, the stroke was
/// recorded on `c` and the canvas shows it, no help panel is shown, and
/// there is a stroke in progress only while drawing.
pub open spec fn spec_drawing_on(b: AppView, c: Map<(u16, u16), crate::color::Rgb>, h: HistoryModel) -> bool {
    &&& b.history == h
    &&& spec_recorded_on(c, b.current_stroke)
    &&& b.canvas == spec_apply_forward(c, b.current_stroke)
    &&& !b.show_help
    &&& (!b.is_drawing ==> b.current_stroke.len() == 0)
}

/// Whether `e` is a mouse drag.
pub open spec fn spec_is_drag(e: Event) -> bool {
    e matches Event::Mouse(m) && m.kind matches MouseEventKind::Drag(_)
}

/// Drags extend the stroke in progress and keep it recorded on `c`.
proof fn lemma_drags_keep_drawing(
    b: AppView,
    c: Map<(u16, u16), crate::color::Rgb>,
    h: HistoryModel,
    ds: Seq<Event>,
    term: Option<(u16, u16)>,
)
    requires
        spec_drawing_on(b, c, h),
        forall|i: int| 0 <= i < ds.len() ==> spec_is_drag(#[trigger] ds[i]),
    ensures
        spec_drawing_on(spec_run_events(b, ds, term), c, h),
    decreases ds.len(),
{
    if ds.len() > 0 {
        assert(spec_is_drag(ds[0]));
        let m = ds[0]->Mouse_0;
        let b1 = spec_handle_event(b, ds[0], term).0;
        match spec_screen_to_canvas(b, m.column, m.row, term) {
            Some((x, y)) => {
                if b.is_drawing {
                    law_stroke_stays_recorded(b, c, x, y, Some(b.brush_color));
                    law_stroke_stays_recorded(b, c, x, y, None);
                }
            },
            None => {},
        }
        assert(spec_drawing_on(b1, c, h));
        let rest = ds.drop_first();
        assert forall|i: int| 0 <= i < rest.len() implies spec_is_drag(#[trigger] rest[i]) by {
            assert(rest[i] == ds[i + 1]);
        }
        lemma_drags_keep_drawing(b1, c, h, rest, term);
    }
}

/// A mouse stroke (a button press, any drags, a release) on a state with no
/// stroke in progress and no help panel records all its changes as one
/// operation: afterwards nothing is being drawn; either the canvas and the
/// history are as they were, or one group recorded on the old canvas was
/// pushed (emptying the redo stack), and a single undo brings the old canvas
/// and undo stack back.
pub proof fn law_mouse_stroke_is_one_operation(
    a: AppView,
    down: MouseEvent,
    drags: Seq<Event>,
    up: MouseEvent,
    term: Option<(u16, u16)>,
)
    requires
        a.current_stroke.len() == 0,
        !a.show_help,
        down.kind matches MouseEventKind::Down(_),
        forall|i: int| 0 <= i < drags.len() ==> spec_is_drag(#[trigger] drags[i]),
        up.kind matches MouseEventKind::Up(_),
    ensures
        ({
            let z = spec_run_events(
                a,
                seq![Event::Mouse(down)] + drags + seq![Event::Mouse(up)],
                term,
            );
            &&& !z.is_drawing
            &&& z.current_stroke.len() == 0
            &&& (z.canvas == a.canvas && z.history == a.history) || (exists|g: Seq<HistoryEntry>|
                #![trigger spec_recorded_on(a.canvas, g)]
                g.len() > 0 && spec_recorded_on(a.canvas, g) && z.history.undo == a.history.undo.push(g)
                    && z.history.redo.len() == 0)
            &&& z.history.undo.len() > a.history.undo.len() ==> (spec_apply_undo(z).canvas == a.canvas
                && spec_apply_undo(z).history.undo == a.history.undo)
        }),
{
    let c = a.canvas;
    let h = a.history;
    let es = seq![Event::Mouse(down)] + drags + seq![Event::Mouse(up)];
    let b0 = spec_handle_event(a, Event::Mouse(down), term).0;
    assert(a.current_stroke =~= Seq::<HistoryEntry>::empty());
    assert(spec_drawing_on(AppView { is_drawing: true, current_stroke: Seq::empty(), ..a }, c, h));
    match spec_screen_to_canvas(a, down.column, down.row, term) {
        Some((x, y)) => {
            let a1 = AppView { is_drawing: true, current_stroke: Seq::empty(), ..a };
            law_stroke_stays_recorded(a1, c, x, y, Some(a.brush_color));
            law_stroke_stays_recorded(a1, c, x, y, None);
        },
        None => {},
    }
    assert(spec_drawing_on(b0, c, h));
    lemma_drags_keep_drawing(b0, c, h, drags, term);
    let b = spec_run_events(b0, drags, term);
    lemma_run_events_append(a, seq![Event::Mouse(down)], drags + seq![Event::Mouse(up)], term);
    assert(es =~= seq![Event::Mouse(down)] + (drags + seq![Event::Mouse(up)]));
    assert(seq![Event::Mouse(down)].drop_first() =~= Seq::<Event>::empty());
    assert(seq![Event::Mouse(down)][0] == Event::Mouse(down));
    assert(spec_run_events(b0, Seq::<Event>::empty(), term) == b0);
    assert(spec_run_events(a, seq![Event::Mouse(down)], term) == b0);
    lemma_run_events_append(b0, drags, seq![Event::Mouse(up)], term);
    let z = spec_handle_event(b, Event::Mouse(up), term).0;
    assert(seq![Event::Mouse(up)].drop_first() =~= Seq::<Event>::empty());
    assert(seq![Event::Mouse(up)][0] == Event::Mouse(up));
    assert(spec_run_events(z, Seq::<Event>::empty(), term) == z);
    assert(spec_run_events(b, seq![Event::Mouse(up)], term) == z);
    assert(spec_run_events(a, es, term) == z);
    if b.is_drawing && b.current_stroke.len() > 0 {
        law_undo_after_stroke(b, c);
        assert(spec_recorded_on(a.canvas, b.current_stroke));
    } else {
        assert(b.current_stroke =~= Seq::<HistoryEntry>::empty());
    }
}

/// Handling `p` and then `q` is handling `p + q`.
proof fn lemma_run_events_append(a: AppView, p: Seq<Event>, q: Seq<Event>, term: Option<(u16, u16)>)
    ensures
        spec_run_events(a, p + q, term) == spec_run_events(spec_run_events(a, p, term), q, term),
    decreases p.len(),
{
    if p.len() > 0 {
        assert((p + q).drop_first() =~= p.drop_first() + q);
        assert((p + q)[0] == p[0]);
        lemma_run_events_append(spec_handle_event(a, p[0], term).0, p.drop_first(), q, term);
    } else {
        assert(p + q =~= q);
    }
}

/// The canvas pixel under a mouse event, as `a` maps cells to pixels.
pub open spec fn spec_event_cell(a: AppView, e: Event, term: Option<(u16, u16)>) -> Option<(u16, u16)> {
    match e {
        Event::Mouse(m) => spec_screen_to_canvas(a, m.column, m.row, term),
        _ => None,
    }
}

/// The canvas pixels under the mouse events `es`, as `a` maps cells.
pub open spec fn spec_event_cells(a: AppView, es: Seq<Event>, term: Option<(u16, u16)>) -> Set<(u16, u16)>
    decreases es.len(),
{
    if es.len() == 0 {
        Set::empty()
    } else {
        let rest = spec_event_cells(a, es.drop_first(), term);
        match spec_event_cell(a, es[0], term) {
            Some(p) => rest.insert(p),
            None => rest,
        }
    }
}

/// `b` shows `c` with every pixel of `t` set to `color`.
pub open spec fn spec_painted_over(
    b: AppView,
    c: Map<(u16, u16), crate::color::Rgb>,
    t: Set<(u16, u16)>,
    color: Option<crate::color::Rgb>,
) -> bool {
    forall|p: (u16, u16)|
        #[trigger] crate::canvas::spec_pixel_at(b.canvas, p) == if t.contains(p) {
            color
        } else {
            crate::canvas::spec_pixel_at(c, p)
        }
}

/// The colour a stroke with button `btn` paints: the brush for the left
/// button, erasing for the right one.
pub open spec fn spec_stroke_color(a: AppView, btn: MouseButton) -> Option<crate::color::Rgb> {
    if btn == MouseButton::Left {
        Some(a.brush_color)
    } else {
        None
    }
}

/// Drags with the stroke's button paint the pixels under them.
proof fn lemma_drags_paint_cells(
    b: AppView,
    a: AppView,
    t: Set<(u16, u16)>,
    btn: MouseButton,
    ds: Seq<Event>,
    term: Option<(u16, u16)>,
)
    requires
        btn != MouseButton::Middle,
        b.viewport_x == a.viewport_x && b.viewport_y == a.viewport_y && b.zoom == a.zoom,
        b.brush_color == a.brush_color,
        b.is_drawing,
        !b.show_help,
        spec_painted_over(b, a.canvas, t, spec_stroke_color(a, btn)),
        forall|i: int| 0 <= i < ds.len() ==> (#[trigger] ds[i] matches Event::Mouse(m) && m.kind
            == MouseEventKind::Drag(btn)),
    ensures
        ({
            let z = spec_run_events(b, ds, term);
            &&& z.viewport_x == a.viewport_x && z.viewport_y == a.viewport_y && z.zoom == a.zoom
            &&& z.brush_color == a.brush_color
            &&& z.is_drawing
            &&& !z.show_help
            &&& spec_painted_over(z, a.canvas, t + spec_event_cells(a, ds, term), spec_stroke_color(a, btn))
        }),
    decreases ds.len(),
{
    let color = spec_stroke_color(a, btn);
    if ds.len() == 0 {
        assert(t + spec_event_cells(a, ds, term) =~= t);
    } else {
        let m = ds[0]->Mouse_0;
        let b1 = spec_handle_event(b, ds[0], term).0;
        let rest = ds.drop_first();
        let cell = spec_event_cell(a, ds[0], term);
        assert(spec_screen_to_canvas(b, m.column, m.row, term) == cell);
        let t1 = match cell {
            Some(p) => t.insert(p),
            None => t,
        };
        assert(spec_painted_over(b1, a.canvas, t1, color)) by {
            if let Some(p) = cell {
                assert forall|q: (u16, u16)| #[trigger] crate::canvas::spec_pixel_at(b1.canvas, q) == if t1.contains(q) {
                    color
                } else {
                    crate::canvas::spec_pixel_at(a.canvas, q)
                } by {
                    crate::canvas::law_get_after_set(b.canvas, p, color, q);
                    assert(crate::canvas::spec_pixel_at(b.canvas, q) == if t.contains(q) {
                        color
                    } else {
                        crate::canvas::spec_pixel_at(a.canvas, q)
                    });
                }
            }
        }
        assert forall|i: int| 0 <= i < rest.len() implies (#[trigger] rest[i] matches Event::Mouse(m2)
            && m2.kind == MouseEventKind::Drag(btn)) by {
            assert(rest[i] == ds[i + 1]);
        }
        lemma_drags_paint_cells(b1, a, t1, btn, rest, term);
        assert(t1 + spec_event_cells(a, rest, term) =~= t + spec_event_cells(a, ds, term));
    }
}

/// A stroke with one button (a press on a canvas pixel, drags with the same
/// button, a release) paints every pixel under its events with the brush
/// colour (left button) or erases it (right button), and leaves every other
/// pixel as it was.
pub proof fn law_mouse_stroke_paints_its_cells(
    a: AppView,
    btn: MouseButton,
    down: MouseEvent,
    drags: Seq<Event>,
    up: MouseEvent,
    term: Option<(u16, u16)>,
)
    requires
        !a.show_help,
        btn != MouseButton::Middle,
        down.kind == MouseEventKind::Down(btn),
        spec_screen_to_canvas(a, down.column, down.row, term) is Some,
        forall|i: int| 0 <= i < drags.len() ==> (#[trigger] drags[i] matches Event::Mouse(m) && m.kind
            == MouseEventKind::Drag(btn)),
        up.kind matches MouseEventKind::Up(_),
    ensures
        spec_painted_over(
            spec_run_events(a, seq![Event::Mouse(down)] + drags + seq![Event::Mouse(up)], term),
            a.canvas,
            spec_event_cells(a, seq![Event::Mouse(down)] + drags, term),
            spec_stroke_color(a, btn),
        ),
{
    let color = spec_stroke_color(a, btn);
    let p = spec_screen_to_canvas(a, down.column, down.row, term)->0;
    let b0 = spec_handle_event(a, Event::Mouse(down), term).0;
    let t0 = Set::<(u16, u16)>::empty().insert(p);
    assert(spec_painted_over(b0, a.canvas, t0, color)) by {
        assert forall|q: (u16, u16)| #[trigger] crate::canvas::spec_pixel_at(b0.canvas, q) == if t0.contains(q) {
            color
        } else {
            crate::canvas::spec_pixel_at(a.canvas, q)
        } by {
            crate::canvas::law_get_after_set(a.canvas, p, color, q);
        }
    }
    lemma_drags_paint_cells(b0, a, t0, btn, drags, term);
    let b = spec_run_events(b0, drags, term);
    let es = seq![Event::Mouse(down)] + drags + seq![Event::Mouse(up)];
    lemma_run_events_append(a, seq![Event::Mouse(down)], drags + seq![Event::Mouse(up)], term);
    assert(es =~= seq![Event::Mouse(down)] + (drags + seq![Event::Mouse(up)]));
    assert(seq![Event::Mouse(down)].drop_first() =~= Seq::<Event>::empty());
    assert(seq![Event::Mouse(down)][0] == Event::Mouse(down));
    assert(spec_run_events(b0, Seq::<Event>::empty(), term) == b0);
    assert(spec_run_events(a, seq![Event::Mouse(down)], term) == b0);
    lemma_run_events_append(b0, drags, seq![Event::Mouse(up)], term);
    let z = spec_handle_event(b, Event::Mouse(up), term).0;
    assert(seq![Event::Mouse(up)].drop_first() =~= Seq::<Event>::empty());
    assert(seq![Event::Mouse(up)][0] == Event::Mouse(up));
    assert(spec_run_events(z, Seq::<Event>::empty(), term) == z);
    assert(spec_run_events(b, seq![Event::Mouse(up)], term) == z);
    assert(spec_run_events(a, es, term) == z);
    assert(z.canvas == b.canvas);
    let ds = seq![Event::Mouse(down)] + drags;
    assert(ds[0] == Event::Mouse(down));
    assert(ds.drop_first() =~= drags);
    assert(t0 + spec_event_cells(a, drags, term) =~= spec_event_cells(a, ds, term));
}

/// The mouse wheel moves the zoom one step at a time between 1 and 8:
/// scrolling down from a zoom above 1 lowers it by one, scrolling up below 8
/// raises it by one, and scrolling one way and then the other gives the zoom
/// back.
pub proof fn law_wheel_steps_zoom_by_one(
    a: AppView,
    down: MouseEvent,
    up: MouseEvent,
    term: Option<(u16, u16)>,
)
    requires
        !a.show_help,
        down.kind == MouseEventKind::ScrollDown,
        up.kind == MouseEventKind::ScrollUp,
    ensures
        a.zoom > 1 ==> spec_handle_event(a, Event::Mouse(down), term).0.zoom == a.zoom - 1,
        a.zoom < 8 ==> spec_handle_event(a, Event::Mouse(up), term).0.zoom == a.zoom + 1,
        a.zoom <= 1 ==> spec_handle_event(a, Event::Mouse(down), term).0.zoom == a.zoom,
        a.zoom >= 8 ==> spec_handle_event(a, Event::Mouse(up), term).0.zoom == a.zoom,
        1 <= a.zoom < 8 ==> spec_handle_event(
            spec_handle_event(a, Event::Mouse(up), term).0,
            Event::Mouse(down),
            term,
        ).0.zoom == a.zoom,
        1 < a.zoom <= 8 ==> spec_handle_event(
            spec_handle_event(a, Event::Mouse(down), term).0,
            Event::Mouse(up),
            term,
        ).0.zoom == a.zoom,
{
}

/// Space in draw mode paints the cursor's pixel with the brush colour
/// (whichever palette entry is selected) and changes no other pixel.
pub proof fn law_space_paints_with_brush(a: AppView, k: KeyEvent, term: Option<(u16, u16)>)
    requires
        !a.show_help,
        a.mode == AppMode::Draw,
        k.code == KeyCode::Char(' '),
    ensures
        ({
            let b = spec_handle_event(a, Event::Key(k), term).0;
            &&& crate::canvas::spec_pixel_at(b.canvas, (a.cursor_x, a.cursor_y)) == Some(a.brush_color)
            &&& forall|q: (u16, u16)|
                q != (a.cursor_x, a.cursor_y) ==> #[trigger] crate::canvas::spec_pixel_at(b.canvas, q)
                    == crate::canvas::spec_pixel_at(a.canvas, q)
        }),
{
    let p = (a.cursor_x, a.cursor_y);
    let c = Some(a.brush_color);
    assert forall|q: (u16, u16)| #[trigger] crate::canvas::spec_pixel_at(
        spec_handle_event(a, Event::Key(k), term).0.canvas,
        q,
    ) == if q == p {
        c
    } else {
        crate::canvas::spec_pixel_at(a.canvas, q)
    } by {
        crate::canvas::law_get_after_set(a.canvas, p, c, q);
    }
}

/// A colour typed as `#RRGGBB` becomes what Space paints next.
pub proof fn law_typed_colour_is_painted(
    a: AppView,
    line: Seq<char>,
    c: crate::color::Rgb,
    k: KeyEvent,
    term: Option<(u16, u16)>,
)
    requires
        !a.show_help,
        a.mode == AppMode::Draw,
        spec_parse_command(line) == Some(CommandView::SetBrushColor(c)),
        k.code == KeyCode::Char(' '),
    ensures
        crate::canvas::spec_pixel_at(
            spec_handle_event(spec_execute_command(a, line).0, Event::Key(k), term).0.canvas,
            (a.cursor_x, a.cursor_y),
        ) == Some(c),
{
    let a1 = spec_execute_command(a, line).0;
    law_space_paints_with_brush(a1, k, term);
}

} // verus!
