use pixterm::app::{App, AppMode, FileAction};
use pixterm::input::{event_in_range, handle_event, Event, KeyCode, KeyEvent, MouseButton, MouseEvent, MouseEventKind};

const TERM: Option<(u16, u16)> = Some((80, 24));

fn key(code: KeyCode) -> Event {
    Event::Key(KeyEvent { code, ctrl: false })
}

fn ctrl(c: char) -> Event {
    Event::Key(KeyEvent { code: KeyCode::Char(c), ctrl: true })
}

fn mouse(kind: MouseEventKind, column: u16, row: u16) -> Event {
    Event::Mouse(MouseEvent { kind, column, row })
}

#[test]
fn keyboard_painting_and_palette() {
    let mut app = App::new();
    handle_event(&mut app, key(KeyCode::Char('2')), TERM);
    assert_eq!(app.brush_color, (255, 0, 0));
    assert_eq!(app.active_palette_index, 2);
    assert_eq!(app.status_message, "调色板 2: #FF0000");
    handle_event(&mut app, key(KeyCode::Right), TERM);
    handle_event(&mut app, key(KeyCode::Down), TERM);
    handle_event(&mut app, key(KeyCode::Char(' ')), TERM);
    assert_eq!(app.canvas.get_pixel(1, 1), Some((255, 0, 0)));
    handle_event(&mut app, key(KeyCode::Delete), TERM);
    assert_eq!(app.canvas.get_pixel(1, 1), None);
    handle_event(&mut app, ctrl('z'), TERM);
    assert_eq!(app.canvas.get_pixel(1, 1), Some((255, 0, 0)));
    handle_event(&mut app, ctrl('y'), TERM);
    assert_eq!(app.canvas.get_pixel(1, 1), None);
    handle_event(&mut app, key(KeyCode::Left), TERM);
    handle_event(&mut app, key(KeyCode::Left), TERM);
    handle_event(&mut app, key(KeyCode::Up), TERM);
    handle_event(&mut app, key(KeyCode::Up), TERM);
    assert_eq!((app.cursor_x, app.cursor_y), (0, 0));
}

#[test]
fn ctrl_keys_save_and_quit() {
    let mut app = App::new();
    match handle_event(&mut app, ctrl('s'), TERM) {
        Some(FileAction::Save(p)) => assert_eq!(p, "canvas.json"),
        _ => panic!("expected a save request"),
    }
    handle_event(&mut app, ctrl('q'), TERM);
    assert!(!app.running);
}

#[test]
fn command_mode_typing() {
    let mut app = App::new();
    handle_event(&mut app, key(KeyCode::Esc), TERM);
    assert!(matches!(app.mode, AppMode::Command));
    for c in "paint 3 4 #00FF00x".chars() {
        handle_event(&mut app, key(KeyCode::Char(c)), TERM);
    }
    handle_event(&mut app, key(KeyCode::Backspace), TERM);
    handle_event(&mut app, ctrl('k'), TERM);
    assert_eq!(app.command_buffer, "paint 3 4 #00FF00");
    handle_event(&mut app, key(KeyCode::Enter), TERM);
    assert!(matches!(app.mode, AppMode::Draw));
    assert_eq!(app.command_buffer, "");
    assert_eq!(app.canvas.get_pixel(3, 4), Some((0, 255, 0)));
    handle_event(&mut app, key(KeyCode::Esc), TERM);
    handle_event(&mut app, key(KeyCode::Char('x')), TERM);
    handle_event(&mut app, key(KeyCode::Esc), TERM);
    assert!(matches!(app.mode, AppMode::Draw));
    assert_eq!(app.status_message, "");
}

#[test]
fn help_panel_swallows_events() {
    let mut app = App::new();
    app.show_help = true;
    handle_event(&mut app, mouse(MouseEventKind::Down(MouseButton::Left), 0, 0), TERM);
    assert!(app.canvas.is_empty());
    handle_event(&mut app, key(KeyCode::Char(' ')), TERM);
    assert!(!app.show_help);
    assert!(app.canvas.is_empty());
}

#[test]
fn mouse_stroke_and_erase() {
    let mut app = App::new();
    app.brush_color = (7, 7, 7);
    handle_event(&mut app, mouse(MouseEventKind::Down(MouseButton::Left), 0, 0), TERM);
    handle_event(&mut app, mouse(MouseEventKind::Drag(MouseButton::Left), 2, 0), TERM);
    handle_event(&mut app, mouse(MouseEventKind::Drag(MouseButton::Left), 4, 1), TERM);
    handle_event(&mut app, mouse(MouseEventKind::Up(MouseButton::Left), 4, 1), TERM);
    assert_eq!(app.canvas.get_pixel(0, 0), Some((7, 7, 7)));
    assert_eq!(app.canvas.get_pixel(1, 0), Some((7, 7, 7)));
    assert_eq!(app.canvas.get_pixel(2, 1), Some((7, 7, 7)));
    handle_event(&mut app, ctrl('z'), TERM);
    assert!(app.canvas.is_empty());
    handle_event(&mut app, ctrl('y'), TERM);
    handle_event(&mut app, mouse(MouseEventKind::Down(MouseButton::Right), 1, 0), TERM);
    handle_event(&mut app, mouse(MouseEventKind::Up(MouseButton::Right), 1, 0), TERM);
    assert_eq!(app.canvas.get_pixel(0, 0), None);
    handle_event(&mut app, mouse(MouseEventKind::Down(MouseButton::Left), 0, 23), TERM);
    assert!(!app.is_drawing);
}

#[test]
fn scroll_zooms_within_bounds() {
    let mut app = App::new();
    for _ in 0..10 {
        handle_event(&mut app, mouse(MouseEventKind::ScrollUp, 0, 0), TERM);
    }
    assert_eq!(app.zoom, 8);
    assert_eq!(app.status_message, "缩放: 8x");
    for _ in 0..10 {
        handle_event(&mut app, mouse(MouseEventKind::ScrollDown, 0, 0), TERM);
    }
    assert_eq!(app.zoom, 1);
}

#[test]
fn enter_on_a_bad_colour_reports_unknown_command() {
    let mut app = App::new();
    handle_event(&mut app, key(KeyCode::Esc), TERM);
    for c in "#a\u{e9}a\u{e9}".chars() {
        handle_event(&mut app, key(KeyCode::Char(c)), TERM);
    }
    assert!(handle_event(&mut app, key(KeyCode::Enter), TERM).is_none());
    assert_eq!(app.status_message, "未知命令: #a\u{e9}a\u{e9}");
    assert_eq!(app.brush_color, (0, 0, 0));
}

#[test]
fn export_and_import_requests() {
    let mut app = App::new();
    match app.execute_command("export") {
        Some(FileAction::Export(p)) => assert_eq!(p, "canvas.png"),
        _ => panic!("expected an export request"),
    }
    assert!(app.execute_command("import").is_none());
    assert_eq!(app.status_message, "未知命令: import");
    match app.execute_command("import pic.png") {
        Some(FileAction::Import(p)) => assert_eq!(p, "pic.png"),
        _ => panic!("expected an import request"),
    }
    app.paint_pixel(3, 3, Some((1, 2, 3)));
    app.export_canvas("pic.png", Ok(()));
    assert_eq!(app.status_message, "已导出到 pic.png");
    app.export_canvas("pic.png", Err("denied".to_string()));
    assert_eq!(app.status_message, "导出失败: denied");
    let mut c = pixterm::canvas::Canvas::new();
    c.set_pixel(1, 1, Some((9, 9, 9)));
    app.import_canvas("pic.png", Ok(c));
    assert_eq!(app.status_message, "已导入 pic.png");
    assert_eq!(app.canvas.get_pixel(1, 1), Some((9, 9, 9)));
    assert_eq!(app.canvas.get_pixel(3, 3), None);
    assert!(!app.history.can_undo());
    app.import_canvas("x.png", Err("bad".to_string()));
    assert_eq!(app.status_message, "导入失败: bad");
    assert_eq!(app.canvas.get_pixel(1, 1), Some((9, 9, 9)));
}

#[test]
fn coordinate_range_checks() {
    let mut app = App::new();
    assert!(event_in_range(&app, mouse(MouseEventKind::Down(MouseButton::Left), 5, 5), TERM));
    app.viewport_x = i32::MAX;
    assert!(!event_in_range(&app, mouse(MouseEventKind::Down(MouseButton::Left), 5, 5), TERM));
    assert!(event_in_range(&app, mouse(MouseEventKind::Down(MouseButton::Left), 5, 23), TERM));
    assert!(event_in_range(&app, mouse(MouseEventKind::Down(MouseButton::Left), 5, 5), None));
    assert!(event_in_range(&app, mouse(MouseEventKind::Drag(MouseButton::Left), 5, 5), TERM));
    app.viewport_x = i32::MIN;
    assert!(!event_in_range(&app, key(KeyCode::Right), TERM));
    assert!(event_in_range(&app, key(KeyCode::Right), None));
}

#[test]
fn undo_steps_back_through_each_operation() {
    let mut app = App::new();
    let mut snapshots = Vec::new();
    snapshots.push(app.canvas.pixels().clone());
    handle_event(&mut app, key(KeyCode::Char('2')), TERM);
    handle_event(&mut app, key(KeyCode::Char(' ')), TERM);
    snapshots.push(app.canvas.pixels().clone());
    handle_event(&mut app, key(KeyCode::Char('4')), TERM);
    handle_event(&mut app, mouse(MouseEventKind::Down(MouseButton::Left), 0, 0), TERM);
    handle_event(&mut app, mouse(MouseEventKind::Drag(MouseButton::Left), 2, 0), TERM);
    handle_event(&mut app, mouse(MouseEventKind::Drag(MouseButton::Left), 0, 0), TERM);
    handle_event(&mut app, mouse(MouseEventKind::Up(MouseButton::Left), 0, 0), TERM);
    snapshots.push(app.canvas.pixels().clone());
    handle_event(&mut app, key(KeyCode::Delete), TERM);
    snapshots.push(app.canvas.pixels().clone());
    assert_eq!(app.canvas.get_pixel(0, 0), None);
    assert_eq!(app.canvas.get_pixel(1, 0), Some((0, 0, 255)));
    for i in (0..3).rev() {
        handle_event(&mut app, ctrl('z'), TERM);
        assert_eq!(app.canvas.pixels(), &snapshots[i]);
    }
    assert_eq!(app.canvas.get_pixel(0, 0), None);
    for i in 1..4 {
        handle_event(&mut app, ctrl('y'), TERM);
        assert_eq!(app.canvas.pixels(), &snapshots[i]);
    }
}
