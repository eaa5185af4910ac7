use pixterm::app::{App, AppMode, FileAction};
use pixterm::canvas::Canvas;

#[test]
fn new_app_defaults() {
    let app = App::new();
    assert!(app.canvas.is_empty());
    assert!(matches!(app.mode, AppMode::Draw));
    assert_eq!(app.brush_color, (0, 0, 0));
    assert_eq!(app.zoom, 1);
    assert!(app.running);
    assert!(!app.history.can_undo());
}

#[test]
fn paint_then_undo_then_redo() {
    let mut app = App::new();
    app.paint_pixel(3, 4, Some((1, 2, 3)));
    assert_eq!(app.canvas.get_pixel(3, 4), Some((1, 2, 3)));
    app.apply_undo();
    assert_eq!(app.canvas.get_pixel(3, 4), None);
    assert_eq!(app.status_message, "已撤销");
    app.apply_redo();
    assert_eq!(app.canvas.get_pixel(3, 4), Some((1, 2, 3)));
    assert_eq!(app.status_message, "已重做");
}

#[test]
fn undo_redo_with_nothing_to_do() {
    let mut app = App::new();
    app.apply_undo();
    assert_eq!(app.status_message, "没有可撤销的操作");
    app.apply_redo();
    assert_eq!(app.status_message, "没有可重做的操作");
}

#[test]
fn painting_same_colour_records_nothing() {
    let mut app = App::new();
    app.paint_pixel(0, 0, None);
    assert!(!app.history.can_undo());
    app.paint_pixel(0, 0, Some((5, 5, 5)));
    app.paint_pixel(0, 0, Some((5, 5, 5)));
    app.apply_undo();
    assert!(!app.history.can_undo());
    assert_eq!(app.canvas.get_pixel(0, 0), None);
}

#[test]
fn stroke_is_one_operation() {
    let mut app = App::new();
    app.paint_pixel(1, 0, Some((9, 9, 9)));
    app.is_drawing = true;
    app.paint_pixel_stroke(0, 0, Some((1, 1, 1)));
    app.paint_pixel_stroke(1, 0, Some((1, 1, 1)));
    app.paint_pixel_stroke(1, 0, Some((2, 2, 2)));
    app.paint_pixel_stroke(2, 0, Some((1, 1, 1)));
    assert_eq!(app.current_stroke.len(), 4);
    app.finish_stroke();
    assert!(!app.is_drawing);
    assert!(app.current_stroke.is_empty());
    app.apply_undo();
    assert_eq!(app.canvas.get_pixel(0, 0), None);
    assert_eq!(app.canvas.get_pixel(1, 0), Some((9, 9, 9)));
    assert_eq!(app.canvas.get_pixel(2, 0), None);
    app.apply_redo();
    assert_eq!(app.canvas.get_pixel(1, 0), Some((2, 2, 2)));
    assert_eq!(app.canvas.get_pixel(2, 0), Some((1, 1, 1)));
}

#[test]
fn execute_paint_and_color() {
    let mut app = App::new();
    assert!(app.execute_command("paint 10 20 #FF0000").is_none());
    assert_eq!(app.canvas.get_pixel(10, 20), Some((255, 0, 0)));
    assert_eq!(app.status_message, "已在 (10,20) 绘制 #FF0000");
    app.execute_command("color 10 20");
    assert_eq!(app.status_message, "(10,20) 的颜色: #FF0000");
    app.execute_command("color 0 0");
    assert_eq!(app.status_message, "(0,0) 为空像素");
    app.execute_command("undo");
    assert_eq!(app.canvas.get_pixel(10, 20), None);
}

#[test]
fn execute_brush_clear_help_quit_unknown() {
    let mut app = App::new();
    app.execute_command("#0A0B0C");
    assert_eq!(app.brush_color, (10, 11, 12));
    assert_eq!(app.status_message, "画笔颜色: #0A0B0C");
    app.paint_pixel(1, 1, Some((1, 1, 1)));
    app.execute_command("clear");
    assert!(app.canvas.is_empty());
    assert!(!app.history.can_undo());
    assert_eq!(app.status_message, "画布已清空");
    app.execute_command("help");
    assert!(app.show_help);
    app.execute_command("bogus");
    assert_eq!(app.status_message, "未知命令: bogus");
    app.execute_command("quit");
    assert!(!app.running);
}

#[test]
fn execute_save_and_load_requests() {
    let mut app = App::new();
    match app.execute_command("save") {
        Some(FileAction::Save(p)) => assert_eq!(p, "canvas.json"),
        _ => panic!("expected a save request"),
    }
    match app.execute_command("load art.ptd") {
        Some(FileAction::Load(p)) => assert_eq!(p, "art.ptd"),
        _ => panic!("expected a load request"),
    }
}

#[test]
fn save_and_load_outcomes() {
    let mut app = App::new();
    app.save_canvas("a.json", Ok(()));
    assert_eq!(app.status_message, "已保存到 a.json");
    app.save_canvas("a.json", Err("disk full".to_string()));
    assert_eq!(app.status_message, "保存失败: disk full");
    app.paint_pixel(2, 2, Some((1, 1, 1)));
    app.cursor_x = 5;
    let mut loaded = Canvas::new();
    loaded.set_pixel(7, 7, Some((3, 3, 3)));
    app.load_canvas("b.json", Ok(loaded));
    assert_eq!(app.canvas.get_pixel(7, 7), Some((3, 3, 3)));
    assert_eq!(app.canvas.get_pixel(2, 2), None);
    assert!(!app.history.can_undo());
    assert_eq!(app.cursor_x, 0);
    assert_eq!(app.status_message, "已加载 b.json");
    app.load_canvas("c.json", Err("missing".to_string()));
    assert_eq!(app.status_message, "加载失败: missing");
    assert_eq!(app.canvas.get_pixel(7, 7), Some((3, 3, 3)));
}

#[test]
fn screen_to_canvas_mapping() {
    let mut app = App::new();
    assert_eq!(app.screen_to_canvas(5, 3, None), None);
    assert_eq!(app.screen_to_canvas(5, 3, Some((80, 24))), Some((2, 3)));
    assert_eq!(app.screen_to_canvas(5, 22, Some((80, 24))), None);
    app.viewport_x = -10;
    assert_eq!(app.screen_to_canvas(5, 3, Some((80, 24))), None);
    app.viewport_x = 10;
    app.viewport_y = 2;
    assert_eq!(app.screen_to_canvas(5, 3, Some((80, 24))), Some((7, 5)));
}

#[test]
fn ensure_cursor_visible_scrolls() {
    let mut app = App::new();
    app.cursor_x = 100;
    app.cursor_y = 50;
    app.ensure_cursor_visible(Some((80, 24)));
    assert_eq!(app.viewport_x, 200 - 80 + 2);
    assert_eq!(app.viewport_y, 50 - 22 + 1);
    app.cursor_x = 0;
    app.cursor_y = 0;
    app.ensure_cursor_visible(Some((80, 24)));
    assert_eq!(app.viewport_x, 0);
    assert_eq!(app.viewport_y, 0);
    app.cursor_x = 100;
    app.ensure_cursor_visible(None);
    assert_eq!(app.viewport_x, 0);
}

#[test]
fn zoom_scales_mapping_and_scrolling() {
    let mut app = App::new();
    app.zoom = 2;
    // Each pixel covers 4 columns and 2 rows.
    assert_eq!(app.screen_to_canvas(7, 3, Some((80, 24))), Some((1, 1)));
    assert_eq!(app.screen_to_canvas(8, 4, Some((80, 24))), Some((2, 2)));
    app.viewport_x = 4;
    assert_eq!(app.screen_to_canvas(0, 0, Some((80, 24))), Some((1, 0)));
    app.viewport_x = 0;
    app.cursor_x = 30;
    app.cursor_y = 20;
    app.ensure_cursor_visible(Some((80, 24)));
    assert_eq!(app.viewport_x, 30 * 4 - 80 + 4);
    assert_eq!(app.viewport_y, 20 * 2 - 22 + 2);
}
