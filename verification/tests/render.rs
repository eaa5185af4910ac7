use pixterm::canvas::Canvas;
use pixterm::render::{canvas_row_runs, cursor_border_color, cursor_cells, BG_COLOR_A, BG_COLOR_B, OUTSIDE_COLOR, cursor_render_ok, row_render_ok};

#[test]
fn row_runs_cover_the_row() {
    let mut canvas = Canvas::new();
    canvas.set_pixel(1, 0, Some((9, 9, 9)));
    let runs = canvas_row_runs(&canvas, 0, 0, 1, 7, 0);
    assert_eq!(
        runs,
        vec![(BG_COLOR_A, 2), ((9, 9, 9), 2), (BG_COLOR_A, 2), (BG_COLOR_B, 1)]
    );
    let total: u32 = runs.iter().map(|r| r.1 as u32).sum();
    assert_eq!(total, 7);
}

#[test]
fn row_runs_outside_and_offset() {
    let canvas = Canvas::new();
    let runs = canvas_row_runs(&canvas, -3, 0, 1, 5, 0);
    assert_eq!(runs, vec![(OUTSIDE_COLOR, 1), (OUTSIDE_COLOR, 2), (BG_COLOR_A, 2)]);
    let above = canvas_row_runs(&canvas, 0, -1, 1, 2, 0);
    assert_eq!(above, vec![(OUTSIDE_COLOR, 2)]);
}

#[test]
fn row_runs_with_zoom() {
    let mut canvas = Canvas::new();
    canvas.set_pixel(0, 0, Some((1, 2, 3)));
    let runs = canvas_row_runs(&canvas, 0, 0, 2, 6, 1);
    assert_eq!(runs, vec![((1, 2, 3), 4), (BG_COLOR_B, 2)]);
}

#[test]
fn cursor_frame_cells() {
    assert_eq!(cursor_cells(0, 0, 0, 0, 1, 80, 22), vec![(0, 0), (1, 0)]);
    assert_eq!(cursor_cells(50, 0, 0, 0, 1, 80, 22), vec![]);
    let cells = cursor_cells(1, 1, 0, 0, 2, 80, 22);
    assert_eq!(
        cells,
        vec![(4, 2), (5, 2), (6, 2), (7, 2), (4, 3), (5, 3), (6, 3), (7, 3)]
    );
    let big = cursor_cells(0, 0, 0, 0, 3, 80, 22);
    assert_eq!(big.len(), 6 + 2 + 6);
    assert!(!big.contains(&(2, 1)));
}

#[test]
fn border_colour_is_inverse() {
    assert_eq!(cursor_border_color((0, 10, 255)), (255, 245, 0));
}

#[test]
fn far_viewports_render_outside_colour() {
    let canvas = Canvas::new();
    let runs = canvas_row_runs(&canvas, 2_000_000_000, 0, 1, 4, 0);
    assert_eq!(runs, vec![((25, 25, 25), 2), ((25, 25, 25), 2)]);
    let runs = canvas_row_runs(&canvas, -2_000_000_000, -2_000_000_000, 3, 6, 0);
    assert_eq!(runs.iter().map(|r| r.1 as u32).sum::<u32>(), 6);
    assert!(runs.iter().all(|r| r.0 == (25, 25, 25)));
    assert!(row_render_ok(-2_000_000_000, 0, 3, 6, 0));
    assert!(!row_render_ok(i32::MIN, 0, 3, 6, 0));
    assert!(!row_render_ok(i32::MAX, 0, 1, 2, 0));
    assert!(!row_render_ok(0, 0, 0, 2, 0));
    assert!(cursor_render_ok(10, 10, i32::MIN + 23, 0, 1));
    assert!(!cursor_render_ok(10, 10, i32::MIN + 22, 0, 1));
    assert_eq!(cursor_cells(0, 0, -2_000_000_000, 0, 1, 80, 22), vec![]);
}
