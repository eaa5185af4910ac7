//! What the terminal shows: the colour runs of each canvas row on screen
//! and the cells of the keyboard cursor's frame.
//!
//! A canvas pixel covers `2 * zoom` columns and `zoom` rows; the view
//! offsets count terminal cells.

use crate::canvas::{spec_pixel_at, Canvas};
use crate::color::Rgb;
use vstd::prelude::*;

verus! {

/// Background of an empty pixel whose coordinates sum to an even number.
pub const BG_COLOR_A: Rgb = (45, 45, 45);

/// Background of an empty pixel whose coordinates sum to an odd number.
pub const BG_COLOR_B: Rgb = (55, 55, 55);

/// Colour of cells outside the canvas coordinates.
pub const OUTSIDE_COLOR: Rgb = (25, 25, 25);

/// Rows taken by the status bar and the command line.
pub const STATUS_BAR_HEIGHT: u16 = 2;

/// The colour shown for the canvas pixel `(cx, cy)` (any integers): its
/// colour, a checkerboard grey when empty, dark grey outside the canvas.
pub open spec fn spec_shown_color(m: Map<(u16, u16), Rgb>, cx: int, cy: int) -> Rgb {
    if 0 <= cx <= 65535 && 0 <= cy <= 65535 {
        match spec_pixel_at(m, (cx as u16, cy as u16)) {
            Some(c) => c,
            None => if (cx + cy) % 2 == 0 {
                BG_COLOR_A
            } else {
                BG_COLOR_B
            },
        }
    } else {
        OUTSIDE_COLOR
    }
}

/// The runs of a terminal row from column `col` on: each run covers the
/// remaining cells of one canvas pixel (cut at the row's end) in that
/// pixel's colour. `cy` is the canvas row, `pw` the pixel width in cells.
pub open spec fn spec_row_runs(
    m: Map<(u16, u16), Rgb>,
    vx: int,
    cy: int,
    pw: int,
    tw: int,
    col: int,
) -> Seq<(Rgb, u16)>
    decreases tw - col,
{
    if col >= tw || pw <= 0 {
        Seq::empty()
    } else {
        let cx = (col + vx) / pw;
        let end = cx * pw - vx + pw;
        let fill = if end - col < tw - col {
            end - col
        } else {
            tw - col
        };
        let n = if fill < 1 {
            1
        } else {
            fill
        };
        seq![(spec_shown_color(m, cx, cy), n as u16)] + spec_row_runs(m, vx, cy, pw, tw, col + n)
    }
}

/// The cells that a list of runs paints, left to right.
pub open spec fn spec_expand_runs(runs: Seq<(Rgb, u16)>) -> Seq<Rgb>
    decreases runs.len(),
{
    if runs.len() == 0 {
        Seq::empty()
    } else {
        Seq::new(runs[0].1 as nat, |i: int| runs[0].0) + spec_expand_runs(runs.drop_first())
    }
}

/// A number between `q * b` (inclusive) and `q * b + b` (exclusive) has
/// quotient `q` by a positive `b`.
proof fn lemma_div_in_block(a: int, b: int, q: int)
    requires
        b >= 1,
        q * b <= a < q * b + b,
    ensures
        a / b == q,
{
    assert(a / b == q) by (nonlinear_arith)
        requires
            b >= 1,
            q * b <= a < q * b + b,
    ;
}

/// The runs of a row from `col` on paint exactly the cells from `col` to
/// the row's end, each in the colour of the canvas pixel under it.
pub proof fn law_row_runs_paint_each_cell(
    m: Map<(u16, u16), Rgb>,
    vx: int,
    cy: int,
    pw: int,
    tw: int,
    col: int,
)
    requires
        pw >= 1,
        0 <= col <= tw <= 65535,
    ensures
        spec_expand_runs(spec_row_runs(m, vx, cy, pw, tw, col)) == Seq::new(
            (tw - col) as nat,
            |i: int| spec_shown_color(m, (col + i + vx) / pw, cy),
        ),
    decreases tw - col,
{
    let runs = spec_row_runs(m, vx, cy, pw, tw, col);
    let target = Seq::new((tw - col) as nat, |i: int| spec_shown_color(m, (col + i + vx) / pw, cy));
    if col >= tw {
        assert(spec_expand_runs(runs) =~= target);
    } else {
        let cx = (col + vx) / pw;
        assert(cx * pw <= col + vx < cx * pw + pw) by (nonlinear_arith)
            requires
                cx == (col + vx) / pw,
                pw >= 1,
        ;
        let end = cx * pw - vx + pw;
        let fill = if end - col < tw - col {
            end - col
        } else {
            tw - col
        };
        let n = if fill < 1 {
            1
        } else {
            fill
        };
        assert(1 <= n <= tw - col);
        let c0 = spec_shown_color(m, cx, cy);
        assert(runs == seq![(c0, n as u16)] + spec_row_runs(m, vx, cy, pw, tw, col + n));
        assert(runs.drop_first() =~= spec_row_runs(m, vx, cy, pw, tw, col + n));
        law_row_runs_paint_each_cell(m, vx, cy, pw, tw, col + n);
        let head = Seq::new(n as nat, |i: int| c0);
        let rest = Seq::new((tw - col - n) as nat, |i: int| spec_shown_color(m, (col + n + i + vx) / pw, cy));
        assert forall|i: int| 0 <= i < n implies head[i] == target[i] by {
            lemma_div_in_block(col + i + vx, pw, cx);
        }
        assert forall|i: int| n <= i < tw - col implies rest[i - n] == target[i] by {
            assert(col + n + (i - n) == col + i);
        }
        assert(spec_expand_runs(runs) =~= head + rest);
        assert(head + rest =~= target);
    }
}

/// For negative `a`, flooring `a / b` is negating `(b - 1 - a) / b`.
proof fn lemma_floor_div_negative(a: int, b: int)
    requires
        a < 0,
        b >= 1,
    ensures
        -((b - 1 - a) / b) == a / b,
{
    let t = b - 1 - a;
    let q = t / b;
    let r = t % b;
    assert(t == q * b + r && 0 <= r < b) by (nonlinear_arith)
        requires
            b >= 1,
            q == t / b,
            r == t % b,
    ;
    assert(a == (-q) * b + (b - 1 - r)) by (nonlinear_arith)
        requires
            t == q * b + r,
            t == b - 1 - a,
    ;
    assert(a / b == -q) by (nonlinear_arith)
        requires
            a == (-q) * b + (b - 1 - r),
            0 <= b - 1 - r < b,
            b >= 1,
    ;
}

/// Floor division of `a` by a positive `b` (rounding towards minus
/// infinity also for negative `a`).
fn floor_div(a: i64, b: i64) -> (r: i64)
    requires
        1 <= b <= 0x2_0000,
        -0x100_0000_0000 <= a <= 0x100_0000_0000,
    ensures
        r == a / b,
{
    if a >= 0 {
        a / b
    } else {
        let t: i64 = b - 1 - a;
        proof {
            lemma_floor_div_negative(a as int, b as int);
        }
        -(t / b)
    }
}

/// The colour shown for the canvas pixel `(cx, cy)`.
fn shown_color(canvas: &Canvas, cx: i64, cy: i64) -> (r: Rgb)
    ensures
        r == spec_shown_color(canvas@, cx as int, cy as int),
{
    if cx >= 0 && cx <= 65535 && cy >= 0 && cy <= 65535 {
        match canvas.get_pixel(cx as u16, cy as u16) {
            Some(c) => c,
            None => if (cx + cy) % 2 == 0 {
                BG_COLOR_A
            } else {
                BG_COLOR_B
            },
        }
    } else {
        OUTSIDE_COLOR
    }
}

/// The view offsets within which rendering arithmetic stays in `i32`
/// whatever the terminal size (scrolling to the cursor keeps the view
/// inside this window).
pub open spec fn spec_render_viewport_ok(vx: i32, vy: i32) -> bool {
    -65536 <= vx <= 1048576 && -65536 <= vy <= 1048576
}

/// Rendering terminal row `term_row` of a `term_width`-wide area keeps its
/// `i32` arithmetic in range: the zoom is at least 1, the column and row
/// sums fit, and flooring a negative sum does not go below `i32::MIN`.
pub open spec fn spec_row_render_ok(vx: i32, vy: i32, zoom: u16, term_width: u16, term_row: u16) -> bool {
    &&& zoom >= 1
    &&& (term_width == 0 || (-0x8000_0000 + 2 * zoom - 1 <= vx && vx + term_width - 1
        <= 0x7fff_ffff))
    &&& -0x8000_0000 + zoom - 1 <= term_row + vy <= 0x7fff_ffff
}

/// Whether `spec_row_render_ok` holds.
pub fn row_render_ok(vx: i32, vy: i32, zoom: u16, term_width: u16, term_row: u16) -> (r: bool)
    ensures
        r == spec_row_render_ok(vx, vy, zoom, term_width, term_row),
{
    let pw: i64 = 2 * zoom as i64;
    let ph: i64 = zoom as i64;
    let ry: i64 = term_row as i64 + vy as i64;
    zoom >= 1 && (term_width == 0 || (-0x8000_0000 + pw - 1 <= vx as i64 && vx as i64
        + term_width as i64 - 1 <= 0x7fff_ffff)) && -0x8000_0000 + ph - 1 <= ry && ry <= 0x7fff_ffff
}

/// The canvas row shown on terminal row `term_row`.
pub open spec fn spec_shown_row(viewport_y: i32, zoom: u16, term_row: u16) -> int {
    (term_row + viewport_y) / (zoom as int)
}

/// The colour runs of terminal row `term_row` of the canvas area, left to
/// right; their lengths add up to `term_width`.
pub fn canvas_row_runs(
    canvas: &Canvas,
    viewport_x: i32,
    viewport_y: i32,
    zoom: u16,
    term_width: u16,
    term_row: u16,
) -> (r: Vec<(Rgb, u16)>)
    requires
        spec_row_render_ok(viewport_x, viewport_y, zoom, term_width, term_row),
    ensures
        r@ == spec_row_runs(
            canvas@,
            viewport_x as int,
            spec_shown_row(viewport_y, zoom, term_row),
            2 * zoom,
            term_width as int,
            0,
        ),
{
    let pixel_width: i64 = 2 * zoom as i64;
    let pixel_height: i64 = zoom as i64;
    let vx: i64 = viewport_x as i64;
    let canvas_y: i64 = floor_div(term_row as i64 + viewport_y as i64, pixel_height);
    assert(-0x1_0000_0000 <= canvas_y <= 0x1_0000_0000) by (nonlinear_arith)
        requires
            canvas_y == (term_row + viewport_y) / (pixel_height as int),
            -0x1_0000_0000 <= term_row + viewport_y <= 0x1_0000_0000,
            pixel_height >= 1,
    ;
    let ghost m = canvas@;
    let ghost whole = spec_row_runs(m, viewport_x as int, canvas_y as int, pixel_width as int, term_width as int, 0);
    let mut runs: Vec<(Rgb, u16)> = Vec::new();
    let mut col: u16 = 0;
    assert(runs@ + spec_row_runs(m, viewport_x as int, canvas_y as int, pixel_width as int, term_width as int, 0) =~= whole);
    while col < term_width
        invariant
            col <= term_width,
            m == canvas@,
            1 <= zoom,
            pixel_width == 2 * zoom,
            vx == viewport_x,
            -0x1_0000_0000 <= canvas_y <= 0x1_0000_0000,
            whole == runs@ + spec_row_runs(m, viewport_x as int, canvas_y as int, pixel_width as int, term_width as int, col as int),
        decreases term_width - col,
    {
        let canvas_x_raw: i64 = col as i64 + vx;
        let canvas_x: i64 = floor_div(canvas_x_raw, pixel_width);
        let color = shown_color(canvas, canvas_x, canvas_y);
        assert(canvas_x * pixel_width <= canvas_x_raw < canvas_x * pixel_width + pixel_width) by (nonlinear_arith)
            requires
                canvas_x == canvas_x_raw / pixel_width,
                pixel_width >= 1,
        ;
        let pixel_start_col: i64 = canvas_x * pixel_width - vx;
        let pixel_end_col: i64 = pixel_start_col + pixel_width;
        let to_end: i64 = pixel_end_col - col as i64;
        let to_edge: i64 = term_width as i64 - col as i64;
        let fill0: i64 = if to_end < to_edge {
            to_end
        } else {
            to_edge
        };
        let fill: i64 = if fill0 < 1 {
            1
        } else {
            fill0
        };
        runs.push((color, fill as u16));
        proof {
            let rest = spec_row_runs(m, viewport_x as int, canvas_y as int, pixel_width as int, term_width as int, col as int);
            assert(rest == seq![(color, fill as u16)] + spec_row_runs(
                m,
                viewport_x as int,
                canvas_y as int,
                pixel_width as int,
                term_width as int,
                col + fill,
            ));
        }
        col = col + fill as u16;
        assert(whole =~= runs@ + spec_row_runs(m, viewport_x as int, canvas_y as int, pixel_width as int, term_width as int, col as int));
    }
    runs
}

/// The frame cells of the cursor pixel in frame row `dy`, among the first
/// `n` columns: cells inside the terminal area that lie on the frame
/// (first or last row or column of the pixel), as `(column, row)`.
pub open spec fn spec_frame_row(sc: int, sr: int, pw: int, ph: int, tw: int, cah: int, dy: int, n: nat) -> Seq<
    (u16, u16),
>
    decreases n,
{
    if n == 0 {
        Seq::empty()
    } else {
        let dx = n - 1;
        let before = spec_frame_row(sc, sr, pw, ph, tw, cah, dy, (n - 1) as nat);
        let row = sr + dy;
        let c = sc + dx;
        if 0 <= row < cah && 0 <= c < tw && (dy == 0 || dy == ph - 1 || dx == 0 || dx == pw - 1) {
            before.push((c as u16, row as u16))
        } else {
            before
        }
    }
}

/// The frame cells of the cursor pixel in its first `n` rows.
pub open spec fn spec_frame_rows(sc: int, sr: int, pw: int, ph: int, tw: int, cah: int, n: nat) -> Seq<
    (u16, u16),
>
    decreases n,
{
    if n == 0 {
        Seq::empty()
    } else {
        spec_frame_rows(sc, sr, pw, ph, tw, cah, (n - 1) as nat) + spec_frame_row(
            sc,
            sr,
            pw,
            ph,
            tw,
            cah,
            n - 1,
            pw as nat,
        )
    }
}

/// The cells of the keyboard cursor's frame, row by row and left to right:
/// none when the cursor pixel lies wholly outside the canvas area.
pub open spec fn spec_cursor_cells(
    cursor_x: u16,
    cursor_y: u16,
    vx: i32,
    vy: i32,
    zoom: u16,
    tw: u16,
    cah: u16,
) -> Seq<(u16, u16)> {
    let pw = 2 * zoom;
    let ph = zoom as int;
    let sc = cursor_x * pw - vx;
    let sr = cursor_y * ph - vy;
    if sc + pw <= 0 || sc >= tw || sr + ph <= 0 || sr >= cah {
        Seq::empty()
    } else {
        spec_frame_rows(sc, sr, pw, ph, tw as int, cah as int, ph as nat)
    }
}

/// The frame colour: the brush colour inverted.
pub fn cursor_border_color(brush: Rgb) -> (r: Rgb)
    ensures
        r == ((255 - brush.0) as u8, (255 - brush.1) as u8, (255 - brush.2) as u8),
{
    (255 - brush.0, 255 - brush.1, 255 - brush.2)
}

/// Placing the cursor's frame keeps its `i32` arithmetic in range: the
/// cursor pixel's offsets on the canvas and on the screen, and the screen
/// offsets of its far edges, fit.
pub open spec fn spec_cursor_render_ok(cursor_x: u16, cursor_y: u16, vx: i32, vy: i32, zoom: u16) -> bool {
    let pw = 2 * zoom;
    let ph = zoom as int;
    &&& cursor_x * pw <= 0x7fff_ffff
    &&& cursor_y * ph <= 0x7fff_ffff
    &&& -0x8000_0000 <= cursor_x * pw - vx
    &&& cursor_x * pw - vx + pw <= 0x7fff_ffff
    &&& -0x8000_0000 <= cursor_y * ph - vy
    &&& cursor_y * ph - vy + ph <= 0x7fff_ffff
}

/// Whether `spec_cursor_render_ok` holds.
pub fn cursor_render_ok(cursor_x: u16, cursor_y: u16, vx: i32, vy: i32, zoom: u16) -> (r: bool)
    ensures
        r == spec_cursor_render_ok(cursor_x, cursor_y, vx, vy, zoom),
{
    let pw: i64 = 2 * zoom as i64;
    let ph: i64 = zoom as i64;
    assert(cursor_x * pw <= 65535 * 131070 && cursor_y * ph <= 65535 * 65535) by (nonlinear_arith)
        requires
            0 <= pw <= 131070,
            0 <= ph <= 65535,
            cursor_x <= 65535,
            cursor_y <= 65535,
    ;
    let px: i64 = cursor_x as i64 * pw;
    let py: i64 = cursor_y as i64 * ph;
    let sc: i64 = px - vx as i64;
    let sr: i64 = py - vy as i64;
    px <= 0x7fff_ffff && py <= 0x7fff_ffff && -0x8000_0000 <= sc && sc + pw <= 0x7fff_ffff
        && -0x8000_0000 <= sr && sr + ph <= 0x7fff_ffff
}

/// The terminal cells on which the keyboard cursor's frame is drawn.
pub fn cursor_cells(
    cursor_x: u16,
    cursor_y: u16,
    viewport_x: i32,
    viewport_y: i32,
    zoom: u16,
    term_width: u16,
    canvas_area_height: u16,
) -> (r: Vec<(u16, u16)>)
    requires
        spec_cursor_render_ok(cursor_x, cursor_y, viewport_x, viewport_y, zoom),
    ensures
        r@ == spec_cursor_cells(cursor_x, cursor_y, viewport_x, viewport_y, zoom, term_width, canvas_area_height),
{
    let pixel_width: i64 = 2 * zoom as i64;
    let pixel_height: i64 = zoom as i64;
    assert(cursor_x * pixel_width <= 65535 * 131070 && cursor_y * pixel_height <= 65535 * 65535) by (nonlinear_arith)
        requires
            0 <= pixel_width <= 131070,
            0 <= pixel_height <= 65535,
            cursor_x <= 65535,
            cursor_y <= 65535,
    ;
    let screen_col: i64 = cursor_x as i64 * pixel_width - viewport_x as i64;
    let screen_row: i64 = cursor_y as i64 * pixel_height - viewport_y as i64;
    let mut cells: Vec<(u16, u16)> = Vec::new();
    if screen_col + pixel_width <= 0 || screen_col >= term_width as i64 || screen_row + pixel_height
        <= 0 || screen_row >= canvas_area_height as i64 {
        return cells;
    }
    let ghost (sc, sr, pw, ph, tw, cah) = (
        screen_col as int,
        screen_row as int,
        pixel_width as int,
        pixel_height as int,
        term_width as int,
        canvas_area_height as int,
    );
    let mut dy: i64 = 0;
    while dy < pixel_height
        invariant
            0 <= dy <= pixel_height,
            pixel_height == zoom,
            pixel_width == 2 * zoom,
            sc == screen_col,
            sr == screen_row,
            pw == pixel_width,
            ph == pixel_height,
            tw == term_width,
            cah == canvas_area_height,
            -0x8000_0000 <= screen_col <= 0x7fff_ffff,
            -0x8000_0000 <= screen_row <= 0x7fff_ffff,
            cells@ == spec_frame_rows(sc, sr, pw, ph, tw, cah, dy as nat),
        decreases pixel_height - dy,
    {
        let ghost before = cells@;
        let row: i64 = screen_row + dy;
        let mut dx: i64 = 0;
        while dx < pixel_width
            invariant
                0 <= dx <= pixel_width,
                0 <= dy < pixel_height,
                pixel_height == zoom,
                pixel_width == 2 * zoom,
                row == screen_row + dy,
                sc == screen_col,
                sr == screen_row,
                pw == pixel_width,
                ph == pixel_height,
                tw == term_width,
                cah == canvas_area_height,
                -0x8000_0000 <= screen_col <= 0x7fff_ffff,
                -0x8000_0000 <= screen_row <= 0x7fff_ffff,
                cells@ == before + spec_frame_row(sc, sr, pw, ph, tw, cah, dy as int, dx as nat),
            decreases pixel_width - dx,
        {
            let c: i64 = screen_col + dx;
            let is_border = dy == 0 || dy == pixel_height - 1 || dx == 0 || dx == pixel_width - 1;
            if row >= 0 && row < canvas_area_height as i64 && c >= 0 && c < term_width as i64
                && is_border {
                cells.push((c as u16, row as u16));
            }
            dx = dx + 1;
            assert(cells@ =~= before + spec_frame_row(sc, sr, pw, ph, tw, cah, dy as int, dx as nat));
        }
        dy = dy + 1;
        assert(cells@ =~= spec_frame_rows(sc, sr, pw, ph, tw, cah, dy as nat));
    }
    cells
}

} // verus!
