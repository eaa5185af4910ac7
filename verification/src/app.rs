//! The editor state and the operations on it: painting, strokes, undo and
//! redo, commands, coordinate mapping and viewport scrolling.
//!
//! File and terminal work stay with the caller: a command that saves or
//! loads returns a `FileAction`, and the caller reports the outcome back
//! through `save_canvas` or `load_canvas`.

use crate::canvas::{spec_pixel_at, spec_with_pixel, Canvas};
use crate::color::{default_palette, rgb_to_hex, spec_default_palette, spec_rgb_to_hex, Rgb};
use crate::history::{
    spec_after_push, spec_after_redo, spec_after_undo, spec_apply_backward, spec_apply_forward,
    History, HistoryEntry, HistoryModel, law_reapply_after_roll_back, law_undo_reverses_apply, lemma_redo_chain_push,
    lemma_restore_pixel, lemma_undo_chain_push, replay, roll_back, spec_recorded_on,
    spec_redo_chain, spec_replay_all, spec_undo_chain,
};
use crate::command::{parse_command, spec_parse_command, Command, CommandView};
use crate::text::{decimal_string, spec_decimal};
use crate::render::{
    law_row_runs_paint_each_cell, spec_cursor_render_ok, spec_expand_runs, spec_render_viewport_ok,
    spec_row_render_ok, spec_row_runs, spec_shown_color, spec_shown_row, STATUS_BAR_HEIGHT,
};
use crate::ui::DisplayMode;
use vstd::prelude::*;

verus! {

/// Width of a canvas pixel in terminal columns.
pub const PIXEL_WIDTH: i32 = 2;

/// Height of a canvas pixel in terminal rows.
pub const PIXEL_HEIGHT: i32 = 1;

/// The interaction mode.
#[derive(Clone, Copy, PartialEq, Eq, Debug)]
pub enum AppMode {
    /// Mouse and keyboard act on the canvas.
    Draw,
    /// Keys are typed into the command line.
    Command,
}

/// The whole editor state.
pub struct App {
    /// The picture.
    pub canvas: Canvas,
    /// Undo/redo stacks.
    pub history: History,
    /// Current mode.
    pub mode: AppMode,
    /// Colour painted by the brush.
    pub brush_color: Rgb,
    /// The ten palette colours behind keys 0-9.
    pub palette: [Rgb; 10],
    /// Index of the selected palette entry.
    pub active_palette_index: usize,
    /// Terminal column offset of the view.
    pub viewport_x: i32,
    /// Terminal row offset of the view.
    pub viewport_y: i32,
    /// Zoom level, from 1 to 8.
    pub zoom: u16,
    /// Keyboard cursor column on the canvas.
    pub cursor_x: u16,
    /// Keyboard cursor row on the canvas.
    pub cursor_y: u16,
    /// Text typed in command mode.
    pub command_buffer: String,
    /// Message shown in the status bar.
    pub status_message: String,
    /// Whether the help panel is shown.
    pub show_help: bool,
    /// Whether the main loop goes on.
    pub running: bool,
    /// Whether a mouse stroke is in progress.
    pub is_drawing: bool,
    /// Changes of the stroke in progress, recorded as one operation when the
    /// stroke ends.
    pub current_stroke: Vec<HistoryEntry>,
}

/// The model of the editor state.
pub struct AppView {
    pub canvas: Map<(u16, u16), Rgb>,
    pub history: HistoryModel,
    pub mode: AppMode,
    pub brush_color: Rgb,
    pub palette: Seq<Rgb>,
    pub active_palette_index: usize,
    pub viewport_x: i32,
    pub viewport_y: i32,
    pub zoom: u16,
    pub cursor_x: u16,
    pub cursor_y: u16,
    pub command_buffer: Seq<char>,
    pub status_message: Seq<char>,
    pub show_help: bool,
    pub running: bool,
    pub is_drawing: bool,
    pub current_stroke: Seq<HistoryEntry>,
}

impl View for App {
    type V = AppView;

    open spec fn view(&self) -> AppView {
        AppView {
            canvas: self.canvas@,
            history: self.history@,
            mode: self.mode,
            brush_color: self.brush_color,
            palette: self.palette@,
            active_palette_index: self.active_palette_index,
            viewport_x: self.viewport_x,
            viewport_y: self.viewport_y,
            zoom: self.zoom,
            cursor_x: self.cursor_x,
            cursor_y: self.cursor_y,
            command_buffer: self.command_buffer@,
            status_message: self.status_message@,
            show_help: self.show_help,
            running: self.running,
            is_drawing: self.is_drawing,
            current_stroke: self.current_stroke@,
        }
    }
}

/// Saving and loading without a file name address the same file,
/// `canvas.json`: a save followed by a load reads back what was written,
/// whatever state the editor is in.
pub proof fn law_save_and_load_default_to_same_file(
    a: AppView,
    b: AppView,
    save_line: Seq<char>,
    load_line: Seq<char>,
)
    requires
        spec_parse_command(save_line) == Some(CommandView::Save(None)),
        spec_parse_command(load_line) == Some(CommandView::Load(None)),
    ensures
        spec_execute_command(a, save_line).1 matches Some(FileActionView::Save(p)) && spec_execute_command(
            b,
            load_line,
        ).1 == Some(FileActionView::Load(p)) && p == "canvas.json"@,
{
}

/// The bare words `save` and `load` are a save and a load without a file
/// name.
pub proof fn lemma_bare_save_and_load()
    ensures
        spec_parse_command("save"@) == Some(CommandView::Save(None)),
        spec_parse_command("load"@) == Some(CommandView::Load(None)),
{
    reveal_strlit("save");
    reveal_strlit("load");
    let s = "save"@;
    let l = "load"@;
    assert(crate::text::spec_trim(s) == s);
    assert(crate::text::spec_trim(l) == l);
    reveal_with_fuel(crate::command::spec_first_space, 5);
    assert(crate::command::spec_first_space(s) == 4);
    assert(crate::command::spec_first_space(l) == 4);
    assert(crate::command::spec_split_space(s, 4) == seq![s]);
    assert(crate::command::spec_split_space(l, 4) == seq![l]);
    assert(crate::command::spec_is_keyword(s, seq!['s', 'a', 'v', 'e']));
    assert(crate::text::spec_ascii_lower(s[0]) == 's');
    assert(crate::text::spec_ascii_lower(l[0]) == 'l');
    assert(!crate::command::spec_is_keyword(s, seq!['h', 'e', 'l', 'p']));
    assert(crate::command::spec_is_keyword(l, seq!['l', 'o', 'a', 'd']));
    assert(!crate::command::spec_is_keyword(l, seq!['h', 'e', 'l', 'p']));
    assert(!crate::command::spec_is_keyword(l, seq!['s', 'a', 'v', 'e']));
}

/// Whether two optional colours are equal.
pub fn same_color(a: Option<Rgb>, b: Option<Rgb>) -> (r: bool)
    ensures
        r == (a == b),
{
    match (a, b) {
        (None, None) => true,
        (Some(p), Some(q)) => p.0 == q.0 && p.1 == q.1 && p.2 == q.2,
        _ => false,
    }
}

/// The state after painting `(x, y)` with `c` as one operation: nothing
/// happens when the pixel already has that colour; otherwise the pixel
/// changes and the change is recorded on its own.
pub open spec fn spec_paint_pixel(a: AppView, x: u16, y: u16, c: Option<Rgb>) -> AppView {
    let old_c = spec_pixel_at(a.canvas, (x, y));
    if old_c == c {
        a
    } else {
        AppView {
            canvas: spec_with_pixel(a.canvas, (x, y), c),
            history: spec_after_push(
                a.history,
                seq![HistoryEntry { x, y, old_color: old_c, new_color: c }],
            ),
            ..a
        }
    }
}

/// The state after painting `(x, y)` with `c` within a stroke: the change
/// joins the stroke in progress instead of the history.
pub open spec fn spec_paint_pixel_stroke(a: AppView, x: u16, y: u16, c: Option<Rgb>) -> AppView {
    let old_c = spec_pixel_at(a.canvas, (x, y));
    if old_c == c {
        a
    } else {
        AppView {
            canvas: spec_with_pixel(a.canvas, (x, y), c),
            current_stroke: a.current_stroke.push(
                HistoryEntry { x, y, old_color: old_c, new_color: c },
            ),
            ..a
        }
    }
}

/// The state after a stroke ends: the stroke's changes become one operation.
pub open spec fn spec_finish_stroke(a: AppView) -> AppView {
    if a.current_stroke.len() == 0 {
        AppView { is_drawing: false, ..a }
    } else {
        AppView {
            is_drawing: false,
            history: spec_after_push(a.history, a.current_stroke),
            current_stroke: Seq::empty(),
            ..a
        }
    }
}

/// The state after an undo: the top operation is rolled back on the canvas
/// and moved to the redo stack, with a message saying so.
pub open spec fn spec_apply_undo(a: AppView) -> AppView {
    if a.history.undo.len() == 0 {
        AppView { status_message: "没有可撤销的操作"@, ..a }
    } else {
        AppView {
            canvas: spec_apply_backward(a.canvas, a.history.undo.last()),
            history: spec_after_undo(a.history),
            status_message: "已撤销"@,
            ..a
        }
    }
}

/// The state after a redo: the top undone operation is applied again and
/// moved back to the undo stack, with a message saying so.
pub open spec fn spec_apply_redo(a: AppView) -> AppView {
    if a.history.redo.len() == 0 {
        AppView { status_message: "没有可重做的操作"@, ..a }
    } else {
        AppView {
            canvas: spec_apply_forward(a.canvas, a.history.redo.last()),
            history: spec_after_redo(a.history),
            status_message: "已重做"@,
            ..a
        }
    }
}

/// A file operation that a command asks the caller to perform.
pub enum FileAction {
    /// Save the canvas to this path.
    Save(String),
    /// Load a canvas from this path.
    Load(String),
    /// Export the canvas as a PNG image to this path.
    Export(String),
    /// Import a PNG image from this path as the canvas.
    Import(String),
}

/// A file operation with its path as characters.
pub enum FileActionView {
    Save(Seq<char>),
    Load(Seq<char>),
    Export(Seq<char>),
    Import(Seq<char>),
}

impl View for FileAction {
    type V = FileActionView;

    open spec fn view(&self) -> FileActionView {
        match self {
            FileAction::Save(p) => FileActionView::Save(p@),
            FileAction::Load(p) => FileActionView::Load(p@),
            FileAction::Export(p) => FileActionView::Export(p@),
            FileAction::Import(p) => FileActionView::Import(p@),
        }
    }
}

/// The view of an optional file operation.
pub open spec fn spec_action_view(a: Option<FileAction>) -> Option<FileActionView> {
    match a {
        Some(x) => Some(x@),
        None => None,
    }
}

/// The file used when a save or load names none.
pub open spec fn spec_default_file() -> Seq<char> {
    "canvas.json"@
}

/// The image used when an export names none.
pub open spec fn spec_default_image() -> Seq<char> {
    "canvas.png"@
}

/// `(x,y)` in decimal.
pub open spec fn spec_coords_text(x: u16, y: u16) -> Seq<char> {
    "("@ + spec_decimal(x as nat) + ","@ + spec_decimal(y as nat) + ")"@
}

/// The message after `:paint x y #RRGGBB`.
pub open spec fn spec_painted_message(x: u16, y: u16, c: Rgb) -> Seq<char> {
    "已在 "@ + spec_coords_text(x, y) + " 绘制 "@ + spec_rgb_to_hex(c)
}

/// The message after `:color x y` on a painted pixel.
pub open spec fn spec_color_message(x: u16, y: u16, c: Rgb) -> Seq<char> {
    spec_coords_text(x, y) + " 的颜色: "@ + spec_rgb_to_hex(c)
}

/// The message after `:color x y` on an empty pixel.
pub open spec fn spec_empty_message(x: u16, y: u16) -> Seq<char> {
    spec_coords_text(x, y) + " 为空像素"@
}

/// The message after a brush colour is typed.
pub open spec fn spec_brush_message(c: Rgb) -> Seq<char> {
    "画笔颜色: "@ + spec_rgb_to_hex(c)
}

/// What `execute_command` does with a command line: the new state and the
/// file operation left to the caller.
pub open spec fn spec_execute_command(a: AppView, input: Seq<char>) -> (AppView, Option<FileActionView>) {
    match spec_parse_command(input) {
        Some(CommandView::Help) => (AppView { show_help: true, ..a }, None),
        Some(CommandView::Save(n)) => (a, Some(FileActionView::Save(match n {
            Some(p) => p,
            None => spec_default_file(),
        }))),
        Some(CommandView::Load(n)) => (a, Some(FileActionView::Load(match n {
            Some(p) => p,
            None => spec_default_file(),
        }))),
        Some(CommandView::Export(n)) => (a, Some(FileActionView::Export(match n {
            Some(p) => p,
            None => spec_default_image(),
        }))),
        Some(CommandView::Import(p)) => (a, Some(FileActionView::Import(p))),
        Some(CommandView::Quit) => (AppView { running: false, ..a }, None),
        Some(CommandView::Paint(x, y, c)) => (
            AppView {
                status_message: spec_painted_message(x, y, c),
                ..spec_paint_pixel(a, x, y, Some(c))
            },
            None,
        ),
        Some(CommandView::Undo) => (spec_apply_undo(a), None),
        Some(CommandView::Redo) => (spec_apply_redo(a), None),
        Some(CommandView::Color(x, y)) => (
            AppView {
                status_message: match spec_pixel_at(a.canvas, (x, y)) {
                    Some(c) => spec_color_message(x, y, c),
                    None => spec_empty_message(x, y),
                },
                ..a
            },
            None,
        ),
        Some(CommandView::Clear) => (
            AppView {
                canvas: Map::empty(),
                history: HistoryModel { undo: Seq::empty(), redo: Seq::empty() },
                status_message: "画布已清空"@,
                ..a
            },
            None,
        ),
        Some(CommandView::SetBrushColor(c)) => (
            AppView { brush_color: c, status_message: spec_brush_message(c), ..a },
            None,
        ),
        None => (AppView { status_message: "未知命令: "@ + input, ..a }, None),
    }
}

/// The status-bar height subtracted from the terminal height (saturating).
pub open spec fn spec_canvas_area_height(term_height: u16) -> int {
    if term_height >= 2 {
        term_height - 2
    } else {
        0
    }
}

/// Width of a canvas pixel in terminal columns at zoom `z`.
pub open spec fn spec_pixel_width(z: u16) -> int {
    PIXEL_WIDTH * z
}

/// Height of a canvas pixel in terminal rows at zoom `z`.
pub open spec fn spec_pixel_height(z: u16) -> int {
    PIXEL_HEIGHT * z
}

/// `screen_to_canvas` can map `(col, row)`: the zoom is at least 1 and the
/// cell sums that it forms fit in `i32`.
pub open spec fn spec_screen_in_range(a: AppView, col: u16, row: u16) -> bool {
    &&& a.zoom >= 1
    &&& col + a.viewport_x <= 0x7fff_ffff
    &&& row + a.viewport_y <= 0x7fff_ffff
}

/// The cursor offsets that `ensure_cursor_visible` forms fit in `i32`.
pub open spec fn spec_scroll_in_range(a: AppView) -> bool {
    let pw = spec_pixel_width(a.zoom);
    let ph = spec_pixel_height(a.zoom);
    &&& a.cursor_x * pw + pw <= 0x7fff_ffff
    &&& a.cursor_y * ph + ph <= 0x7fff_ffff
    &&& -0x8000_0000 <= a.cursor_x * pw - a.viewport_x
    &&& a.cursor_x * pw - a.viewport_x + pw <= 0x7fff_ffff
    &&& -0x8000_0000 <= a.cursor_y * ph - a.viewport_y
    &&& a.cursor_y * ph - a.viewport_y + ph <= 0x7fff_ffff
}

/// The canvas pixel under the terminal cell `(col, row)`, given the
/// terminal size: a pixel covers `2 * zoom` columns and `zoom` rows; `None`
/// without a size, on the two bottom rows, left of or above the canvas
/// origin, or beyond the largest coordinate.
pub open spec fn spec_screen_to_canvas(a: AppView, col: u16, row: u16, term: Option<(u16, u16)>) -> Option<
    (u16, u16),
> {
    match term {
        None => None,
        Some((_, th)) => {
            if row >= spec_canvas_area_height(th) {
                None
            } else {
                let xr = col + a.viewport_x;
                let yr = row + a.viewport_y;
                let cx = xr / spec_pixel_width(a.zoom);
                let cy = yr / spec_pixel_height(a.zoom);
                if xr < 0 || yr < 0 {
                    None
                } else if cx <= 65535 && cy <= 65535 {
                    Some((cx as u16, cy as u16))
                } else {
                    None
                }
            }
        },
    }
}

/// The state after scrolling so that the keyboard cursor's pixel is on
/// screen: left/top edges are moved to the pixel when it lies before them,
/// right/bottom edges when it lies beyond them (those win when both apply).
pub open spec fn spec_ensure_cursor_visible(a: AppView, term: Option<(u16, u16)>) -> AppView {
    match term {
        None => a,
        Some((tw, th)) => {
            let cah = spec_canvas_area_height(th);
            let pw = spec_pixel_width(a.zoom);
            let ph = spec_pixel_height(a.zoom);
            let sc = a.cursor_x * pw - a.viewport_x;
            let sr = a.cursor_y * ph - a.viewport_y;
            let vx1 = if sc < 0 {
                a.cursor_x * pw
            } else {
                a.viewport_x as int
            };
            let vx2 = if sc + pw > tw {
                a.cursor_x * pw - tw + pw
            } else {
                vx1
            };
            let vy1 = if sr < 0 {
                a.cursor_y * ph
            } else {
                a.viewport_y as int
            };
            let vy2 = if sr + ph > cah {
                a.cursor_y * ph - cah + ph
            } else {
                vy1
            };
            AppView { viewport_x: vx2 as i32, viewport_y: vy2 as i32, ..a }
        },
    }
}

/// Text made of `prefix` followed by `rest`.
fn joined(prefix: &str, rest: &str) -> (r: String)
    ensures
        r@ == prefix@ + rest@,
{
    let mut s = prefix.to_owned();
    s.append(rest);
    s
}

/// `(x,y)` in decimal.
fn coords_text(x: u16, y: u16) -> (r: String)
    ensures
        r@ == spec_coords_text(x, y),
{
    let mut s = "(".to_owned();
    let xs = decimal_string(x as u32);
    let ys = decimal_string(y as u32);
    s.append(xs.as_str());
    s.append(",");
    s.append(ys.as_str());
    s.append(")");
    s
}

impl App {
    /// A fresh editor: empty canvas and history, draw mode, black brush from
    /// the default palette, cursor and view at the origin, zoom 1.
    pub fn new() -> (app: Self)
        ensures
            app@.canvas == Map::<(u16, u16), Rgb>::empty(),
            app@.history.undo.len() == 0,
            app@.history.redo.len() == 0,
            app@.mode == AppMode::Draw,
            app@.brush_color == (0u8, 0u8, 0u8),
            app@.palette == spec_default_palette()@,
            app@.active_palette_index == 0,
            app@.viewport_x == 0,
            app@.viewport_y == 0,
            app@.zoom == 1,
            app@.cursor_x == 0,
            app@.cursor_y == 0,
            app@.command_buffer.len() == 0,
            app@.status_message.len() == 0,
            !app@.show_help,
            app@.running,
            !app@.is_drawing,
            app@.current_stroke.len() == 0,
    {
        let palette = default_palette();
        App {
            canvas: Canvas::new(),
            history: History::new(),
            mode: AppMode::Draw,
            brush_color: palette[0],
            palette,
            active_palette_index: 0,
            viewport_x: 0,
            viewport_y: 0,
            zoom: 1,
            cursor_x: 0,
            cursor_y: 0,
            command_buffer: String::new(),
            status_message: String::new(),
            show_help: false,
            running: true,
            is_drawing: false,
            current_stroke: Vec::new(),
        }
    }

    /// Paints one pixel as an operation of its own (recorded at once).
    pub fn paint_pixel(&mut self, x: u16, y: u16, color: Option<Rgb>)
        ensures
            final(self)@ == spec_paint_pixel(old(self)@, x, y, color),
    {
        let old_color = self.canvas.get_pixel(x, y);
        if same_color(old_color, color) {
            return ;
        }
        self.canvas.set_pixel(x, y, color);
        let entry = HistoryEntry { x, y, old_color, new_color: color };
        let mut group: Vec<HistoryEntry> = Vec::new();
        group.push(entry);
        self.history.push_undo(group);
        assert(group@ =~= seq![entry]);
    }

    /// Paints one pixel within a mouse stroke (recorded when it ends).
    pub fn paint_pixel_stroke(&mut self, x: u16, y: u16, color: Option<Rgb>)
        ensures
            final(self)@ == spec_paint_pixel_stroke(old(self)@, x, y, color),
    {
        let old_color = self.canvas.get_pixel(x, y);
        if same_color(old_color, color) {
            return ;
        }
        self.canvas.set_pixel(x, y, color);
        self.current_stroke.push(HistoryEntry { x, y, old_color, new_color: color });
    }

    /// Ends the mouse stroke: its changes are recorded as one operation.
    pub fn finish_stroke(&mut self)
        ensures
            final(self)@ == spec_finish_stroke(old(self)@),
    {
        self.is_drawing = false;
        if self.current_stroke.len() > 0 {
            let mut stroke: Vec<HistoryEntry> = Vec::new();
            core::mem::swap(&mut stroke, &mut self.current_stroke);
            self.history.push_undo(stroke);
            assert(self.current_stroke@ =~= Seq::<HistoryEntry>::empty());
        }
    }

    /// Undoes the last operation, if any, and says so in the status bar.
    pub fn apply_undo(&mut self)
        ensures
            final(self)@ == spec_apply_undo(old(self)@),
    {
        proof {
            reveal_strlit("已撤销");
            reveal_strlit("没有可撤销的操作");
        }
        match self.history.undo() {
            Some(entries) => {
                roll_back(&mut self.canvas, &entries);
                self.status_message = "已撤销".to_owned();
            },
            None => {
                self.status_message = "没有可撤销的操作".to_owned();
            },
        }
    }

    /// Redoes the last undone operation, if any, and says so in the status bar.
    pub fn apply_redo(&mut self)
        ensures
            final(self)@ == spec_apply_redo(old(self)@),
    {
        proof {
            reveal_strlit("已重做");
            reveal_strlit("没有可重做的操作");
        }
        match self.history.redo() {
            Some(entries) => {
                replay(&mut self.canvas, &entries);
                self.status_message = "已重做".to_owned();
            },
            None => {
                self.status_message = "没有可重做的操作".to_owned();
            },
        }
    }

    /// Reports the outcome of saving the canvas to `path`.
    pub fn save_canvas(&mut self, path: &str, outcome: Result<(), String>)
        ensures
            final(self)@ == (match outcome {
                Ok(()) => AppView { status_message: "已保存到 "@ + path@, ..old(self)@ },
                Err(e) => AppView { status_message: "保存失败: "@ + e@, ..old(self)@ },
            }),
    {
        match outcome {
            Ok(()) => {
                self.status_message = joined("已保存到 ", path);
            },
            Err(e) => {
                self.status_message = joined("保存失败: ", e.as_str());
            },
        }
    }

    /// Takes in the outcome of loading a canvas from `path`: on success the
    /// canvas is replaced, the history forgotten and the cursor reset.
    pub fn load_canvas(&mut self, path: &str, outcome: Result<Canvas, String>)
        ensures
            final(self)@ == (match outcome {
                Ok(c) => AppView {
                    canvas: c@,
                    history: HistoryModel { undo: Seq::empty(), redo: Seq::empty() },
                    cursor_x: 0,
                    cursor_y: 0,
                    status_message: "已加载 "@ + path@,
                    ..old(self)@
                },
                Err(e) => AppView { status_message: "加载失败: "@ + e@, ..old(self)@ },
            }),
    {
        match outcome {
            Ok(c) => {
                self.canvas = c;
                self.history.clear();
                self.cursor_x = 0;
                self.cursor_y = 0;
                self.status_message = joined("已加载 ", path);
                assert(self@.history == HistoryModel { undo: Seq::empty(), redo: Seq::empty() });
            },
            Err(e) => {
                self.status_message = joined("加载失败: ", e.as_str());
            },
        }
    }

    /// Reports the outcome of exporting the canvas as a PNG image to `path`.
    pub fn export_canvas(&mut self, path: &str, outcome: Result<(), String>)
        ensures
            final(self)@ == (match outcome {
                Ok(()) => AppView { status_message: "已导出到 "@ + path@, ..old(self)@ },
                Err(e) => AppView { status_message: "导出失败: "@ + e@, ..old(self)@ },
            }),
    {
        match outcome {
            Ok(()) => {
                self.status_message = joined("已导出到 ", path);
            },
            Err(e) => {
                self.status_message = joined("导出失败: ", e.as_str());
            },
        }
    }

    /// Takes in the outcome of importing a PNG image from `path`: on success
    /// the canvas is replaced, the history forgotten and the cursor reset.
    pub fn import_canvas(&mut self, path: &str, outcome: Result<Canvas, String>)
        ensures
            final(self)@ == (match outcome {
                Ok(c) => AppView {
                    canvas: c@,
                    history: HistoryModel { undo: Seq::empty(), redo: Seq::empty() },
                    cursor_x: 0,
                    cursor_y: 0,
                    status_message: "已导入 "@ + path@,
                    ..old(self)@
                },
                Err(e) => AppView { status_message: "导入失败: "@ + e@, ..old(self)@ },
            }),
    {
        match outcome {
            Ok(c) => {
                self.canvas = c;
                self.history.clear();
                self.cursor_x = 0;
                self.cursor_y = 0;
                self.status_message = joined("已导入 ", path);
                assert(self@.history == HistoryModel { undo: Seq::empty(), redo: Seq::empty() });
            },
            Err(e) => {
                self.status_message = joined("导入失败: ", e.as_str());
            },
        }
    }

    /// Runs a command line; a save, load, export or import is returned for
    /// the caller to perform.
    pub fn execute_command(&mut self, input: &str) -> (r: Option<FileAction>)
        ensures
            (final(self)@, spec_action_view(r)) == spec_execute_command(old(self)@, input@),
    {
        proof {
            reveal_strlit("canvas.json");
            reveal_strlit("canvas.png");
            reveal_strlit("画布已清空");
        }
        match parse_command(input) {
            Some(Command::Help) => {
                self.show_help = true;
                None
            },
            Some(Command::Save(n)) => {
                let path = match n {
                    Some(p) => p,
                    None => "canvas.json".to_owned(),
                };
                Some(FileAction::Save(path))
            },
            Some(Command::Load(n)) => {
                let path = match n {
                    Some(p) => p,
                    None => "canvas.json".to_owned(),
                };
                Some(FileAction::Load(path))
            },
            Some(Command::Export(n)) => {
                let path = match n {
                    Some(p) => p,
                    None => "canvas.png".to_owned(),
                };
                Some(FileAction::Export(path))
            },
            Some(Command::Import(path)) => Some(FileAction::Import(path)),
            Some(Command::Quit) => {
                self.running = false;
                None
            },
            Some(Command::Paint(x, y, color)) => {
                self.paint_pixel(x, y, Some(color));
                let mut m = "已在 ".to_owned();
                let xy = coords_text(x, y);
                m.append(xy.as_str());
                m.append(" 绘制 ");
                let hex = rgb_to_hex(color);
                m.append(hex.as_str());
                self.status_message = m;
                None
            },
            Some(Command::Undo) => {
                self.apply_undo();
                None
            },
            Some(Command::Redo) => {
                self.apply_redo();
                None
            },
            Some(Command::Color(x, y)) => {
                let mut m = coords_text(x, y);
                match self.canvas.get_pixel(x, y) {
                    Some(color) => {
                        m.append(" 的颜色: ");
                        let hex = rgb_to_hex(color);
                        m.append(hex.as_str());
                    },
                    None => {
                        m.append(" 为空像素");
                    },
                }
                self.status_message = m;
                None
            },
            Some(Command::Clear) => {
                self.canvas.clear();
                self.history.clear();
                self.status_message = "画布已清空".to_owned();
                assert(self@.history == HistoryModel { undo: Seq::empty(), redo: Seq::empty() });
                None
            },
            Some(Command::SetBrushColor(color)) => {
                self.brush_color = color;
                let hex = rgb_to_hex(color);
                self.status_message = joined("画笔颜色: ", hex.as_str());
                None
            },
            None => {
                self.status_message = joined("未知命令: ", input);
                None
            },
        }
    }

    /// The mode label for the status bar.
    pub fn display_mode(&self) -> (r: DisplayMode)
        ensures
            r == (match self.mode {
                AppMode::Draw => DisplayMode::Draw,
                AppMode::Command => DisplayMode::Command,
            }),
    {
        match self.mode {
            AppMode::Draw => DisplayMode::Draw,
            AppMode::Command => DisplayMode::Command,
        }
    }

    /// The canvas pixel under the terminal cell `(col, row)`; `term_size`
    /// is the terminal's `(width, height)` if it could be read.
    pub fn screen_to_canvas(&self, col: u16, row: u16, term_size: Option<(u16, u16)>) -> (r: Option<
        (u16, u16),
    >)
        requires
            term_size matches Some((_, h)) && row < spec_canvas_area_height(h) ==> spec_screen_in_range(
                self@,
                col,
                row,
            ),
        ensures
            r == spec_screen_to_canvas(self@, col, row, term_size),
    {
        let term_height = match term_size {
            None => {
                return None;
            },
            Some((_, h)) => h,
        };
        let canvas_area_height = term_height.saturating_sub(STATUS_BAR_HEIGHT);
        if row >= canvas_area_height {
            return None;
        }
        let canvas_x_raw: i32 = col as i32 + self.viewport_x;
        let canvas_y_raw: i32 = row as i32 + self.viewport_y;
        if canvas_x_raw < 0 || canvas_y_raw < 0 {
            return None;
        }
        let pixel_width: i32 = PIXEL_WIDTH * self.zoom as i32;
        let pixel_height: i32 = PIXEL_HEIGHT * self.zoom as i32;
        let canvas_x: i32 = canvas_x_raw / pixel_width;
        let canvas_y: i32 = canvas_y_raw / pixel_height;
        if canvas_x <= 65535 && canvas_y <= 65535 {
            Some((canvas_x as u16, canvas_y as u16))
        } else {
            None
        }
    }

    /// Scrolls the view so that the keyboard cursor is visible; without a
    /// terminal size nothing changes.
    pub fn ensure_cursor_visible(&mut self, term_size: Option<(u16, u16)>)
        requires
            term_size is Some ==> spec_scroll_in_range(old(self)@),
        ensures
            final(self)@ == spec_ensure_cursor_visible(old(self)@, term_size),
    {
        let (term_width, term_height) = match term_size {
            None => {
                return ;
            },
            Some(size) => size,
        };
        let canvas_area_height = term_height.saturating_sub(STATUS_BAR_HEIGHT);
        let pixel_width: i32 = PIXEL_WIDTH * self.zoom as i32;
        let pixel_height: i32 = PIXEL_HEIGHT * self.zoom as i32;
        let screen_col: i32 = self.cursor_x as i32 * pixel_width - self.viewport_x;
        let screen_row: i32 = self.cursor_y as i32 * pixel_height - self.viewport_y;
        if screen_col < 0 {
            self.viewport_x = self.cursor_x as i32 * pixel_width;
        }
        if screen_col + pixel_width > term_width as i32 {
            self.viewport_x = self.cursor_x as i32 * pixel_width - term_width as i32 + pixel_width;
        }
        if screen_row < 0 {
            self.viewport_y = self.cursor_y as i32 * pixel_height;
        }
        if screen_row + pixel_height > canvas_area_height as i32 {
            self.viewport_y = self.cursor_y as i32 * pixel_height - canvas_area_height as i32
                + pixel_height;
        }
    }
}

/// After scrolling to the cursor, its pixel lies wholly inside the canvas
/// area when the area is at least one pixel wide and one pixel high.
pub proof fn law_cursor_visible_after_scroll(a: AppView, tw: u16, th: u16)
    requires
        spec_scroll_in_range(a),
        tw >= spec_pixel_width(a.zoom),
        spec_canvas_area_height(th) >= spec_pixel_height(a.zoom),
    ensures
        ({
            let b = spec_ensure_cursor_visible(a, Some((tw, th)));
            let pw = spec_pixel_width(a.zoom);
            let ph = spec_pixel_height(a.zoom);
            &&& 0 <= b.cursor_x * pw - b.viewport_x
            &&& b.cursor_x * pw - b.viewport_x + pw <= tw
            &&& 0 <= b.cursor_y * ph - b.viewport_y
            &&& b.cursor_y * ph - b.viewport_y + ph <= spec_canvas_area_height(th)
        }),
{
}

/// A zoom from 1 to 8 and view offsets that rendering handles.
pub open spec fn spec_view_renderable(a: AppView) -> bool {
    &&& 1 <= a.zoom <= 8
    &&& spec_render_viewport_ok(a.viewport_x, a.viewport_y)
}

/// Scrolling to the cursor keeps a renderable view renderable (the
/// offsets it sets come from the cursor's place, which is bounded).
pub proof fn law_scroll_keeps_view_renderable(a: AppView, term: Option<(u16, u16)>)
    requires
        spec_view_renderable(a),
    ensures
        spec_view_renderable(spec_ensure_cursor_visible(a, term)),
{
    let pw = spec_pixel_width(a.zoom);
    let ph = spec_pixel_height(a.zoom);
    assert(0 <= a.cursor_x * pw <= 65535 * 16) by (nonlinear_arith)
        requires
            0 <= pw <= 16,
            a.cursor_x <= 65535,
    ;
    assert(0 <= a.cursor_y * ph <= 65535 * 8) by (nonlinear_arith)
        requires
            0 <= ph <= 8,
            a.cursor_y <= 65535,
    ;
}

/// A renderable view can be drawn in a terminal of any size: every row of
/// the canvas area and the cursor's frame keep their arithmetic in range.
pub proof fn law_renderable_view_renders(a: AppView, term_width: u16, term_row: u16)
    requires
        spec_view_renderable(a),
    ensures
        spec_row_render_ok(a.viewport_x, a.viewport_y, a.zoom, term_width, term_row),
        spec_cursor_render_ok(a.cursor_x, a.cursor_y, a.viewport_x, a.viewport_y, a.zoom),
{
    let pw = 2 * a.zoom;
    let ph = a.zoom as int;
    assert(0 <= a.cursor_x * pw <= 65535 * 16) by (nonlinear_arith)
        requires
            0 <= pw <= 16,
            a.cursor_x <= 65535,
    ;
    assert(0 <= a.cursor_y * ph <= 65535 * 8) by (nonlinear_arith)
        requires
            0 <= ph <= 8,
            a.cursor_y <= 65535,
    ;
}

/// What is drawn agrees with what the mouse hits: the cell at column `col`
/// of a canvas-area row is drawn in the colour shown for the canvas pixel
/// that `screen_to_canvas` maps that cell to.
pub proof fn law_screen_cell_shows_its_pixel(a: AppView, col: u16, row: u16, tw: u16, th: u16)
    requires
        a.zoom >= 1,
        col < tw,
        spec_screen_to_canvas(a, col, row, Some((tw, th))) is Some,
    ensures
        ({
            let (x, y) = spec_screen_to_canvas(a, col, row, Some((tw, th)))->0;
            spec_expand_runs(
                spec_row_runs(
                    a.canvas,
                    a.viewport_x as int,
                    spec_shown_row(a.viewport_y, a.zoom, row),
                    2 * a.zoom,
                    tw as int,
                    0,
                ),
            )[col as int] == spec_shown_color(a.canvas, x as int, y as int)
        }),
{
    law_row_runs_paint_each_cell(
        a.canvas,
        a.viewport_x as int,
        spec_shown_row(a.viewport_y, a.zoom, row),
        2 * a.zoom,
        tw as int,
        0,
    );
}

/// Painting a pixel with a new colour and then undoing gives the canvas back,
/// leaves the undo stack as it was, and makes that single change redoable.
pub proof fn law_undo_after_paint(a: AppView, x: u16, y: u16, c: Option<Rgb>)
    requires
        spec_pixel_at(a.canvas, (x, y)) != c,
    ensures
        spec_apply_undo(spec_paint_pixel(a, x, y, c)).canvas == a.canvas,
        spec_apply_undo(spec_paint_pixel(a, x, y, c)).history.undo == a.history.undo,
        spec_apply_undo(spec_paint_pixel(a, x, y, c)).history.redo == seq![
            seq![HistoryEntry { x, y, old_color: spec_pixel_at(a.canvas, (x, y)), new_color: c }],
        ],
{
    let e = HistoryEntry { x, y, old_color: spec_pixel_at(a.canvas, (x, y)), new_color: c };
    let g = seq![e];
    let p = spec_paint_pixel(a, x, y, c);
    assert(p.history.undo.drop_last() =~= a.history.undo);
    assert(g.drop_first() =~= Seq::<HistoryEntry>::empty());
    assert(spec_apply_backward(p.canvas, g.drop_first()) == p.canvas);
    lemma_restore_pixel(a.canvas, (x, y), c);
    assert(Seq::<Seq<HistoryEntry>>::empty().push(g) =~= seq![g]);
}

/// When the top operation was recorded on a canvas `m` and the canvas now
/// shows its result, an undo brings back `m`, and a redo after it restores
/// both the canvas and the history.
pub proof fn law_undo_then_redo(a: AppView, m: Map<(u16, u16), Rgb>)
    requires
        a.history.undo.len() > 0,
        spec_recorded_on(m, a.history.undo.last()),
        a.canvas == spec_apply_forward(m, a.history.undo.last()),
    ensures
        spec_apply_undo(a).canvas == m,
        spec_apply_redo(spec_apply_undo(a)).canvas == a.canvas,
        spec_apply_redo(spec_apply_undo(a)).history == a.history,
{
    law_undo_reverses_apply(m, a.history.undo.last());
    crate::history::law_redo_after_undo(a.history);
}

/// An undo followed by a redo gives back the canvas and the history
/// whenever the canvas shows the top operation applied (to any canvas `m`),
/// and ends with the redo message and something to undo.
pub proof fn law_redo_restores_undone(a: AppView, m: Map<(u16, u16), Rgb>)
    requires
        a.history.undo.len() > 0,
        a.canvas == spec_apply_forward(m, a.history.undo.last()),
    ensures
        spec_apply_redo(spec_apply_undo(a)).canvas == a.canvas,
        spec_apply_redo(spec_apply_undo(a)).history == a.history,
        spec_apply_redo(spec_apply_undo(a)).status_message == "已重做"@,
        spec_apply_redo(spec_apply_undo(a)).history.undo.len() > 0,
{
    law_reapply_after_roll_back(m, a.history.undo.last());
    crate::history::law_redo_after_undo(a.history);
}

/// A stroke in progress that was recorded on `m` (with the canvas showing
/// its result) stays so after another stroke pixel is painted.
pub proof fn law_stroke_stays_recorded(a: AppView, m: Map<(u16, u16), Rgb>, x: u16, y: u16, c: Option<Rgb>)
    requires
        spec_recorded_on(m, a.current_stroke),
        a.canvas == spec_apply_forward(m, a.current_stroke),
    ensures
        spec_recorded_on(m, spec_paint_pixel_stroke(a, x, y, c).current_stroke),
        spec_paint_pixel_stroke(a, x, y, c).canvas == spec_apply_forward(
            m,
            spec_paint_pixel_stroke(a, x, y, c).current_stroke,
        ),
{
    let b = spec_paint_pixel_stroke(a, x, y, c);
    if spec_pixel_at(a.canvas, (x, y)) != c {
        let s = a.current_stroke;
        let t = b.current_stroke;
        assert(t.drop_last() =~= s);
        assert forall|i: int| 0 <= i < t.len() implies #[trigger] t[i].old_color == spec_pixel_at(
            spec_apply_forward(m, t.take(i)),
            (t[i].x, t[i].y),
        ) by {
            if i < s.len() {
                assert(t.take(i) =~= s.take(i));
                assert(t[i] == s[i]);
            } else {
                assert(t.take(i) =~= s);
            }
        }
    }
}

/// Ending a stroke recorded on `m` and undoing it gives `m` back.
pub proof fn law_undo_after_stroke(a: AppView, m: Map<(u16, u16), Rgb>)
    requires
        a.current_stroke.len() > 0,
        spec_recorded_on(m, a.current_stroke),
        a.canvas == spec_apply_forward(m, a.current_stroke),
    ensures
        spec_apply_undo(spec_finish_stroke(a)).canvas == m,
        spec_apply_undo(spec_finish_stroke(a)).history.undo == a.history.undo,
{
    let f = spec_finish_stroke(a);
    assert(f.history.undo.last() == a.current_stroke);
    assert(f.history.undo.drop_last() =~= a.history.undo);
    law_undo_reverses_apply(m, a.current_stroke);
}

/// The history of `a` accounts for its canvas, starting from `base`: the
/// undo stack replays from `base` group by group, each group recorded on the
/// canvas below it; the redo stack replays, top first, from the canvas that
/// the undo stack produces; and the canvas is that canvas with the stroke in
/// progress applied.
pub open spec fn spec_history_consistent(a: AppView, base: Map<(u16, u16), Rgb>) -> bool {
    let t = spec_replay_all(base, a.history.undo);
    &&& spec_undo_chain(base, a.history.undo)
    &&& spec_redo_chain(t, a.history.redo)
    &&& spec_recorded_on(t, a.current_stroke)
    &&& a.canvas == spec_apply_forward(t, a.current_stroke)
}

/// A state with no history and no stroke in progress (a new editor, or one
/// right after a clear or a load) accounts for its canvas from that canvas.
pub proof fn law_fresh_history_consistent(a: AppView)
    requires
        a.history.undo.len() == 0,
        a.history.redo.len() == 0,
        a.current_stroke.len() == 0,
    ensures
        spec_history_consistent(a, a.canvas),
{
}

/// Painting a pixel as an operation of its own, with no stroke in progress,
/// keeps the history consistent.
pub proof fn law_paint_keeps_history_consistent(
    a: AppView,
    base: Map<(u16, u16), Rgb>,
    x: u16,
    y: u16,
    c: Option<Rgb>,
)
    requires
        spec_history_consistent(a, base),
        a.current_stroke.len() == 0,
    ensures
        spec_history_consistent(spec_paint_pixel(a, x, y, c), base),
{
    let t = spec_replay_all(base, a.history.undo);
    if spec_pixel_at(a.canvas, (x, y)) != c {
        let e = HistoryEntry { x, y, old_color: spec_pixel_at(a.canvas, (x, y)), new_color: c };
        let g = seq![e];
        assert(g.drop_last() =~= Seq::<HistoryEntry>::empty());
        assert(g.take(0) =~= Seq::<HistoryEntry>::empty());
        assert(spec_recorded_on(t, g));
        assert(spec_apply_forward(t, g.drop_last()) == t);
        assert(spec_apply_forward(t, g) == spec_with_pixel(t, (x, y), c));
        lemma_undo_chain_push(base, a.history.undo, g);
    }
}

/// Painting a pixel within a stroke keeps the history consistent.
pub proof fn law_stroke_pixel_keeps_history_consistent(
    a: AppView,
    base: Map<(u16, u16), Rgb>,
    x: u16,
    y: u16,
    c: Option<Rgb>,
)
    requires
        spec_history_consistent(a, base),
    ensures
        spec_history_consistent(spec_paint_pixel_stroke(a, x, y, c), base),
{
    law_stroke_stays_recorded(a, spec_replay_all(base, a.history.undo), x, y, c);
}

/// Ending a stroke keeps the history consistent.
pub proof fn law_finish_stroke_keeps_history_consistent(a: AppView, base: Map<(u16, u16), Rgb>)
    requires
        spec_history_consistent(a, base),
    ensures
        spec_history_consistent(spec_finish_stroke(a), base),
{
    if a.current_stroke.len() > 0 {
        lemma_undo_chain_push(base, a.history.undo, a.current_stroke);
    }
}

/// An undo with no stroke in progress keeps the history consistent.
pub proof fn law_undo_keeps_history_consistent(a: AppView, base: Map<(u16, u16), Rgb>)
    requires
        spec_history_consistent(a, base),
        a.current_stroke.len() == 0,
    ensures
        spec_history_consistent(spec_apply_undo(a), base),
{
    let u = a.history.undo;
    if u.len() > 0 {
        let rest = u.drop_last();
        let g = u.last();
        assert(u =~= rest.push(g));
        lemma_undo_chain_push(base, rest, g);
        let t0 = spec_replay_all(base, rest);
        law_undo_reverses_apply(t0, g);
        lemma_redo_chain_push(t0, a.history.redo, g);
    }
}

/// A redo with no stroke in progress keeps the history consistent.
pub proof fn law_redo_keeps_history_consistent(a: AppView, base: Map<(u16, u16), Rgb>)
    requires
        spec_history_consistent(a, base),
        a.current_stroke.len() == 0,
    ensures
        spec_history_consistent(spec_apply_redo(a), base),
{
    let r = a.history.redo;
    if r.len() > 0 {
        let rest = r.drop_last();
        let g = r.last();
        assert(r =~= rest.push(g));
        let t = spec_replay_all(base, a.history.undo);
        lemma_redo_chain_push(t, rest, g);
        lemma_undo_chain_push(base, a.history.undo, g);
    }
}

/// With a consistent history and no stroke in progress, an undo brings back
/// the canvas as it was before the most recent operation.
pub proof fn law_undo_restores_previous_canvas(a: AppView, base: Map<(u16, u16), Rgb>)
    requires
        spec_history_consistent(a, base),
        a.current_stroke.len() == 0,
        a.history.undo.len() > 0,
    ensures
        a.canvas == spec_replay_all(base, a.history.undo),
        spec_apply_undo(a).canvas == spec_replay_all(base, a.history.undo.drop_last()),
{
    let u = a.history.undo;
    let rest = u.drop_last();
    let g = u.last();
    assert(u =~= rest.push(g));
    lemma_undo_chain_push(base, rest, g);
    law_undo_reverses_apply(spec_replay_all(base, rest), g);
}

} // verus!
