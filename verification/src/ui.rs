//! The mode shown in the status bar and the layout of the help panel.

use vstd::prelude::*;

verus! {

/// The mode label of the status bar.
#[derive(Clone, Copy, PartialEq, Eq, Debug)]
pub enum DisplayMode {
    /// Drawing with mouse and keyboard.
    Draw,
    /// Typing a command.
    Command,
}

/// Width of the help panel in terminal columns.
pub const HELP_PANEL_WIDTH: u16 = 50;

/// Number of lines of the help panel.
pub const HELP_PANEL_HEIGHT: u16 = 34;

/// `a - b`, or 0 when `b` is larger.
pub open spec fn spec_sat_sub(a: int, b: int) -> int {
    if a >= b {
        a - b
    } else {
        0
    }
}

/// Where the help panel goes and how much of it shows: its top-left cell,
/// centred in the terminal (flush left/top when the terminal is smaller than
/// the panel), and the number of its lines, from the top, that fit above the
/// terminal's last row.
pub fn help_panel_layout(term_width: u16, term_height: u16) -> (r: (u16, u16, u16))
    ensures
        r.0 == spec_sat_sub(term_width as int, HELP_PANEL_WIDTH as int) / 2,
        r.1 == spec_sat_sub(term_height as int, HELP_PANEL_HEIGHT as int) / 2,
        r.2 == (if term_height - r.1 < HELP_PANEL_HEIGHT {
            term_height - r.1
        } else {
            HELP_PANEL_HEIGHT as int
        }),
        r.1 + r.2 <= term_height,
{
    let start_col = term_width.saturating_sub(HELP_PANEL_WIDTH) / 2;
    let start_row = term_height.saturating_sub(HELP_PANEL_HEIGHT) / 2;
    let room = term_height - start_row;
    let shown = if room < HELP_PANEL_HEIGHT {
        room
    } else {
        HELP_PANEL_HEIGHT
    };
    (start_col, start_row, shown)
}

} // verus!
