use pixterm::ui::{help_panel_layout, HELP_PANEL_HEIGHT, HELP_PANEL_WIDTH};

#[test]
fn help_panel_is_centred() {
    assert_eq!((HELP_PANEL_WIDTH, HELP_PANEL_HEIGHT), (50, 34));
    assert_eq!(help_panel_layout(80, 40), (15, 3, 34));
    assert_eq!(help_panel_layout(81, 41), (15, 3, 34));
}

#[test]
fn help_panel_in_a_small_terminal() {
    assert_eq!(help_panel_layout(40, 20), (0, 0, 20));
    assert_eq!(help_panel_layout(0, 0), (0, 0, 0));
    assert_eq!(help_panel_layout(50, 34), (0, 0, 34));
}
