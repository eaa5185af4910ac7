use pixterm::color::{default_palette, parse_hex, rgb_to_hex};

#[test]
fn test_parse_hex_valid() {
    assert_eq!(parse_hex("#FF0000"), Some((255, 0, 0)));
    assert_eq!(parse_hex("#00ff00"), Some((0, 255, 0)));
    assert_eq!(parse_hex("#0000FF"), Some((0, 0, 255)));
    assert_eq!(parse_hex("#ABCDEF"), Some((171, 205, 239)));
}

#[test]
fn test_parse_hex_invalid() {
    assert_eq!(parse_hex("FF0000"), None);
    assert_eq!(parse_hex("#FFF"), None);
    assert_eq!(parse_hex("#GGGGGG"), None);
    assert_eq!(parse_hex(""), None);
}

#[test]
fn test_rgb_to_hex() {
    assert_eq!(rgb_to_hex((255, 0, 0)), "#FF0000");
    assert_eq!(rgb_to_hex((0, 255, 0)), "#00FF00");
    assert_eq!(rgb_to_hex((0, 0, 255)), "#0000FF");
}

#[test]
fn parse_hex_trims_whitespace() {
    assert_eq!(parse_hex("  #102030\t"), Some((16, 32, 48)));
}

#[test]
fn parse_hex_rejects_signs_and_non_hex() {
    assert_eq!(parse_hex("#+F0000"), None);
    assert_eq!(parse_hex("#-F0000"), None);
    assert_eq!(parse_hex("#GG0000"), None);
    assert_eq!(parse_hex("FF00000"), None);
}

#[test]
fn parse_hex_rejects_wrong_lengths() {
    assert_eq!(parse_hex("#FF00000"), None);
    assert_eq!(parse_hex("#FF000"), None);
}

#[test]
fn parse_hex_rejects_multibyte_text() {
    assert_eq!(parse_hex("#a\u{e9}a\u{e9}"), None);
    assert_eq!(parse_hex("#a\u{20ac}11"), None);
    assert_eq!(parse_hex("#\u{e9}\u{e9}\u{e9}"), None);
}

#[test]
fn rgb_to_hex_round_trips() {
    for c in [(0, 0, 0), (1, 2, 3), (171, 205, 239), (255, 255, 255)] {
        assert_eq!(parse_hex(&rgb_to_hex(c)), Some(c));
        assert_eq!(parse_hex(&rgb_to_hex(c).to_lowercase()), Some(c));
    }
}

#[test]
fn default_palette_colours() {
    let p = default_palette();
    assert_eq!(p[0], (0, 0, 0));
    assert_eq!(p[1], (255, 255, 255));
    assert_eq!(p[8], (255, 128, 0));
    assert_eq!(p[9], (128, 0, 255));
}
