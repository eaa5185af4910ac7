use pixterm::command::{parse_command, Command};

#[test]
fn test_parse_help() {
    assert_eq!(parse_command("help"), Some(Command::Help));
    assert_eq!(parse_command("HELP"), Some(Command::Help));
}

#[test]
fn test_parse_save() {
    assert_eq!(parse_command("save"), Some(Command::Save(None)));
    assert_eq!(
        parse_command("save myfile.json"),
        Some(Command::Save(Some("myfile.json".to_string())))
    );
}

#[test]
fn test_parse_load() {
    assert_eq!(parse_command("load"), Some(Command::Load(None)));
    assert_eq!(
        parse_command("load art.json"),
        Some(Command::Load(Some("art.json".to_string())))
    );
}

#[test]
fn test_parse_quit() {
    assert_eq!(parse_command("quit"), Some(Command::Quit));
    assert_eq!(parse_command("q"), Some(Command::Quit));
}

#[test]
fn test_parse_paint() {
    assert_eq!(
        parse_command("paint 10 20 #FF0000"),
        Some(Command::Paint(10, 20, (255, 0, 0)))
    );
    assert_eq!(parse_command("paint 10 20"), None);
    assert_eq!(parse_command("paint abc 20 #FF0000"), None);
}

#[test]
fn test_parse_undo_redo() {
    assert_eq!(parse_command("undo"), Some(Command::Undo));
    assert_eq!(parse_command("redo"), Some(Command::Redo));
}

#[test]
fn test_parse_color() {
    assert_eq!(parse_command("color 5 10"), Some(Command::Color(5, 10)));
    assert_eq!(parse_command("color 5"), None);
}

#[test]
fn test_parse_clear() {
    assert_eq!(parse_command("clear"), Some(Command::Clear));
}

#[test]
fn test_parse_hex_color() {
    assert_eq!(
        parse_command("#FF00FF"),
        Some(Command::SetBrushColor((255, 0, 255)))
    );
    assert_eq!(parse_command("#ZZZZZZ"), None);
}

#[test]
fn test_parse_empty() {
    assert_eq!(parse_command(""), None);
    assert_eq!(parse_command("   "), None);
}

#[test]
fn test_parse_unknown() {
    assert_eq!(parse_command("foobar"), None);
}

#[test]
fn parse_keeps_extra_words_in_last_piece() {
    assert_eq!(
        parse_command("save my file.json"),
        Some(Command::Save(Some("my".to_string())))
    );
    assert_eq!(
        parse_command("paint 1 2 #FF0000 extra"),
        None
    );
    assert_eq!(parse_command("  Paint 1 2 #00FF00  "), Some(Command::Paint(1, 2, (0, 255, 0))));
}

#[test]
fn parse_double_space_gives_empty_piece() {
    assert_eq!(parse_command("save  x"), Some(Command::Save(Some("".to_string()))));
    assert_eq!(parse_command("color 1  2"), None);
}

#[test]
fn parse_coordinates_follow_u16_rules() {
    assert_eq!(parse_command("color +7 65535"), Some(Command::Color(7, 65535)));
    assert_eq!(parse_command("color 1 65536"), None);
    assert_eq!(parse_command("color -1 2"), None);
    assert_eq!(parse_command("paint 0007 8 #010203"), Some(Command::Paint(7, 8, (1, 2, 3))));
}

#[test]
fn bad_colours_give_no_command() {
    assert_eq!(parse_command("help"), Some(Command::Help));
    assert_eq!(parse_command("#a\u{e9}a\u{e9}"), None);
    assert_eq!(parse_command("paint 1 2 #a\u{e9}a\u{e9}"), None);
    assert_eq!(parse_command("paint 1 2 #+F0000"), None);
    assert_eq!(parse_command("#+F0000"), None);
}

#[test]
fn parse_export_and_import() {
    assert_eq!(parse_command("export out.png"), Some(Command::Export(Some("out.png".to_string()))));
    assert_eq!(parse_command("EXPORT"), Some(Command::Export(None)));
    assert_eq!(parse_command("import in.png"), Some(Command::Import("in.png".to_string())));
    assert_eq!(parse_command("Import In.PNG"), Some(Command::Import("In.PNG".to_string())));
    assert_eq!(parse_command("import"), None);
}

#[test]
fn command_word_in_any_case() {
    assert_eq!(parse_command("SAVE a.json"), Some(Command::Save(Some("a.json".to_string()))));
    assert_eq!(parse_command("UnDo"), Some(Command::Undo));
}
