use cumulus_host::logging::log_line;
use cumulus_host::styling::{paint, style, StyleKind};

#[test]
fn transforms_wrap_and_concatenate() {
    // The override is process-global, so every styling assertion runs in
    // this single test, in sequence.
    colored::control::set_override(false);
    assert_eq!(style(StyleKind::Red, &vec!["a".to_string(), "b".to_string()]), "ab");
    assert_eq!(style(StyleKind::Bold, &Vec::new()), "");
    assert_eq!(paint(StyleKind::Cyan, "x"), "x");

    colored::control::set_override(true);
    assert_eq!(
        style(StyleKind::Red, &vec!["a".to_string(), "b".to_string()]),
        "\u{1b}[31ma\u{1b}[0m\u{1b}[31mb\u{1b}[0m"
    );
    assert_eq!(style(StyleKind::Green, &vec!["go".to_string()]), "\u{1b}[32mgo\u{1b}[0m");
    assert_eq!(style(StyleKind::Yellow, &vec!["y".to_string()]), "\u{1b}[33my\u{1b}[0m");
    assert_eq!(style(StyleKind::Blue, &vec!["y".to_string()]), "\u{1b}[34my\u{1b}[0m");
    assert_eq!(style(StyleKind::Magenta, &vec!["y".to_string()]), "\u{1b}[35my\u{1b}[0m");
    assert_eq!(style(StyleKind::Cyan, &vec!["y".to_string()]), "\u{1b}[36my\u{1b}[0m");
    assert_eq!(style(StyleKind::White, &vec!["y".to_string()]), "\u{1b}[37my\u{1b}[0m");
    assert_eq!(style(StyleKind::Black, &vec!["y".to_string()]), "\u{1b}[30my\u{1b}[0m");
    assert_eq!(style(StyleKind::Bold, &vec!["y".to_string()]), "\u{1b}[1my\u{1b}[0m");
    assert_eq!(style(StyleKind::Italic, &vec!["y".to_string()]), "\u{1b}[3my\u{1b}[0m");
    assert_eq!(style(StyleKind::Underline, &vec!["y".to_string()]), "\u{1b}[4my\u{1b}[0m");
    assert_eq!(style(StyleKind::Reverse, &vec!["y".to_string()]), "\u{1b}[7my\u{1b}[0m");

    colored::control::unset_override();
}

#[test]
fn log_lines_join_arguments_with_spaces() {
    assert_eq!(
        log_line("[LUA]", &vec!["hello".to_string(), "world".to_string()]),
        "[LUA] hello world"
    );
    assert_eq!(log_line("[LUA]", &Vec::new()), "[LUA] ");
    assert_eq!(log_line("[LUA]", &vec!["one".to_string()]), "[LUA] one");
}
