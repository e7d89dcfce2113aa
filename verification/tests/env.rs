use ps2iidx_controller::env::{parse_env, parse_env_line, strip_quotes};

fn pair(key: &str, value: &str) -> (String, String) {
    (key.to_string(), value.to_string())
}

#[test]
fn quotes_come_off_in_pairs() {
    assert_eq!(strip_quotes("\"COM3\""), "COM3");
    assert_eq!(strip_quotes("'COM3'"), "COM3");
    assert_eq!(strip_quotes("  \"COM3\"  "), "COM3");
    assert_eq!(strip_quotes("\"\""), "");
    assert_eq!(strip_quotes("''"), "");
    assert_eq!(strip_quotes("\" a \""), " a ");
}

#[test]
fn unpaired_quotes_stay() {
    assert_eq!(strip_quotes("COM3"), "COM3");
    assert_eq!(strip_quotes("  COM3  "), "COM3");
    assert_eq!(strip_quotes("\"COM3"), "\"COM3");
    assert_eq!(strip_quotes("COM3'"), "COM3'");
    assert_eq!(strip_quotes("\"COM3'"), "\"COM3'");
    assert_eq!(strip_quotes("\""), "\"");
    assert_eq!(strip_quotes("'"), "'");
    assert_eq!(strip_quotes(""), "");
}

#[test]
fn only_the_outer_pair_comes_off() {
    assert_eq!(strip_quotes("\"\"x\"\""), "\"x\"");
    assert_eq!(strip_quotes("'\"x\"'"), "\"x\"");
}

#[test]
fn line_assigns_a_key() {
    assert_eq!(parse_env_line("DEFAULT_PORT=COM3"), Some(pair("DEFAULT_PORT", "COM3")));
    assert_eq!(
        parse_env_line("  DEFAULT_PORT = \"COM3\"  "),
        Some(pair("DEFAULT_PORT", "COM3"))
    );
    assert_eq!(parse_env_line("A=b=c"), Some(pair("A", "b=c")));
    assert_eq!(parse_env_line("A="), Some(pair("A", "")));
    assert_eq!(parse_env_line("A=#x"), Some(pair("A", "#x")));
}

#[test]
fn comments_and_lines_without_a_key_assign_nothing() {
    assert_eq!(parse_env_line(""), None);
    assert_eq!(parse_env_line("   "), None);
    assert_eq!(parse_env_line("# A=1"), None);
    assert_eq!(parse_env_line("   #A=1"), None);
    assert_eq!(parse_env_line("A"), None);
    assert_eq!(parse_env_line("=1"), None);
    assert_eq!(parse_env_line("  =1"), None);
}

#[test]
fn file_gives_its_assignments_in_order() {
    let content = "\u{feff}# defaults\r\nDEFAULT_PORT=COM3\r\n\r\nDEFAULT_BAUD = '9600'\nbroken\nDEFAULT_PORT=COM4\n";

    assert_eq!(
        parse_env(content),
        vec![
            pair("DEFAULT_PORT", "COM3"),
            pair("DEFAULT_BAUD", "9600"),
            pair("DEFAULT_PORT", "COM4"),
        ]
    );
}

#[test]
fn mark_comes_off_once_and_at_the_start_only() {
    assert_eq!(parse_env("\u{feff}A=1"), vec![pair("A", "1")]);
    assert_eq!(parse_env("\u{feff}\u{feff}A=1"), vec![pair("\u{feff}A", "1")]);
    assert_eq!(parse_env("A=1\n\u{feff}B=2"), vec![pair("A", "1"), pair("\u{feff}B", "2")]);
}

#[test]
fn empty_file_assigns_nothing() {
    assert!(parse_env("").is_empty());
    assert!(parse_env("\n\n").is_empty());
    assert!(parse_env("\u{feff}").is_empty());
}

#[test]
fn last_line_needs_no_terminator() {
    assert_eq!(parse_env("A=1\nB=2"), vec![pair("A", "1"), pair("B", "2")]);
    assert_eq!(parse_env("A=1\r"), vec![pair("A", "1")]);
}
