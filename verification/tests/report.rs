//! Reading back what terminals report, and the recordings made from it.

use cellwidth::report::{
    abbreviate, advise, classify_line, clean_name, drawn_columns, indic_apart, parse_count,
    parse_cursor_report, report_column, short_name, split_lines, Advice, Line,
};

#[test]
fn cursor_reports_are_read_as_row_and_column() {
    assert_eq!(parse_cursor_report("\x1b[12;34R"), Some((12, 34)));
    assert_eq!(parse_cursor_report("\x1b[ 1 ; +7 R"), Some((1, 7)));
    assert_eq!(parse_cursor_report("[[\x1b3;4RR"), Some((3, 4)));
    assert_eq!(parse_cursor_report("\x1b[12R"), None, "no separator");
    assert_eq!(parse_cursor_report("\x1b[a;4R"), None, "row not a number");
    assert_eq!(parse_cursor_report("\x1b[1;-4R"), None, "no sign but plus");
    assert_eq!(parse_cursor_report("\x1b[1;99999999999999999999999R"), None, "too large");
    assert_eq!(parse_cursor_report(""), None);
}

#[test]
fn the_column_alone_counts_what_was_drawn() {
    assert_eq!(report_column("\x1b[5;4R"), Some(3));
    assert_eq!(report_column("\x1b[x;1R"), Some(0), "the row is not read");
    assert_eq!(report_column("\x1b[5;0R"), Some(0), "never below zero");
    assert_eq!(report_column("\x1b[5R"), None);
    assert_eq!(drawn_columns(Some((1, 4))), Some(3));
    assert_eq!(drawn_columns(Some((1, 0))), None);
    assert_eq!(drawn_columns(None), None);
}

#[test]
fn terminal_names_lose_their_framing_and_controls() {
    assert_eq!(clean_name("\x1bP>|kitty(0.48.1)\x1b\\"), "kitty(0.48.1)");
    assert_eq!(clean_name("\x1bP>|We\u{7}zTerm\x1b\\"), "WezTerm");
    assert_eq!(clean_name(""), "");
    assert_eq!(clean_name("\x1b\\"), "");
}

#[test]
fn numbers_parse_as_str_parse_does() {
    assert_eq!(parse_count("42"), Some(42));
    assert_eq!(parse_count("+7"), Some(7));
    assert_eq!(parse_count("007"), Some(7));
    assert_eq!(parse_count(" 7"), None);
    assert_eq!(parse_count(""), None);
    assert_eq!(parse_count("+"), None);
    assert_eq!(parse_count("-1"), None);
    assert_eq!(parse_count("3x"), None);
    assert_eq!(parse_count("99999999999999999999999"), None);
    for n in [0usize, 1, 9, 10, 255, 65536, usize::MAX] {
        assert_eq!(parse_count(&n.to_string()), Some(n));
        assert_eq!(parse_count(&n.to_string()), n.to_string().parse::<usize>().ok());
    }
}

#[test]
fn recordings_split_into_lines_as_str_lines_does() {
    for text in ["", "a", "a\n", "a\r\nb\n\nc\r", "\n\n", "x\ry\n"] {
        let got = split_lines(text);
        let want: Vec<String> = text.lines().map(String::from).collect();
        assert_eq!(got, want, "{text:?}");
    }
}

#[test]
fn lines_of_a_recording_are_classified() {
    match classify_line("# terminal\t kitty 0.48 ") {
        Line::Name(n) => assert_eq!(n, "kitty 0.48"),
        _ => panic!("a name line"),
    }
    assert!(matches!(classify_line("# TERM\txterm-kitty"), Line::Other));
    assert!(matches!(classify_line("id\tcodepoints\tterminal\tcellwidth\tnote"), Line::Other));
    assert!(matches!(classify_line("ascii\t0061"), Line::Other));
    match classify_line("ascii\t0061 0062 0063\t3\t3\tplain ASCII") {
        Line::Entry(id, v) => {
            assert_eq!(id, "ascii");
            assert_eq!(v, "3");
        }
        _ => panic!("an entry"),
    }
    match classify_line("vs15\t231A FE0E\t-") {
        Line::Entry(id, v) => {
            assert_eq!(id, "vs15");
            assert_eq!(v, "-");
        }
        _ => panic!("an entry"),
    }
}

#[test]
fn names_are_shortened_for_the_columns() {
    assert_eq!(abbreviate("xterm-256color", 10), "xterm-256…");
    assert_eq!(abbreviate("kitty", 10), "kitty");
    assert_eq!(abbreviate("0123456789", 10), "0123456789");
    assert_eq!(abbreviate("", 0), "");
    assert_eq!(short_name("abcdefghijklmnopqrstuvwxyz"), "abcdefghijklmno");
    assert_eq!(short_name("日本語"), "日本語");
}

#[test]
fn the_family_emoji_decides_the_preset() {
    assert!(matches!(advise(Some(2)), Advice::Clustered));
    assert!(matches!(advise(Some(8)), Advice::PerCodePoint));
    assert!(matches!(advise(Some(1)), Advice::Unknown));
    assert!(matches!(advise(None), Advice::Unknown));
    assert!(indic_apart(Some(2), Some(2)));
    assert!(!indic_apart(Some(2), Some(1)));
    assert!(!indic_apart(None, Some(2)));
}
