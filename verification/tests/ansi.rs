//! Escape sequence recognition.

use cellwidth::ansi::{escape_len, is_terminated};
use cellwidth::{pieces, strip_ansi, Piece, Width};

fn split(s: &str) -> Vec<Piece<'_>> {
    let mut it = pieces(s);
    let mut out = Vec::new();
    while let Some(p) = it.next() {
        out.push(p);
    }
    out
}

#[test]
fn pieces_reproduce_the_input() {
    let samples = [
        "",
        "plain",
        "\x1b[31m",
        "\x1b[38;2;1;2;3mrgb\x1b[0m",
        "\x1b]0;title\x07body",
        "\x1b]8;;https://example.com\x1b\\text\x1b]8;;\x1b\\",
        "\x1bPtmux;\x1b\\passthrough",
        "\x1b7save\x1b8restore",
        "日本\x1b[Klanguage",
        "\x1b",
        "\x1b[",
        "\x1b[31",
    ];
    for s in samples {
        let joined: String = split(s).iter().map(|p| p.as_str()).collect();
        assert_eq!(joined, s, "lossy split of {s:?}");
    }
}

#[test]
fn csi_boundaries() {
    assert_eq!(split("\x1b[1;31mx"), [Piece::Escape("\x1b[1;31m"), Piece::Text("x")]);
    assert_eq!(split("\x1b[Kx"), [Piece::Escape("\x1b[K"), Piece::Text("x")]);
    assert_eq!(
        split("\x1b[?25lx"),
        [Piece::Escape("\x1b[?25l"), Piece::Text("x")],
        "private parameter bytes belong to the sequence"
    );
}

#[test]
fn string_sequences_run_to_their_terminator() {
    assert_eq!(
        split("\x1b]0;t\x07after"),
        [Piece::Escape("\x1b]0;t\x07"), Piece::Text("after")],
        "BEL terminates OSC"
    );
    assert_eq!(
        split("\x1b]0;t\x1b\\after"),
        [Piece::Escape("\x1b]0;t\x1b\\"), Piece::Text("after")],
        "ST terminates OSC"
    );
    assert_eq!(
        split("\x1bPq#0;2\x1b\\after"),
        [Piece::Escape("\x1bPq#0;2\x1b\\"), Piece::Text("after")],
        "DCS, as used by sixel"
    );
}

#[test]
fn hyperlinks_leave_only_the_label() {
    let link = "\x1b]8;;https://example.com\x1b\\click here\x1b]8;;\x1b\\";
    assert_eq!(strip_ansi(link), "click here");
}

#[test]
fn eight_bit_c1_controls() {
    assert_eq!(strip_ansi("\u{9b}31mred\u{9b}0m"), "red");
    assert_eq!(strip_ansi("\u{9d}0;title\u{9c}body"), "body");
    // A bare U+00C2-prefixed character that is not a C1 control is just text.
    assert_eq!(strip_ansi("Ââ"), "Ââ");
}

#[test]
fn unterminated_sequences_swallow_the_rest() {
    // This is what a terminal does with them, so it is what measuring should
    // assume too.
    assert_eq!(strip_ansi("text\x1b[31"), "text");
    assert_eq!(strip_ansi("text\x1b]8;;never-closed"), "text");
}

#[test]
fn strip_borrows_when_there_is_nothing_to_do() {
    assert!(matches!(strip_ansi("plain 日本語"), std::borrow::Cow::Borrowed(_)));
    assert!(matches!(strip_ansi("\x1b[0m"), std::borrow::Cow::Owned(_)));
}

/// Only CSI sequences carry SGR.
#[test]
fn non_csi_sequences_ending_in_m_are_not_colour_codes() {
    // A C1 SOS string that happens to end in `m`.
    let s = "\u{98}\u{1}\u{0}m";
    let lines = cellwidth::wrap(s, 95);
    assert_eq!(lines.concat(), s, "wrap added or dropped bytes");
    // An OSC that ends in `m` likewise.
    let osc = "\x1b]0;custom\x07plain";
    assert!(!cellwidth::wrap(osc, 40).concat().ends_with("\x1b[0m"));
    // A genuine SGR still gets closed.
    assert!(cellwidth::wrap("\x1b[31mred text here", 5)[0].ends_with("\x1b[0m"));
}

#[test]
fn piece_accessors() {
    let p: Vec<Piece> = split("a\x1b[0m");
    assert!(!p[0].is_escape() && p[0].as_str() == "a");
    assert!(p[1].is_escape() && p[1].as_str() == "\x1b[0m");
}

#[test]
fn escapes_with_intermediate_bytes() {
    // CSI with an intermediate byte: set cursor style.
    assert_eq!(strip_ansi("\x1b[1 qx"), "x");
    // nF sequence with several intermediates: select character set.
    assert_eq!(strip_ansi("\x1b$)Cx"), "x");
    assert_eq!(strip_ansi("\x1b(Bx"), "x");
    // Two-byte Fp form.
    assert_eq!(strip_ansi("\x1b7x\x1b8"), "x");
}

#[test]
fn c1_sgr_is_recognised_for_style_tracking() {
    // An 8-bit CSI carrying colour must close like a 7-bit one.
    let out = Width::default().truncate_ellipsis("\u{9b}31mred text", 5, "…");
    assert!(out.ends_with("\x1b[0m"), "{out:?}");
}

#[test]
fn escapes_can_be_measured_literally() {
    let literal = Width::default().ansi(false);
    // The ESC is still a zero-column control character; the rest is text, so
    // three columns buys "[31".
    assert_eq!(literal.of("\x1b[31m"), 4);
    assert_eq!(literal.truncate("\x1b[31mred", 3), "\x1b[31");
    // The escape is just text now, so it wraps and hard-breaks like any word.
    assert_eq!(literal.wrap("\x1b[31m red", 3), ["\x1b[31", "m", "red"]);
    // And no reset is ever added, because nothing is recognised as styling.
    assert!(!literal.wrap("\x1b[31mred here", 4).concat().ends_with("\x1b[0m"));
}

/// `escape_len` is asked about positions the scanner has reached, but its
/// contract covers the empty and past-the-end cases too.
#[test]
fn escape_len_at_the_boundary() {
    assert_eq!(escape_len(b"", 0), None);
    assert_eq!(escape_len(b"ab", 2), None);
    assert_eq!(escape_len(b"a", 0), None);
    assert_eq!(escape_len(b"\x1b[0m", 0), Some(4));
}

/// `is_terminated` decides whether appending text to a string would be
/// swallowed by a half-finished escape, so every introducer form matters.
#[test]
fn termination_of_every_escape_form() {
    for complete in [
        "\x1b[0m",
        "\x1b[1;31m",
        "\u{9b}0m", // CSI
        "\x1b]0;t\x07",
        "\x1b]0;t\x1b\\", // OSC by BEL and by ST
        "\x1b]0;t\u{9c}",
        "\x1bPq\x1b\\", // OSC by C1 ST, DCS
        "\x1b(B",
        "\x1b$)C", // nF
        "\x1b7",
        "\x1bM", // two-byte Fp/Fe
        "not an escape",
        "", // defensive: never passed
    ] {
        assert!(is_terminated(complete), "{complete:?} should be complete");
    }
    for dangling in [
        "\x1b",
        "\x1b[",
        "\x1b[31",
        "\x1b[1;", // CSI cut short
        "\x1b]",
        "\x1b]8;;http://x",
        "\x1bP", // string sequence never closed
        "\x1b$",
        "\x1b ", // nF awaiting its final byte
    ] {
        assert!(!is_terminated(dangling), "{dangling:?} should be dangling");
    }
}
