//! The laws the library proves, checked on concrete values.

use cellwidth::{cell, graphemes, pad_end, pad_start, truncate, width, wrap, Ambiguous, Border, Table, Width};

const SAMPLES: &[&str] = &[
    "",
    "a",
    "hello world",
    "日本語テキスト",
    "cafe\u{301} au lait",
    "👨‍👩‍👧‍👦 family",
    "🇯🇵🇺🇸 flags",
    "\x1b[31mred\x1b[0m and more",
    "\x1b]8;;https://example.com\x1b\\a link\x1b]8;;\x1b\\",
    "한국어 조합",
];

#[test]
fn truncating_to_the_full_width_keeps_everything() {
    for s in SAMPLES {
        assert_eq!(truncate(s, width(s)), *s);
        assert_eq!(truncate(s, width(s) + 3), *s);
    }
}

#[test]
fn a_cut_with_a_marker_fits_the_budget() {
    let w = Width::default();
    for s in SAMPLES {
        for max in 0..12 {
            let cut = w.truncate_ellipsis(s, max, "…");
            assert!(w.of(&cut) <= max, "{s:?} cut to {max}: {cut:?}");
            let dots = w.truncate_ellipsis(s, max, "...");
            assert!(w.of(&dots) <= max, "{s:?} cut to {max}: {dots:?}");
        }
    }
    assert_eq!(w.truncate_ellipsis("日本語テキスト", 6, "…"), "日本…");
}

#[test]
fn padding_reaches_the_width_on_either_side() {
    let w = Width::default();
    for s in SAMPLES {
        for target in 0..20 {
            let have = width(s);
            let want = if have >= target { have } else { target };
            assert_eq!(width(&pad_end(s, target)), want, "pad_end({s:?}, {target})");
            assert_eq!(width(&pad_start(s, target)), want, "pad_start({s:?}, {target})");
            assert_eq!(w.of(&w.center(s, target)), want, "center({s:?}, {target})");
        }
    }
}

#[test]
fn a_cell_is_exactly_as_wide_as_asked() {
    for s in SAMPLES {
        for target in 0..20 {
            assert_eq!(width(&cell(s, target)), target, "cell({s:?}, {target})");
        }
    }
    // U+0D4E MALAYALAM LETTER DOT REPH is a Prepend character: a space right
    // after it would join its cluster, so a zero-width space keeps them apart.
    let c = cell("\u{0D4E}", 3);
    assert_eq!(c, "\u{0D4E}\u{200B}  ");
    assert_eq!(width(&c), 3);
    assert_eq!(width(&pad_end("\u{0D4E}", 3)), 3);
    assert_eq!(width(&cellwidth::Width::default().center("\u{0D4E}", 4)), 4);
    // A combining mark at the start would join the last space of padding on
    // the left; a zero-width space keeps them apart too.
    assert_eq!(pad_start("\u{0301}x", 4), "   \u{200B}\u{0301}x");
    assert_eq!(width(&pad_start("\u{0301}x", 4)), 4);
    assert_eq!(width(&cellwidth::Width::default().center("\u{0301}", 5)), 5);
}

#[test]
fn text_already_wide_enough_is_not_padded() {
    assert_eq!(pad_end("abc\x1b[", 2), "abc\x1b[");
    assert_eq!(pad_start("abc\x1b[", 3), "abc\x1b[");
    assert_eq!(pad_end("too long", 3), "too long");
}

#[test]
fn no_character_is_wider_than_two_columns_except_a_tab() {
    for s in SAMPLES {
        assert!(width(s) <= 2 * s.chars().count(), "{s:?}");
    }
    let w = Width::default().tab_stop(4);
    assert_eq!(w.of("\t"), 4);
    assert!(w.of("a\tb") <= 4 + 2 + 2);
}

#[test]
fn width_is_the_sum_of_the_cluster_widths() {
    let w = Width::default().ansi(false);
    for s in SAMPLES {
        let mut sum = 0;
        let mut it = graphemes(s);
        while let Some(g) = it.next() {
            sum += w.of_grapheme(g);
        }
        assert_eq!(sum, w.of(s), "{s:?}");
    }
}

#[test]
fn every_rule_and_row_line_is_as_wide_as_the_others() {
    for border in [Border::Light, Border::Heavy, Border::Ascii, Border::Markdown, Border::Spaces] {
        let t = Table::new()
            .border(border)
            .column("name")
            .column("notes")
            .row(["日本語", "plain"])
            .row(["👨‍👩‍👧‍👦", "a much longer note that wraps"]);
        let out = t.render(Some(24));
        let mut widths = out.lines().map(width);
        let first = widths.next().unwrap();
        assert!(widths.all(|x| x == first), "{border:?}:\n{out}");
    }
    // Under a policy that takes East Asian Ambiguous characters wide, the box
    // drawing glyphs would be two columns each, so ASCII is drawn instead and
    // the lines still agree.
    let wide = Width::default().ambiguous(Ambiguous::Wide);
    for border in [Border::Light, Border::Heavy] {
        let t = Table::new().measured_by(wide).border(border).column("a").row(["b"]);
        let out = t.render(None);
        assert!(out.is_ascii(), "{out}");
        let widths: Vec<usize> = out.lines().map(|l| wide.of(l)).collect();
        assert!(widths.iter().all(|&x| x == widths[0]), "{out}");
    }
}

#[test]
fn wrapping_keeps_every_visible_character() {
    let visible = |t: &str| -> String { t.chars().filter(|c| !c.is_whitespace()).collect() };
    for s in SAMPLES {
        if s.contains('\x1b') {
            continue;
        }
        for target in 1..16 {
            let lines = wrap(s, target);
            assert_eq!(visible(&lines.concat()), visible(s), "wrap({s:?}, {target})");
        }
    }
    let text = "line one\r\nline two\u{2028}three\t four  \n";
    assert_eq!(visible(&wrap(text, 4).concat()), visible(text));
}

fn cluster_count(s: &str) -> usize {
    let mut g = graphemes(s);
    let mut n = 0;
    while g.next().is_some() {
        n += 1;
    }
    n
}

#[test]
fn wrapped_lines_fit_unless_one_cluster_is_too_wide() {
    let texts = [
        "the quick brown fox jumps over the lazy dog",
        "supercalifragilisticexpialidocious and more",
        "a-b-c-d-e-f (g) [h] 1,000,000 x/y",
        "    leading and trailing    ",
        "\u{65E5}\u{672C}\u{8A9E}\u{30C6}\u{30AD}\u{30B9}\u{30C8} mixed with latin",
        "tabs\tin\tbetween and a\ttail\t",
        "line one\r\nline two\nthree\u{2028}four",
        "caf\u{E9} na\u{EF}ve r\u{E9}sum\u{E9}",
        "\u{D55C}\u{AD6D}\u{C5B4} \u{C870}\u{D569} \u{D14C}\u{C2A4}\u{D2B8}",
        "\u{1F1EF}\u{1F1F5}\u{1F1FA}\u{1F1F8}\u{1F1EC}\u{1F1E7} flags",
        "\u{1F44D}\u{1F3FD}\u{1F44D}\u{1F3FD} thumbs",
        "",
    ];
    for s in texts {
        for target in 1..20 {
            for line in wrap(s, target) {
                assert!(
                    width(&line) <= target || cluster_count(&line) == 1,
                    "wrap({s:?}, {target}) gave {line:?}"
                );
            }
        }
    }
    assert_eq!(wrap("abcdefgh", 3), ["abc", "def", "gh"]);
    assert_eq!(wrap("\u{65E5}\u{672C}\u{8A9E}", 2), ["\u{65E5}", "\u{672C}", "\u{8A9E}"]);
    // A wide character on a line one column wide stands alone.
    assert_eq!(wrap("a\u{65E5}b", 1), ["a", "\u{65E5}", "b"]);
}

#[test]
fn wrapping_always_gives_a_line() {
    for s in ["", "   ", "a", "\n", "a\n"] {
        for target in 1..5 {
            assert!(!wrap(s, target).is_empty(), "wrap({s:?}, {target})");
        }
    }
    assert_eq!(wrap("", 3), [""]);
    assert_eq!(wrap("   ", 3), [""]);
}

#[test]
fn a_huge_tab_stop_only_matters_where_there_is_a_tab() {
    let w = Width::default().tab_stop(usize::MAX);
    assert_eq!(w.of("ab"), 2);
    assert_eq!(w.of_at("ab", 7), 2);
    assert_eq!(w.of("日本"), 4);
    assert_eq!(w.advance("e\u{301}", 3), 1);
    assert_eq!(w.truncate("abcdef", 3), "abc");
    assert_eq!(w.truncate_ellipsis("abcdef", 4, "…"), "abc…");
    assert_eq!(w.pad_end("ab", 4), "ab  ");
    assert_eq!(w.center("ab", 6), "  ab  ");
    // A lone tab advances to the next stop, which is as far as a usize goes.
    assert_eq!(w.of("\t"), usize::MAX);
    // Cutting never counts past the budget, however wide a tab would be.
    assert_eq!(w.truncate("a\tb", 5), "a");
    assert_eq!(w.wrap("ab cd", 2), vec!["ab".to_string(), "cd".to_string()]);
}

#[test]
fn blank_text_wraps_to_one_empty_line() {
    for s in ["", " ", "     "] {
        for width in [1, 3, 80] {
            assert_eq!(wrap(s, width), vec![String::new()]);
        }
    }
}

#[test]
fn a_cut_never_lands_inside_an_escape_sequence() {
    assert_eq!(truncate("\x1b[31mabc", 0), "\x1b[31m");
    assert_eq!(truncate("ab\x1b[31mcd", 3), "ab\x1b[31mc");
    assert_eq!(truncate("ab\x1b[31mcd", 2), "ab\x1b[31m");
}

#[test]
fn marks_and_prepend_characters_do_not_join_the_padding() {
    // A wrapped line that begins with a spacing mark, a combining mark or that
    // ends with a Prepend character would otherwise merge with the padding
    // beside it into a single cluster, leaving its row a column short.
    let cells = ["a \u{0903}b", "\u{0301}x", "x\u{0D4E}", "\u{0D4E}", "\x1b]0;a\nb\tc\x07x"];
    for border in [Border::Light, Border::Ascii, Border::Markdown, Border::Spaces] {
        for cell in cells {
            let t = Table::new().border(border).column("h").column("i").row([cell, "z"]).row(["yy", cell]);
            for limit in [None, Some(8), Some(12)] {
                let out = t.render(limit);
                let mut widths = out.lines().map(width);
                let first = widths.next().unwrap();
                assert!(widths.all(|x| x == first), "{border:?} {cell:?} {limit:?}:\n{out}");
            }
        }
    }
}

#[test]
fn a_cut_fits_with_any_marker_that_holds_no_tab() {
    let w = Width::default();
    let markers = ["…", "...", "\x1b[2m…\x1b[0m", "👨‍👩‍👧", "e\u{301}", "\u{0D4E}", "\u{301}>"];
    let texts = ["hello world", "x\u{0D4E}yz and more", "\x1b[31mred text here\x1b[0m", "日本語のテキスト"];
    for m in markers {
        for s in texts {
            for max in 0..12 {
                let r = w.truncate_ellipsis(s, max, m);
                if w.of(s) > max {
                    assert!(w.of(&r) <= max, "{s:?} {max} {m:?} -> {r:?}");
                } else {
                    assert_eq!(r, s);
                }
            }
        }
    }
    // A marker that would attach to the end of the cut is kept apart from it.
    assert_eq!(w.truncate_ellipsis("abcdef", 4, "\u{301}>"), "abc\u{200B}\u{301}>");
}

#[test]
fn narrowing_takes_from_the_widest_columns_first() {
    let t = Table::new()
        .border(Border::Ascii)
        .column("aaaaaaaaaaaa")
        .column("bbbb")
        .column("cccccccc")
        .row(["x", "y", "z"]);
    let natural = [12usize, 4, 8];
    for limit in 10..40 {
        let out = t.render(Some(limit));
        let rule = out.lines().next().unwrap();
        // Each column's share of the rule, less its padding.
        let widths: Vec<usize> =
            rule.trim_matches('+').split('+').map(|seg| seg.chars().count() - 2).collect();
        assert_eq!(widths.len(), 3, "{out}");
        for i in 0..3 {
            assert!(widths[i] <= natural[i]);
            if widths[i] < natural[i] {
                for j in 0..3 {
                    assert!(widths[j] <= widths[i] + 1, "{limit}: {widths:?}\n{out}");
                }
            }
        }
    }
}

#[test]
fn padding_on_the_left_reaches_the_width_even_with_tabs() {
    // A tab moved right by the padding shrinks; the padding makes up for it.
    assert_eq!(pad_start("\t", 10), "  \t  ");
    assert_eq!(width(&pad_start("\t", 10)), 10);
    let w = Width::default();
    for s in ["\t", "ab\tc", "\tx\t", "x"] {
        for target in 0..20 {
            assert!(w.of(&w.pad_start(s, target)) >= target, "{s:?} {target}");
            assert!(w.of(&w.center(s, target)) >= target, "{s:?} {target}");
        }
    }
}
