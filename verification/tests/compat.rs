//! The compatibility shims give the same answers as the native API and keep
//! the conventions of the crates they replace.

use cellwidth::compat::{GraphemeIndices, UnicodeSegmentation, UnicodeWidthChar, UnicodeWidthStr};
use cellwidth::{char_width, graphemes, width, Ambiguous, Graphemes, Width};

const CASES: &[&str] = &[
    "",
    "hello",
    "café",
    "日本語",
    "👨‍👩‍👧‍👦",
    "🇯🇵 Tōkyō 東京",
    "\x1b[31mred\x1b[0m",
    "°C ± α",
    "a\tb",
    "\r\n",
    "क्षि",
    "\u{0600}12",
    "क\u{0903}",
];

fn drain<'a>(mut it: Graphemes<'a>) -> Vec<&'a str> {
    let mut out = Vec::new();
    while let Some(g) = it.next() {
        out.push(g);
    }
    out
}

fn drain_indices<'a>(mut it: GraphemeIndices<'a>) -> Vec<(usize, &'a str)> {
    let mut out = Vec::new();
    while let Some(p) = it.next() {
        out.push(p);
    }
    out
}

#[test]
fn str_width_is_the_free_function() {
    let cjk = Width::default().ambiguous(Ambiguous::Wide);
    for s in CASES {
        assert_eq!(s.width(), width(s), "{s:?}");
        assert_eq!(s.width_cjk(), cjk.of(s), "{s:?}");
    }
    assert_eq!("°C".width(), 2);
    assert_eq!("°C".width_cjk(), 3);
    assert_eq!("👨‍👩‍👧‍👦".width(), 2);
    assert_eq!("\x1b[31mred\x1b[0m".width(), 3);
}

#[test]
fn char_width_is_none_exactly_for_control_characters() {
    let cjk = Width::default().ambiguous(Ambiguous::Wide);
    for cp in 0u32..=0x10FFFF {
        let Some(c) = char::from_u32(cp) else {
            continue;
        };
        let expect = if c.is_control() { None } else { Some(char_width(c)) };
        assert_eq!(c.width(), expect, "U+{cp:04X}");
        let expect_cjk = if c.is_control() { None } else { Some(cjk.of_char(c)) };
        assert_eq!(c.width_cjk(), expect_cjk, "U+{cp:04X}");
    }
    assert_eq!('\x1b'.width(), None);
    assert_eq!('\t'.width(), None);
    assert_eq!('\u{85}'.width(), None);
    assert_eq!('a'.width(), Some(1));
    assert_eq!('日'.width(), Some(2));
    assert_eq!('\u{301}'.width(), Some(0));
    assert_eq!('°'.width(), Some(1));
    assert_eq!('°'.width_cjk(), Some(2));
}

#[test]
fn extended_graphemes_are_the_free_function() {
    for s in CASES {
        let shim = drain(s.graphemes(true));
        let native = drain(graphemes(s));
        assert_eq!(shim, native, "{s:?}");
    }
}

#[test]
fn legacy_graphemes_drop_gb9a_gb9b_gb9c() {
    // GB9a: a spacing mark joins in extended clusters only.
    let bengali = drain("क\u{0903}".graphemes(false));
    assert_eq!(bengali, ["क", "\u{0903}"]);
    assert_eq!(drain("क\u{0903}".graphemes(true)).len(), 1);

    // GB9b: a prepended character joins in extended clusters only.
    let prepend = drain("\u{0600}12".graphemes(false));
    assert_eq!(prepend, ["\u{0600}", "1", "2"]);
    assert_eq!(drain("\u{0600}12".graphemes(true)).len(), 2);

    // GB9c: an Indic conjunct is one extended cluster, two legacy ones.
    let conjunct = drain("क्ष".graphemes(false));
    assert_eq!(conjunct, ["क्", "ष"]);
    assert_eq!(drain("क्ष".graphemes(true)).len(), 1);

    // Everything else is unchanged: GB9 (extend, ZWJ), GB11, GB12, Hangul.
    for s in ["café", "👨‍👩‍👧‍👦", "🇯🇵🇯🇵", "각", "\r\n", "👍🏽", ""] {
        let legacy = drain(s.graphemes(false));
        let extended = drain(s.graphemes(true));
        assert_eq!(legacy, extended, "{s:?}");
    }
}

#[test]
fn grapheme_indices_report_byte_offsets() {
    let got = drain_indices("a👍🏽b".grapheme_indices(true));
    assert_eq!(got, [(0, "a"), (1, "👍🏽"), (9, "b")]);

    let legacy = drain_indices("क\u{0903}".grapheme_indices(false));
    assert_eq!(legacy, [(0, "क"), (3, "\u{0903}")]);

    for s in CASES {
        for (at, g) in drain_indices(s.grapheme_indices(true)) {
            assert_eq!(&s[at..at + g.len()], g, "{s:?}");
        }
        let joined: String = drain_indices(s.grapheme_indices(true)).into_iter().map(|(_, g)| g).collect();
        assert_eq!(&joined, s);
    }
}

#[test]
fn grapheme_indices_iterator_contract() {
    let mut it = "ab".grapheme_indices(true);
    assert_eq!(it.size_hint(), (1, Some(2)));
    assert_eq!(it.next(), Some((0, "a")));
    let copy = it.clone();
    assert_eq!(it.next(), Some((1, "b")));
    assert_eq!(it.next(), None);
    assert_eq!(it.next(), None, "fused");
    assert_eq!(drain_indices(copy), [(1, "b")]);
    assert_eq!("".grapheme_indices(true).size_hint(), (0, Some(0)));
    assert_eq!("".grapheme_indices(false).next(), None);
}
