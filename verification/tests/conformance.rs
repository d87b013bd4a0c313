//! Grapheme segmentation keeps every character.

use cellwidth::graphemes;

/// Splitting and rejoining must be lossless for arbitrary text.
#[test]
fn graphemes_round_trip() {
    let samples = [
        "",
        "plain ascii",
        "e\u{301}cole",
        "🇯🇵🇺🇸🇬🇧",
        "👨‍👩‍👧‍👦👍🏽",
        "क्षि नमस्ते",
        "한국어 조합",
        "\r\n\r\n",
        "a\u{200D}b",
        "\u{1F1E6}",
        "mixed 日本語 with 👩🏾‍🚀 and \u{fe0f}",
    ];
    for s in samples {
        let mut it = graphemes(s);
        let mut joined = String::new();
        let mut all_nonempty = true;
        while let Some(g) = it.next() {
            all_nonempty &= !g.is_empty();
            joined.push_str(g);
        }
        assert_eq!(joined, s, "round trip failed for {s:?}");
        assert!(all_nonempty, "empty cluster in {s:?}");
    }
}
