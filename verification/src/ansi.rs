//! Recognising ANSI/VT escape sequences so they can be skipped when measuring
//! and kept intact when cutting.
//!
//! Escapes occupy zero columns but plenty of bytes. Code that measures or
//! truncates without accounting for them prints misaligned tables at best, and
//! at worst slices a sequence in half and leaves the terminal stuck in a colour
//! it never gets out of.
//!
//! The specification works on characters: an escape starts at ESC or at one of
//! the C1 introducers U+009B (CSI), U+009D, U+0090, U+0098, U+009E, U+009F, and
//! `esc_end` says where it stops.

use vstd::prelude::*;

use std::borrow::Cow;

use crate::text::{boff, byte_len, char_at, clen, lemma_boff_mono, slice, to_chars};

verus! {

/// Whether `c` lies in `lo..=hi`.
pub open spec fn in_range(c: char, lo: u32, hi: u32) -> bool {
    lo <= c as u32 && c as u32 <= hi
}

/// The byte after ESC that opens a string sequence: OSC, DCS, SOS, PM, APC.
pub open spec fn is_string_intro(c: char) -> bool {
    c == ']' || c == 'P' || c == 'X' || c == '^' || c == '_'
}

/// C1 controls that open a string sequence.
pub open spec fn is_c1_string(c: char) -> bool {
    c == '\u{9d}' || c == '\u{90}' || c == '\u{98}' || c == '\u{9e}' || c == '\u{9f}'
}

/// Characters at which an escape sequence begins.
pub open spec fn starts_escape(c: char) -> bool {
    c == '\x1b' || c == '\u{9b}' || is_c1_string(c)
}

/// First index from `j` whose character is outside `lo..=hi`.
pub open spec fn skip_while(cs: Seq<char>, j: int, lo: u32, hi: u32) -> int
    decreases cs.len() - j,
{
    if 0 <= j < cs.len() && in_range(cs[j], lo, hi) {
        skip_while(cs, j + 1, lo, hi)
    } else {
        j
    }
}

/// End of a CSI sequence whose parameters begin at `j`: parameter bytes,
/// intermediate bytes, then one final byte if there is one.
pub open spec fn csi_end(cs: Seq<char>, j: int) -> int {
    let a = skip_while(cs, j, 0x30, 0x3F);
    let b = skip_while(cs, a, 0x20, 0x2F);
    if 0 <= b < cs.len() && in_range(cs[b], 0x40, 0x7E) {
        b + 1
    } else {
        b
    }
}

/// End of a string sequence whose payload begins at `j`: just past BEL,
/// `ESC \` or U+009C, or the end of the text.
pub open spec fn string_end(cs: Seq<char>, j: int) -> int
    decreases cs.len() - j,
{
    if !(0 <= j < cs.len()) {
        cs.len() as int
    } else if cs[j] == '\x07' {
        j + 1
    } else if cs[j] == '\x1b' && j + 1 < cs.len() && cs[j + 1] == '\\' {
        j + 2
    } else if cs[j] == '\u{9c}' {
        j + 1
    } else {
        string_end(cs, j + 1)
    }
}

/// End of the nF sequence whose intermediates begin at `j`.
pub open spec fn nf_end(cs: Seq<char>, j: int) -> int {
    let k = skip_while(cs, j, 0x20, 0x2F);
    if 0 <= k < cs.len() && in_range(cs[k], 0x30, 0x7E) {
        k + 1
    } else {
        k
    }
}

/// Where the escape sequence starting at `i` ends, if one starts there. An
/// unterminated sequence runs to the end of the text.
pub open spec fn esc_end(cs: Seq<char>, i: int) -> Option<int> {
    if !(0 <= i < cs.len()) {
        None
    } else if cs[i] == '\x1b' {
        if i + 1 >= cs.len() {
            Some(i + 1)
        } else {
            let d = cs[i + 1];
            if d == '[' {
                Some(csi_end(cs, i + 2))
            } else if is_string_intro(d) {
                Some(string_end(cs, i + 2))
            } else if in_range(d, 0x20, 0x2F) {
                Some(nf_end(cs, i + 1))
            } else if in_range(d, 0x30, 0x7E) {
                Some(i + 2)
            } else {
                Some(i + 1)
            }
        }
    } else if cs[i] == '\u{9b}' {
        Some(csi_end(cs, i + 1))
    } else if is_c1_string(cs[i]) {
        Some(string_end(cs, i + 1))
    } else {
        None
    }
}

/// First index from `j` at which an escape sequence begins, or the end.
pub open spec fn text_end(cs: Seq<char>, j: int) -> int
    decreases cs.len() - j,
{
    if !(0 <= j < cs.len()) {
        cs.len() as int
    } else if starts_escape(cs[j]) {
        j
    } else {
        text_end(cs, j + 1)
    }
}

/// Whether the piece starting at `k` is an escape sequence.
pub open spec fn piece_is_escape(cs: Seq<char>, k: int) -> bool {
    esc_end(cs, k) is Some
}

/// Where the piece starting at `k` ends: after its escape sequence, or before
/// the next one.
pub open spec fn piece_end(cs: Seq<char>, k: int) -> int {
    match esc_end(cs, k) {
        Some(e) => e,
        None => text_end(cs, k + 1),
    }
}

/// The pieces of `cs` from `k` on, as (start, end, is escape).
pub open spec fn pieces_from(cs: Seq<char>, k: int) -> Seq<(int, int, bool)>
    decreases cs.len() - k,
{
    if !(0 <= k < cs.len()) {
        seq![]
    } else {
        let e = piece_end(cs, k);
        if e <= k || e > cs.len() {
            seq![]
        } else {
            seq![(k, e, piece_is_escape(cs, k))] + pieces_from(cs, e)
        }
    }
}

/// The text of the pieces `ps` of `cs`, one after another.
pub open spec fn pieces_text(cs: Seq<char>, ps: Seq<(int, int, bool)>) -> Seq<char>
    decreases ps.len(),
{
    if ps.len() == 0 {
        seq![]
    } else {
        cs.subrange(ps[0].0, ps[0].1) + pieces_text(cs, ps.drop_first())
    }
}

/// The text of `cs` from `k` on with every escape sequence removed.
pub open spec fn strip_from(cs: Seq<char>, k: int) -> Seq<char>
    decreases cs.len() - k,
{
    if !(0 <= k < cs.len()) {
        seq![]
    } else {
        let e = piece_end(cs, k);
        if e <= k || e > cs.len() {
            seq![]
        } else if piece_is_escape(cs, k) {
            strip_from(cs, e)
        } else {
            cs.subrange(k, e) + strip_from(cs, e)
        }
    }
}

/// Whether any escape sequence begins in `cs`.
pub open spec fn has_esc(cs: Seq<char>) -> bool {
    exists|i: int| 0 <= i < cs.len() && starts_escape(#[trigger] cs[i])
}

/// Bounds of `skip_while`.
pub proof fn lemma_skip_bounds(cs: Seq<char>, j: int, lo: u32, hi: u32)
    requires
        0 <= j <= cs.len(),
    ensures
        j <= skip_while(cs, j, lo, hi) <= cs.len(),
    decreases cs.len() - j,
{
    if j < cs.len() && in_range(cs[j], lo, hi) {
        lemma_skip_bounds(cs, j + 1, lo, hi);
    }
}

/// Bounds of `string_end`.
pub proof fn lemma_string_bounds(cs: Seq<char>, j: int)
    requires
        0 <= j <= cs.len(),
    ensures
        j <= string_end(cs, j) <= cs.len(),
        j < cs.len() ==> j < string_end(cs, j),
    decreases cs.len() - j,
{
    if j < cs.len() {
        lemma_string_bounds(cs, j + 1);
    }
}

/// Bounds of `text_end`.
pub proof fn lemma_text_bounds(cs: Seq<char>, j: int)
    requires
        0 <= j <= cs.len(),
    ensures
        j <= text_end(cs, j) <= cs.len(),
        forall|m: int| j <= m < text_end(cs, j) ==> !starts_escape(#[trigger] cs[m]),
    decreases cs.len() - j,
{
    if j < cs.len() && !starts_escape(cs[j]) {
        lemma_text_bounds(cs, j + 1);
    }
}

/// An escape sequence occupies at least its introducer and stays in the text.
pub proof fn lemma_esc_bounds(cs: Seq<char>, i: int)
    requires
        0 <= i < cs.len(),
    ensures
        esc_end(cs, i) is Some <==> starts_escape(cs[i]),
        esc_end(cs, i) matches Some(e) ==> i < e <= cs.len(),
{
    if cs[i] == '\x1b' && i + 1 < cs.len() {
        lemma_skip_bounds(cs, i + 2, 0x30, 0x3F);
        lemma_skip_bounds(cs, skip_while(cs, i + 2, 0x30, 0x3F), 0x20, 0x2F);
        lemma_string_bounds(cs, i + 2);
        lemma_skip_bounds(cs, i + 1, 0x20, 0x2F);
    } else if cs[i] == '\u{9b}' {
        lemma_skip_bounds(cs, i + 1, 0x30, 0x3F);
        lemma_skip_bounds(cs, skip_while(cs, i + 1, 0x30, 0x3F), 0x20, 0x2F);
    } else if is_c1_string(cs[i]) {
        lemma_string_bounds(cs, i + 1);
    }
}

/// A piece is never empty and never runs past the end.
pub proof fn lemma_piece_bounds(cs: Seq<char>, k: int)
    requires
        0 <= k < cs.len(),
    ensures
        k < piece_end(cs, k) <= cs.len(),
        !piece_is_escape(cs, k) ==> forall|m: int|
            k <= m < piece_end(cs, k) ==> !starts_escape(#[trigger] cs[m]),
        !piece_is_escape(cs, k) ==> (piece_end(cs, k) == cs.len() || starts_escape(
            cs[piece_end(cs, k)],
        )),
{
    lemma_esc_bounds(cs, k);
    lemma_text_bounds(cs, k + 1);
    if !piece_is_escape(cs, k) {
        lemma_text_end_stops(cs, k + 1);
    }
}

/// `text_end` stops at an escape or at the end.
pub proof fn lemma_text_end_stops(cs: Seq<char>, j: int)
    requires
        0 <= j <= cs.len(),
    ensures
        text_end(cs, j) == cs.len() || starts_escape(cs[text_end(cs, j)]),
    decreases cs.len() - j,
{
    if j < cs.len() && !starts_escape(cs[j]) {
        lemma_text_end_stops(cs, j + 1);
    }
}

/// Joining the pieces from `k` on gives back the text from `k` on.
pub open spec fn join_pieces(cs: Seq<char>, ps: Seq<(int, int, bool)>) -> Seq<char>
    decreases ps.len(),
{
    if ps.len() == 0 {
        seq![]
    } else {
        cs.subrange(ps[0].0, ps[0].1) + join_pieces(cs, ps.drop_first())
    }
}

/// Splitting into pieces loses nothing: the pieces, joined, are the input.
pub proof fn lemma_pieces_lossless(cs: Seq<char>, k: int)
    requires
        0 <= k <= cs.len(),
    ensures
        join_pieces(cs, pieces_from(cs, k)) == cs.subrange(k, cs.len() as int),
    decreases cs.len() - k,
{
    if k == cs.len() {
        assert(cs.subrange(k, cs.len() as int) =~= Seq::<char>::empty());
    } else {
        lemma_piece_bounds(cs, k);
        let e = piece_end(cs, k);
        lemma_pieces_lossless(cs, e);
        let ps = pieces_from(cs, k);
        assert(ps.drop_first() =~= pieces_from(cs, e));
        assert(cs.subrange(k, cs.len() as int) =~= cs.subrange(k, e) + cs.subrange(e, cs.len() as int));
    }
}

/// What stripping leaves holds no escape sequence.
pub proof fn lemma_strip_clean(cs: Seq<char>, k: int)
    requires
        0 <= k <= cs.len(),
    ensures
        !has_esc(strip_from(cs, k)),
    decreases cs.len() - k,
{
    if k < cs.len() {
        lemma_piece_bounds(cs, k);
        let e = piece_end(cs, k);
        lemma_strip_clean(cs, e);
        if !piece_is_escape(cs, k) {
            let t = cs.subrange(k, e);
            assert(!has_esc(t)) by {
                if has_esc(t) {
                    let i = choose|i: int| 0 <= i < t.len() && starts_escape(#[trigger] t[i]);
                    assert(t[i] == cs[k + i]);
                }
            }
            crate::wrap_fit::lemma_no_esc_join(t, strip_from(cs, e));
        }
    } else {
        assert(!has_esc(strip_from(cs, k)));
    }
}

/// Stripping twice is stripping once.
pub proof fn lemma_strip_idem(cs: Seq<char>)
    ensures
        strip_from(strip_from(cs, 0), 0) == strip_from(cs, 0),
{
    let s = strip_from(cs, 0);
    lemma_strip_clean(cs, 0);
    assert forall|m: int| 0 <= m < s.len() implies !starts_escape(#[trigger] s[m]) by {}
    lemma_strip_no_escape(s, 0);
    assert(s.subrange(0, s.len() as int) =~= s);
}

/// Text without any escape is stripped to itself.
pub proof fn lemma_strip_no_escape(cs: Seq<char>, k: int)
    requires
        0 <= k <= cs.len(),
        forall|m: int| k <= m < cs.len() ==> !starts_escape(#[trigger] cs[m]),
    ensures
        strip_from(cs, k) == cs.subrange(k, cs.len() as int),
{
    if k < cs.len() {
        lemma_piece_bounds(cs, k);
        lemma_esc_bounds(cs, k);
        let e = piece_end(cs, k);
        assert(e == cs.len());
        assert(strip_from(cs, e) =~= Seq::<char>::empty());
        assert(cs.subrange(k, e) + strip_from(cs, e) =~= cs.subrange(k, cs.len() as int));
    } else {
        assert(cs.subrange(k, cs.len() as int) =~= Seq::<char>::empty());
    }
}

/// The pieces from `k` on, put back together, are the text from `k` on:
/// splitting into escape sequences and runs of text loses nothing.
pub proof fn lemma_pieces_cover(cs: Seq<char>, k: int)
    requires
        0 <= k <= cs.len(),
    ensures
        pieces_text(cs, pieces_from(cs, k)) == cs.subrange(k, cs.len() as int),
    decreases cs.len() - k,
{
    if k < cs.len() {
        lemma_piece_bounds(cs, k);
        let e = piece_end(cs, k);
        lemma_pieces_cover(cs, e);
        let ps = pieces_from(cs, k);
        assert(ps.drop_first() =~= pieces_from(cs, e));
        assert(cs.subrange(k, e) + cs.subrange(e, cs.len() as int) =~= cs.subrange(k, cs.len() as int));
    } else {
        assert(cs.subrange(k, cs.len() as int) =~= Seq::<char>::empty());
    }
}

// ---------------------------------------------------------------------------
// Splitting a prefix: its pieces are the whole text's, cut off at its end.

/// The smaller of two integers.
pub open spec fn min_int(a: int, b: int) -> int {
    if a < b {
        a
    } else {
        b
    }
}

/// `skip_while` in a prefix stops where it stops in the whole, or at the cut.
pub proof fn lemma_skip_prefix(cs: Seq<char>, k: int, j: int, lo: u32, hi: u32)
    requires
        0 <= j <= k <= cs.len(),
    ensures
        skip_while(cs.take(k), j, lo, hi) == min_int(skip_while(cs, j, lo, hi), k),
    decreases k - j,
{
    lemma_skip_bounds(cs, j, lo, hi);
    if j < k && in_range(cs[j], lo, hi) {
        lemma_skip_prefix(cs, k, j + 1, lo, hi);
    }
}

/// `string_end` in a prefix is the whole text's, or the cut.
pub proof fn lemma_string_prefix(cs: Seq<char>, k: int, j: int)
    requires
        0 <= j <= k <= cs.len(),
    ensures
        string_end(cs.take(k), j) == min_int(string_end(cs, j), k),
    decreases k - j,
{
    lemma_string_bounds(cs, j);
    if j < k {
        lemma_string_prefix(cs, k, j + 1);
    }
}

/// `text_end` in a prefix is the whole text's, or the cut.
pub proof fn lemma_text_end_prefix(cs: Seq<char>, k: int, j: int)
    requires
        0 <= j <= k <= cs.len(),
    ensures
        text_end(cs.take(k), j) == min_int(text_end(cs, j), k),
    decreases k - j,
{
    lemma_text_bounds(cs, j);
    if j < k && !starts_escape(cs[j]) {
        lemma_text_end_prefix(cs, k, j + 1);
    }
}

/// An escape sequence in a prefix is the whole text's, cut off at the cut.
pub proof fn lemma_esc_prefix(cs: Seq<char>, k: int, i: int)
    requires
        0 <= i < k <= cs.len(),
    ensures
        esc_end(cs.take(k), i) is Some <==> esc_end(cs, i) is Some,
        esc_end(cs, i) is Some ==> esc_end(cs.take(k), i)->Some_0 == min_int(esc_end(cs, i)->Some_0, k),
{
    let x = cs.take(k);
    lemma_esc_bounds(cs, i);
    if i + 2 <= k {
        lemma_skip_prefix(cs, k, i + 2, 0x30, 0x3F);
        lemma_skip_bounds(cs, i + 2, 0x30, 0x3F);
        let a = skip_while(cs, i + 2, 0x30, 0x3F);
        if a <= k {
            lemma_skip_prefix(cs, k, min_int(a, k), 0x20, 0x2F);
        }
        lemma_skip_bounds(cs, a, 0x20, 0x2F);
        lemma_string_prefix(cs, k, i + 2);
        lemma_skip_prefix(cs, k, i + 1, 0x20, 0x2F);
        lemma_skip_bounds(cs, i + 1, 0x20, 0x2F);
    }
    if i + 1 <= k {
        lemma_skip_prefix(cs, k, i + 1, 0x30, 0x3F);
        lemma_skip_bounds(cs, i + 1, 0x30, 0x3F);
        let a = skip_while(cs, i + 1, 0x30, 0x3F);
        if a <= k {
            lemma_skip_prefix(cs, k, min_int(a, k), 0x20, 0x2F);
        }
        lemma_skip_bounds(cs, a, 0x20, 0x2F);
        lemma_string_prefix(cs, k, i + 1);
    }
}

/// The pieces of a prefix are the whole text's, cut off at the cut.
pub proof fn lemma_piece_prefix(cs: Seq<char>, k: int, p: int)
    requires
        0 <= p < k <= cs.len(),
    ensures
        piece_is_escape(cs.take(k), p) == piece_is_escape(cs, p),
        piece_end(cs.take(k), p) == min_int(piece_end(cs, p), k),
{
    lemma_esc_prefix(cs, k, p);
    lemma_text_end_prefix(cs, k, p + 1);
}

// ---------------------------------------------------------------------------
// Scanning, in code.

/// Requirements shared by the scanners: `n` is the byte length and `pos` the
/// byte offset of character `k`.
pub open spec fn at(s: &str, n: usize, pos: usize, k: int) -> bool {
    &&& n == boff(s@, s@.len() as int)
    &&& 0 <= k <= s@.len()
    &&& pos == boff(s@, k)
}

/// Relating byte offsets to positions: before the end exactly when short of `n`.
pub proof fn lemma_at(s: &str, n: usize, pos: usize, k: int)
    requires
        at(s, n, pos, k),
    ensures
        pos <= n,
        (pos < n) <==> (k < s@.len()),
{
    lemma_boff_mono(s@, k, s@.len() as int);
}

/// Advance from character `k` past characters in `lo..=hi`.
fn scan_range(s: &str, n: usize, pos: usize, Ghost(k): Ghost<int>, lo: u32, hi: u32) -> (r: (
    usize,
    Ghost<int>,
))
    requires
        at(s, n, pos, k),
    ensures
        r.1@ == skip_while(s@, k, lo, hi),
        at(s, n, r.0, r.1@),
{
    let mut p = pos;
    let ghost mut j = k;
    loop
        invariant
            at(s, n, p, j),
            k <= j,
            skip_while(s@, j, lo, hi) == skip_while(s@, k, lo, hi),
        ensures
            at(s, n, p, j),
            j == skip_while(s@, k, lo, hi),
        decreases s@.len() - j,
    {
        proof {
            lemma_at(s, n, p, j);
        }
        if p >= n {
            break;
        }
        let (c, l) = char_at(s, p, Ghost(j));
        let u = c as u32;
        if lo <= u && u <= hi {
            proof {
                lemma_boff_mono(s@, j + 1, s@.len() as int);
            }
            p = p + l;
            proof {
                j = j + 1;
            }
        } else {
            break;
        }
    }
    (p, Ghost(j))
}

/// Advance over a CSI sequence whose parameters begin at character `k`.
fn scan_csi(s: &str, n: usize, pos: usize, Ghost(k): Ghost<int>) -> (r: usize)
    requires
        at(s, n, pos, k),
    ensures
        at(s, n, r, csi_end(s@, k)),
{
    let (a, Ghost(ka)) = scan_range(s, n, pos, Ghost(k), 0x30, 0x3F);
    let (b, Ghost(kb)) = scan_range(s, n, a, Ghost(ka), 0x20, 0x2F);
    proof {
        lemma_at(s, n, b, kb);
    }
    if b < n {
        let (c, l) = char_at(s, b, Ghost(kb));
        let u = c as u32;
        if 0x40 <= u && u <= 0x7E {
            proof {
                lemma_boff_mono(s@, kb + 1, s@.len() as int);
            }
            return b + l;
        }
    }
    b
}

/// Advance over a string sequence whose payload begins at character `k`.
fn scan_string(s: &str, n: usize, pos: usize, Ghost(k): Ghost<int>) -> (r: usize)
    requires
        at(s, n, pos, k),
    ensures
        at(s, n, r, string_end(s@, k)),
{
    let mut p = pos;
    let ghost mut j = k;
    while p < n
        invariant
            at(s, n, p, j),
            string_end(s@, j) == string_end(s@, k),
        decreases s@.len() - j,
    {
        proof {
            lemma_at(s, n, p, j);
            lemma_boff_mono(s@, j + 1, s@.len() as int);
        }
        let (c, l) = char_at(s, p, Ghost(j));
        if c == '\x07' || c == '\u{9c}' {
            return p + l;
        }
        if c == '\x1b' && p + l < n {
            proof {
                lemma_at(s, n, (p + l) as usize, j + 1);
                lemma_boff_mono(s@, j + 2, s@.len() as int);
            }
            let (d, l2) = char_at(s, p + l, Ghost(j + 1));
            if d == '\\' {
                return p + l + l2;
            }
        }
        p = p + l;
        proof {
            j = j + 1;
        }
    }
    proof {
        lemma_at(s, n, p, j);
    }
    p
}

/// Whether a character begins an escape sequence.
pub fn starts_escape_char(c: char) -> (r: bool)
    ensures
        r == starts_escape(c),
{
    c == '\x1b' || c == '\u{9b}' || c == '\u{9d}' || c == '\u{90}' || c == '\u{98}' || c == '\u{9e}'
        || c == '\u{9f}'
}

/// Byte offset where the escape sequence at character `k` ends, if one starts there.
pub fn escape_end(s: &str, n: usize, pos: usize, Ghost(k): Ghost<int>) -> (r: Option<usize>)
    requires
        at(s, n, pos, k),
        k < s@.len(),
    ensures
        r is Some <==> esc_end(s@, k) is Some,
        r matches Some(p) ==> at(s, n, p, esc_end(s@, k)->Some_0),
{
    proof {
        lemma_boff_mono(s@, k + 1, s@.len() as int);
    }
    let (c, l) = char_at(s, pos, Ghost(k));
    let p1 = pos + l;
    if c == '\x1b' {
        if p1 >= n {
            proof {
                lemma_at(s, n, p1, k + 1);
            }
            return Some(p1);
        }
        proof {
            lemma_at(s, n, p1, k + 1);
            lemma_boff_mono(s@, k + 2, s@.len() as int);
        }
        let (d, l2) = char_at(s, p1, Ghost(k + 1));
        let p2 = p1 + l2;
        let du = d as u32;
        if d == '[' {
            Some(scan_csi(s, n, p2, Ghost(k + 2)))
        } else if d == ']' || d == 'P' || d == 'X' || d == '^' || d == '_' {
            Some(scan_string(s, n, p2, Ghost(k + 2)))
        } else if 0x20 <= du && du <= 0x2F {
            let (q, Ghost(j)) = scan_range(s, n, p1, Ghost(k + 1), 0x20, 0x2F);
            proof {
                lemma_at(s, n, q, j);
            }
            if q < n {
                let (f, lf) = char_at(s, q, Ghost(j));
                let fu = f as u32;
                if 0x30 <= fu && fu <= 0x7E {
                    proof {
                        lemma_boff_mono(s@, j + 1, s@.len() as int);
                    }
                    return Some(q + lf);
                }
            }
            Some(q)
        } else if 0x30 <= du && du <= 0x7E {
            Some(p2)
        } else {
            Some(p1)
        }
    } else if c == '\u{9b}' {
        proof {
            lemma_at(s, n, p1, k + 1);
        }
        Some(scan_csi(s, n, p1, Ghost(k + 1)))
    } else if c == '\u{9d}' || c == '\u{90}' || c == '\u{98}' || c == '\u{9e}' || c == '\u{9f}' {
        proof {
            lemma_at(s, n, p1, k + 1);
        }
        Some(scan_string(s, n, p1, Ghost(k + 1)))
    } else {
        None
    }
}

/// Byte offset of the first escape introducer from character `k` on, or `n`.
fn scan_text(s: &str, n: usize, pos: usize, Ghost(k): Ghost<int>) -> (r: (usize, Ghost<int>))
    requires
        at(s, n, pos, k),
    ensures
        r.1@ == text_end(s@, k),
        at(s, n, r.0, r.1@),
{
    let mut p = pos;
    let ghost mut j = k;
    loop
        invariant
            at(s, n, p, j),
            k <= j,
            text_end(s@, j) == text_end(s@, k),
        ensures
            at(s, n, p, j),
            j == text_end(s@, k),
        decreases s@.len() - j,
    {
        proof {
            lemma_at(s, n, p, j);
        }
        if p >= n {
            break;
        }
        let (c, l) = char_at(s, p, Ghost(j));
        if starts_escape_char(c) {
            break;
        }
        proof {
            lemma_boff_mono(s@, j + 1, s@.len() as int);
        }
        p = p + l;
        proof {
            j = j + 1;
        }
    }
    (p, Ghost(j))
}

// ---------------------------------------------------------------------------
// Pieces.

/// A run of the input that is either printable text or one escape sequence.
#[derive(Clone, Copy, PartialEq, Eq, Debug)]
pub enum Piece<'a> {
    /// Printable text. Contains no escape sequences.
    Text(&'a str),
    /// One complete escape sequence, occupying zero columns.
    Escape(&'a str),
}

impl<'a> View for Piece<'a> {
    type V = Seq<char>;

    open spec fn view(&self) -> Seq<char> {
        match *self {
            Piece::Text(s) => s@,
            Piece::Escape(s) => s@,
        }
    }
}

impl<'a> Piece<'a> {
    /// The underlying slice, whichever kind this is.
    pub fn as_str(&self) -> (r: &'a str)
        ensures
            r@ == self@,
    {
        match *self {
            Piece::Text(s) => s,
            Piece::Escape(s) => s,
        }
    }

    /// Whether this piece is an escape sequence.
    pub fn is_escape(&self) -> (r: bool)
        ensures
            r == (*self is Escape),
    {
        match *self {
            Piece::Text(_) => false,
            Piece::Escape(_) => true,
        }
    }
}

/// Iterator splitting a string into text runs and escape sequences.
///
/// Created by [`pieces`](crate::pieces). Concatenating every piece reproduces
/// the input exactly, so this is a usable base for your own layout code.
pub struct Pieces<'a> {
    s: &'a str,
    n: usize,
    pos: usize,
    k: Ghost<int>,
}

impl<'a> Pieces<'a> {
    #[verifier::type_invariant]
    spec fn wf(self) -> bool {
        at(self.s, self.n, self.pos, self.k@)
    }

    /// A copy of this iterator, at the same position.
    pub fn clone(&self) -> (r: Self)
        ensures
            r.text() == self.text(),
            r.index() == self.index(),
    {
        proof {
            use_type_invariant(self);
        }
        Pieces { s: self.s, n: self.n, pos: self.pos, k: self.k }
    }

    /// The text being split.
    pub closed spec fn text(self) -> Seq<char> {
        self.s@
    }

    /// Index of the character the next piece starts at.
    pub closed spec fn index(self) -> int {
        self.k@
    }

    /// An iterator over the pieces of `s`.
    pub fn new(s: &'a str) -> (r: Self)
        ensures
            r.text() == s@,
            r.index() == 0,
    {
        let n = byte_len(s);
        proof {
            lemma_boff_mono(s@, 0, s@.len() as int);
        }
        Pieces { s, n, pos: 0, k: Ghost(0) }
    }

    /// The next piece: an escape sequence if one starts here, otherwise the
    /// text up to the next one.
    pub fn next(&mut self) -> (r: Option<Piece<'a>>)
        ensures
            final(self).text() == old(self).text(),
            0 <= old(self).index() <= old(self).text().len(),
            old(self).index() == old(self).text().len() ==> r is None && final(self).index()
                == old(self).index(),
            old(self).index() < old(self).text().len() ==> ({
                let cs = old(self).text();
                let k = old(self).index();
                &&& r matches Some(p) && p@ == cs.subrange(k, piece_end(cs, k)) && (p is Escape
                    <==> piece_is_escape(cs, k))
                &&& final(self).index() == piece_end(cs, k)
            }),
            0 <= final(self).index() <= final(self).text().len(),
    {
        proof {
            use_type_invariant(&*self);
            lemma_at(self.s, self.n, self.pos, self.k@);
        }
        let s = self.s;
        let n = self.n;
        let start = self.pos;
        let ghost k = self.k@;
        if start >= n {
            return None;
        }
        proof {
            lemma_piece_bounds(s@, k);
            lemma_esc_bounds(s@, k);
        }
        match escape_end(s, n, start, Ghost(k)) {
            Some(end) => {
                let ghost e = esc_end(s@, k)->Some_0;
                let piece = slice(s, start, end, Ghost(k), Ghost(e));
                *self = Pieces { s, n, pos: end, k: Ghost(e) };
                Some(Piece::Escape(piece))
            },
            None => {
                proof {
                    lemma_boff_mono(s@, k + 1, s@.len() as int);
                }
                let (_, l) = char_at(s, start, Ghost(k));
                let (end, Ghost(e)) = scan_text(s, n, start + l, Ghost(k + 1));
                let piece = slice(s, start, end, Ghost(k), Ghost(e));
                *self = Pieces { s, n, pos: end, k: Ghost(e) };
                Some(Piece::Text(piece))
            },
        }
    }
}

} // verus!

verus! {

// ---------------------------------------------------------------------------
// Whole-string questions: is there an escape, what is left without them, and
// does styling stay switched on.

/// Whether any escape sequence begins in `s`.
pub fn has_escape(s: &str) -> (r: bool)
    ensures
        r == has_esc(s@),
{
    let cs = to_chars(s);
    let mut i: usize = 0;
    while i < cs.len()
        invariant
            cs@ == s@,
            i <= cs.len(),
            forall|m: int| 0 <= m < i ==> !starts_escape(#[trigger] s@[m]),
        decreases cs.len() - i,
    {
        if starts_escape_char(cs[i]) {
            return true;
        }
        i = i + 1;
    }
    false
}

/// Remove every escape sequence, leaving only printable text.
///
/// Borrows when there is nothing to strip.
pub fn strip_ansi(s: &str) -> (r: Cow<'_, str>)
    ensures
        r@ == strip_from(s@, 0),
        (r matches Cow::Borrowed(_)) <==> !has_esc(s@),
        !has_esc(r@),
        strip_from(r@, 0) == r@,
{
    proof {
        lemma_strip_clean(s@, 0);
        lemma_strip_idem(s@);
    }
    let ghost cs = s@;
    if !has_escape(s) {
        proof {
            lemma_strip_no_escape(cs, 0);
            assert(cs.subrange(0, cs.len() as int) =~= cs);
        }
        return Cow::Borrowed(s);
    }
    let mut buf = String::new();
    let mut it = Pieces::new(s);
    loop
        invariant
            cs == s@,
            it.text() == cs,
            0 <= it.index() <= cs.len(),
            strip_from(cs, 0) == buf@ + strip_from(cs, it.index()),
        ensures
            strip_from(cs, 0) == buf@,
        decreases cs.len() - it.index(),
    {
        let ghost k = it.index();
        proof {
            if k < cs.len() {
                lemma_piece_bounds(cs, k);
            }
        }
        match it.next() {
            None => {
                assert(strip_from(cs, k) =~= Seq::<char>::empty());
                assert(buf@ + strip_from(cs, k) =~= buf@);
                break;
            },
            Some(p) => {
                if let Piece::Text(t) = p {
                    buf.append(t);
                    assert(strip_from(cs, 0) == buf@ + strip_from(cs, it.index()));
                }
            },
        }
    }
    Cow::Owned(buf)
}

/// Every character is `0` or `;`: parameters that switch all styling off.
pub open spec fn all_reset(p: Seq<char>) -> bool {
    forall|i: int| 0 <= i < p.len() ==> (#[trigger] p[i] == '0' || p[i] == ';')
}

/// What an escape sequence does to styling: `Some(true)` for an SGR sequence
/// (`CSI ... m`) that switches something on, `Some(false)` for one that resets
/// everything, `None` for anything that is not SGR.
pub open spec fn sgr_effect(e: Seq<char>) -> Option<bool> {
    if e.len() == 0 || e.last() != 'm' {
        None
    } else if e.len() >= 2 && e[0] == '\x1b' && e[1] == '[' {
        Some(!all_reset(e.subrange(2, e.len() - 1)))
    } else if e[0] == '\u{9b}' {
        Some(!all_reset(e.subrange(1, e.len() - 1)))
    } else {
        None
    }
}

/// Whether styling is left on after the pieces from `k`, given whether it was on before them.
pub open spec fn open_from(cs: Seq<char>, k: int, open: bool) -> bool
    decreases cs.len() - k,
{
    if !(0 <= k < cs.len()) {
        open
    } else {
        let e = piece_end(cs, k);
        if e <= k || e > cs.len() {
            open
        } else {
            let o = if piece_is_escape(cs, k) {
                match sgr_effect(cs.subrange(k, e)) {
                    Some(b) => b,
                    None => open,
                }
            } else {
                open
            };
            open_from(cs, e, o)
        }
    }
}

/// Whether the text leaves SGR styling switched on at its end.
pub open spec fn style_open(cs: Seq<char>) -> bool {
    open_from(cs, 0, false)
}

/// The styling effect of one escape sequence.
fn sgr_effect_of(e: &str) -> (r: Option<bool>)
    ensures
        r == sgr_effect(e@),
{
    let cs = to_chars(e);
    let m = cs.len();
    if m == 0 || cs[m - 1] != 'm' {
        return None;
    }
    let esc_form = m >= 2 && cs[0] == '\x1b' && cs[1] == '[';
    if !esc_form && cs[0] != '\u{9b}' {
        return None;
    }
    let head: usize = if esc_form {
        2
    } else {
        1
    };
    let mut i = head;
    while i < m - 1
        invariant
            cs@ == e@,
            m == cs.len(),
            m >= 1,
            cs@[m - 1] == 'm',
            head == 1 || head == 2,
            (head == 2) == (m >= 2 && cs@[0] == '\x1b' && cs@[1] == '['),
            head == 1 ==> cs@[0] == '\u{9b}',
            head <= i <= m - 1,
            forall|j: int| head <= j < i ==> (#[trigger] cs@[j] == '0' || cs@[j] == ';'),
        decreases m - 1 - i,
    {
        if cs[i] != '0' && cs[i] != ';' {
            proof {
                let p = e@.subrange(head as int, m - 1);
                assert(p[i - head] == cs@[i as int]);
                assert(!all_reset(p));
            }
            return Some(true);
        }
        i = i + 1;
    }
    proof {
        let p = e@.subrange(head as int, m - 1);
        assert forall|j: int| 0 <= j < p.len() implies (#[trigger] p[j] == '0' || p[j] == ';') by {
            assert(p[j] == cs@[j + head]);
        }
    }
    Some(false)
}

/// Whether the string leaves SGR styling switched on at its end.
///
/// Used to decide whether a cut needs a trailing reset so the colour does not
/// bleed into whatever gets printed next.
pub fn leaves_style_open(s: &str) -> (r: bool)
    ensures
        r == style_open(s@),
{
    let ghost cs = s@;
    let mut open = false;
    let mut it = Pieces::new(s);
    loop
        invariant
            cs == s@,
            it.text() == cs,
            0 <= it.index() <= cs.len(),
            style_open(cs) == open_from(cs, it.index(), open),
        ensures
            style_open(cs) == open,
        decreases cs.len() - it.index(),
    {
        let ghost k = it.index();
        proof {
            if k < cs.len() {
                lemma_piece_bounds(cs, k);
            }
        }
        match it.next() {
            None => {
                break;
            },
            Some(p) => {
                if let Piece::Escape(e) = p {
                    if let Some(b) = sgr_effect_of(e) {
                        open = b;
                    }
                }
            },
        }
    }
    open
}

/// The SGR reset sequence, appended after a cut that leaves styling open.
pub const RESET: &'static str = "\x1b[0m";

/// The contents of `RESET`.
pub proof fn lemma_reset()
    ensures
        RESET@ == seq!['\x1b', '[', '0', 'm'],
{
    reveal_strlit("\x1b[0m");
}

/// A string sequence that has reached its terminator.
pub open spec fn string_terminated(e: Seq<char>) -> bool {
    let m = e.len();
    e[m - 1] == '\x07' || (e[m - 2] == '\x1b' && e[m - 1] == '\\') || e[m - 1] == '\u{9c}'
}

/// Whether an escape sequence is complete, or ran off the end of the input.
pub open spec fn terminated(e: Seq<char>) -> bool {
    let m = e.len();
    if m >= 2 && e[0] == '\x1b' && e[1] == '[' {
        m > 2 && in_range(e[m - 1], 0x40, 0x7E)
    } else if m >= 1 && e[0] == '\u{9b}' {
        m > 1 && in_range(e[m - 1], 0x40, 0x7E)
    } else if m >= 2 && e[0] == '\x1b' && is_string_intro(e[1]) {
        m > 2 && string_terminated(e)
    } else if m >= 1 && is_c1_string(e[0]) {
        m > 1 && string_terminated(e)
    } else if m >= 2 && e[0] == '\x1b' && in_range(e[1], 0x20, 0x2F) {
        in_range(e[m - 1], 0x30, 0x7E)
    } else if m >= 2 && e[0] == '\x1b' {
        true
    } else if m == 1 && e[0] == '\x1b' {
        false
    } else {
        true
    }
}

/// Whether an escape sequence is complete, or ran off the end of the input.
///
/// An unterminated sequence matters because anything appended after it gets
/// swallowed: `"\x1b[31"` followed by padding spaces is one long escape, not a
/// colour code and three columns.
pub fn is_terminated(e: &str) -> (r: bool)
    ensures
        r == terminated(e@),
{
    let cs = to_chars(e);
    let m = cs.len();
    if m >= 2 && cs[0] == '\x1b' && cs[1] == '[' {
        m > 2 && 0x40 <= cs[m - 1] as u32 && cs[m - 1] as u32 <= 0x7E
    } else if m >= 1 && cs[0] == '\u{9b}' {
        m > 1 && 0x40 <= cs[m - 1] as u32 && cs[m - 1] as u32 <= 0x7E
    } else if m >= 2 && cs[0] == '\x1b' && (cs[1] == ']' || cs[1] == 'P' || cs[1] == 'X' || cs[1]
        == '^' || cs[1] == '_') {
        m > 2 && (cs[m - 1] == '\x07' || (cs[m - 2] == '\x1b' && cs[m - 1] == '\\') || cs[m - 1]
            == '\u{9c}')
    } else if m >= 1 && (cs[0] == '\u{9d}' || cs[0] == '\u{90}' || cs[0] == '\u{98}' || cs[0]
        == '\u{9e}' || cs[0] == '\u{9f}') {
        m > 1 && (cs[m - 1] == '\x07' || (cs[m - 2] == '\x1b' && cs[m - 1] == '\\') || cs[m - 1]
            == '\u{9c}')
    } else if m >= 2 && cs[0] == '\x1b' && 0x20 <= cs[1] as u32 && cs[1] as u32 <= 0x2F {
        0x30 <= cs[m - 1] as u32 && cs[m - 1] as u32 <= 0x7E
    } else if m >= 2 && cs[0] == '\x1b' {
        true
    } else if m == 1 && cs[0] == '\x1b' {
        false
    } else {
        true
    }
}

/// Start of the last piece, for the pieces from `k` on.
pub open spec fn last_start(cs: Seq<char>, k: int) -> int
    decreases cs.len() - k,
{
    if !(0 <= k < cs.len()) {
        k
    } else {
        let e = piece_end(cs, k);
        if e <= k || e >= cs.len() {
            k
        } else {
            last_start(cs, e)
        }
    }
}

/// The text with trailing unterminated escape sequences removed, one after another.
pub open spec fn trim_spec(cs: Seq<char>) -> Seq<char>
    decreases cs.len(),
{
    if !has_esc(cs) {
        cs
    } else {
        let at = last_start(cs, 0);
        if 0 <= at < cs.len() && piece_is_escape(cs, at) && !terminated(cs.subrange(at, cs.len() as int)) {
            trim_spec(cs.take(at))
        } else {
            cs
        }
    }
}

/// `last_start` finds a piece that runs to the end.
pub proof fn lemma_last_start(cs: Seq<char>, k: int)
    requires
        0 <= k < cs.len(),
    ensures
        k <= last_start(cs, k) < cs.len(),
        piece_end(cs, last_start(cs, k)) == cs.len(),
    decreases cs.len() - k,
{
    lemma_piece_bounds(cs, k);
    let e = piece_end(cs, k);
    if e < cs.len() {
        lemma_last_start(cs, e);
    }
}

/// The trimmed text is a prefix of the text it was trimmed from.
pub proof fn lemma_trim_prefix(cs: Seq<char>)
    ensures
        trim_spec(cs).len() <= cs.len(),
        trim_spec(cs) == cs.take(trim_spec(cs).len() as int),
    decreases cs.len(),
{
    if has_esc(cs) {
        let at = last_start(cs, 0);
        if 0 <= at < cs.len() && piece_is_escape(cs, at) && !terminated(cs.subrange(at, cs.len() as int)) {
            lemma_trim_prefix(cs.take(at));
            let t = trim_spec(cs.take(at));
            assert(cs.take(at).take(t.len() as int) =~= cs.take(t.len() as int));
        } else {
            assert(cs.take(cs.len() as int) =~= cs);
        }
    } else {
        assert(cs.take(cs.len() as int) =~= cs);
    }
}

/// Stripping in two parts, split at a piece boundary, is stripping the whole.
pub proof fn lemma_strip_split(cs: Seq<char>, p: int, at: int)
    requires
        0 <= p <= at <= cs.len(),
        crate::append::piece_reach(cs, p, at),
    ensures
        strip_from(cs, p) == strip_from(cs.take(at), p) + strip_from(cs, at),
    decreases at - p,
{
    if p == at {
        assert(strip_from(cs.take(at), p) =~= Seq::<char>::empty());
        assert(Seq::<char>::empty() + strip_from(cs, at) =~= strip_from(cs, at));
    } else {
        lemma_piece_bounds(cs, p);
        let e = piece_end(cs, p);
        lemma_piece_prefix(cs, at, p);
        lemma_strip_split(cs, e, at);
        let t = cs.take(at);
        assert(t.subrange(p, e) =~= cs.subrange(p, e));
        if !piece_is_escape(cs, p) {
            assert(cs.subrange(p, e) + (strip_from(t, e) + strip_from(cs, at)) =~= (cs.subrange(p, e) + strip_from(
                t,
                e,
            )) + strip_from(cs, at));
        }
    }
}

/// Trimming drops no visible text: only escape sequences are dropped.
pub proof fn lemma_trim_visible(cs: Seq<char>)
    ensures
        strip_from(trim_spec(cs), 0) == strip_from(cs, 0),
    decreases cs.len(),
{
    if has_esc(cs) {
        let at = last_start(cs, 0);
        if 0 <= at < cs.len() && piece_is_escape(cs, at) && !terminated(cs.subrange(at, cs.len() as int)) {
            lemma_last_start(cs, 0);
            crate::append::lemma_last_reach(cs, 0);
            lemma_strip_split(cs, 0, at);
            assert(strip_from(cs, cs.len() as int) =~= Seq::<char>::empty());
            assert(strip_from(cs, at) =~= Seq::<char>::empty());
            assert(strip_from(cs.take(at), 0) + Seq::<char>::empty() =~= strip_from(cs.take(at), 0));
            lemma_trim_visible(cs.take(at));
        }
    }
}

/// Drop a trailing escape sequence that never terminates, and keep going
/// until the tail is clean.
///
/// Only the last piece can be unterminated, since such a sequence runs to the
/// end of the input by definition.
pub fn trim_dangling(s: &str) -> (r: &str)
    ensures
        r@ == trim_spec(s@),
        trim_spec(r@) == r@,
        r@ == s@.take(r@.len() as int),
        strip_from(r@, 0) == strip_from(s@, 0),
    decreases s@.len(),
{
    proof {
        crate::append::lemma_trim_idem(s@);
        lemma_trim_prefix(s@);
        lemma_trim_visible(s@);
    }
    let ghost cs = s@;
    if !has_escape(s) {
        return s;
    }
    let mut it = Pieces::new(s);
    let mut last_pos: usize = 0;
    let ghost mut lk: int = 0;
    let mut last_esc: Option<&str> = None;
    let mut pos: usize = 0;
    let ghost n = cs.len() as int;
    let nb = byte_len(s);
    proof {
        assert(has_esc(cs));
        let i = choose|i: int| 0 <= i < cs.len() && starts_escape(#[trigger] cs[i]);
        assert(cs[i] == cs[i]);
        lemma_boff_mono(cs, 0, n);
    }
    loop
        invariant
            cs == s@,
            n == cs.len(),
            n > 0,
            nb == boff(cs, n),
            it.text() == cs,
            0 <= it.index() <= n,
            pos == boff(cs, it.index()),
            it.index() < n ==> last_start(cs, 0) == last_start(cs, it.index()),
            it.index() == n && n > 0 ==> last_start(cs, 0) == lk && 0 <= lk < n && last_pos
                == boff(cs, lk) && (last_esc is Some <==> piece_is_escape(cs, lk)) && (
            last_esc matches Some(e) ==> e@ == cs.subrange(lk, n)),
        ensures
            last_start(cs, 0) == lk && 0 <= lk < n && last_pos == boff(cs, lk) && (last_esc is Some
                <==> piece_is_escape(cs, lk)) && (last_esc matches Some(e) ==> e@ == cs.subrange(
                lk,
                n,
            )),
        decreases n - it.index(),
    {
        let ghost k = it.index();
        proof {
            if k < n {
                lemma_piece_bounds(cs, k);
            }
        }
        match it.next() {
            None => {
                break;
            },
            Some(p) => {
                let len = p.as_str().len();
                proof {
                    crate::text::lemma_encode_subrange(cs, k, piece_end(cs, k));
                    lemma_boff_mono(cs, piece_end(cs, k), n);
                }
                last_esc = match p {
                    Piece::Escape(e) => Some(e),
                    Piece::Text(_) => None,
                };
                last_pos = pos;
                proof {
                    lk = k;
                }
                pos = pos + len;
            },
        }
    }
    match last_esc {
        Some(e) => {
            if !is_terminated(e) {
                let head = crate::text::prefix(s, last_pos, Ghost(lk));
                return trim_dangling(head);
            }
            s
        },
        None => s,
    }
}

// ---------------------------------------------------------------------------
// The same recognition, on raw bytes.

/// Advance from byte `j` past bytes in `lo..=hi`.
pub open spec fn b_skip(b: Seq<u8>, j: int, lo: u8, hi: u8) -> int
    decreases b.len() - j,
{
    if 0 <= j < b.len() && lo <= b[j] <= hi {
        b_skip(b, j + 1, lo, hi)
    } else {
        j
    }
}

/// Where a CSI sequence whose parameters begin at byte `j` ends.
pub open spec fn b_csi_end(b: Seq<u8>, j: int) -> int {
    let p = b_skip(b, j, 0x30, 0x3F);
    let q = b_skip(b, p, 0x20, 0x2F);
    if 0 <= q < b.len() && 0x40 <= b[q] <= 0x7E {
        q + 1
    } else {
        q
    }
}

/// Where a string sequence whose payload begins at byte `j` ends: after BEL,
/// `ESC \` or the C1 ST (`0xC2 0x9C`), or at the end of the input.
pub open spec fn b_string_end(b: Seq<u8>, j: int) -> int
    decreases b.len() - j,
{
    if !(0 <= j < b.len()) {
        j
    } else if b[j] == 0x07 {
        j + 1
    } else if b[j] == 0x1B && j + 1 < b.len() && b[j + 1] == 0x5C {
        j + 2
    } else if b[j] == 0xC2 && j + 1 < b.len() && b[j + 1] == 0x9C {
        j + 2
    } else {
        b_string_end(b, j + 1)
    }
}

/// Length in bytes of the escape sequence starting at byte `i`, if one starts there.
pub open spec fn b_escape_len(b: Seq<u8>, i: int) -> Option<int> {
    if !(0 <= i < b.len()) {
        None
    } else if b[i] == 0x1B {
        if i + 1 >= b.len() {
            Some(1)
        } else {
            let c = b[i + 1];
            if c == 0x5B {
                Some(b_csi_end(b, i + 2) - i)
            } else if c == 0x5D || c == 0x50 || c == 0x58 || c == 0x5E || c == 0x5F {
                Some(b_string_end(b, i + 2) - i)
            } else if 0x20 <= c <= 0x2F {
                let j = b_skip(b, i + 1, 0x20, 0x2F);
                Some((if 0 <= j < b.len() && 0x30 <= b[j] <= 0x7E {
                    j + 1
                } else {
                    j
                }) - i)
            } else if 0x30 <= c <= 0x7E {
                Some(2)
            } else {
                Some(1)
            }
        }
    } else if b[i] == 0xC2 && i + 1 < b.len() && b[i + 1] == 0x9B {
        Some(b_csi_end(b, i + 2) - i)
    } else if b[i] == 0xC2 && i + 1 < b.len() && (b[i + 1] == 0x9D || b[i + 1] == 0x90 || b[i + 1]
        == 0x98 || b[i + 1] == 0x9E || b[i + 1] == 0x9F) {
        Some(b_string_end(b, i + 2) - i)
    } else {
        None
    }
}

/// `b_skip` stays between its start and the end.
pub proof fn lemma_b_skip(b: Seq<u8>, j: int, lo: u8, hi: u8)
    requires
        0 <= j <= b.len(),
    ensures
        j <= b_skip(b, j, lo, hi) <= b.len(),
    decreases b.len() - j,
{
    if 0 <= j < b.len() && lo <= b[j] <= hi {
        lemma_b_skip(b, j + 1, lo, hi);
    }
}

/// `b_string_end` stays between its start and the end.
pub proof fn lemma_b_string_end(b: Seq<u8>, j: int)
    requires
        0 <= j <= b.len(),
    ensures
        j <= b_string_end(b, j) <= b.len(),
    decreases b.len() - j,
{
    if j < b.len() {
        lemma_b_string_end(b, j + 1);
    }
}

/// Advance from byte `j` past bytes in `lo..=hi`.
fn b_skip_exec(b: &[u8], j: usize, lo: u8, hi: u8) -> (r: usize)
    requires
        j <= b@.len(),
    ensures
        r == b_skip(b@, j as int, lo, hi),
{
    let mut k = j;
    while k < b.len() && lo <= b[k] && b[k] <= hi
        invariant
            j <= k <= b@.len(),
            b_skip(b@, k as int, lo, hi) == b_skip(b@, j as int, lo, hi),
        decreases b@.len() - k,
    {
        k = k + 1;
    }
    k
}

/// CSI: parameter bytes, intermediate bytes, then one final byte.
fn csi_len(b: &[u8], start: usize, j: usize) -> (r: usize)
    requires
        start <= j <= b@.len(),
    ensures
        r == b_csi_end(b@, j as int) - start,
{
    proof {
        lemma_b_skip(b@, j as int, 0x30, 0x3F);
        lemma_b_skip(b@, b_skip(b@, j as int, 0x30, 0x3F), 0x20, 0x2F);
    }
    let p = b_skip_exec(b, j, 0x30, 0x3F);
    let q = b_skip_exec(b, p, 0x20, 0x2F);
    if q < b.len() && 0x40 <= b[q] && b[q] <= 0x7E {
        q + 1 - start
    } else {
        q - start
    }
}

/// A string sequence, terminated by BEL, `ESC \` or C1 ST (U+009C).
fn string_len(b: &[u8], start: usize, j0: usize) -> (r: usize)
    requires
        start <= j0 <= b@.len(),
    ensures
        r == b_string_end(b@, j0 as int) - start,
{
    let mut j = j0;
    while j < b.len()
        invariant
            start <= j0 <= j <= b@.len(),
            b_string_end(b@, j as int) == b_string_end(b@, j0 as int),
        decreases b@.len() - j,
    {
        if b[j] == 0x07 {
            return j + 1 - start;
        }
        if b[j] == 0x1B && j + 1 < b.len() && b[j + 1] == 0x5C {
            return j + 2 - start;
        }
        if b[j] == 0xC2 && j + 1 < b.len() && b[j + 1] == 0x9C {
            return j + 2 - start;
        }
        j = j + 1;
    }
    j - start
}

/// Length in bytes of the escape sequence starting at `i`, if one starts there.
///
/// Handles 7-bit `ESC`-introduced sequences and their 8-bit C1 equivalents,
/// which arrive in a `&str` as U+0080..U+009F (`0xC2 0x8x`). An unterminated
/// sequence swallows the rest of the input, which is what a terminal does too.
pub fn escape_len(b: &[u8], i: usize) -> (r: Option<usize>)
    ensures
        r is Some <==> b_escape_len(b@, i as int) is Some,
        r matches Some(n) ==> n == b_escape_len(b@, i as int)->Some_0,
{
    if i >= b.len() {
        return None;
    }
    if b[i] == 0x1B {
        if i + 1 >= b.len() {
            return Some(1);
        }
        let c = b[i + 1];
        if c == 0x5B {
            Some(csi_len(b, i, i + 2))
        } else if c == 0x5D || c == 0x50 || c == 0x58 || c == 0x5E || c == 0x5F {
            proof {
                lemma_b_string_end(b@, i + 2);
            }
            Some(string_len(b, i, i + 2))
        } else if 0x20 <= c && c <= 0x2F {
            // nF sequences: intermediate bytes then a final byte.
            proof {
                lemma_b_skip(b@, i + 1, 0x20, 0x2F);
            }
            let mut j = b_skip_exec(b, i + 1, 0x20, 0x2F);
            if j < b.len() && 0x30 <= b[j] && b[j] <= 0x7E {
                j = j + 1;
            }
            Some(j - i)
        } else if 0x30 <= c && c <= 0x7E {
            // Fp/Fe/Fs: a single final byte, e.g. ESC 7, ESC M.
            Some(2)
        } else {
            // A stray or trailing ESC.
            Some(1)
        }
    } else if b[i] == 0xC2 && i + 1 < b.len() && b[i + 1] == 0x9B {
        Some(csi_len(b, i, i + 2))
    } else if b[i] == 0xC2 && i + 1 < b.len() && (b[i + 1] == 0x9D || b[i + 1] == 0x90 || b[i + 1]
        == 0x98 || b[i + 1] == 0x9E || b[i + 1] == 0x9F) {
        proof {
            lemma_b_string_end(b@, i + 2);
        }
        Some(string_len(b, i, i + 2))
    } else {
        None
    }
}


/// A string payload free of terminators runs on to the terminator after it.
proof fn lemma_string_runs(cs: Seq<char>, j: int, m: int, term: Seq<char>)
    requires
        1 <= j <= m,
        m + term.len() <= cs.len(),
        forall|i: int| j <= i < m ==> cs[i] != '\x1b' && cs[i] != '\x07' && cs[i] != '\u{9c}',
        term == seq!['\x07'] || term == seq!['\x1b', '\\'] || term == seq!['\u{9c}'],
        forall|i: int| 0 <= i < term.len() ==> cs[m + i] == term[i],
    ensures
        string_end(cs, j) == m + term.len(),
    decreases m - j,
{
    if j < m {
        lemma_string_runs(cs, j + 1, m, term);
    } else {
        assert(cs[m] == term[0]);
        if term.len() == 2 {
            assert(cs[m + 1] == term[1]);
        }
    }
}

/// A string sequence -- OSC, DCS, SOS, PM or APC, introduced by `ESC` and one
/// of `]`, `P`, `X`, `^`, `_`, or by the matching C1 control -- runs to its
/// terminator (BEL, `ESC \\` or ST) whatever its payload holds but a
/// terminator: it is a single escape sequence, complete, stripping removes
/// all of it, and with escapes recognised it takes no columns, so a text
/// after it is measured as if it stood alone.
pub proof fn lemma_string_sequence(
    w: crate::measure::Width,
    intro: Seq<char>,
    p: Seq<char>,
    term: Seq<char>,
    t: Seq<char>,
)
    requires
        (intro.len() == 2 && intro[0] == '\x1b' && (intro[1] == ']' || intro[1] == 'P' || intro[1] == 'X'
            || intro[1] == '^' || intro[1] == '_')) || (intro.len() == 1 && (intro[0] == '\u{9d}' || intro[0]
            == '\u{90}' || intro[0] == '\u{98}' || intro[0] == '\u{9e}' || intro[0] == '\u{9f}')),
        forall|i: int| 0 <= i < p.len() ==> p[i] != '\x1b' && p[i] != '\x07' && p[i] != '\u{9c}',
        term == seq!['\x07'] || term == seq!['\x1b', '\\'] || term == seq!['\u{9c}'],
        forall|i: int| 0 <= i < t.len() ==> #[trigger] t[i] != '\x1b' && !(0x80 <= t[i] as u32 && t[i] as u32 <= 0x9F),
    ensures
        ({
            let e = intro + p + term;
            &&& piece_is_escape(e + t, 0)
            &&& piece_end(e + t, 0) == e.len()
            &&& terminated(e)
            &&& strip_from(e + t, 0) == t
            &&& w.ansi_on() ==> crate::measure::width_of(w, e + t) == crate::measure::width_of(w, t)
        }),
{
    let e = intro + p + term;
    let cs = e + t;
    let n = e.len() as int;
    let j0 = intro.len() as int;
    let m = j0 + p.len();
    assert(cs[0] == intro[0]);
    if j0 == 2 {
        assert(cs[1] == intro[1]);
    }
    assert forall|i: int| j0 <= i < m implies cs[i] != '\x1b' && cs[i] != '\x07' && cs[i] != '\u{9c}' by {
        assert(cs[i] == p[i - j0]);
    }
    assert forall|i: int| 0 <= i < term.len() implies cs[m + i] == term[i] by {
        assert(cs[m + i] == e[m + i]);
    }
    lemma_string_runs(cs, j0, m, term);
    assert(esc_end(cs, 0) == Some(n));
    assert(e[n - 1] == term[term.len() - 1]);
    if term.len() == 2 {
        assert(e[n - 2] == term[0]);
    }
    assert forall|q: int| n <= q < cs.len() implies !starts_escape(#[trigger] cs[q]) by {
        assert(cs[q] == t[q - n]);
    }
    lemma_strip_no_escape(cs, n);
    assert(cs.subrange(n, cs.len() as int) =~= t);
    lemma_piece_bounds(cs, 0);
    assert(strip_from(cs, 0) == strip_from(cs, n));
    if w.ansi_on() {
        crate::shift::lemma_pieces_shift(w, cs, n, 0, 0);
        assert(crate::measure::pieces_w(w, cs, 0, 0) == crate::measure::pieces_w(w, cs, n, 0));
    }
}

/// Skipping a run of characters in range stops at its end.
proof fn lemma_skip_run(cs: Seq<char>, j: int, m: int, lo: u32, hi: u32)
    requires
        0 <= j <= m <= cs.len(),
        forall|i: int| j <= i < m ==> in_range(cs[i], lo, hi),
        m == cs.len() || !in_range(cs[m], lo, hi),
    ensures
        skip_while(cs, j, lo, hi) == m,
    decreases m - j,
{
    if j < m {
        lemma_skip_run(cs, j + 1, m, lo, hi);
    }
}

/// A control sequence -- `ESC [`, parameter bytes, intermediate bytes and a
/// final byte -- is a single complete escape sequence ending at its final
/// byte: stripping removes all of it, and with escapes recognised it takes
/// no columns.
pub proof fn lemma_csi_sequence(w: crate::measure::Width, ps: Seq<char>, is: Seq<char>, f: char, t: Seq<char>)
    requires
        forall|i: int| 0 <= i < ps.len() ==> 0x30 <= #[trigger] ps[i] as u32 && ps[i] as u32 <= 0x3F,
        forall|i: int| 0 <= i < is.len() ==> 0x20 <= #[trigger] is[i] as u32 && is[i] as u32 <= 0x2F,
        0x40 <= f as u32 && f as u32 <= 0x7E,
        forall|i: int| 0 <= i < t.len() ==> #[trigger] t[i] != '\x1b' && !(0x80 <= t[i] as u32 && t[i] as u32 <= 0x9F),
    ensures
        ({
            let e = seq!['\x1b', '['] + ps + is + seq![f];
            &&& piece_is_escape(e + t, 0)
            &&& piece_end(e + t, 0) == e.len()
            &&& terminated(e)
            &&& strip_from(e + t, 0) == t
            &&& w.ansi_on() ==> crate::measure::width_of(w, e + t) == crate::measure::width_of(w, t)
        }),
{
    let e = seq!['\x1b', '['] + ps + is + seq![f];
    let cs = e + t;
    let n = e.len() as int;
    let a = 2 + ps.len() as int;
    let b = a + is.len() as int;
    assert(cs[0] == '\x1b' && cs[1] == '[');
    assert forall|i: int| 2 <= i < a implies in_range(cs[i], 0x30, 0x3F) by {
        assert(cs[i] == ps[i - 2]);
    }
    assert forall|i: int| a <= i < b implies in_range(cs[i], 0x20, 0x2F) by {
        assert(cs[i] == is[i - a]);
    }
    assert(cs[b] == f);
    if is.len() > 0 {
        assert(cs[a] == is[0]);
    }
    lemma_skip_run(cs, 2, a, 0x30, 0x3F);
    lemma_skip_run(cs, a, b, 0x20, 0x2F);
    assert(esc_end(cs, 0) == Some(n));
    assert(e[n - 1] == f);
    assert forall|q: int| n <= q < cs.len() implies !starts_escape(#[trigger] cs[q]) by {
        assert(cs[q] == t[q - n]);
    }
    lemma_strip_no_escape(cs, n);
    assert(cs.subrange(n, cs.len() as int) =~= t);
    lemma_piece_bounds(cs, 0);
    assert(strip_from(cs, 0) == strip_from(cs, n));
    if w.ansi_on() {
        crate::shift::lemma_pieces_shift(w, cs, n, 0, 0);
        assert(crate::measure::pieces_w(w, cs, 0, 0) == crate::measure::pieces_w(w, cs, n, 0));
    }
}


/// A two-character escape sequence -- `ESC` and a final byte such as `7` or
/// `c`, other than those that open a control or string sequence -- is
/// complete after those two characters: stripping removes both, and with
/// escapes recognised they take no columns.
pub proof fn lemma_short_escape(w: crate::measure::Width, d: char, t: Seq<char>)
    requires
        0x30 <= d as u32 && d as u32 <= 0x7E,
        d != '[' && d != ']' && d != 'P' && d != 'X' && d != '^' && d != '_',
        forall|i: int| 0 <= i < t.len() ==> #[trigger] t[i] != '\x1b' && !(0x80 <= t[i] as u32 && t[i] as u32 <= 0x9F),
    ensures
        ({
            let e = seq!['\x1b', d];
            &&& piece_is_escape(e + t, 0)
            &&& piece_end(e + t, 0) == 2
            &&& terminated(e)
            &&& strip_from(e + t, 0) == t
            &&& w.ansi_on() ==> crate::measure::width_of(w, e + t) == crate::measure::width_of(w, t)
        }),
{
    let e = seq!['\x1b', d];
    let cs = e + t;
    let n = 2int;
    assert(cs[0] == '\x1b' && cs[1] == d);
    assert(esc_end(cs, 0) == Some(n));
    assert forall|q: int| n <= q < cs.len() implies !starts_escape(#[trigger] cs[q]) by {
        assert(cs[q] == t[q - n]);
    }
    lemma_strip_no_escape(cs, n);
    assert(cs.subrange(n, cs.len() as int) =~= t);
    lemma_piece_bounds(cs, 0);
    assert(strip_from(cs, 0) == strip_from(cs, n));
    if w.ansi_on() {
        crate::shift::lemma_pieces_shift(w, cs, n, 0, 0);
        assert(crate::measure::pieces_w(w, cs, 0, 0) == crate::measure::pieces_w(w, cs, n, 0));
    }
}

} // verus!
