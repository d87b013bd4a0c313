//! Scanning from a point depends only on the text from that point on.
//!
//! Each lemma here says that scanning `cs` from `d + j` finds what scanning
//! the suffix `cs[d..]` from `j` finds, moved along by `d`: escape sequences,
//! runs of text, pieces and their widths. Grapheme segmentation is the one
//! scan with memory, so its lemma needs a cluster boundary at `d`.

use vstd::prelude::*;

use crate::ansi::{
    csi_end, esc_end, in_range, is_c1_string, is_string_intro, last_start, nf_end, piece_end,
    piece_is_escape, skip_while, starts_escape, string_end, text_end,
};
use crate::grapheme::{cluster_end, is_break, lemma_restart_next_break};
use crate::measure::{adv, char_w, cl_text_w, cp_text_w, pieces_w, tab_adv, text_w, Width};

verus! {

/// `skip_while` from `d + j` is `skip_while` over the suffix from `j`, moved by `d`.
pub proof fn lemma_skip_shift(cs: Seq<char>, d: int, j: int, lo: u32, hi: u32)
    requires
        0 <= d <= cs.len(),
        0 <= j <= cs.len() - d,
    ensures
        skip_while(cs, d + j, lo, hi) == d + skip_while(cs.subrange(d, cs.len() as int), j, lo, hi),
    decreases cs.len() - d - j,
{
    let sub = cs.subrange(d, cs.len() as int);
    if j < sub.len() {
        assert(sub[j] == cs[d + j]);
        if in_range(sub[j], lo, hi) {
            lemma_skip_shift(cs, d, j + 1, lo, hi);
        }
    }
}

/// `string_end` from `d + j` is `string_end` over the suffix from `j`, moved by `d`.
pub proof fn lemma_string_shift(cs: Seq<char>, d: int, j: int)
    requires
        0 <= d <= cs.len(),
        0 <= j <= cs.len() - d,
    ensures
        string_end(cs, d + j) == d + string_end(cs.subrange(d, cs.len() as int), j),
    decreases cs.len() - d - j,
{
    let sub = cs.subrange(d, cs.len() as int);
    if j < sub.len() {
        assert(sub[j] == cs[d + j]);
        if j + 1 < sub.len() {
            assert(sub[j + 1] == cs[d + j + 1]);
        }
        lemma_string_shift(cs, d, j + 1);
    }
}

/// `csi_end` moves along with the suffix.
pub proof fn lemma_csi_shift(cs: Seq<char>, d: int, j: int)
    requires
        0 <= d <= cs.len(),
        0 <= j <= cs.len() - d,
    ensures
        csi_end(cs, d + j) == d + csi_end(cs.subrange(d, cs.len() as int), j),
{
    let sub = cs.subrange(d, cs.len() as int);
    lemma_skip_shift(cs, d, j, 0x30, 0x3F);
    crate::ansi::lemma_skip_bounds(sub, j, 0x30, 0x3F);
    let a = skip_while(sub, j, 0x30, 0x3F);
    lemma_skip_shift(cs, d, a, 0x20, 0x2F);
    crate::ansi::lemma_skip_bounds(sub, a, 0x20, 0x2F);
    let b = skip_while(sub, a, 0x20, 0x2F);
    if b < sub.len() {
        assert(sub[b] == cs[d + b]);
    }
}

/// `nf_end` moves along with the suffix.
pub proof fn lemma_nf_shift(cs: Seq<char>, d: int, j: int)
    requires
        0 <= d <= cs.len(),
        0 <= j <= cs.len() - d,
    ensures
        nf_end(cs, d + j) == d + nf_end(cs.subrange(d, cs.len() as int), j),
{
    let sub = cs.subrange(d, cs.len() as int);
    lemma_skip_shift(cs, d, j, 0x20, 0x2F);
    crate::ansi::lemma_skip_bounds(sub, j, 0x20, 0x2F);
    let b = skip_while(sub, j, 0x20, 0x2F);
    if b < sub.len() {
        assert(sub[b] == cs[d + b]);
    }
}

/// An escape sequence starting at `d + i` is the suffix's, moved by `d`.
pub proof fn lemma_esc_shift(cs: Seq<char>, d: int, i: int)
    requires
        0 <= d <= cs.len(),
        0 <= i <= cs.len() - d,
    ensures
        esc_end(cs, d + i) is Some <==> esc_end(cs.subrange(d, cs.len() as int), i) is Some,
        esc_end(cs, d + i) is Some ==> esc_end(cs, d + i)->Some_0 == d + esc_end(
            cs.subrange(d, cs.len() as int),
            i,
        )->Some_0,
{
    let sub = cs.subrange(d, cs.len() as int);
    if i < sub.len() {
        assert(sub[i] == cs[d + i]);
        if i + 1 < sub.len() {
            assert(sub[i + 1] == cs[d + i + 1]);
            if i + 2 <= sub.len() {
                lemma_csi_shift(cs, d, i + 2);
                lemma_string_shift(cs, d, i + 2);
            }
        }
        lemma_nf_shift(cs, d, i + 1);
        lemma_csi_shift(cs, d, i + 1);
        lemma_string_shift(cs, d, i + 1);
    }
}

/// A run of text from `d + j` is the suffix's, moved by `d`.
pub proof fn lemma_text_end_shift(cs: Seq<char>, d: int, j: int)
    requires
        0 <= d <= cs.len(),
        0 <= j <= cs.len() - d,
    ensures
        text_end(cs, d + j) == d + text_end(cs.subrange(d, cs.len() as int), j),
    decreases cs.len() - d - j,
{
    let sub = cs.subrange(d, cs.len() as int);
    if j < sub.len() {
        assert(sub[j] == cs[d + j]);
        lemma_text_end_shift(cs, d, j + 1);
    }
}

/// A piece starting at `d + k` is the suffix's, moved by `d`.
pub proof fn lemma_piece_shift(cs: Seq<char>, d: int, k: int)
    requires
        0 <= d <= cs.len(),
        0 <= k <= cs.len() - d,
    ensures
        piece_is_escape(cs, d + k) == piece_is_escape(cs.subrange(d, cs.len() as int), k),
        piece_end(cs, d + k) == d + piece_end(cs.subrange(d, cs.len() as int), k),
{
    lemma_esc_shift(cs, d, k);
    if k + 1 <= cs.len() - d {
        lemma_text_end_shift(cs, d, k + 1);
    } else {
        assert(text_end(cs, d + k + 1) == cs.len());
        assert(text_end(cs.subrange(d, cs.len() as int), k + 1) == cs.len() - d);
    }
}

/// Measuring the pieces from `d + k` is measuring the suffix's pieces from `k`.
pub proof fn lemma_pieces_shift(w: Width, cs: Seq<char>, d: int, k: int, col: int)
    requires
        0 <= d <= cs.len(),
        0 <= k <= cs.len() - d,
    ensures
        pieces_w(w, cs, d + k, col) == pieces_w(w, cs.subrange(d, cs.len() as int), k, col),
    decreases cs.len() - d - k,
{
    let sub = cs.subrange(d, cs.len() as int);
    if k < sub.len() {
        lemma_piece_shift(cs, d, k);
        crate::ansi::lemma_piece_bounds(sub, k);
        let e = piece_end(sub, k);
        assert(cs.subrange(d + k, d + e) =~= sub.subrange(k, e));
        if piece_is_escape(sub, k) {
            lemma_pieces_shift(w, cs, d, e, col);
        } else {
            let a = text_w(w, sub.subrange(k, e), col);
            lemma_pieces_shift(w, cs, d, e, col + a);
        }
    }
}

/// The last piece from `d + k` is the suffix's, moved by `d`.
pub proof fn lemma_last_start_shift(cs: Seq<char>, d: int, k: int)
    requires
        0 <= d <= cs.len(),
        0 <= k <= cs.len() - d,
    ensures
        last_start(cs, d + k) == d + last_start(cs.subrange(d, cs.len() as int), k),
    decreases cs.len() - d - k,
{
    let sub = cs.subrange(d, cs.len() as int);
    if k < sub.len() {
        lemma_piece_shift(cs, d, k);
        crate::ansi::lemma_piece_bounds(sub, k);
        let e = piece_end(sub, k);
        if e < sub.len() {
            lemma_last_start_shift(cs, d, e);
        }
    }
}

/// Counting code points from `d + i` is counting the suffix's from `i`.
pub proof fn lemma_cp_shift(w: Width, cs: Seq<char>, d: int, i: int, col: int)
    requires
        0 <= d <= cs.len(),
        0 <= i <= cs.len() - d,
    ensures
        cp_text_w(w, cs, d + i, col) == cp_text_w(w, cs.subrange(d, cs.len() as int), i, col),
    decreases cs.len() - d - i,
{
    let sub = cs.subrange(d, cs.len() as int);
    if i < sub.len() {
        assert(sub[i] == cs[d + i]);
        let a = if sub[i] == '\t' {
            tab_adv(w, col)
        } else {
            char_w(w, sub[i])
        };
        lemma_cp_shift(w, cs, d, i + 1, col + a);
    }
}

/// Counting clusters from a cluster boundary `d` is counting the suffix's
/// clusters, segmented afresh.
pub proof fn lemma_cl_shift(w: Width, cs: Seq<char>, d: int, k: int, col: int)
    requires
        0 <= d <= cs.len(),
        d == 0 || d == cs.len() || is_break(false, cs, d),
        0 <= k <= cs.len() - d,
    ensures
        cl_text_w(w, cs, d + k, col) == cl_text_w(w, cs.subrange(d, cs.len() as int), k, col),
    decreases cs.len() - d - k,
{
    let sub = cs.subrange(d, cs.len() as int);
    if k < sub.len() {
        lemma_restart_next_break(cs, d, k + 1);
        crate::grapheme::lemma_cluster_bounds(false, sub, k);
        let e = cluster_end(false, sub, k);
        assert(cluster_end(false, cs, d + k) == d + e);
        assert(cs.subrange(d + k, d + e) =~= sub.subrange(k, e));
        let a = adv(w, sub.subrange(k, e), col);
        lemma_cl_shift(w, cs, d, e, col + a);
    }
}

} // verus!
