//! How a width grows when text is appended.
//!
//! Padding a cell with spaces, or closing a cut with `…`, adds text after
//! something already measured. The lemmas here say when the new width is the
//! old one plus the width of what was added: when the added characters stand
//! alone as clusters of their own, and what came before neither joins them (a
//! Prepend character at the end) nor swallows them (an escape sequence left
//! open at the end).

use vstd::prelude::*;

use crate::ansi::{
    esc_end, in_range, is_c1_string, is_string_intro, last_start, lemma_esc_bounds,
    lemma_esc_prefix, lemma_last_start, lemma_piece_bounds, lemma_piece_prefix, lemma_skip_bounds,
    lemma_skip_prefix, lemma_string_bounds, lemma_string_prefix, lemma_text_bounds,
    lemma_text_end_prefix, csi_end, nf_end, piece_end, piece_is_escape, skip_while, starts_escape,
    string_end, terminated, text_end,
};
use crate::fit::reset_seq;
use crate::grapheme::{
    cluster_end, decide_spec, gcb_of, is_break, lemma_next_break, lemma_next_break_prefix,
    lemma_run_state_prev, next_break, Gcb,
};
use crate::measure::{
    adv, char_w, cl_text_w, count_ri, cp_text_w, holds, holds_modifier, is_modifier, is_ri,
    lemma_char_w_bound, pieces_w, sum_w, text_w, width_at, Width,
};

verus! {

/// A character that forms a grapheme cluster of its own after anything but a
/// Prepend character, and whose cluster is exactly as wide as the character.
pub open spec fn plain(c: char) -> bool {
    &&& gcb_of(c) == Gcb::Other
    &&& !is_ri(c)
    &&& !is_modifier(c)
    &&& c != '\u{FE0F}'
    &&& c != '\u{FE0E}'
}

/// Every character of `y` is plain.
pub open spec fn all_plain(y: Seq<char>) -> bool {
    forall|i: int| 0 <= i < y.len() ==> plain(#[trigger] y[i])
}

/// Whether `t` ends in a character that joins whatever follows it: a
/// Prepend character (UAX #29, rule GB9b).
pub open spec fn ends_joining(t: Seq<char>) -> bool {
    t.len() > 0 && gcb_of(t.last()) == Gcb::Prepend
}

/// A space is plain.
pub proof fn lemma_space_plain()
    ensures
        plain(' '),
        char_w(Width::standard(), ' ') == 1,
{
    crate::tables::lemma_ascii_props(0x20);
}

/// `…` is plain.
pub proof fn lemma_ellipsis_plain()
    ensures
        plain('\u{2026}'),
{
    crate::tables::lemma_ellipsis_props();
}

// ---------------------------------------------------------------------------
// Sums of character widths.

/// The sum over a concatenation is the sum of the sums.
pub proof fn lemma_sum_w_append(w: Width, a: Seq<char>, b: Seq<char>)
    ensures
        sum_w(w, a + b) == sum_w(w, a) + sum_w(w, b),
    decreases b.len(),
{
    if b.len() == 0 {
        assert(a + b =~= a);
    } else {
        lemma_sum_w_append(w, a, b.drop_last());
        assert((a + b).drop_last() =~= a + b.drop_last());
        assert((a + b).last() == b.last());
    }
}

/// The sum from `j` on is the first character's width plus the sum after it.
pub proof fn lemma_sum_w_front(w: Width, y: Seq<char>, j: int)
    requires
        0 <= j < y.len(),
    ensures
        sum_w(w, y.subrange(j, y.len() as int)) == char_w(w, y[j]) + sum_w(
            w,
            y.subrange(j + 1, y.len() as int),
        ),
{
    let rest = y.subrange(j + 1, y.len() as int);
    assert(y.subrange(j, y.len() as int) =~= seq![y[j]] + rest);
    lemma_sum_w_append(w, seq![y[j]], rest);
    crate::units::lemma_sum_w_one(w, y[j]);
}

// ---------------------------------------------------------------------------
// Clusters.

/// A plain character alone is a cluster exactly as wide as the character.
pub proof fn lemma_plain_adv(w: Width, c: char, col: int)
    requires
        plain(c),
    ensures
        adv(w, seq![c], col) == char_w(w, c),
{
    let cl = seq![c];
    assert(cl[0] == c);
    crate::units::lemma_sum_w_one(w, c);
    if (c as u32) < 0x80 {
        crate::tables::lemma_ascii_props(c as u32);
    }
    assert(cl.drop_last() =~= Seq::<char>::empty());
    assert(count_ri(cl) == count_ri(cl.drop_last()) + 0int);
    assert(!holds(cl, '\u{FE0F}'));
    assert(!holds(cl, '\u{FE0E}'));
    assert(!holds_modifier(cl));
}

/// Appending a character other than `x` does not change whether a cluster holds `x`.
pub proof fn lemma_holds_push(cl: Seq<char>, c: char, x: char)
    requires
        c != x,
    ensures
        holds(cl.push(c), x) == holds(cl, x),
{
    if holds(cl, x) {
        let i = choose|i: int| 0 <= i < cl.len() && cl[i] == x;
        assert(cl.push(c)[i] == x);
    }
    if holds(cl.push(c), x) {
        let i = choose|i: int| 0 <= i < cl.push(c).len() && cl.push(c)[i] == x;
        assert(i < cl.len());
        assert(cl[i] == x);
    }
}

/// Appending a character that is no skin tone modifier does not change
/// whether a cluster holds one.
pub proof fn lemma_holds_modifier_push(cl: Seq<char>, c: char)
    requires
        !is_modifier(c),
    ensures
        holds_modifier(cl.push(c)) == holds_modifier(cl),
{
    if holds_modifier(cl) {
        let i = choose|i: int| 0 <= i < cl.len() && is_modifier(#[trigger] cl[i]);
        assert(cl.push(c)[i] == cl[i]);
    }
    if holds_modifier(cl.push(c)) {
        let i = choose|i: int| 0 <= i < cl.push(c).len() && is_modifier(#[trigger] cl.push(c)[i]);
        assert(i < cl.len());
        assert(cl.push(c)[i] == cl[i]);
    }
}

/// A plain character joined onto a cluster widens it by at most its own width.
pub proof fn lemma_adv_push(w: Width, cl: Seq<char>, c: char, col: int)
    requires
        cl.len() >= 1,
        !(cl.len() == 1 && (cl[0] as u32) < 0x80),
        plain(c),
    ensures
        adv(w, cl.push(c), col) <= adv(w, cl, col) + char_w(w, c),
{
    let p = cl.push(c);
    assert(p.drop_last() =~= cl);
    assert(p.last() == c);
    assert(p[0] == cl[0]);
    assert(count_ri(p) == count_ri(cl));
    assert(sum_w(w, p) == sum_w(w, cl) + char_w(w, c));
    lemma_holds_push(cl, c, '\u{FE0F}');
    lemma_holds_push(cl, c, '\u{FE0E}');
    lemma_holds_modifier_push(cl, c);
    lemma_char_w_bound(w, c);
}

/// A boundary falls before a plain character unless a Prepend character
/// stands just before it.
pub proof fn lemma_break_before_plain(cs: Seq<char>, j: int)
    requires
        0 < j < cs.len(),
        gcb_of(cs[j]) == Gcb::Other,
    ensures
        is_break(false, cs, j) <==> gcb_of(cs[j - 1]) != Gcb::Prepend,
{
    lemma_run_state_prev(false, cs, j);
}

/// Segmenting the whole text, the plain characters that end it are one
/// cluster each.
pub proof fn lemma_cl_tail(w: Width, t: Seq<char>, y: Seq<char>, j: int, col: int)
    requires
        all_plain(y),
        0 <= j <= y.len(),
    ensures
        cl_text_w(w, t + y, t.len() + j, col) == sum_w(w, y.subrange(j, y.len() as int)),
    decreases y.len() - j,
{
    let cs = t + y;
    let k = t.len() + j;
    if j == y.len() {
        assert(y.subrange(j, y.len() as int) =~= Seq::<char>::empty());
    } else {
        assert(cs[k] == y[j]);
        assert(plain(y[j]));
        if j + 1 < y.len() {
            assert(cs[k + 1] == y[j + 1]);
            assert(plain(y[j + 1]));
            lemma_break_before_plain(cs, k + 1);
        }
        assert(next_break(false, cs, k + 1) == k + 1);
        assert(cluster_end(false, cs, k) == k + 1);
        assert(cs.subrange(k, k + 1) =~= seq![y[j]]);
        lemma_plain_adv(w, y[j], col);
        lemma_cl_tail(w, t, y, j + 1, col + char_w(w, y[j]));
        lemma_sum_w_front(w, y, j);
    }
}

/// Segmenting by clusters, plain characters appended add their widths,
/// unless the text ends in a joining character; then they add at most that.
pub proof fn lemma_cl_append(w: Width, t: Seq<char>, y: Seq<char>, k: int, col: int)
    requires
        all_plain(y),
        0 <= k <= t.len(),
    ensures
        !ends_joining(t) || y.len() == 0 ==> cl_text_w(w, t + y, k, col) == cl_text_w(w, t, k, col)
            + sum_w(w, y),
        cl_text_w(w, t + y, k, col) <= cl_text_w(w, t, k, col) + sum_w(w, y),
    decreases t.len() - k,
{
    let cs = t + y;
    let n = t.len() as int;
    if k == n {
        lemma_cl_tail(w, t, y, 0, col);
        assert(y.subrange(0, y.len() as int) =~= y);
    } else {
        assert(cs.take(n) =~= t);
        lemma_next_break_prefix(false, cs, n, k + 1);
        lemma_next_break(false, cs, k + 1);
        let e = cluster_end(false, cs, k);
        if e < n {
            assert(cluster_end(false, t, k) == e);
            assert(cs.subrange(k, e) =~= t.subrange(k, e));
            let a = adv(w, t.subrange(k, e), col);
            lemma_cl_append(w, t, y, e, col + a);
            assert(cl_text_w(w, t, k, col) == a + cl_text_w(w, t, e, col + a));
            assert(cl_text_w(w, cs, k, col) == a + cl_text_w(w, cs, e, col + a));
        } else {
            assert(cluster_end(false, t, k) == n);
            let cl = t.subrange(k, n);
            let a = adv(w, cl, col);
            assert(cs[n - 1] == t.last());
            if y.len() > 0 {
                assert(cs[n] == y[0]);
                assert(plain(y[0]));
                lemma_break_before_plain(cs, n);
            }
            if e == n {
                assert(cs.subrange(k, n) =~= cl);
                lemma_cl_tail(w, t, y, 0, col + a);
                assert(y.subrange(0, y.len() as int) =~= y);
                assert(cl_text_w(w, t, k, col) == a + cl_text_w(w, t, n, col + a));
                assert(cl_text_w(w, cs, k, col) == a + cl_text_w(w, cs, n, col + a));
            } else {
                // The last cluster of `t` ends in a Prepend character, which
                // takes the first appended character in.
                assert(!is_break(false, cs, n));
                assert(ends_joining(t));
                if n + 1 < cs.len() {
                    assert(cs[n + 1] == y[1]);
                    assert(plain(y[1]));
                    lemma_break_before_plain(cs, n + 1);
                }
                assert(e == n + 1);
                assert(cs.subrange(k, e) =~= cl.push(y[0]));
                if (t.last() as u32) < 0x80 {
                    crate::tables::lemma_ascii_props(t.last() as u32);
                }
                if cl.len() == 1 {
                    assert(cl[0] == t.last());
                }
                lemma_adv_push(w, cl, y[0], col);
                let a2 = adv(w, cl.push(y[0]), col);
                lemma_cl_tail(w, t, y, 1, col + a2);
                lemma_sum_w_front(w, y, 0);
                assert(y.subrange(0, y.len() as int) =~= y);
                assert(cl_text_w(w, t, k, col) == a + cl_text_w(w, t, n, col + a));
                assert(cl_text_w(w, cs, k, col) == a2 + cl_text_w(w, cs, n + 1, col + a2));
            }
        }
    }
}

/// Counting code points, plain characters at the end add their widths.
pub proof fn lemma_cp_tail(w: Width, t: Seq<char>, y: Seq<char>, j: int, col: int)
    requires
        all_plain(y),
        0 <= j <= y.len(),
    ensures
        cp_text_w(w, t + y, t.len() + j, col) == sum_w(w, y.subrange(j, y.len() as int)),
    decreases y.len() - j,
{
    let cs = t + y;
    if j == y.len() {
        assert(y.subrange(j, y.len() as int) =~= Seq::<char>::empty());
    } else {
        assert(cs[t.len() + j] == y[j]);
        assert(plain(y[j]));
        crate::units::lemma_tab_is_control();
        lemma_cp_tail(w, t, y, j + 1, col + char_w(w, y[j]));
        lemma_sum_w_front(w, y, j);
    }
}

/// Counting code points, plain characters appended add their widths.
pub proof fn lemma_cp_append(w: Width, t: Seq<char>, y: Seq<char>, i: int, col: int)
    requires
        all_plain(y),
        0 <= i <= t.len(),
    ensures
        cp_text_w(w, t + y, i, col) == cp_text_w(w, t, i, col) + sum_w(w, y),
    decreases t.len() - i,
{
    let cs = t + y;
    if i == t.len() {
        lemma_cp_tail(w, t, y, 0, col);
        assert(y.subrange(0, y.len() as int) =~= y);
    } else {
        assert(cs[i] == t[i]);
        let a = if t[i] == '\t' {
            crate::measure::tab_adv(w, col)
        } else {
            char_w(w, t[i])
        };
        lemma_cp_append(w, t, y, i + 1, col + a);
    }
}

/// Text without escape sequences: plain characters appended add their
/// widths, unless the text ends in a joining character and clusters are
/// measured; then they add at most that.
pub proof fn lemma_text_append(w: Width, t: Seq<char>, y: Seq<char>, col: int)
    requires
        all_plain(y),
    ensures
        w.codepoints() || !ends_joining(t) || y.len() == 0 ==> text_w(w, t + y, col) == text_w(w, t, col)
            + sum_w(w, y),
        text_w(w, t + y, col) <= text_w(w, t, col) + sum_w(w, y),
{
    lemma_cp_append(w, t, y, 0, col);
    lemma_cl_append(w, t, y, 0, col);
}

// ---------------------------------------------------------------------------
// Where runs of text and escape sequences end.

/// A character that can open an escape sequence is never plain.
pub proof fn lemma_plain_no_escape(c: char)
    requires
        plain(c),
    ensures
        !starts_escape(c),
{
    if starts_escape(c) {
        crate::units::lemma_escape_is_control(c);
    }
}

/// A run of text that has reached `m` without meeting an escape ends where
/// the run from `m` ends.
pub proof fn lemma_text_end_skip(cs: Seq<char>, j: int, m: int)
    requires
        0 <= j <= m <= text_end(cs, j),
        m <= cs.len(),
    ensures
        text_end(cs, j) == text_end(cs, m),
    decreases m - j,
{
    if j < m {
        lemma_text_bounds(cs, j);
        assert(!starts_escape(cs[j]));
        lemma_text_end_skip(cs, j + 1, m);
    }
}

/// A run of text over characters none of which opens an escape lasts to the end.
pub proof fn lemma_text_end_clear(cs: Seq<char>, j: int)
    requires
        0 <= j <= cs.len(),
        forall|q: int| j <= q < cs.len() ==> !starts_escape(#[trigger] cs[q]),
    ensures
        text_end(cs, j) == cs.len(),
    decreases cs.len() - j,
{
    if j < cs.len() {
        lemma_text_end_clear(cs, j + 1);
    }
}

/// Every character `skip_while` steps over lies in the range.
pub proof fn lemma_skip_all(cs: Seq<char>, j: int, lo: u32, hi: u32)
    requires
        0 <= j <= cs.len(),
    ensures
        forall|q: int| j <= q < skip_while(cs, j, lo, hi) ==> in_range(#[trigger] cs[q], lo, hi),
    decreases cs.len() - j,
{
    if j < cs.len() && in_range(cs[j], lo, hi) {
        lemma_skip_all(cs, j + 1, lo, hi);
    }
}

/// A string sequence scanned from `j` stops no later than one scanned from
/// any later point.
pub proof fn lemma_string_le(cs: Seq<char>, j: int, q: int)
    requires
        0 <= j <= q < cs.len(),
    ensures
        string_end(cs, j) <= string_end(cs, q),
    decreases q - j,
{
    lemma_string_bounds(cs, q);
    if j < q {
        lemma_string_le(cs, j + 1, q);
    }
}

/// A CSI sequence that has its final byte before the cut ends there in the whole text too.
pub proof fn lemma_csi_stable(cs: Seq<char>, k: int, j: int)
    requires
        0 <= j < k <= cs.len(),
        csi_end(cs.take(k), j) == k,
        in_range(cs[k - 1], 0x40, 0x7E),
    ensures
        csi_end(cs, j) == k,
{
    let x = cs.take(k);
    lemma_skip_prefix(cs, k, j, 0x30, 0x3F);
    lemma_skip_bounds(cs, j, 0x30, 0x3F);
    lemma_skip_all(x, j, 0x30, 0x3F);
    let a = skip_while(cs, j, 0x30, 0x3F);
    if a >= k {
        assert(x[k - 1] == cs[k - 1]);
        assert(false);
    }
    lemma_skip_prefix(cs, k, a, 0x20, 0x2F);
    lemma_skip_bounds(cs, a, 0x20, 0x2F);
    lemma_skip_all(x, a, 0x20, 0x2F);
    let b = skip_while(cs, a, 0x20, 0x2F);
    if b >= k {
        assert(x[k - 1] == cs[k - 1]);
        assert(false);
    }
    assert(x[b] == cs[b]);
}

/// An nF sequence that has its final byte before the cut ends there in the whole text too.
pub proof fn lemma_nf_stable(cs: Seq<char>, k: int, j: int)
    requires
        0 <= j < k <= cs.len(),
        nf_end(cs.take(k), j) == k,
        in_range(cs[k - 1], 0x30, 0x7E),
    ensures
        nf_end(cs, j) == k,
{
    let x = cs.take(k);
    lemma_skip_prefix(cs, k, j, 0x20, 0x2F);
    lemma_skip_bounds(cs, j, 0x20, 0x2F);
    lemma_skip_all(x, j, 0x20, 0x2F);
    let b = skip_while(cs, j, 0x20, 0x2F);
    if b >= k {
        assert(x[k - 1] == cs[k - 1]);
        assert(false);
    }
    assert(x[b] == cs[b]);
}

/// A string sequence whose terminator stands at the cut ends there in the whole text too.
pub proof fn lemma_string_stable(cs: Seq<char>, k: int, j: int)
    requires
        0 <= j < k <= cs.len(),
        string_end(cs.take(k), j) == k,
        cs[k - 1] == '\x07' || cs[k - 1] == '\u{9c}' || (j <= k - 2 && cs[k - 2] == '\x1b' && cs[k
            - 1] == '\\'),
    ensures
        string_end(cs, j) == k,
{
    lemma_string_prefix(cs, k, j);
    if cs[k - 1] == '\x07' || cs[k - 1] == '\u{9c}' {
        lemma_string_le(cs, j, k - 1);
    } else {
        lemma_string_le(cs, j, k - 2);
    }
}

/// An escape sequence complete before the cut ends at the cut in the whole
/// text too: nothing appended after it can extend it.
pub proof fn lemma_terminated_stable(cs: Seq<char>, k: int, at: int)
    requires
        0 <= at < k <= cs.len(),
        esc_end(cs.take(k), at) == Some(k),
        terminated(cs.take(k).subrange(at, k)),
    ensures
        esc_end(cs, at) == Some(k),
{
    let x = cs.take(k);
    let e = x.subrange(at, k);
    let m = k - at;
    assert(e[0] == cs[at]);
    assert(e[m - 1] == cs[k - 1]);
    if m >= 2 {
        assert(e[1] == cs[at + 1]);
        assert(e[m - 2] == cs[k - 2]);
    }
    if cs[at] == '\x1b' {
        if at + 1 < k {
            let d = cs[at + 1];
            if d == '[' {
                lemma_csi_stable(cs, k, at + 2);
            } else if is_string_intro(d) {
                lemma_string_stable(cs, k, at + 2);
            } else if in_range(d, 0x20, 0x2F) {
                lemma_nf_stable(cs, k, at + 1);
            }
        }
    } else if cs[at] == '\u{9b}' {
        lemma_csi_stable(cs, k, at + 1);
    } else if is_c1_string(cs[at]) {
        lemma_string_stable(cs, k, at + 1);
    }
}

// ---------------------------------------------------------------------------
// Pieces.

/// Whether stepping piece by piece from `p` lands exactly on `k`.
pub open spec fn piece_reach(cs: Seq<char>, p: int, k: int) -> bool
    decreases k - p,
{
    if p == k {
        true
    } else if 0 <= p < k && p < cs.len() {
        let e = piece_end(cs, p);
        if e <= p || e > k {
            false
        } else {
            piece_reach(cs, e, k)
        }
    } else {
        false
    }
}

/// Whether the text ends inside an escape sequence that never terminates.
pub open spec fn open_end(x: Seq<char>) -> bool {
    let at = last_start(x, 0);
    x.len() > 0 && piece_is_escape(x, at) && !terminated(x.subrange(at, x.len() as int))
}

/// Measuring the pieces up to a piece boundary, then the rest from there.
pub proof fn lemma_pieces_split(w: Width, cs: Seq<char>, k: int, p: int, col: int)
    requires
        0 <= p <= k <= cs.len(),
        piece_reach(cs, p, k),
    ensures
        pieces_w(w, cs, p, col) == pieces_w(w, cs.take(k), p, col) + pieces_w(
            w,
            cs,
            k,
            col + pieces_w(w, cs.take(k), p, col),
        ),
    decreases k - p,
{
    if p < k {
        let x = cs.take(k);
        lemma_piece_bounds(cs, p);
        lemma_piece_prefix(cs, k, p);
        let e = piece_end(cs, p);
        assert(x.subrange(p, e) =~= cs.subrange(p, e));
        if piece_is_escape(cs, p) {
            lemma_pieces_split(w, cs, k, e, col);
        } else {
            let a = text_w(w, cs.subrange(p, e), col);
            lemma_pieces_split(w, cs, k, e, col + a);
        }
    }
}

/// The walk from `p` reaches the last piece.
pub proof fn lemma_last_reach(cs: Seq<char>, p: int)
    requires
        0 <= p < cs.len(),
    ensures
        piece_reach(cs, p, last_start(cs, p)),
    decreases cs.len() - p,
{
    lemma_piece_bounds(cs, p);
    let e = piece_end(cs, p);
    if e < cs.len() {
        lemma_last_reach(cs, e);
        lemma_last_start(cs, e);
    }
}

/// A walk that stays short of the cut is the same in the whole text.
pub proof fn lemma_reach_prefix(cs: Seq<char>, m: int, p: int, k: int)
    requires
        0 <= p <= k < m <= cs.len(),
        piece_reach(cs.take(m), p, k),
    ensures
        piece_reach(cs, p, k),
    decreases k - p,
{
    if p < k {
        lemma_piece_prefix(cs, m, p);
        lemma_piece_bounds(cs.take(m), p);
        lemma_reach_prefix(cs, m, piece_end(cs.take(m), p), k);
    }
}

/// One more piece extends a walk.
pub proof fn lemma_reach_extend(cs: Seq<char>, p: int, l: int, k: int)
    requires
        0 <= p <= l < cs.len(),
        piece_reach(cs, p, l),
        piece_end(cs, l) == k,
    ensures
        piece_reach(cs, p, k),
    decreases l - p,
{
    lemma_piece_bounds(cs, l);
    if p == l {
        assert(piece_reach(cs, k, k));
    } else {
        lemma_piece_bounds(cs, p);
        lemma_reach_extend(cs, piece_end(cs, p), l, k);
    }
}

/// Plain characters after the end of `x` make one run of text, as wide as their widths.
pub proof fn lemma_pieces_tail(w: Width, x: Seq<char>, y: Seq<char>, col: int)
    requires
        all_plain(y),
    ensures
        pieces_w(w, x + y, x.len() as int, col) == sum_w(w, y),
{
    let cs = x + y;
    let n = x.len() as int;
    if y.len() > 0 {
        assert forall|q: int| n <= q < cs.len() implies !starts_escape(#[trigger] cs[q]) by {
            assert(cs[q] == y[q - n]);
            assert(plain(y[q - n]));
            lemma_plain_no_escape(y[q - n]);
        }
        lemma_esc_bounds(cs, n);
        lemma_text_end_clear(cs, n + 1);
        assert(piece_end(cs, n) == cs.len());
        let t = cs.subrange(n, cs.len() as int);
        assert(t =~= Seq::<char>::empty() + y);
        lemma_text_append(w, Seq::<char>::empty(), y, col);
        assert(text_w(w, Seq::<char>::empty(), col) == 0);
        assert(pieces_w(w, cs, n, col) == text_w(w, t, col) + pieces_w(w, cs, cs.len() as int, col + text_w(w, t, col)));
    } else {
        assert(sum_w(w, y) == 0);
    }
}

/// The last piece of a text is no open escape sequence once it is trimmed.
pub proof fn lemma_trimmed_closed(x: Seq<char>)
    requires
        crate::ansi::trim_spec(x) == x,
    ensures
        !open_end(x),
{
    if x.len() > 0 {
        let at = last_start(x, 0);
        lemma_last_start(x, 0);
        crate::ansi::lemma_trim_prefix(x.take(at));
        if piece_is_escape(x, at) {
            lemma_esc_bounds(x, at);
            assert(crate::ansi::has_esc(x));
        }
    }
}

/// With escapes recognised, plain characters appended add their widths,
/// unless the last run of text ends in a joining character; then at most that.
pub proof fn lemma_pieces_append(w: Width, x: Seq<char>, y: Seq<char>, col: int)
    requires
        all_plain(y),
        !open_end(x),
    ensures
        w.codepoints() || !ends_joining(x) || y.len() == 0 ==> pieces_w(w, x + y, 0, col) == pieces_w(
            w,
            x,
            0,
            col,
        ) + sum_w(w, y),
        pieces_w(w, x + y, 0, col) <= pieces_w(w, x, 0, col) + sum_w(w, y),
{
    let cs = x + y;
    let n = x.len() as int;
    if n == 0 {
        assert(cs =~= Seq::<char>::empty() + y);
        lemma_pieces_tail(w, Seq::<char>::empty(), y, col);
    } else {
        let l = last_start(x, 0);
        lemma_last_start(x, 0);
        lemma_last_reach(x, 0);
        assert(cs.take(n) =~= x);
        lemma_reach_prefix(cs, n, 0, l);
        lemma_pieces_split(w, x, l, 0, col);
        lemma_pieces_split(w, cs, l, 0, col);
        assert(cs.take(l) =~= x.take(l));
        let c = col + pieces_w(w, x.take(l), 0, col);
        lemma_piece_prefix(cs, n, l);
        lemma_piece_bounds(cs, l);
        if piece_is_escape(x, l) {
            lemma_terminated_stable(cs, n, l);
            lemma_pieces_tail(w, x, y, c);
            assert(piece_end(cs, l) == n);
            assert(pieces_w(w, cs, l, c) == pieces_w(w, cs, n, c));
            assert(pieces_w(w, x, l, c) == pieces_w(w, x, n, c));
        } else {
            lemma_text_end_prefix(cs, n, l + 1);
            lemma_text_bounds(cs, l + 1);
            assert forall|q: int| n <= q < cs.len() implies !starts_escape(#[trigger] cs[q]) by {
                assert(cs[q] == y[q - n]);
                assert(plain(y[q - n]));
                lemma_plain_no_escape(y[q - n]);
            }
            lemma_text_end_clear(cs, n);
            lemma_text_end_skip(cs, l + 1, n);
            let t = x.subrange(l, n);
            assert(cs.subrange(l, cs.len() as int) =~= t + y);
            assert(t.last() == x.last());
            lemma_text_append(w, t, y, c);
            assert(piece_end(cs, l) == cs.len());
            let a = text_w(w, t + y, c);
            assert(pieces_w(w, cs, l, c) == a + pieces_w(w, cs, cs.len() as int, c + a));
            assert(pieces_w(w, x, l, c) == text_w(w, t, c) + pieces_w(w, x, n, c + text_w(w, t, c)));
        }
    }
}

/// Plain characters appended add their widths, unless the text ends in a
/// joining character and clusters are measured; then they add at most that.
pub proof fn lemma_width_append(w: Width, x: Seq<char>, y: Seq<char>, col: int)
    requires
        all_plain(y),
        !open_end(x),
    ensures
        w.codepoints() || !ends_joining(x) || y.len() == 0 ==> width_at(w, x + y, col) == width_at(
            w,
            x,
            col,
        ) + sum_w(w, y),
        width_at(w, x + y, col) <= width_at(w, x, col) + sum_w(w, y),
{
    lemma_pieces_append(w, x, y, col);
    lemma_text_append(w, x, y, col);
}

/// With escapes recognised, a reset appended after a text that ends cleanly
/// adds no columns.
pub proof fn lemma_append_reset(w: Width, x: Seq<char>, col: int)
    requires
        w.ansi_on(),
        !open_end(x),
    ensures
        width_at(w, x + reset_seq(), col) == width_at(w, x, col),
{
    let r = reset_seq();
    let cs = x + r;
    let n = x.len() as int;
    assert(cs[n] == '\x1b' && cs[n + 1] == '[' && cs[n + 2] == '0' && cs[n + 3] == 'm');
    assert(skip_while(cs, n + 3, 0x30, 0x3F) == n + 3);
    assert(skip_while(cs, n + 2, 0x30, 0x3F) == n + 3);
    assert(skip_while(cs, n + 3, 0x20, 0x2F) == n + 3);
    assert(csi_end(cs, n + 2) == n + 4);
    assert(esc_end(cs, n) == Some(n + 4));
    assert(forall|c: int| pieces_w(w, cs, n, c) == pieces_w(w, cs, n + 4, c));
    if n == 0 {
        assert(cs.take(0) =~= x);
        assert(piece_reach(cs, 0, 0));
    } else {
        let l = last_start(x, 0);
        lemma_last_start(x, 0);
        lemma_last_reach(x, 0);
        assert(cs.take(n) =~= x);
        lemma_reach_prefix(cs, n, 0, l);
        lemma_piece_prefix(cs, n, l);
        if piece_is_escape(x, l) {
            lemma_terminated_stable(cs, n, l);
        } else {
            lemma_text_end_prefix(cs, n, l + 1);
            lemma_text_bounds(cs, l + 1);
            lemma_text_end_skip(cs, l + 1, n);
        }
        assert(piece_end(cs, l) == n);
        lemma_reach_extend(cs, 0, l, n);
    }
    assert(cs.take(n) =~= x);
    lemma_pieces_split(w, cs, n, 0, col);
}

/// Counting code points, the text splits anywhere.
pub proof fn lemma_cp_split(w: Width, x: Seq<char>, i: int, at: int, col: int)
    requires
        0 <= i <= at <= x.len(),
    ensures
        cp_text_w(w, x, i, col) == cp_text_w(w, x.take(at), i, col) + cp_text_w(
            w,
            x,
            at,
            col + cp_text_w(w, x.take(at), i, col),
        ),
    decreases at - i,
{
    if i < at {
        let t = x.take(at);
        assert(t[i] == x[i]);
        let a = if x[i] == '\t' {
            crate::measure::tab_adv(w, col)
        } else {
            char_w(w, x[i])
        };
        lemma_cp_split(w, x, i + 1, at, col + a);
    }
}

/// Counting clusters, the text splits at a cluster boundary.
pub proof fn lemma_cl_split(w: Width, x: Seq<char>, k: int, at: int, col: int)
    requires
        0 <= k <= at <= x.len(),
        at == x.len() || is_break(false, x, at),
    ensures
        cl_text_w(w, x, k, col) == cl_text_w(w, x.take(at), k, col) + cl_text_w(
            w,
            x,
            at,
            col + cl_text_w(w, x.take(at), k, col),
        ),
    decreases at - k,
{
    if k < at {
        let t = x.take(at);
        lemma_next_break(false, x, k + 1);
        lemma_next_break_prefix(false, x, at, k + 1);
        let e = cluster_end(false, x, k);
        assert(e <= at);
        assert(cluster_end(false, t, k) == e);
        assert(t.subrange(k, e) =~= x.subrange(k, e));
        let a = adv(w, x.subrange(k, e), col);
        lemma_cl_split(w, x, e, at, col + a);
    }
}

/// Dropping an unterminated escape sequence from the end never widens a text.
pub proof fn lemma_trim_width(w: Width, x: Seq<char>, col: int)
    requires
        col >= 0,
    ensures
        width_at(w, crate::ansi::trim_spec(x), col) <= width_at(w, x, col),
    decreases x.len(),
{
    if crate::ansi::has_esc(x) {
        let at = last_start(x, 0);
        if 0 <= at < x.len() && piece_is_escape(x, at) && !terminated(x.subrange(at, x.len() as int)) {
            let t = x.take(at);
            lemma_trim_width(w, t, col);
            lemma_last_start(x, 0);
            lemma_esc_bounds(x, at);
            if w.ansi_on() {
                lemma_last_reach(x, 0);
                lemma_pieces_split(w, x, at, 0, col);
                assert(forall|c: int| pieces_w(w, x, at, c) == pieces_w(w, x, x.len() as int, c));
            } else {
                crate::units::lemma_escape_is_control(x[at]);
                crate::measure::lemma_cl_text_bound(w, t, 0, col);
                crate::measure::lemma_cp_text_bound(w, t, 0, col);
                if at > 0 {
                    crate::grapheme::lemma_break_before_control(false, x, at);
                }
                lemma_cl_split(w, x, 0, at, col);
                lemma_cp_split(w, x, 0, at, col);
                crate::measure::lemma_cl_text_bound(w, x, at, col + cl_text_w(w, t, 0, col));
                crate::measure::lemma_cp_text_bound(w, x, at, col + cp_text_w(w, t, 0, col));
            }
        }
    }
}

/// Where the last piece starts, for a walk that reaches a piece running to the end.
pub proof fn lemma_last_at(cs: Seq<char>, p: int, q: int)
    requires
        0 <= p <= q < cs.len(),
        piece_reach(cs, p, q),
        piece_end(cs, q) == cs.len(),
    ensures
        last_start(cs, p) == q,
    decreases q - p,
{
    if p < q {
        lemma_piece_bounds(cs, p);
        lemma_last_at(cs, piece_end(cs, p), q);
    }
}

/// Plain characters appended leave no escape sequence open at the end.
pub proof fn lemma_append_closed(x: Seq<char>, y: Seq<char>)
    requires
        all_plain(y),
        !open_end(x),
    ensures
        !open_end(x + y),
{
    let cs = x + y;
    let n = x.len() as int;
    if y.len() == 0 {
        assert(cs =~= x);
    } else {
        assert forall|q: int| n <= q < cs.len() implies !starts_escape(#[trigger] cs[q]) by {
            assert(cs[q] == y[q - n]);
            assert(plain(y[q - n]));
            lemma_plain_no_escape(y[q - n]);
        }
        lemma_esc_bounds(cs, n);
        lemma_text_end_clear(cs, n + 1);
        lemma_text_end_clear(cs, n);
        if n == 0 {
            assert(piece_reach(cs, 0, 0));
            lemma_last_at(cs, 0, 0);
        } else {
            let l = last_start(x, 0);
            lemma_last_start(x, 0);
            lemma_last_reach(x, 0);
            assert(cs.take(n) =~= x);
            lemma_reach_prefix(cs, n, 0, l);
            lemma_piece_prefix(cs, n, l);
            if piece_is_escape(x, l) {
                lemma_terminated_stable(cs, n, l);
                lemma_reach_extend(cs, 0, l, n);
                lemma_last_at(cs, 0, n);
            } else {
                lemma_text_end_prefix(cs, n, l + 1);
                lemma_text_bounds(cs, l + 1);
                lemma_text_end_skip(cs, l + 1, n);
                lemma_last_at(cs, 0, l);
            }
        }
    }
}

/// Trimming twice is trimming once.
pub proof fn lemma_trim_idem(x: Seq<char>)
    ensures
        crate::ansi::trim_spec(crate::ansi::trim_spec(x)) == crate::ansi::trim_spec(x),
    decreases x.len(),
{
    if crate::ansi::has_esc(x) {
        let at = last_start(x, 0);
        if 0 <= at < x.len() && piece_is_escape(x, at) && !terminated(x.subrange(at, x.len() as int)) {
            lemma_trim_idem(x.take(at));
        }
    }
}

/// A trimmed text ends with no escape sequence open.
pub proof fn lemma_trim_closed(x: Seq<char>)
    ensures
        !open_end(crate::ansi::trim_spec(x)),
{
    lemma_trim_idem(x);
    lemma_trimmed_closed(crate::ansi::trim_spec(x));
}

/// `n` spaces are plain and `n` columns wide.
pub proof fn lemma_spaces(w: Width, n: int)
    requires
        n >= 0,
    ensures
        all_plain(crate::fit::spaces(n)),
        sum_w(w, crate::fit::spaces(n)) == n,
    decreases n,
{
    lemma_space_plain();
    crate::tables::lemma_ascii_props(0x20);
    if n > 0 {
        lemma_spaces(w, n - 1);
        assert(crate::fit::spaces(n).drop_last() =~= crate::fit::spaces(n - 1));
    }
}

/// A text of plain characters is as wide as the sum of its characters.
pub proof fn lemma_plain_width(w: Width, y: Seq<char>, col: int)
    requires
        all_plain(y),
    ensures
        width_at(w, y, col) == sum_w(w, y),
{
    let e = Seq::<char>::empty();
    assert(e + y =~= y);
    lemma_width_append(w, e, y, col);
    assert(last_start(e, 0) == 0);
}

} // verus!
