//! The width of two texts put together.
//!
//! Where a cluster boundary is sure to fall between them, and the first does
//! not end inside an escape sequence left open, the width of the two together
//! is the width of the first plus the width of the second, measured from
//! where the first ends.

use vstd::prelude::*;

use crate::ansi::{
    last_start, lemma_esc_bounds, lemma_last_start, lemma_piece_bounds, lemma_piece_prefix, lemma_text_bounds,
    lemma_text_end_prefix, piece_end, piece_is_escape, starts_escape, text_end,
};
use crate::append::{
    ends_joining, lemma_last_reach, lemma_last_at, lemma_pieces_split, lemma_reach_extend,
    lemma_reach_prefix, lemma_terminated_stable, lemma_text_end_skip, open_end, piece_reach,
    lemma_cl_split, lemma_cp_split,
};
use crate::grapheme::{extend_like, gcb_of, is_break, lemma_run_state_prev, run_state, Gcb};
use crate::measure::{adv, cl_text_w, cp_text_w, pieces_w, text_w, width_at, Width};
use crate::shift::{
    lemma_cl_shift, lemma_cp_shift, lemma_last_start_shift, lemma_piece_shift, lemma_pieces_shift,
    lemma_text_end_shift,
};

verus! {

/// A character that attaches to whatever precedes it, even a plain character
/// (UAX #29, rules GB9 and GB9a).
pub open spec fn joins_back(c: char) -> bool {
    extend_like(gcb_of(c)) || gcb_of(c) == Gcb::SpacingMark
}

/// Whether a cluster boundary is sure to fall where `y` follows `x`: one of
/// them is empty, or an ordinary character meets one that does not attach
/// to it, or a control character follows or precedes.
pub open spec fn clean_junction(x: Seq<char>, y: Seq<char>) -> bool {
    ||| x.len() == 0
    ||| y.len() == 0
    ||| gcb_of(x.last()) == Gcb::Other && !joins_back(y[0])
    ||| !ends_joining(x) && gcb_of(y[0]) == Gcb::Other
    ||| gcb_of(y[0]) == Gcb::Control
    ||| gcb_of(x.last()) == Gcb::Control
}

/// A clean junction is a cluster boundary.
pub proof fn lemma_junction_break(x: Seq<char>, y: Seq<char>)
    requires
        x.len() > 0,
        y.len() > 0,
        clean_junction(x, y),
    ensures
        is_break(false, x + y, x.len() as int),
{
    let cs = x + y;
    let j = x.len() as int;
    lemma_run_state_prev(false, cs, j);
    assert(cs[j - 1] == x.last());
    assert(cs[j] == y[0]);
    assert(run_state(false, cs, j) == crate::grapheme::step(run_state(false, cs, j - 1), gcb_of(cs[j - 1])).0);
}

/// The segmentation of any non-empty text starts with a boundary.
pub proof fn lemma_break_at_start(cs: Seq<char>)
    requires
        cs.len() > 0,
    ensures
        is_break(false, cs, 0),
{
    assert(run_state(false, cs, 0) == crate::grapheme::breaker_init(false));
}

/// Text without escape sequences, split at a cluster boundary: the width of
/// the whole is the width of the head plus the width of the tail where the
/// head ends.
pub proof fn lemma_text_concat(w: Width, x: Seq<char>, y: Seq<char>, col: int)
    requires
        x.len() == 0 || y.len() == 0 || is_break(false, x + y, x.len() as int),
    ensures
        text_w(w, x + y, col) == text_w(w, x, col) + text_w(w, y, col + text_w(w, x, col)),
{
    let cs = x + y;
    let n = x.len() as int;
    assert(cs.take(n) =~= x);
    assert(cs.subrange(n, cs.len() as int) =~= y);
    if n == 0 && y.len() > 0 {
        lemma_break_at_start(cs);
    }
    lemma_cp_split(w, cs, 0, n, col);
    lemma_cp_shift(w, cs, n, 0, cp_text_w(w, x, 0, col) + col);
    lemma_cl_split(w, cs, 0, n, col);
    lemma_cl_shift(w, cs, n, 0, cl_text_w(w, x, 0, col) + col);
}

/// The walk from `p` that reaches `q` ends at the last piece from `q`.
pub proof fn lemma_last_via(cs: Seq<char>, p: int, q: int)
    requires
        0 <= p <= q < cs.len(),
        piece_reach(cs, p, q),
    ensures
        last_start(cs, p) == last_start(cs, q),
    decreases q - p,
{
    if p < q {
        lemma_piece_bounds(cs, p);
        lemma_last_via(cs, piece_end(cs, p), q);
    }
}

/// How the pieces of `x + y` run across the junction, when `x` ends cleanly
/// and both are non-empty: the last piece of `x` starts at `l`, and the
/// walk from it reaches either the junction or the end of the first piece
/// of `y`, the two runs of text having merged.
pub proof fn lemma_junction_pieces(x: Seq<char>, y: Seq<char>)
    requires
        !open_end(x),
        x.len() > 0,
        y.len() > 0,
    ensures
        ({
            let cs = x + y;
            let n = x.len() as int;
            let l = last_start(x, 0);
            &&& 0 <= l < n
            &&& piece_reach(cs, 0, l)
            &&& piece_reach(x, 0, l)
            &&& piece_end(x, l) == n
            &&& piece_is_escape(cs, l) == piece_is_escape(x, l)
            &&& (piece_is_escape(x, l) || starts_escape(y[0])) ==> piece_end(cs, l) == n
            &&& (!piece_is_escape(x, l) && !starts_escape(y[0])) ==> ({
                let ey = piece_end(y, 0);
                &&& !piece_is_escape(y, 0)
                &&& 0 < ey <= y.len()
                &&& piece_end(cs, l) == n + ey
            })
        }),
{
    let cs = x + y;
    let n = x.len() as int;
    let l = last_start(x, 0);
    lemma_last_start(x, 0);
    lemma_last_reach(x, 0);
    assert(cs.take(n) =~= x);
    lemma_reach_prefix(cs, n, 0, l);
    lemma_piece_prefix(cs, n, l);
    lemma_piece_bounds(cs, l);
    lemma_piece_bounds(x, l);
    assert(cs[n] == y[0]);
    lemma_esc_bounds(y, 0);
    lemma_piece_bounds(y, 0);
    if piece_is_escape(x, l) {
        lemma_terminated_stable(cs, n, l);
    } else {
        lemma_text_end_prefix(cs, n, l + 1);
        lemma_text_bounds(cs, l + 1);
        lemma_text_end_skip(cs, l + 1, n);
        lemma_text_end_shift(cs, n, 0);
        assert(cs.subrange(n, cs.len() as int) =~= y);
        if !starts_escape(y[0]) {
            assert(text_end(y, 0) == text_end(y, 1));
        }
    }
}

/// With escapes recognised: the pieces of `x + y` measure as those of `x`
/// and then those of `y` from where `x` ends.
pub proof fn lemma_pieces_concat(w: Width, x: Seq<char>, y: Seq<char>, col: int)
    requires
        !open_end(x),
        clean_junction(x, y),
    ensures
        pieces_w(w, x + y, 0, col) == pieces_w(w, x, 0, col) + pieces_w(w, y, 0, col + pieces_w(w, x, 0, col)),
{
    let cs = x + y;
    let n = x.len() as int;
    if n == 0 {
        assert(cs =~= y);
    } else if y.len() == 0 {
        assert(cs =~= x);
    } else {
        lemma_junction_pieces(x, y);
        let l = last_start(x, 0);
        lemma_pieces_split(w, x, l, 0, col);
        lemma_pieces_split(w, cs, l, 0, col);
        assert(cs.take(l) =~= x.take(l));
        let c = col + pieces_w(w, x.take(l), 0, col);
        assert(cs.subrange(n, cs.len() as int) =~= y);
        if piece_is_escape(x, l) {
            assert(pieces_w(w, cs, l, c) == pieces_w(w, cs, n, c));
            assert(pieces_w(w, x, l, c) == pieces_w(w, x, n, c));
            lemma_pieces_shift(w, cs, n, 0, c);
        } else {
            let t = x.subrange(l, n);
            let a = text_w(w, t, c);
            assert(pieces_w(w, x, l, c) == a + pieces_w(w, x, n, c + a));
            if starts_escape(y[0]) {
                assert(cs.subrange(l, n) =~= t);
                assert(pieces_w(w, cs, l, c) == a + pieces_w(w, cs, n, c + a));
                lemma_pieces_shift(w, cs, n, 0, c + a);
            } else {
                let ey = piece_end(y, 0);
                let u = y.subrange(0, ey);
                assert(cs.subrange(l, n + ey) =~= t + u);
                assert(t.last() == x.last());
                assert(u[0] == y[0]);
                assert(clean_junction(t, u));
                lemma_junction_break(t, u);
                lemma_text_concat(w, t, u, c);
                let b = text_w(w, u, c + a);
                assert(pieces_w(w, cs, l, c) == (a + b) + pieces_w(w, cs, n + ey, c + a + b));
                assert(pieces_w(w, y, 0, c + a) == b + pieces_w(w, y, ey, c + a + b));
                lemma_pieces_shift(w, cs, n, ey, c + a + b);
            }
        }
    }
}

/// The width of `x + y` is the width of `x` plus the width of `y` from where
/// `x` ends, when `x` leaves no escape sequence open and a cluster boundary
/// is sure to fall between them.
pub proof fn lemma_width_concat(w: Width, x: Seq<char>, y: Seq<char>, col: int)
    requires
        !open_end(x),
        clean_junction(x, y),
    ensures
        width_at(w, x + y, col) == width_at(w, x, col) + width_at(w, y, col + width_at(w, x, col)),
{
    if w.ansi_on() {
        lemma_pieces_concat(w, x, y, col);
    } else {
        if x.len() > 0 && y.len() > 0 {
            lemma_junction_break(x, y);
        }
        lemma_text_concat(w, x, y, col);
    }
}

/// Two texts that each end with no escape sequence open, put together, end
/// with none open.
pub proof fn lemma_concat_closed(x: Seq<char>, y: Seq<char>)
    requires
        !open_end(x),
        !open_end(y),
    ensures
        !open_end(x + y),
{
    let cs = x + y;
    let n = x.len() as int;
    if n == 0 {
        assert(cs =~= y);
    } else if y.len() == 0 {
        assert(cs =~= x);
    } else {
        lemma_junction_pieces(x, y);
        let l = last_start(x, 0);
        assert(cs.subrange(n, cs.len() as int) =~= y);
        lemma_last_start(y, 0);
        if piece_is_escape(x, l) || starts_escape(y[0]) {
            lemma_reach_extend(cs, 0, l, n);
            lemma_last_via(cs, 0, n);
            lemma_last_start_shift(cs, n, 0);
        } else {
            let ey = piece_end(y, 0);
            if ey == y.len() {
                lemma_last_at(cs, 0, l);
            } else {
                lemma_reach_extend(cs, 0, l, n + ey);
                lemma_last_via(cs, 0, n + ey);
                lemma_last_start_shift(cs, n, ey);
                assert(last_start(y, 0) == last_start(y, ey));
            }
        }
        let ly = last_start(y, 0);
        lemma_piece_shift(cs, n, ly);
        assert(cs.subrange(n + ly, cs.len() as int) =~= y.subrange(ly, y.len() as int));
    }
}

// ---------------------------------------------------------------------------
// Texts without tabs.

/// Without a tab, counting code points does not depend on the column.
pub proof fn lemma_cp_no_tab(w: Width, cs: Seq<char>, i: int, c1: int, c2: int)
    requires
        forall|q: int| 0 <= q < cs.len() ==> cs[q] != '\t',
    ensures
        cp_text_w(w, cs, i, c1) == cp_text_w(w, cs, i, c2),
    decreases cs.len() - i,
{
    if 0 <= i < cs.len() {
        let a = crate::measure::char_w(w, cs[i]);
        lemma_cp_no_tab(w, cs, i + 1, c1 + a, c2 + a);
    }
}

/// Without a tab, counting clusters does not depend on the column.
pub proof fn lemma_cl_no_tab(w: Width, cs: Seq<char>, k: int, c1: int, c2: int)
    requires
        forall|q: int| 0 <= q < cs.len() ==> cs[q] != '\t',
    ensures
        cl_text_w(w, cs, k, c1) == cl_text_w(w, cs, k, c2),
    decreases cs.len() - k,
{
    if 0 <= k < cs.len() {
        crate::grapheme::lemma_cluster_bounds(false, cs, k);
        let e = crate::grapheme::cluster_end(false, cs, k);
        let cl = cs.subrange(k, e);
        crate::units::lemma_adv_no_tab(w, cl, c1);
        crate::units::lemma_adv_no_tab(w, cl, c2);
        let a = adv(w, cl, 0);
        lemma_cl_no_tab(w, cs, e, c1 + a, c2 + a);
    }
}

/// Without a tab, measuring the pieces does not depend on the column.
pub proof fn lemma_pieces_no_tab(w: Width, cs: Seq<char>, k: int, c1: int, c2: int)
    requires
        forall|q: int| 0 <= q < cs.len() ==> cs[q] != '\t',
    ensures
        pieces_w(w, cs, k, c1) == pieces_w(w, cs, k, c2),
    decreases cs.len() - k,
{
    if 0 <= k < cs.len() {
        lemma_piece_bounds(cs, k);
        let e = piece_end(cs, k);
        let t = cs.subrange(k, e);
        lemma_cp_no_tab(w, t, 0, c1, c2);
        lemma_cl_no_tab(w, t, 0, c1, c2);
        let a = text_w(w, t, c1);
        if piece_is_escape(cs, k) {
            lemma_pieces_no_tab(w, cs, e, c1, c2);
        } else {
            lemma_pieces_no_tab(w, cs, e, c1 + a, c2 + a);
        }
    }
}

/// Without a tab, a text is as wide wherever it starts.
pub proof fn lemma_width_no_tab(w: Width, cs: Seq<char>, c1: int, c2: int)
    requires
        forall|q: int| 0 <= q < cs.len() ==> cs[q] != '\t',
    ensures
        width_at(w, cs, c1) == width_at(w, cs, c2),
{
    lemma_pieces_no_tab(w, cs, 0, c1, c2);
    lemma_cp_no_tab(w, cs, 0, c1, c2);
    lemma_cl_no_tab(w, cs, 0, c1, c2);
}

} // verus!
