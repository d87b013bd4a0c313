//! How a width splits over the units of a text.
//!
//! A unit is what a cut may not split: an escape sequence, when escapes are
//! recognised, and otherwise a grapheme cluster, segmented afresh from where it
//! starts. Scanning unit by unit is what [`Width::truncate`] does. The lemmas
//! here show that the width of any prefix reached that way is the sum of the
//! widths of its units, which is what makes a cut fit its budget.

use vstd::prelude::*;

use crate::ansi::{
    esc_end, lemma_esc_bounds, lemma_piece_bounds, lemma_piece_prefix, lemma_text_bounds, min_int,
    piece_end, piece_is_escape, starts_escape, text_end,
};
use crate::grapheme::{
    cluster_end, clusters_from, gcb_of, is_break, lemma_break_before_control, lemma_cluster_bounds,
    lemma_next_break, lemma_next_break_prefix, lemma_no_control_inside, lemma_restart, next_break, Gcb,
};
use crate::measure::{
    adv, char_w, cl_text_w, cp_text_w, lemma_fresh_cluster, pieces_w, sum_w, text_w, trunc_end, width_at,
    width_of, Width,
};

verus! {

/// Whether the unit starting at `i` is an escape sequence.
pub open spec fn is_esc_unit(w: Width, cs: Seq<char>, i: int) -> bool {
    w.ansi_on() && esc_end(cs, i) is Some
}

/// Where the unit starting at `i` ends.
pub open spec fn unit_end(w: Width, cs: Seq<char>, i: int) -> int {
    if is_esc_unit(w, cs, i) {
        esc_end(cs, i)->Some_0
    } else {
        i + cluster_end(false, cs.subrange(i, cs.len() as int), 0)
    }
}

/// Columns the unit starting at `i` takes at column `col`: none for an escape sequence.
pub open spec fn unit_w(w: Width, cs: Seq<char>, i: int, col: int) -> int {
    if is_esc_unit(w, cs, i) {
        0
    } else {
        adv(w, cs.subrange(i, unit_end(w, cs, i)), col)
    }
}

/// Whether scanning unit by unit from `i` lands exactly on `k`.
pub open spec fn reach(w: Width, cs: Seq<char>, i: int, k: int) -> bool
    decreases k - i,
{
    if i == k {
        true
    } else if 0 <= i < k && i < cs.len() {
        let e = unit_end(w, cs, i);
        if e <= i || e > k {
            false
        } else {
            reach(w, cs, e, k)
        }
    } else {
        false
    }
}

/// Columns the units from `i` up to `k` take, starting at column `col`.
pub open spec fn units_w(w: Width, cs: Seq<char>, i: int, k: int, col: int) -> int
    decreases k - i,
{
    if 0 <= i < k && i < cs.len() {
        let e = unit_end(w, cs, i);
        if e <= i || e > k {
            0
        } else {
            let a = unit_w(w, cs, i, col);
            a + units_w(w, cs, e, k, col + a)
        }
    } else {
        0
    }
}

/// A unit holds at least one character and stays in the text.
pub proof fn lemma_unit_bounds(w: Width, cs: Seq<char>, i: int)
    requires
        0 <= i < cs.len(),
    ensures
        i < unit_end(w, cs, i) <= cs.len(),
{
    lemma_esc_bounds(cs, i);
    lemma_fresh_cluster(cs, i);
}

/// Every character that can begin an escape sequence is a control character
/// to grapheme segmentation, so a cluster never runs into one.
pub proof fn lemma_escape_is_control(c: char)
    requires
        starts_escape(c),
    ensures
        gcb_of(c) == Gcb::Control,
{
    if c == '\x1b' {
        crate::tables::lemma_ascii_props(c as u32);
    } else {
        crate::tables::lemma_c1_control(c as u32);
    }
}

/// A tab is a control character to grapheme segmentation.
pub proof fn lemma_tab_is_control()
    ensures
        gcb_of('\t') == Gcb::Control,
{
    crate::tables::lemma_ascii_props(9);
}

// ---------------------------------------------------------------------------
// Counting code points over a cluster.

/// The sum over one character.
pub proof fn lemma_sum_w_one(w: Width, c: char)
    ensures
        sum_w(w, seq![c]) == char_w(w, c),
{
    assert(seq![c].drop_last() =~= Seq::<char>::empty());
    assert(sum_w(w, Seq::<char>::empty()) == 0);
    assert(seq![c].last() == c);
}

/// Counting code points from `m` to `j` with no tab among them: the column
/// advances by the sum of the character widths.
pub proof fn lemma_cp_run(w: Width, t: Seq<char>, m: int, j: int, col: int)
    requires
        0 <= m <= j <= t.len(),
        forall|q: int| m <= q < j ==> t[q] != '\t',
    ensures
        cp_text_w(w, t, m, col) == sum_w(w, t.subrange(m, j)) + cp_text_w(
            w,
            t,
            j,
            col + sum_w(w, t.subrange(m, j)),
        ),
    decreases j - m,
{
    if j == m {
        assert(t.subrange(m, j) =~= Seq::<char>::empty());
    } else {
        lemma_cp_run(w, t, m, j - 1, col);
        let s = sum_w(w, t.subrange(m, j - 1));
        assert(t.subrange(m, j).drop_last() =~= t.subrange(m, j - 1));
        assert(t.subrange(m, j).last() == t[j - 1]);
    }
}

/// Counting code points, a grapheme cluster advances the column by its
/// advance: a tab is a cluster of its own, and the rest add up.
pub proof fn lemma_cp_cluster(w: Width, t: Seq<char>, m: int, col: int)
    requires
        w.codepoints(),
        0 <= m < t.len(),
    ensures
        cp_text_w(w, t, m, col) == adv(w, t.subrange(m, cluster_end(false, t, m)), col) + cp_text_w(
            w,
            t,
            cluster_end(false, t, m),
            col + adv(w, t.subrange(m, cluster_end(false, t, m)), col),
        ),
{
    lemma_cluster_bounds(false, t, m);
    let e = cluster_end(false, t, m);
    let cl = t.subrange(m, e);
    if e == m + 1 {
        lemma_sum_w_one(w, t[m]);
        assert(cl =~= seq![t[m]]);
        assert(cp_text_w(w, t, m + 1, col + adv(w, cl, col)) == cp_text_w(w, t, e, col + adv(w, cl, col)));
    } else {
        lemma_tab_is_control();
        assert forall|q: int| m <= q < e implies t[q] != '\t' by {
            lemma_no_control_inside(false, t, m, q);
        }
        lemma_cp_run(w, t, m, e, col);
    }
}

// ---------------------------------------------------------------------------
// The units of a run of text are its grapheme clusters.

/// Within a run of text `cs[p..e]` that holds no escape sequence (or when
/// escapes are not recognised), and that ends at the cut `k` or before a
/// control character, the units are the run's grapheme clusters: from a
/// cluster start `m` of the run, measuring the rest of the run and then the
/// units after it is measuring the units from `p + m`.
pub proof fn lemma_run_units(w: Width, cs: Seq<char>, p: int, e: int, k: int, m: int, col: int)
    requires
        0 <= p <= e <= k <= cs.len(),
        e == k || (e < cs.len() && gcb_of(cs[e]) == Gcb::Control),
        forall|q: int| p <= q < e ==> !is_esc_unit(w, cs, q),
        0 <= m <= e - p,
        m == 0 || m == e - p || is_break(false, cs.subrange(p, e), m),
        reach(w, cs, p + m, k),
    ensures
        reach(w, cs, e, k),
        (if w.codepoints() {
            cp_text_w(w, cs.subrange(p, e), m, col)
        } else {
            cl_text_w(w, cs.subrange(p, e), m, col)
        }) + units_w(
            w,
            cs,
            e,
            k,
            col + (if w.codepoints() {
                cp_text_w(w, cs.subrange(p, e), m, col)
            } else {
                cl_text_w(w, cs.subrange(p, e), m, col)
            }),
        ) == units_w(w, cs, p + m, k, col),
    decreases e - p - m,
{
    let t = cs.subrange(p, e);
    let tw = if w.codepoints() {
        cp_text_w(w, t, m, col)
    } else {
        cl_text_w(w, t, m, col)
    };
    if m == e - p {
    } else {
        let i = p + m;
        let u = cs.subrange(i, cs.len() as int);
        lemma_unit_bounds(w, cs, i);
        lemma_fresh_cluster(cs, i);
        // The run, segmented from `m`, ends its cluster where `u`, segmented
        // afresh, does: the run is a prefix of `u` cut at a boundary.
        lemma_restart(t, m);
        let tm = t.subrange(m, t.len() as int);
        assert(tm =~= u.take(e - i));
        lemma_next_break_prefix(false, u, e - i, 1);
        lemma_next_break(false, u, 1);
        if e < k {
            assert(u[e - i] == cs[e]);
            lemma_break_before_control(false, u, e - i);
        } else {
            assert(unit_end(w, cs, i) <= k);
        }
        let ce = cluster_end(false, t, m);
        assert(ce == m + cluster_end(false, u, 0));
        assert(unit_end(w, cs, i) == p + ce);
        let cl = t.subrange(m, ce);
        assert(cl =~= cs.subrange(i, unit_end(w, cs, i)));
        let a = adv(w, cl, col);
        assert(unit_w(w, cs, i, col) == a);
        lemma_cluster_bounds(false, t, m);
        if ce < e - p {
            lemma_next_break(false, t, m + 1);
        }
        assert(units_w(w, cs, i, k, col) == a + units_w(w, cs, p + ce, k, col + a));
        lemma_run_units(w, cs, p, e, k, ce, col + a);
        if w.codepoints() {
            lemma_cp_cluster(w, t, m, col);
        }
    }
}

/// Within a run of text `cs[p..e]` that holds no escape sequence and ends at
/// the end of the text or before a control character, scanning unit by unit
/// from a cluster start of the run lands on the run's end.
pub proof fn lemma_run_reach(w: Width, cs: Seq<char>, p: int, e: int, m: int)
    requires
        0 <= p <= e <= cs.len(),
        e == cs.len() || gcb_of(cs[e]) == Gcb::Control,
        forall|q: int| p <= q < e ==> !is_esc_unit(w, cs, q),
        0 <= m <= e - p,
        m == 0 || m == e - p || is_break(false, cs.subrange(p, e), m),
    ensures
        reach(w, cs, p + m, e),
    decreases e - p - m,
{
    let t = cs.subrange(p, e);
    if m < e - p {
        let i = p + m;
        let u = cs.subrange(i, cs.len() as int);
        lemma_unit_bounds(w, cs, i);
        lemma_fresh_cluster(cs, i);
        lemma_restart(t, m);
        let tm = t.subrange(m, t.len() as int);
        assert(tm =~= u.take(e - i));
        lemma_next_break_prefix(false, u, e - i, 1);
        lemma_next_break(false, u, 1);
        if e < cs.len() {
            assert(u[e - i] == cs[e]);
            lemma_break_before_control(false, u, e - i);
        }
        let ce = cluster_end(false, t, m);
        assert(ce == m + cluster_end(false, u, 0));
        assert(unit_end(w, cs, i) == p + ce);
        lemma_cluster_bounds(false, t, m);
        if ce < e - p {
            lemma_next_break(false, t, m + 1);
        }
        lemma_run_reach(w, cs, p, e, ce);
    }
}

/// Scanning from `i` to `j` and then from `j` to `k` is scanning from `i` to `k`.
pub proof fn lemma_reach_trans(w: Width, cs: Seq<char>, i: int, j: int, k: int)
    requires
        reach(w, cs, i, j),
        reach(w, cs, j, k),
    ensures
        reach(w, cs, i, k),
    decreases j - i,
{
    if i != j {
        lemma_reach_trans(w, cs, unit_end(w, cs, i), j, k);
    }
}

/// With escapes recognised, every piece boundary is a unit boundary: the
/// scan unit by unit passes through the start of every piece.
pub proof fn lemma_pieces_reach(w: Width, cs: Seq<char>, p: int, o: int)
    requires
        w.ansi_on(),
        0 <= p <= o <= cs.len(),
        crate::append::piece_reach(cs, p, o),
    ensures
        reach(w, cs, p, o),
    decreases o - p,
{
    if p < o {
        lemma_piece_bounds(cs, p);
        lemma_esc_bounds(cs, p);
        lemma_unit_bounds(w, cs, p);
        let e = piece_end(cs, p);
        lemma_pieces_reach(w, cs, e, o);
        if piece_is_escape(cs, p) {
            assert(unit_end(w, cs, p) == e);
            assert(reach(w, cs, e, e));
        } else {
            lemma_text_bounds(cs, p + 1);
            crate::ansi::lemma_text_end_stops(cs, p + 1);
            if e < cs.len() {
                assert(e == text_end(cs, p + 1));
                lemma_escape_is_control(cs[e]);
            }
            assert forall|q: int| p <= q < e implies !is_esc_unit(w, cs, q) by {
                lemma_esc_bounds(cs, q);
            }
            lemma_run_reach(w, cs, p, e, 0);
        }
        lemma_reach_trans(w, cs, p, e, o);
    }
}

// ---------------------------------------------------------------------------
// The width of a prefix reached unit by unit.

/// Measuring the pieces of the prefix `cs.take(k)` from piece start `p` is
/// measuring the units from `p` to `k`.
pub proof fn lemma_pieces_units(w: Width, cs: Seq<char>, k: int, p: int, col: int)
    requires
        w.ansi_on(),
        0 <= p <= k <= cs.len(),
        reach(w, cs, p, k),
    ensures
        pieces_w(w, cs.take(k), p, col) == units_w(w, cs, p, k, col),
    decreases k - p,
{
    let x = cs.take(k);
    if p < k {
        lemma_piece_prefix(cs, k, p);
        lemma_piece_bounds(cs, p);
        lemma_piece_bounds(x, p);
        lemma_esc_bounds(cs, p);
        lemma_unit_bounds(w, cs, p);
        let e = piece_end(x, p);
        if piece_is_escape(cs, p) {
            assert(unit_end(w, cs, p) == piece_end(cs, p));
            assert(e == unit_end(w, cs, p));
            lemma_pieces_units(w, cs, k, e, col);
        } else {
            lemma_text_bounds(cs, p + 1);
            crate::ansi::lemma_text_end_stops(cs, p + 1);
            if e < k {
                assert(e == text_end(cs, p + 1));
                lemma_escape_is_control(cs[e]);
            }
            assert forall|q: int| p <= q < e implies !is_esc_unit(w, cs, q) by {
                lemma_esc_bounds(cs, q);
            }
            assert(x.subrange(p, e) =~= cs.subrange(p, e));
            lemma_run_units(w, cs, p, e, k, 0, col);
            let a = text_w(w, cs.subrange(p, e), col);
            lemma_pieces_units(w, cs, k, e, col + a);
        }
    }
}

/// The width of a prefix reached unit by unit is the sum of its units' widths.
pub proof fn lemma_prefix_width(w: Width, cs: Seq<char>, k: int, col: int)
    requires
        0 <= k <= cs.len(),
        reach(w, cs, 0, k),
    ensures
        width_at(w, cs.take(k), col) == units_w(w, cs, 0, k, col),
{
    if w.ansi_on() {
        lemma_pieces_units(w, cs, k, 0, col);
    } else {
        assert(cs.take(k) =~= cs.subrange(0, k));
        lemma_run_units(w, cs, 0, k, k, 0, col);
    }
}

/// One more unit: the scan reaches its end, and its width adds on.
pub proof fn lemma_units_step(w: Width, cs: Seq<char>, i: int, k: int, col: int)
    requires
        0 <= i <= k < cs.len(),
        reach(w, cs, i, k),
    ensures
        reach(w, cs, i, unit_end(w, cs, k)),
        units_w(w, cs, i, unit_end(w, cs, k), col) == units_w(w, cs, i, k, col) + unit_w(
            w,
            cs,
            k,
            col + units_w(w, cs, i, k, col),
        ),
    decreases k - i,
{
    lemma_unit_bounds(w, cs, k);
    let e = unit_end(w, cs, k);
    assert(reach(w, cs, e, e));
    assert(units_w(w, cs, e, e, col + units_w(w, cs, i, k, col) + unit_w(w, cs, k, col + units_w(w, cs, i, k, col))) == 0);
    if i < k {
        lemma_unit_bounds(w, cs, i);
        let ei = unit_end(w, cs, i);
        let a = unit_w(w, cs, i, col);
        lemma_units_step(w, cs, ei, k, col + a);
        assert(units_w(w, cs, i, k, col) == a + units_w(w, cs, ei, k, col + a));
        assert(units_w(w, cs, i, e, col) == a + units_w(w, cs, ei, e, col + a));
    } else {
        assert(units_w(w, cs, k, k, col) == 0);
        assert(units_w(w, cs, k, e, col) == unit_w(w, cs, k, col) + units_w(w, cs, e, e, col + unit_w(w, cs, k, col)));
    }
}

/// The scan of [`Width::truncate`] stops at a unit boundary within budget,
/// and it stops only at a cluster that would not fit.
pub proof fn lemma_trunc_units(w: Width, cs: Seq<char>, i: int, col: int, max: int)
    requires
        0 <= i <= cs.len(),
        col <= max,
    ensures
        reach(w, cs, i, trunc_end(w, cs, i, col, max)),
        col + units_w(w, cs, i, trunc_end(w, cs, i, col, max), col) <= max,
        trunc_end(w, cs, i, col, max) < cs.len() ==> ({
            let k = trunc_end(w, cs, i, col, max);
            let c = col + units_w(w, cs, i, k, col);
            &&& !is_esc_unit(w, cs, k)
            &&& c + unit_w(w, cs, k, c) > max
        }),
    decreases cs.len() - i,
{
    if i < cs.len() {
        lemma_esc_bounds(cs, i);
        lemma_fresh_cluster(cs, i);
        lemma_unit_bounds(w, cs, i);
        let e = unit_end(w, cs, i);
        if is_esc_unit(w, cs, i) {
            lemma_trunc_units(w, cs, e, col, max);
            crate::measure::lemma_trunc_bounds(w, cs, e, col, max);
        } else {
            let a = unit_w(w, cs, i, col);
            if col + a <= max {
                lemma_trunc_units(w, cs, e, col + a, max);
                crate::measure::lemma_trunc_bounds(w, cs, e, col + a, max);
            }
        }
    }
}

/// [`Width::truncate`] keeps the longest prefix that fits: what it keeps is
/// at most `max` columns wide, and with the grapheme cluster that follows it
/// would be wider than `max`.
pub proof fn lemma_truncate_fits(w: Width, cs: Seq<char>, max: int)
    requires
        max >= 0,
    ensures
        0 <= trunc_end(w, cs, 0, 0, max) <= cs.len(),
        width_of(w, cs.take(trunc_end(w, cs, 0, 0, max))) <= max,
        trunc_end(w, cs, 0, 0, max) < cs.len() ==> ({
            let k = trunc_end(w, cs, 0, 0, max);
            width_of(w, cs.take(k + cluster_end(false, cs.subrange(k, cs.len() as int), 0))) > max
        }),
{
    crate::measure::lemma_trunc_bounds(w, cs, 0, 0, max);
    lemma_trunc_units(w, cs, 0, 0, max);
    let k = trunc_end(w, cs, 0, 0, max);
    lemma_prefix_width(w, cs, k, 0);
    if k < cs.len() {
        lemma_units_step(w, cs, 0, k, 0);
        let e = unit_end(w, cs, k);
        lemma_unit_bounds(w, cs, k);
        lemma_prefix_width(w, cs, e, 0);
    }
}

/// Scanning unit by unit from any point reaches the end of the text.
pub proof fn lemma_reach_end(w: Width, cs: Seq<char>, i: int)
    requires
        0 <= i <= cs.len(),
    ensures
        reach(w, cs, i, cs.len() as int),
    decreases cs.len() - i,
{
    if i < cs.len() {
        lemma_unit_bounds(w, cs, i);
        lemma_reach_end(w, cs, unit_end(w, cs, i));
    }
}

/// Scanning is deterministic: of two points reached from `i`, the later one is
/// reached from the earlier.
pub proof fn lemma_reach_between(w: Width, cs: Seq<char>, i: int, a: int, b: int)
    requires
        reach(w, cs, i, a),
        reach(w, cs, i, b),
        a <= b,
    ensures
        reach(w, cs, a, b),
    decreases a - i,
{
    if i != a {
        let e = unit_end(w, cs, i);
        lemma_reach_between(w, cs, e, a, b);
    }
}

/// A point reached from the start never falls inside a unit that starts
/// before it: every escape sequence and cluster it passes ends by then.
pub proof fn lemma_reach_whole_units(w: Width, cs: Seq<char>, k: int)
    requires
        reach(w, cs, 0, k),
    ensures
        forall|i: int| 0 <= i < k && reach(w, cs, 0, i) ==> #[trigger] unit_end(w, cs, i) <= k,
{
    assert forall|i: int| 0 <= i < k && reach(w, cs, 0, i) implies #[trigger] unit_end(w, cs, i) <= k by {
        lemma_reach_between(w, cs, 0, i, k);
    }
}

/// Units never take negative room.
pub proof fn lemma_units_nonneg(w: Width, cs: Seq<char>, i: int, k: int, col: int)
    requires
        col >= 0,
    ensures
        units_w(w, cs, i, k, col) >= 0,
    decreases k - i,
{
    if 0 <= i < k && i < cs.len() {
        let e = unit_end(w, cs, i);
        if e > i && e <= k {
            if !is_esc_unit(w, cs, i) {
                crate::measure::lemma_adv_bound(w, cs.subrange(i, e), col);
            }
            lemma_units_nonneg(w, cs, e, k, col + unit_w(w, cs, i, col));
        }
    }
}

/// A budget that covers the units left to the end lets the scan run to the end.
pub proof fn lemma_trunc_whole(w: Width, cs: Seq<char>, i: int, col: int, max: int)
    requires
        0 <= i <= cs.len(),
        col >= 0,
        col + units_w(w, cs, i, cs.len() as int, col) <= max,
    ensures
        trunc_end(w, cs, i, col, max) == cs.len(),
    decreases cs.len() - i,
{
    if i < cs.len() {
        lemma_unit_bounds(w, cs, i);
        lemma_esc_bounds(cs, i);
        lemma_fresh_cluster(cs, i);
        let e = unit_end(w, cs, i);
        let a = unit_w(w, cs, i, col);
        if !is_esc_unit(w, cs, i) {
            crate::measure::lemma_adv_bound(w, cs.subrange(i, e), col);
        }
        lemma_units_nonneg(w, cs, e, cs.len() as int, col + a);
        lemma_trunc_whole(w, cs, e, col + a, max);
    }
}

/// A text that fits the budget is kept whole.
pub proof fn lemma_truncate_whole(w: Width, cs: Seq<char>, max: int)
    requires
        width_of(w, cs) <= max,
    ensures
        trunc_end(w, cs, 0, 0, max) == cs.len(),
{
    lemma_reach_end(w, cs, 0);
    lemma_prefix_width(w, cs, cs.len() as int, 0);
    assert(cs.take(cs.len() as int) =~= cs);
    lemma_trunc_whole(w, cs, 0, 0, max);
}

/// The sum of the widths of the clusters `ps` of `cs`, each measured as if
/// printed at column 0.
pub open spec fn clusters_w(w: Width, cs: Seq<char>, ps: Seq<(int, int)>) -> int
    decreases ps.len(),
{
    if ps.len() == 0 {
        0
    } else {
        adv(w, cs.subrange(ps[0].0, ps[0].1), 0) + clusters_w(w, cs, ps.drop_first())
    }
}

/// Without a tab, a cluster is as wide wherever it starts.
pub proof fn lemma_adv_no_tab(w: Width, cl: Seq<char>, col: int)
    requires
        forall|i: int| 0 <= i < cl.len() ==> cl[i] != '\t',
    ensures
        adv(w, cl, col) == adv(w, cl, 0),
{
    if cl.len() > 0 {
        assert(cl[0] != '\t');
    }
}

/// Measuring the clusters from `k` one by one, wherever they start, is
/// measuring the text from `k`, when no tab is among them.
pub proof fn lemma_cluster_sum_from(w: Width, cs: Seq<char>, k: int, col: int)
    requires
        0 <= k <= cs.len(),
        forall|i: int| 0 <= i < cs.len() ==> cs[i] != '\t',
    ensures
        w.codepoints() ==> cp_text_w(w, cs, k, col) == clusters_w(w, cs, clusters_from(false, cs, k)),
        !w.codepoints() ==> cl_text_w(w, cs, k, col) == clusters_w(w, cs, clusters_from(false, cs, k)),
    decreases cs.len() - k,
{
    if k < cs.len() {
        crate::grapheme::lemma_cluster_bounds(false, cs, k);
        let e = cluster_end(false, cs, k);
        let cl = cs.subrange(k, e);
        lemma_adv_no_tab(w, cl, col);
        let a = adv(w, cl, col);
        lemma_cluster_sum_from(w, cs, e, col + a);
        let ps = clusters_from(false, cs, k);
        assert(ps[0] == (k, e));
        assert(ps.drop_first() =~= clusters_from(false, cs, e));
        if w.codepoints() {
            lemma_cp_cluster(w, cs, k, col);
        }
    }
}

/// With escapes not recognised and no tab in the text, the width of a text
/// is the sum of the widths of its grapheme clusters, each measured alone.
pub proof fn lemma_width_is_cluster_sum(w: Width, cs: Seq<char>)
    requires
        !w.ansi_on(),
        forall|i: int| 0 <= i < cs.len() ==> cs[i] != '\t',
    ensures
        width_of(w, cs) == clusters_w(w, cs, clusters_from(false, cs, 0)),
{
    lemma_cluster_sum_from(w, cs, 0, 0);
}

/// The most a character can take: a tab stop for a tab, two columns for anything else.
pub open spec fn char_cap(w: Width, c: char) -> int {
    if c == '\t' {
        w.tab() as int
    } else {
        2
    }
}

/// The most the characters of `cs` can take, one by one.
pub open spec fn cap(w: Width, cs: Seq<char>) -> int
    decreases cs.len(),
{
    if cs.len() == 0 {
        0
    } else {
        cap(w, cs.drop_last()) + char_cap(w, cs.last())
    }
}

/// The cap of a concatenation is the sum of the caps.
pub proof fn lemma_cap_append(w: Width, a: Seq<char>, b: Seq<char>)
    ensures
        cap(w, a + b) == cap(w, a) + cap(w, b),
    decreases b.len(),
{
    if b.len() == 0 {
        assert(a + b =~= a);
    } else {
        lemma_cap_append(w, a, b.drop_last());
        assert((a + b).drop_last() =~= a + b.drop_last());
    }
}

/// Caps of adjacent stretches of a text add up, and no stretch exceeds the
/// whole text's cap.
pub proof fn lemma_cap_split(w: Width, cs: Seq<char>, a: int, b: int, c: int)
    requires
        0 <= a <= b <= c <= cs.len(),
    ensures
        cap(w, cs.subrange(a, b)) + cap(w, cs.subrange(b, c)) == cap(w, cs.subrange(a, c)),
        0 <= cap(w, cs.subrange(a, b)),
        cap(w, cs.subrange(a, c)) <= cap(w, cs),
{
    lemma_cap_append(w, cs.subrange(a, b), cs.subrange(b, c));
    assert(cs.subrange(a, b) + cs.subrange(b, c) =~= cs.subrange(a, c));
    lemma_cap_bounds(w, cs.subrange(a, b));
    lemma_cap_bounds(w, cs.subrange(b, c));
    lemma_cap_bounds(w, cs.subrange(0, a));
    lemma_cap_bounds(w, cs.subrange(c, cs.len() as int));
    lemma_cap_append(w, cs.subrange(0, a), cs.subrange(a, c));
    assert(cs.subrange(0, a) + cs.subrange(a, c) =~= cs.subrange(0, c));
    lemma_cap_append(w, cs.subrange(0, c), cs.subrange(c, cs.len() as int));
    assert(cs.subrange(0, c) + cs.subrange(c, cs.len() as int) =~= cs);
}

/// The cap never exceeds `room`, the bound by length alone.
pub proof fn lemma_cap_room(w: Width, cs: Seq<char>)
    ensures
        cap(w, cs) <= crate::measure::room(w, cs.len() as int),
    decreases cs.len(),
{
    if cs.len() > 0 {
        lemma_cap_room(w, cs.drop_last());
        crate::measure::lemma_room_mono(w, cs.len() - 1, cs.len() as int);
        assert(crate::measure::room(w, 1) == crate::measure::wmax(w));
        assert(char_cap(w, cs.last()) <= crate::measure::wmax(w));
        assert(cap(w, cs) == cap(w, cs.drop_last()) + char_cap(w, cs.last()));
        assert(cs.len() - (cs.len() - 1) == 1);
    }
}

/// A cap is at least the sum of the character widths, and at least two
/// when a character other than a tab is among them.
pub proof fn lemma_cap_bounds(w: Width, cl: Seq<char>)
    ensures
        sum_w(w, cl) <= cap(w, cl),
        cap(w, cl) >= 0,
        forall|i: int| 0 <= i < cl.len() ==> char_cap(w, #[trigger] cl[i]) <= cap(w, cl),
    decreases cl.len(),
{
    if cl.len() > 0 {
        let d = cl.drop_last();
        lemma_cap_bounds(w, d);
        crate::measure::lemma_char_w_bound(w, cl.last());
        assert forall|i: int| 0 <= i < cl.len() implies char_cap(w, #[trigger] cl[i]) <= cap(w, cl) by {
            if i < cl.len() - 1 {
                assert(cl[i] == d[i]);
            }
        }
    }
}

/// One cluster takes at most its cap.
pub proof fn lemma_adv_cap(w: Width, cl: Seq<char>, col: int)
    requires
        col >= 0,
    ensures
        adv(w, cl, col) <= cap(w, cl),
{
    lemma_cap_bounds(w, cl);
    crate::measure::lemma_tab_adv_bound(w, col);
    if cl.len() > 0 {
        crate::measure::lemma_char_w_bound(w, cl[0]);
        assert(char_cap(w, cl[0]) <= cap(w, cl));
        if cl.len() == 1 {
            assert(cl.drop_last() =~= Seq::<char>::empty());
            if w.tab() > 0 {
                assert(0 <= col % (w.tab() as int));
            }
        }
        if crate::measure::holds(cl, '\u{FE0F}') {
            let i = choose|i: int| 0 <= i < cl.len() && cl[i] == '\u{FE0F}';
            assert(char_cap(w, cl[i]) <= cap(w, cl));
        }
        if crate::measure::holds(cl, '\u{FE0E}') {
            let i = choose|i: int| 0 <= i < cl.len() && cl[i] == '\u{FE0E}';
            assert(char_cap(w, cl[i]) <= cap(w, cl));
        }
        if crate::measure::holds_modifier(cl) {
            let i = choose|i: int| 0 <= i < cl.len() && crate::measure::is_modifier(#[trigger] cl[i]);
            assert(char_cap(w, cl[i]) <= cap(w, cl));
        }
        if crate::measure::count_ri(cl) == 2 {
            lemma_ri_cap(w, cl);
        }
    }
}

/// Two regional indicators take at most their cap.
pub proof fn lemma_ri_cap(w: Width, cl: Seq<char>)
    requires
        crate::measure::count_ri(cl) > 0,
    ensures
        cap(w, cl) >= 2,
    decreases cl.len(),
{
    lemma_cap_bounds(w, cl.drop_last());
    if !crate::measure::is_ri(cl.last()) {
        lemma_ri_cap(w, cl.drop_last());
    }
}

/// The units from `i` to the end take at most the cap of the characters there.
pub proof fn lemma_units_cap(w: Width, cs: Seq<char>, i: int, col: int)
    requires
        0 <= i <= cs.len(),
        col >= 0,
    ensures
        units_w(w, cs, i, cs.len() as int, col) <= cap(w, cs.subrange(i, cs.len() as int)),
    decreases cs.len() - i,
{
    let rest = cs.subrange(i, cs.len() as int);
    if i == cs.len() {
        assert(rest =~= Seq::<char>::empty());
    } else {
        lemma_unit_bounds(w, cs, i);
        let e = unit_end(w, cs, i);
        let a = unit_w(w, cs, i, col);
        let u = cs.subrange(i, e);
        if is_esc_unit(w, cs, i) {
            lemma_cap_bounds(w, u);
        } else {
            crate::measure::lemma_adv_bound(w, u, col);
            lemma_adv_cap(w, u, col);
        }
        lemma_units_cap(w, cs, e, col + a);
        assert(rest =~= u + cs.subrange(e, cs.len() as int));
        lemma_cap_append(w, u, cs.subrange(e, cs.len() as int));
    }
}

/// No character is wider than two columns, except a tab, which takes at most
/// one tab stop: a text never takes more than its cap.
pub proof fn lemma_width_cap(w: Width, cs: Seq<char>, col: int)
    requires
        col >= 0,
    ensures
        width_at(w, cs, col) <= cap(w, cs),
{
    lemma_reach_end(w, cs, 0);
    lemma_prefix_width(w, cs, cs.len() as int, col);
    assert(cs.take(cs.len() as int) =~= cs);
    lemma_units_cap(w, cs, 0, col);
    assert(cs.subrange(0, cs.len() as int) =~= cs);
}

} // verus!
