//! Wrapped lines fit the budget.
//!
//! [`Width::wrap`] keeps count of the columns of the pending line segment by
//! segment, each measured where it lands. That count is exact when a cluster
//! boundary falls at every break opportunity, and then each emitted line is at
//! most `width` columns, or is a single cluster too wide for any line.

use vstd::prelude::*;

use crate::ansi::{has_esc, starts_escape};
use crate::concat::{clean_junction, lemma_junction_break, lemma_text_concat};
use crate::fit::{
    chunks, emit, is_line_sep, lemma_src_end_mono, lemma_trim_ws, line_spec, src_end, trim_len, trim_ws,
    wrap_from, wrap_init, wrap_spec, wrap_step, WrapState,
};
use crate::grapheme::{cluster_end, gcb_of, is_break, lemma_run_state_prev, Gcb};
use crate::linebreak::{lb_of, next_opportunity, verdict, Break, Lb};
use crate::measure::{pieces_w, text_w, width_at, width_of, Width};
use crate::wrap_keep::{lemma_no_esc_sub, lemma_one_piece, lemma_plain_line, lemma_trim_ws_blank};

verus! {

/// Whether a cluster boundary is sure to fall between the characters `l`
/// and `r`, whatever came before them: an ordinary junction, or one next to a
/// control character, a carriage return or a line feed (but not between a
/// carriage return and the line feed after it).
pub open spec fn seam(l: char, r: char) -> bool {
    let a = gcb_of(l);
    let b = gcb_of(r);
    ||| clean_junction(seq![l], seq![r])
    ||| (a == Gcb::Cr || a == Gcb::Lf || a == Gcb::Control || b == Gcb::Cr || b == Gcb::Lf || b == Gcb::Control)
        && !(a == Gcb::Cr && b == Gcb::Lf)
}

/// A seam is a cluster boundary.
pub proof fn lemma_seam_break(x: Seq<char>, y: Seq<char>)
    requires
        x.len() > 0,
        y.len() > 0,
        seam(x.last(), y[0]),
    ensures
        is_break(false, x + y, x.len() as int),
{
    if clean_junction(seq![x.last()], seq![y[0]]) {
        assert(clean_junction(x, y));
        lemma_junction_break(x, y);
    } else {
        let cs = x + y;
        let j = x.len() as int;
        lemma_run_state_prev(false, cs, j);
        assert(cs[j - 1] == x.last());
        assert(cs[j] == y[0]);
    }
}

/// Text without escapes is measured as one run of text.
pub proof fn lemma_width_text(w: Width, x: Seq<char>, col: int)
    requires
        !has_esc(x),
    ensures
        width_at(w, x, col) == text_w(w, x, col),
{
    if x.len() > 0 {
        lemma_one_piece(x);
        assert(x.subrange(0, x.len() as int) =~= x);
        assert(pieces_w(w, x, x.len() as int, col + text_w(w, x, col)) == 0);
        assert(pieces_w(w, x, 0, col) == text_w(w, x, col) + pieces_w(w, x, x.len() as int, col + text_w(w, x, col)));
    } else {
        assert(pieces_w(w, x, 0, col) == 0);
    }
}

/// Two texts without escapes together hold none.
pub proof fn lemma_no_esc_join(x: Seq<char>, y: Seq<char>)
    requires
        !has_esc(x),
        !has_esc(y),
    ensures
        !has_esc(x + y),
{
    if has_esc(x + y) {
        let i = choose|i: int| 0 <= i < (x + y).len() && starts_escape(#[trigger] (x + y)[i]);
        if i < x.len() {
            assert(starts_escape(x[i]));
        } else {
            assert(starts_escape(y[i - x.len()]));
        }
    }
}

/// Across a cluster boundary, widths add up: the second text is measured
/// from the column where the first ends.
pub proof fn lemma_join_width(w: Width, x: Seq<char>, y: Seq<char>, col: int)
    requires
        !has_esc(x),
        !has_esc(y),
        x.len() == 0 || y.len() == 0 || is_break(false, x + y, x.len() as int),
    ensures
        width_at(w, x + y, col) == width_at(w, x, col) + width_at(w, y, col + width_at(w, x, col)),
{
    lemma_no_esc_join(x, y);
    lemma_width_text(w, x, col);
    lemma_width_text(w, y, col + width_at(w, x, col));
    lemma_width_text(w, x + y, col);
    lemma_text_concat(w, x, y, col);
}

/// The classes of the line separators: a carriage return is CR to both
/// segmentations; the others are mandatory breaks after them, and a line feed
/// or a control to grapheme segmentation.
pub proof fn lemma_sep_classes(c: char)
    requires
        is_line_sep(c),
    ensures
        c == '\r' ==> lb_of(c) == Lb::CR && gcb_of(c) == Gcb::Cr,
        c != '\r' ==> lb_of(c) == Lb::BK || lb_of(c) == Lb::LF || lb_of(c) == Lb::NL,
        c == '\n' ==> gcb_of(c) == Gcb::Lf,
        c != '\r' && c != '\n' ==> gcb_of(c) == Gcb::Control,
        lb_of(c) != Lb::LF ==> c != '\n',
        lb_of(c) == Lb::LF ==> c == '\n',
{
    if (c as u32) < 0x80 {
        crate::tables::lemma_ascii_props(c as u32);
    } else if c == '\u{85}' {
        crate::tables::lemma_next_line_props();
    } else {
        crate::tables::lemma_separator_props(c as u32);
    }
}

/// A space is an ordinary character of class SP, a tab a control of class BA.
pub proof fn lemma_blank_classes()
    ensures
        gcb_of(' ') == Gcb::Other,
        lb_of(' ') == Lb::SP,
        gcb_of('\t') == Gcb::Control,
        lb_of('\t') == Lb::BA,
{
    crate::tables::lemma_ascii_props(0x20);
    crate::tables::lemma_ascii_props(0x09);
}

/// A break opportunity right after a line separator is a mandatory one
/// (LB4, LB5, and LB6 between a carriage return and a line feed).
pub proof fn lemma_break_after_sep(cs: Seq<char>, j: int)
    requires
        0 < j < cs.len(),
        is_line_sep(cs[j - 1]),
        verdict(cs, j) is Some,
    ensures
        verdict(cs, j) == Some(Break::Mandatory),
{
    lemma_sep_classes(cs[j - 1]);
    crate::linebreak::lemma_mandatory_exactly_after_separators(cs, j);
    if cs[j - 1] == '\r' && lb_of(cs[j]) == Lb::LF {
        let st = crate::linebreak::lb_state(cs, j);
        let prev = crate::linebreak::lb_state(cs, j - 1);
        assert(!crate::linebreak::absorbed(prev, cs[j - 1]));
        assert(st.prev.class == Lb::CR);
        assert(st.seen);
        assert(!crate::linebreak::absorbed(st, cs[j]));
        assert(verdict(cs, j) is None);
    }
}

/// Where the line separator that ends `cs`, if any, begins.
pub open spec fn cut(cs: Seq<char>) -> int {
    if cs.len() >= 2 && cs[cs.len() - 2] == '\r' && cs[cs.len() - 1] == '\n' {
        cs.len() - 2
    } else if cs.len() >= 1 && is_line_sep(cs[cs.len() - 1]) {
        cs.len() - 1
    } else {
        cs.len() as int
    }
}

/// No space follows a Prepend character, which would join it into a cluster.
pub open spec fn spaces_clean(cs: Seq<char>) -> bool {
    forall|k: int| #![trigger cs[k]] 0 < k < cs.len() && cs[k] == ' ' ==> gcb_of(cs[k - 1]) != Gcb::Prepend
}

/// A stretch of a text whose spaces are clean has clean spaces.
#[verifier::spinoff_prover]
#[verifier::rlimit(30)]
pub proof fn lemma_spaces_clean_sub(cs: Seq<char>, a: int, b: int)
    requires
        spaces_clean(cs),
        0 <= a <= b <= cs.len(),
    ensures
        spaces_clean(cs.subrange(a, b)),
{
    let t = cs.subrange(a, b);
    assert forall|k: int| #![trigger t[k]] 0 < k < t.len() && t[k] == ' ' implies gcb_of(t[k - 1]) != Gcb::Prepend by {
        assert(t[k] == cs[a + k]);
        assert(t[k - 1] == cs[a + k - 1]);
    }
}

/// Trimming within the first text is the same in the two together.
pub proof fn lemma_trim_ws_prefix(x: Seq<char>, y: Seq<char>, m: int)
    requires
        0 <= m <= x.len(),
    ensures
        trim_ws(x + y, m) == trim_ws(x, m),
    decreases m,
{
    if m > 0 {
        assert((x + y)[m - 1] == x[m - 1]);
        lemma_trim_ws_prefix(x, y, m - 1);
    }
}

/// Trimming two stretches put together: the trailing spaces of the second,
/// or, if it is all spaces, those of the first too.
pub proof fn lemma_trim_concat(x: Seq<char>, y: Seq<char>, n: int)
    requires
        0 <= n <= y.len(),
    ensures
        trim_ws(x + y, x.len() + n) == if trim_ws(y, n) > 0 {
            x.len() + trim_ws(y, n)
        } else {
            trim_ws(x, x.len() as int)
        },
    decreases n,
{
    let xy = x + y;
    if n > 0 {
        assert(xy[x.len() + n - 1] == y[n - 1]);
        if y[n - 1] == ' ' || y[n - 1] == '\t' {
            lemma_trim_concat(x, y, n - 1);
        }
    } else {
        lemma_trim_ws_prefix(x, y, x.len() as int);
    }
}

/// Trimming nothing but spaces and tabs leaves nothing.
pub proof fn lemma_all_blank_trims(sp: Seq<char>, n: int)
    requires
        0 <= n <= sp.len(),
        forall|i: int| 0 <= i < n ==> sp[i] == ' ' || sp[i] == '\t',
    ensures
        trim_ws(sp, n) == 0,
    decreases n,
{
    if n > 0 {
        lemma_all_blank_trims(sp, n - 1);
    }
}

/// The separator at the end of `x + y` is that of `y`, unless a carriage
/// return ending `x` pairs with a lone line feed `y`.
pub proof fn lemma_cut_join(x: Seq<char>, y: Seq<char>)
    requires
        y.len() > 0,
        !(y.len() == 1 && y[0] == '\n' && x.len() > 0 && x.last() == '\r'),
    ensures
        cut(x + y) == x.len() + cut(y),
        0 <= cut(y) <= y.len(),
{
    let xy = x + y;
    assert(xy[xy.len() - 1] == y[y.len() - 1]);
    if y.len() >= 2 {
        assert(xy[xy.len() - 2] == y[y.len() - 2]);
    } else if x.len() > 0 {
        assert(xy[xy.len() - 2] == x.last());
    }
}

/// What is left of a trimmed text joins on: its length adds up.
pub proof fn lemma_trim_join_text(x: Seq<char>, y: Seq<char>)
    requires
        trim_len(y) > 0,
    ensures
        trim_len(x + y) == x.len() + trim_len(y),
{
    if y.len() == 1 && y[0] == '\n' {
        assert(trim_len(y) == trim_ws(y, 0));
    }
    lemma_cut_join(x, y);
    lemma_trim_concat(x, y, cut(y));
}

/// A blank stretch after a text that ends in no separator trims away.
pub proof fn lemma_trim_join_blank(x: Seq<char>, y: Seq<char>)
    requires
        trim_len(y) == 0,
        x.len() == 0 || !is_line_sep(x.last()),
    ensures
        trim_len(x + y) == trim_len(x),
{
    if y.len() == 0 {
        assert(x + y =~= x);
    } else {
        lemma_cut_join(x, y);
        lemma_trim_concat(x, y, cut(y));
    }
}

/// What trimming drops trims away on its own.
#[verifier::spinoff_prover]
#[verifier::rlimit(30)]
pub proof fn lemma_trim_tail(seg: Seq<char>)
    ensures
        0 <= trim_len(seg) <= seg.len(),
        trim_len(seg.subrange(trim_len(seg), seg.len() as int)) == 0,
{
    let n = cut(seg);
    lemma_trim_ws(seg, n);
    lemma_trim_ws_blank(seg, n);
    let t = trim_len(seg);
    let tail = seg.subrange(t, seg.len() as int);
    if tail.len() >= 1 {
        assert(tail[tail.len() - 1] == seg[seg.len() - 1]);
    }
    if tail.len() >= 2 {
        assert(tail[tail.len() - 2] == seg[seg.len() - 2]);
    }
    assert(cut(tail) == n - t);
    assert forall|i: int| 0 <= i < n - t implies tail[i] == ' ' || tail[i] == '\t' by {
        assert(tail[i] == seg[t + i]);
    }
    lemma_all_blank_trims(tail, n - t);
}

/// Where trimming cuts a text that ends in no separator but perhaps a
/// carriage return, a cluster boundary is sure to fall.
#[verifier::spinoff_prover]
#[verifier::rlimit(30)]
pub proof fn lemma_trim_point(c: Seq<char>)
    requires
        spaces_clean(c),
        c.len() == 0 || !is_line_sep(c.last()) || c.last() == '\r',
    ensures
        0 <= trim_len(c) <= c.len(),
        0 < trim_len(c) < c.len() ==> seam(c[trim_len(c) - 1], c[trim_len(c)]),
{
    let n = cut(c);
    lemma_trim_ws(c, n);
    lemma_trim_ws_blank(c, n);
    let m = trim_len(c);
    if 0 < m < c.len() {
        lemma_blank_classes();
        if m < n {
            assert(c[m] == ' ' || c[m] == '\t');
            if c[m] == ' ' {
                assert(gcb_of(c[m - 1]) != Gcb::Prepend);
                assert(clean_junction(seq![c[m - 1]], seq![c[m]]));
            }
        } else {
            assert(c[m] == '\r');
            lemma_sep_classes(c[m]);
        }
    }
}

/// Trimming a text that ends in no separator but perhaps a carriage return
/// never widens it.
#[verifier::spinoff_prover]
#[verifier::rlimit(40)]
pub proof fn lemma_trimmed_le(w: Width, c: Seq<char>)
    requires
        !has_esc(c),
        spaces_clean(c),
        c.len() == 0 || !is_line_sep(c.last()) || c.last() == '\r',
    ensures
        0 <= trim_len(c) <= c.len(),
        width_of(w, c.take(trim_len(c))) <= width_of(w, c),
{
    lemma_trim_point(c);
    let m = trim_len(c);
    if m == c.len() {
        assert(c.take(m) =~= c);
    } else {
        let x = c.take(m);
        let y = c.subrange(m, c.len() as int);
        assert(c =~= x + y);
        assert(x =~= c.subrange(0, m));
        lemma_no_esc_sub(c, 0, m);
        lemma_no_esc_sub(c, m, c.len() as int);
        if m > 0 {
            assert(x.last() == c[m - 1]);
            assert(y[0] == c[m]);
            lemma_seam_break(x, y);
        }
        lemma_join_le(w, x, y);
    }
}

/// Across a cluster boundary, adding text never narrows.
pub proof fn lemma_join_le(w: Width, x: Seq<char>, y: Seq<char>)
    requires
        !has_esc(x),
        !has_esc(y),
        x.len() == 0 || y.len() == 0 || is_break(false, x + y, x.len() as int),
    ensures
        width_of(w, x) <= width_of(w, x + y),
{
    lemma_join_width(w, x, y, 0);
    crate::measure::lemma_width_bound(w, x, 0);
    crate::measure::lemma_width_bound(w, y, width_of(w, x));
}

/// A line fits: at most `width` columns, or a single cluster, which no line
/// could hold if it is wider.
#[verifier::opaque]
pub open spec fn line_fits(w: Width, line: Seq<char>, width: int) -> bool {
    width_of(w, line) <= width || cluster_end(false, line, 0) == line.len()
}

/// Every line fits.
pub open spec fn lines_fit(w: Width, out: Seq<Seq<char>>, width: int) -> bool {
    forall|i: int| 0 <= i < out.len() ==> line_fits(w, #[trigger] out[i], width)
}

/// A printable ASCII character.
pub open spec fn printable(c: char) -> bool {
    0x20 <= (c as u32) && (c as u32) < 0x7F
}

/// Every character of every line is printable ASCII.
pub open spec fn lines_printable(out: Seq<Seq<char>>) -> bool {
    forall|i: int, k: int| 0 <= i < out.len() && 0 <= k < out[i].len() ==> printable(#[trigger] out[i][k])
}

/// Text of printable ASCII and line feeds wraps cleanly: no escapes, no
/// Prepend characters, and a cluster boundary between any two characters.
#[verifier::spinoff_prover]
#[verifier::rlimit(30)]
pub proof fn lemma_ascii_clean(cs: Seq<char>)
    requires
        crate::table::plain_cell(cs),
    ensures
        wrap_clean(cs),
{
    assert forall|i: int| 0 <= i < cs.len() implies !starts_escape(#[trigger] cs[i]) by {
        assert(cs[i] == '\n' || (0x20 <= (cs[i] as u32) && (cs[i] as u32) < 0x7F));
    }
    assert forall|k: int| 0 <= k < cs.len() implies gcb_of(#[trigger] cs[k]) == Gcb::Other || gcb_of(cs[k]) == Gcb::Lf by {
        assert(cs[k] == '\n' || (0x20 <= (cs[k] as u32) && (cs[k] as u32) < 0x7F));
        crate::tables::lemma_ascii_props(cs[k] as u32);
    }
    assert forall|o: int| 0 < o < cs.len() && (#[trigger] verdict(cs, o)) is Some implies is_break(false, cs, o) by {
        assert(gcb_of(cs[o]) == Gcb::Other || gcb_of(cs[o]) == Gcb::Lf);
        assert(gcb_of(cs[o - 1]) == Gcb::Other || gcb_of(cs[o - 1]) == Gcb::Lf);
        lemma_run_state_prev(false, cs, o);
    }
    assert forall|k: int| #![trigger cs[k]] 0 < k < cs.len() && cs[k] == ' ' implies gcb_of(cs[k - 1]) != Gcb::Prepend by {
        assert(gcb_of(cs[k - 1]) == Gcb::Other || gcb_of(cs[k - 1]) == Gcb::Lf);
    }
}

/// The texts whose wrapped lines fit: no escape sequences, no space joined to
/// a Prepend character, and a cluster boundary at every break opportunity.
pub open spec fn wrap_clean(cs: Seq<char>) -> bool {
    &&& !has_esc(cs)
    &&& spaces_clean(cs)
    &&& forall|o: int| 0 < o < cs.len() && (#[trigger] verdict(cs, o)) is Some ==> is_break(false, cs, o)
}

/// Whether a cluster of `cs` starts at `a`, or `a` is its end.
pub open spec fn anchor(cs: Seq<char>, a: int) -> bool {
    a == 0 || a == cs.len() || (0 < a < cs.len() && is_break(false, cs, a))
}

/// From a cluster boundary on, a stretch of the text has the text's own
/// boundaries.
pub proof fn lemma_break_sub(cs: Seq<char>, a: int, b: int, m: int)
    requires
        0 <= a < m < b <= cs.len(),
        a == 0 || is_break(false, cs, a),
    ensures
        is_break(false, cs.subrange(a, b), m - a) == is_break(false, cs, m),
{
    let t = cs.subrange(a, cs.len() as int);
    crate::grapheme::lemma_restart_state(cs, a, m - a);
    assert(t[m - a] == cs[m]);
    crate::grapheme::lemma_is_break_prefix(false, t, b - a, m - a);
    assert(t.take(b - a) =~= cs.subrange(a, b));
}

/// A cluster boundary falls before a space that follows no Prepend
/// character, and before a tab.
pub proof fn lemma_blank_break(cs: Seq<char>, k: int)
    requires
        0 < k < cs.len(),
        cs[k] == ' ' || cs[k] == '\t',
        cs[k] == ' ' ==> gcb_of(cs[k - 1]) != Gcb::Prepend,
    ensures
        is_break(false, cs, k),
{
    lemma_blank_classes();
    if cs[k] == '\t' {
        crate::grapheme::lemma_break_before_control(false, cs, k);
    } else {
        lemma_run_state_prev(false, cs, k);
    }
}

/// The characters from `a` to `b` once the separator and trailing spaces go.
pub open spec fn trimmed(cs: Seq<char>, a: int, b: int) -> Seq<char> {
    cs.subrange(a, b).take(trim_len(cs.subrange(a, b)))
}

/// The only line separators from `a` to `b` are carriage returns.
pub open spec fn only_cr(cs: Seq<char>, a: int, b: int) -> bool {
    forall|k: int| a <= k < b && #[trigger] is_line_sep(cs[k]) ==> cs[k] == '\r'
}

/// Where wrapping has got to: the column counted is the width of the
/// pending line, which fits once trimmed and ends in no separator, and every
/// line emitted fits.
#[verifier::opaque]
pub open spec fn fits(w: Width, cs: Seq<char>, width: int, st: WrapState) -> bool {
    &&& 0 <= st.line_start <= st.seg_start <= cs.len()
    &&& st.style == None::<Seq<char>>
    &&& st.col == width_of(w, cs.subrange(st.line_start, st.seg_start))
    &&& width_of(w, trimmed(cs, st.line_start, st.seg_start)) <= width
    &&& only_cr(cs, st.line_start, st.seg_start)
    &&& (st.line_start < st.seg_start < cs.len() ==> !is_line_sep(cs[st.seg_start - 1]))
    &&& anchor(cs, st.line_start)
    &&& anchor(cs, st.seg_start)
    &&& (crate::table::plain_cell(cs) ==> lines_printable(st.out))
    &&& lines_fit(w, st.out, width)
}

/// Nothing is no columns wide.
pub proof fn lemma_width_empty(w: Width, x: Seq<char>)
    requires
        x.len() == 0,
    ensures
        width_of(w, x) == 0,
{
    assert(pieces_w(w, x, 0, 0) == 0);
    assert(crate::measure::cp_text_w(w, x, 0, 0) == 0);
    assert(crate::measure::cl_text_w(w, x, 0, 0) == 0);
}

/// Emitting a stretch whose trimmed text fits keeps every line fitting.
#[verifier::spinoff_prover]
#[verifier::rlimit(30)]
pub proof fn lemma_emit_fits(w: Width, cs: Seq<char>, width: int, from: int, to: int, out: Seq<Seq<char>>)
    requires
        !has_esc(cs),
        0 <= from <= to <= cs.len(),
        line_fits(w, trimmed(cs, from, to), width),
        lines_fit(w, out, width),
        only_cr(cs, from, from + trim_len(cs.subrange(from, to))),
        crate::table::plain_cell(cs) ==> lines_printable(out),
    ensures
        emit(w, cs, from, to, out, None).1 == None::<Seq<char>>,
        lines_fit(w, emit(w, cs, from, to, out, None).0, width),
        crate::table::plain_cell(cs) ==> lines_printable(emit(w, cs, from, to, out, None).0),
{
    let raw = cs.subrange(from, to);
    lemma_no_esc_sub(cs, from, to);
    lemma_plain_line(w, raw);
    lemma_trim_tail(raw);
    let o2 = out.push(line_spec(w, raw, None));
    assert forall|i: int| 0 <= i < o2.len() implies line_fits(w, #[trigger] o2[i], width) by {
        if i < out.len() {
            assert(o2[i] == out[i]);
        }
    }
    if crate::table::plain_cell(cs) {
        let line = raw.take(trim_len(raw));
        assert forall|i: int, k: int| 0 <= i < o2.len() && 0 <= k < o2[i].len() implies printable(#[trigger] o2[i][k]) by {
            if i < out.len() {
                assert(o2[i] == out[i]);
            } else {
                assert(o2[i] == line);
                assert(line[k] == cs[from + k]);
                assert(cs[from + k] == '\n' || (0x20 <= (cs[from + k] as u32) && (cs[from + k] as u32) < 0x7F));
                if cs[from + k] == '\n' {
                    assert(is_line_sep(cs[from + k]));
                }
            }
        }
    }
}

/// How much of `sub` one line cut by column takes: as much as fits, but at
/// least one cluster.
#[verifier::opaque]
pub open spec fn chunk_take(w: Width, sub: Seq<char>, width: int) -> int {
    let te = crate::measure::trunc_end(w, sub, 0, 0, width);
    let fe = cluster_end(false, sub, 0);
    if te > fe {
        te
    } else {
        fe
    }
}

/// A line cut by column takes at least one character, and either fits or
/// is the first cluster.
pub proof fn lemma_chunk_take(w: Width, sub: Seq<char>, width: int)
    requires
        !has_esc(sub),
        width >= 0,
        sub.len() > 0,
    ensures
        0 < chunk_take(w, sub, width) <= sub.len(),
        chunk_take(w, sub, width) == sub.len() || is_break(false, sub, chunk_take(w, sub, width)),
        width_of(w, sub.take(chunk_take(w, sub, width))) <= width || chunk_take(w, sub, width) == cluster_end(
            false,
            sub,
            0,
        ),
{
    reveal(chunk_take);
    crate::units::lemma_truncate_fits(w, sub, width);
    crate::grapheme::lemma_cluster_bounds(false, sub, 0);
    crate::grapheme::lemma_next_break(false, sub, 1);
    lemma_trunc_break(w, sub, 0, 0, width);
}

/// Cutting text without escapes stops at a cluster boundary or its end.
pub proof fn lemma_trunc_break(w: Width, sub: Seq<char>, i: int, col: int, max: int)
    requires
        !has_esc(sub),
        0 <= i <= sub.len(),
        i == 0 || i == sub.len() || is_break(false, sub, i),
    ensures
        ({
            let r = crate::measure::trunc_end(w, sub, i, col, max);
            r == 0 || r == sub.len() || is_break(false, sub, r)
        }),
    decreases sub.len() - i,
{
    if i < sub.len() {
        assert(!starts_escape(sub[i]));
        crate::ansi::lemma_esc_bounds(sub, i);
        crate::grapheme::lemma_restart(sub, i);
        crate::grapheme::lemma_next_break(false, sub, i + 1);
        let e = i + cluster_end(false, sub.subrange(i, sub.len() as int), 0);
        let a = crate::measure::adv(w, sub.subrange(i, e), col);
        if i < e <= sub.len() && col + a <= max {
            lemma_trunc_break(w, sub, e, col + a, max);
        }
    }
}

/// A line cut by column fits once trimmed.
#[verifier::spinoff_prover]
#[verifier::rlimit(40)]
pub proof fn lemma_chunk_line(w: Width, sub: Seq<char>, width: int)
    requires
        !has_esc(sub),
        spaces_clean(sub),
        width >= 1,
        sub.len() > 0,
        only_cr(sub, 0, sub.len() as int),
    ensures
        0 < chunk_take(w, sub, width) <= sub.len(),
        chunk_take(w, sub, width) == sub.len() || is_break(false, sub, chunk_take(w, sub, width)),
        ({
            let c = sub.take(chunk_take(w, sub, width));
            line_fits(w, c.take(trim_len(c)), width)
        }),
{
    lemma_chunk_take(w, sub, width);
    let take = chunk_take(w, sub, width);
    let c = sub.take(take);
    assert(c =~= sub.subrange(0, take));
    lemma_no_esc_sub(sub, 0, take);
    lemma_spaces_clean_sub(sub, 0, take);
    assert(is_line_sep(c.last()) ==> c.last() == '\r') by {
        assert(c.last() == sub[take - 1]);
    }
    lemma_trimmed_le(w, c);
    let m = trim_len(c);
    reveal(line_fits);
    if m == 0 {
        lemma_width_empty(w, c.take(m));
    } else if width_of(w, c) > width {
        assert(c.take(m) =~= sub.take(m));
        crate::grapheme::lemma_next_break_prefix(false, sub, m, 1);
    }
}

/// Where a line cut by column stops is a cluster boundary of the text, or
/// the end of what is cut.
pub proof fn lemma_stop_anchor(cs: Seq<char>, at: int, limit: int, take: int)
    requires
        0 <= at < limit <= cs.len(),
        anchor(cs, at),
        0 < take <= limit - at,
        take == limit - at || is_break(false, cs.subrange(at, limit), take),
    ensures
        anchor(cs, at + take) || at + take == limit,
{
    if take < limit - at {
        lemma_break_sub(cs, at, limit, at + take);
    }
}

/// Cutting by column emits lines that fit, and leaves a stretch that fits.
#[verifier::spinoff_prover]
#[verifier::rlimit(80)]
pub proof fn lemma_chunks_fit(
    w: Width,
    cs: Seq<char>,
    width: int,
    at: int,
    limit: int,
    out: Seq<Seq<char>>,
    wrote: bool,
)
    requires
        !has_esc(cs),
        spaces_clean(cs),
        width >= 1,
        0 <= at <= limit <= cs.len(),
        anchor(cs, at) || at == limit,
        only_cr(cs, at, limit),
        lines_fit(w, out, width),
        crate::table::plain_cell(cs) ==> lines_printable(out),
    ensures
        ({
            let (o, y, wr, a) = chunks(w, cs, width, at, limit, out, None, wrote);
            &&& at <= a <= limit
            &&& anchor(cs, a) || a == limit
            &&& (a < limit ==> width_of(w, cs.subrange(a, limit)) <= width)
            &&& y == None::<Seq<char>>
            &&& lines_fit(w, o, width)
            &&& (crate::table::plain_cell(cs) ==> lines_printable(o))
        }),
    decreases limit - at,
{
    let sub = cs.subrange(at, limit);
    if at < limit && width_of(w, sub) > width {
        lemma_no_esc_sub(cs, at, limit);
        lemma_spaces_clean_sub(cs, at, limit);
        assert(only_cr(sub, 0, sub.len() as int)) by {
            assert forall|k: int| 0 <= k < sub.len() && #[trigger] is_line_sep(sub[k]) implies sub[k] == '\r' by {
                assert(sub[k] == cs[at + k]);
            }
        }
        lemma_chunk_line(w, sub, width);
        let take = chunk_take(w, sub, width);
        let stop = at + take;
        assert(stop == {
            let te = crate::measure::trunc_end(w, sub, 0, 0, width);
            let fe = cluster_end(false, sub, 0);
            let tk = if te > fe { te } else { fe };
            if at + tk < limit { at + tk } else { limit }
        }) by {
            reveal(chunk_take);
        }
        assert(cs.subrange(at, stop) =~= sub.take(take));
        lemma_stop_anchor(cs, at, limit, take);
        lemma_trim_tail(cs.subrange(at, stop));
        lemma_emit_fits(w, cs, width, at, stop, out);
        let (o2, s2) = emit(w, cs, at, stop, out, None);
        lemma_chunks_fit(w, cs, width, stop, limit, o2, true);
    }
}

/// A line separator other than a carriage return always has a mandatory
/// break after it.
pub proof fn lemma_sep_mandatory(cs: Seq<char>, k: int)
    requires
        0 <= k,
        k + 1 < cs.len(),
        is_line_sep(cs[k]),
        cs[k] != '\r',
    ensures
        verdict(cs, k + 1) == Some(Break::Mandatory),
{
    lemma_sep_classes(cs[k]);
    crate::linebreak::lemma_mandatory_exactly_after_separators(cs, k + 1);
}

/// What a segment between two break opportunities holds: no separator but
/// carriage returns before its trimmed end, none at all if the break after it
/// is only allowed, and no separator as the last character that trimming
/// keeps.
#[verifier::spinoff_prover]
pub proof fn lemma_seg_facts(cs: Seq<char>, ss: int, end: int, kind: Break)
    requires
        0 <= ss < end <= cs.len(),
        forall|m: int| ss < m < end ==> (#[trigger] verdict(cs, m)) is None,
        end < cs.len() ==> verdict(cs, end) == Some(kind),
        end == cs.len() ==> kind == Break::Mandatory,
    ensures
        0 <= trim_len(cs.subrange(ss, end)) <= end - ss,
        only_cr(cs, ss, ss + trim_len(cs.subrange(ss, end))),
        kind == Break::Allowed ==> end < cs.len() && only_cr(cs, ss, end) && !is_line_sep(cs[end - 1]),
        trim_len(cs.subrange(ss, end)) > 0 ==> !is_line_sep(cs[ss + trim_len(cs.subrange(ss, end)) - 1]),
{
    let seg = cs.subrange(ss, end);
    let n = cut(seg);
    let t = trim_len(seg);
    lemma_trim_ws(seg, n);
    lemma_trim_ws_blank(seg, n);
    assert(seg.last() == cs[end - 1]);
    assert forall|k: int| ss <= k < ss + t && #[trigger] is_line_sep(cs[k]) implies cs[k] == '\r' by {
        if cs[k] != '\r' {
            if k + 1 < end {
                lemma_sep_mandatory(cs, k);
                assert(verdict(cs, k + 1) is None);
            } else {
                assert(t < seg.len());
            }
        }
    }
    if kind == Break::Allowed {
        assert forall|k: int| ss <= k < end && #[trigger] is_line_sep(cs[k]) implies cs[k] == '\r' by {
            if cs[k] != '\r' {
                lemma_sep_mandatory(cs, k);
                if k + 1 < end {
                    assert(verdict(cs, k + 1) is None);
                }
            }
        }
        if is_line_sep(cs[end - 1]) {
            lemma_break_after_sep(cs, end);
        }
    }
    if t > 0 {
        let k = ss + t - 1;
        if is_line_sep(cs[k]) {
            assert(cs[k] == '\r');
            assert(seg[t - 1] == cs[k]);
            assert(t < seg.len());
            assert(verdict(cs, k + 1) is None);
            lemma_sep_classes(cs[k]);
            crate::linebreak::lemma_mandatory_exactly_after_separators(cs, k + 1);
            assert(lb_of(cs[k + 1]) == Lb::LF);
            assert(seg[t] == cs[k + 1]);
            lemma_blank_classes();
            if t == n {
                assert(seg[seg.len() - 1] == seg.last());
                if seg.len() >= 2 && seg[seg.len() - 2] == '\r' && seg.last() == '\n' {
                    lemma_sep_classes('\r');
                } else {
                    lemma_sep_classes(seg.last());
                }
            }
        }
    }
}

/// Trimming what is left after cutting by column drops the segment's
/// trailing spaces and separator, and then trims the rest on its own.
#[verifier::spinoff_prover]
#[verifier::rlimit(30)]
pub proof fn lemma_leftover_trim(cs: Seq<char>, at: int, ss: int, end: int)
    requires
        0 <= ss < end <= cs.len(),
        0 <= at <= ss + trim_len(cs.subrange(ss, end)),
        trim_len(cs.subrange(ss, end)) <= end - ss,
        at < ss + trim_len(cs.subrange(ss, end)) ==> !is_line_sep(
            cs[ss + trim_len(cs.subrange(ss, end)) - 1],
        ),
    ensures
        ({
            let l = cs.subrange(at, ss + trim_len(cs.subrange(ss, end)));
            trimmed(cs, at, end) == l.take(trim_len(l))
        }),
{
    let seg = cs.subrange(ss, end);
    let t = trim_len(seg);
    let lim = ss + t;
    let l = cs.subrange(at, lim);
    let tail = cs.subrange(lim, end);
    lemma_trim_tail(seg);
    lemma_trim_tail(l);
    assert(tail =~= seg.subrange(t, seg.len() as int));
    assert(cs.subrange(at, end) =~= l + tail);
    if l.len() > 0 {
        assert(l.last() == cs[lim - 1]);
    }
    lemma_trim_join_blank(l, tail);
    assert(trimmed(cs, at, end) =~= l.take(trim_len(l)));
}

/// What is left after cutting by column keeps only carriage returns among
/// separators once trimmed.
#[verifier::spinoff_prover]
#[verifier::rlimit(30)]
pub proof fn lemma_leftover_cr(cs: Seq<char>, ls: int, at: int, ss: int, end: int)
    requires
        0 <= ss < end <= cs.len(),
        0 <= ls <= at <= ss + trim_len(cs.subrange(ss, end)),
        trim_len(cs.subrange(ss, end)) <= end - ss,
        at < ss + trim_len(cs.subrange(ss, end)) ==> !is_line_sep(
            cs[ss + trim_len(cs.subrange(ss, end)) - 1],
        ),
        only_cr(cs, ls, ss + trim_len(cs.subrange(ss, end))),
    ensures
        only_cr(cs, at, at + trim_len(cs.subrange(at, end))),
{
    let lim = ss + trim_len(cs.subrange(ss, end));
    lemma_leftover_trim(cs, at, ss, end);
    lemma_trim_tail(cs.subrange(at, lim));
    lemma_trim_tail(cs.subrange(at, end));
    assert(trim_len(cs.subrange(at, end)) == trimmed(cs, at, end).len());
}

/// What is left after cutting by column fits once trimmed.
#[verifier::spinoff_prover]
#[verifier::rlimit(30)]
pub proof fn lemma_leftover(w: Width, cs: Seq<char>, width: int, at: int, ss: int, end: int)
    requires
        !has_esc(cs),
        spaces_clean(cs),
        0 <= ss < end <= cs.len(),
        0 <= at <= ss + trim_len(cs.subrange(ss, end)),
        trim_len(cs.subrange(ss, end)) <= end - ss,
        at < ss + trim_len(cs.subrange(ss, end)) ==> width_of(
            w,
            cs.subrange(at, ss + trim_len(cs.subrange(ss, end))),
        ) <= width,
        at < ss + trim_len(cs.subrange(ss, end)) ==> !is_line_sep(
            cs[ss + trim_len(cs.subrange(ss, end)) - 1],
        ),
        width >= 0,
    ensures
        width_of(w, trimmed(cs, at, end)) <= width,
{
    let lim = ss + trim_len(cs.subrange(ss, end));
    let l = cs.subrange(at, lim);
    lemma_leftover_trim(cs, at, ss, end);
    if l.len() > 0 {
        assert(l.last() == cs[lim - 1]);
    }
    lemma_no_esc_sub(cs, at, lim);
    lemma_spaces_clean_sub(cs, at, lim);
    lemma_trimmed_le(w, l);
    if l.len() == 0 {
        lemma_width_empty(w, l);
    }
}

/// Trimming the pending line with a segment joined on: the segment's
/// trimmed text joins on, or, if it trims away, the line trims as before.
#[verifier::spinoff_prover]
#[verifier::rlimit(30)]
pub proof fn lemma_join_trim(cs: Seq<char>, ls: int, ss: int, end: int)
    requires
        0 <= ls <= ss < end <= cs.len(),
        ls < ss ==> !is_line_sep(cs[ss - 1]),
    ensures
        ({
            let line = cs.subrange(ls, ss);
            let seg = cs.subrange(ss, end);
            let t = trim_len(seg);
            &&& t > 0 ==> trimmed(cs, ls, end) == line + seg.take(t)
            &&& t == 0 ==> trimmed(cs, ls, end) == trimmed(cs, ls, ss)
        }),
{
    let line = cs.subrange(ls, ss);
    let seg = cs.subrange(ss, end);
    let t = trim_len(seg);
    lemma_trim_tail(seg);
    lemma_trim_tail(line);
    assert(cs.subrange(ls, end) =~= line + seg);
    if line.len() > 0 {
        assert(line.last() == cs[ss - 1]);
    }
    if t > 0 {
        lemma_trim_join_text(line, seg);
        assert(trimmed(cs, ls, end) =~= line + seg.take(t));
    } else {
        lemma_trim_join_blank(line, seg);
        assert(trimmed(cs, ls, end) =~= trimmed(cs, ls, ss));
    }
}

/// A segment that joins the pending line: the column counted is the width
/// of the longer line, and it fits once trimmed.
#[verifier::spinoff_prover]
pub proof fn lemma_join_fits(w: Width, cs: Seq<char>, width: int, ls: int, ss: int, end: int)
    requires
        !has_esc(cs),
        0 <= ls <= ss < end <= cs.len(),
        ls < ss ==> !is_line_sep(cs[ss - 1]),
        ls == 0 || is_break(false, cs, ls),
        ls < ss ==> is_break(false, cs, ss),
        width_of(w, trimmed(cs, ls, ss)) <= width,
        width_of(w, cs.subrange(ls, ss)) + width_at(
            w,
            cs.subrange(ss, end).take(trim_len(cs.subrange(ss, end))),
            width_of(w, cs.subrange(ls, ss)),
        ) <= width,
    ensures
        width_of(w, cs.subrange(ls, ss)) + width_at(w, cs.subrange(ss, end), width_of(w, cs.subrange(ls, ss)))
            == width_of(w, cs.subrange(ls, end)),
        width_of(w, trimmed(cs, ls, end)) <= width,
{
    let line = cs.subrange(ls, ss);
    let seg = cs.subrange(ss, end);
    let t = trim_len(seg);
    lemma_trim_tail(seg);
    lemma_join_trim(cs, ls, ss, end);
    lemma_no_esc_sub(cs, ls, ss);
    lemma_no_esc_sub(cs, ss, end);
    assert(cs.subrange(ls, end) =~= line + seg);
    if line.len() > 0 {
        lemma_break_sub(cs, ls, end, ss);
    }
    lemma_join_width(w, line, seg, 0);
    if t > 0 {
        let st = seg.take(t);
        assert(st =~= seg.subrange(0, t));
        lemma_no_esc_sub(seg, 0, t);
        assert(cs.subrange(ls, ss + t) =~= line + st);
        if line.len() > 0 {
            lemma_break_sub(cs, ls, ss + t, ss);
        }
        lemma_join_width(w, line, st, 0);
    }
}

/// What the segment from `ss` to `end` holds, as far as wrapping it needs.
pub open spec fn seg_ok(cs: Seq<char>, ss: int, end: int, kind: Break) -> bool {
    let t = trim_len(cs.subrange(ss, end));
    &&& 0 <= ss < end <= cs.len()
    &&& 0 <= t <= end - ss
    &&& only_cr(cs, ss, ss + t)
    &&& kind == Break::Allowed ==> end < cs.len() && only_cr(cs, ss, end) && !is_line_sep(cs[end - 1])
    &&& t > 0 ==> !is_line_sep(cs[ss + t - 1])
    &&& anchor(cs, end)
    &&& kind == Break::Allowed && 0 < t < end - ss ==> is_break(false, cs, ss + t)
}

/// The state after a segment too wide for any line is cut by column.
pub open spec fn cut_state(w: Width, cs: Seq<char>, width: int, st: WrapState, end: int, kind: Break) -> WrapState {
    let t = trim_len(cs.subrange(st.seg_start, end));
    let (o, y, wr, at) = chunks(w, cs, width, st.line_start, st.seg_start + t, st.out, st.style, st.wrote);
    let st3 = WrapState {
        out: o,
        style: y,
        line_start: at,
        seg_start: end,
        col: width_of(w, cs.subrange(at, end)),
        wrote: wr,
    };
    if kind == Break::Mandatory {
        let (o2, y2) = emit(w, cs, at, end, st3.out, st3.style);
        WrapState { out: o2, style: y2, line_start: end, col: 0, ..st3 }
    } else {
        st3
    }
}

/// The state after a segment joins the pending line.
pub open spec fn join_state(w: Width, cs: Seq<char>, width: int, st: WrapState, end: int, kind: Break) -> WrapState {
    let seg = cs.subrange(st.seg_start, end);
    let st2 = WrapState { col: st.col + width_at(w, seg, st.col), seg_start: end, ..st };
    if kind == Break::Mandatory {
        let (o2, y2) = emit(w, cs, st2.line_start, end, st2.out, st2.style);
        WrapState { out: o2, style: y2, line_start: end, col: 0, wrote: true, ..st2 }
    } else {
        st2
    }
}

/// An empty pending line at `end` fits.
pub proof fn lemma_fresh_fits(w: Width, cs: Seq<char>, width: int, st: WrapState, end: int)
    requires
        0 <= end <= cs.len(),
        anchor(cs, end),
        width >= 0,
        st.line_start == end,
        st.seg_start == end,
        st.col == 0,
        st.style == None::<Seq<char>>,
        lines_fit(w, st.out, width),
        crate::table::plain_cell(cs) ==> lines_printable(st.out),
    ensures
        fits(w, cs, width, st),
{
    reveal(fits);
    lemma_width_empty(w, cs.subrange(end, end));
    lemma_width_empty(w, trimmed(cs, end, end));
}

/// Cutting a segment too wide for any line keeps wrapping fitting.
#[verifier::spinoff_prover]
#[verifier::rlimit(40)]
pub proof fn lemma_cut_fits(w: Width, cs: Seq<char>, width: int, st: WrapState, end: int, kind: Break)
    requires
        !has_esc(cs),
        spaces_clean(cs),
        width >= 1,
        fits(w, cs, width, st),
        seg_ok(cs, st.seg_start, end, kind),
    ensures
        fits(w, cs, width, cut_state(w, cs, width, st, end, kind)),
        cut_state(w, cs, width, st, end, kind).seg_start == end,
{
    reveal(fits);
    let ls = st.line_start;
    let ss = st.seg_start;
    let t = trim_len(cs.subrange(ss, end));
    assert(only_cr(cs, ls, ss + t));
    lemma_chunks_fit(w, cs, width, ls, ss + t, st.out, st.wrote);
    let (o, y, wr, at) = chunks(w, cs, width, ls, ss + t, st.out, st.style, st.wrote);
    lemma_leftover(w, cs, width, at, ss, end);
    if kind == Break::Mandatory {
        reveal(line_fits);
        lemma_leftover_cr(cs, ls, at, ss, end);
        lemma_emit_fits(w, cs, width, at, end, o);
        let (o2, y2) = emit(w, cs, at, end, o, y);
        lemma_fresh_fits(w, cs, width, WrapState { out: o2, style: y2, line_start: end, seg_start: end, col: 0, wrote: wr }, end);
    } else {
        assert(only_cr(cs, at, end));
        lemma_left_anchor(cs, ss, end, t, at);
    }
}

/// What is left after cutting by column starts a cluster: it starts where
/// the last line stopped, or where the segment is trimmed.
pub proof fn lemma_left_anchor(cs: Seq<char>, ss: int, end: int, t: int, at: int)
    requires
        0 <= ss < end <= cs.len(),
        0 <= t <= end - ss,
        anchor(cs, ss),
        anchor(cs, end),
        0 < t < end - ss ==> is_break(false, cs, ss + t),
        anchor(cs, at) || at == ss + t,
    ensures
        anchor(cs, at),
{
}

/// A segment joining the pending line keeps wrapping fitting, if it fits.
#[verifier::spinoff_prover]
#[verifier::rlimit(40)]
pub proof fn lemma_joined_fits(w: Width, cs: Seq<char>, width: int, st: WrapState, end: int, kind: Break)
    requires
        !has_esc(cs),
        width >= 1,
        fits(w, cs, width, st),
        seg_ok(cs, st.seg_start, end, kind),
        st.col + width_at(
            w,
            cs.subrange(st.seg_start, end).take(trim_len(cs.subrange(st.seg_start, end))),
            st.col,
        ) <= width,
    ensures
        fits(w, cs, width, join_state(w, cs, width, st, end, kind)),
        join_state(w, cs, width, st, end, kind).seg_start == end,
{
    reveal(fits);
    let ls = st.line_start;
    let ss = st.seg_start;
    lemma_join_fits(w, cs, width, ls, ss, end);
    if kind == Break::Mandatory {
        reveal(line_fits);
        lemma_join_trim(cs, ls, ss, end);
        lemma_trim_tail(cs.subrange(ls, end));
        lemma_trim_tail(cs.subrange(ls, ss));
        assert(only_cr(cs, ls, ls + trim_len(cs.subrange(ls, end))));
        lemma_emit_fits(w, cs, width, ls, end, st.out);
        let (o2, y2) = emit(w, cs, ls, end, st.out, st.style);
        lemma_fresh_fits(w, cs, width, WrapState { out: o2, style: y2, line_start: end, seg_start: end, col: 0, wrote: true }, end);
    } else {
        assert(only_cr(cs, ls, end));
    }
}

/// The state once the pending line is flushed, if the segment from
/// `st.seg_start` to `end` does not fit after it.
pub open spec fn flushed(w: Width, cs: Seq<char>, width: int, st: WrapState, end: int) -> WrapState {
    let seg = cs.subrange(st.seg_start, end);
    let t = trim_len(seg);
    if st.col > 0 && st.col + width_at(w, seg.take(t), st.col) > width {
        let (o, y) = emit(w, cs, st.line_start, st.seg_start, st.out, st.style);
        WrapState { out: o, style: y, line_start: st.seg_start, col: 0, wrote: true, ..st }
    } else {
        st
    }
}

/// `wrap_step` as its three outcomes: nothing, a cut by column, a join.
pub open spec fn step_shape(w: Width, cs: Seq<char>, width: int, st: WrapState, end: int, kind: Break) -> WrapState {
    if end == st.seg_start {
        st
    } else {
        let st1 = flushed(w, cs, width, st, end);
        let seg = cs.subrange(st.seg_start, end);
        let t = trim_len(seg);
        if st1.col == 0 && width_at(w, seg.take(t), st1.col) > width {
            cut_state(w, cs, width, st1, end, kind)
        } else {
            join_state(w, cs, width, st1, end, kind)
        }
    }
}

/// `wrap_step` has those three outcomes.
pub proof fn lemma_step_shape(w: Width, cs: Seq<char>, width: int, st: WrapState, end: int, kind: Break)
    ensures
        wrap_step(w, cs, width, st, end, kind) == step_shape(w, cs, width, st, end, kind),
{
    reveal(wrap_step);
}

/// Flushing the pending line keeps wrapping fitting; after it the segment
/// fits where it starts, or starts a fresh line.
#[verifier::spinoff_prover]
pub proof fn lemma_flushed_fits(w: Width, cs: Seq<char>, width: int, st: WrapState, end: int)
    requires
        !has_esc(cs),
        width >= 1,
        fits(w, cs, width, st),
        st.seg_start < end <= cs.len(),
    ensures
        fits(w, cs, width, flushed(w, cs, width, st, end)),
        flushed(w, cs, width, st, end).seg_start == st.seg_start,
        ({
            let st1 = flushed(w, cs, width, st, end);
            let seg = cs.subrange(st.seg_start, end);
            st1.col == 0 || st1.col + width_at(w, seg.take(trim_len(seg)), st1.col) <= width
        }),
{
    reveal(fits);
    let ls = st.line_start;
    let ss = st.seg_start;
    let seg = cs.subrange(ss, end);
    let t = trim_len(seg);
    crate::measure::lemma_width_bound(w, cs.subrange(ls, ss), 0);
    if st.col > 0 && st.col + width_at(w, seg.take(t), st.col) > width {
        reveal(line_fits);
        lemma_trim_tail(cs.subrange(ls, ss));
        lemma_emit_fits(w, cs, width, ls, ss, st.out);
        lemma_fresh_fits(w, cs, width, flushed(w, cs, width, st, end), ss);
    }
}

/// One break opportunity keeps wrapping fitting, given what the segment
/// before it holds.
#[verifier::spinoff_prover]
#[verifier::rlimit(40)]
pub proof fn lemma_step_fits(w: Width, cs: Seq<char>, width: int, st: WrapState, end: int, kind: Break)
    requires
        !has_esc(cs),
        spaces_clean(cs),
        width >= 1,
        fits(w, cs, width, st),
        st.seg_start <= end <= cs.len(),
        end > st.seg_start ==> seg_ok(cs, st.seg_start, end, kind),
    ensures
        fits(w, cs, width, wrap_step(w, cs, width, st, end, kind)),
        wrap_step(w, cs, width, st, end, kind).seg_start == end,
{
    lemma_step_shape(w, cs, width, st, end, kind);
    if end != st.seg_start {
        let seg = cs.subrange(st.seg_start, end);
        let t = trim_len(seg);
        let st1 = flushed(w, cs, width, st, end);
        lemma_flushed_fits(w, cs, width, st, end);
        if st1.col == 0 && width_at(w, seg.take(t), st1.col) > width {
            lemma_cut_fits(w, cs, width, st1, end, kind);
        } else {
            lemma_joined_fits(w, cs, width, st1, end, kind);
        }
    }
}

/// Without escapes, stripping keeps the text, and break positions are where
/// they fall in it.
pub proof fn lemma_plain_ends(cs: Seq<char>)
    requires
        !has_esc(cs),
    ensures
        crate::ansi::strip_from(cs, 0) == cs,
        forall|o: int| 0 <= o <= cs.len() ==> #[trigger] src_end(cs, o) == o,
{
    assert forall|m: int| 0 <= m < cs.len() implies !starts_escape(#[trigger] cs[m]) by {}
    crate::ansi::lemma_strip_no_escape(cs, 0);
    assert(cs.subrange(0, cs.len() as int) =~= cs);
    if cs.len() > 0 {
        lemma_one_piece(cs);
        assert(crate::fit::kept_from(cs, cs.len() as int) =~= Seq::<int>::empty());
        assert(crate::fit::kept_from(cs, 0) =~= Seq::new(cs.len(), |i: int| 0 + i));
    }
}

/// In a segment without line separators, a cluster boundary falls where
/// trimming cuts it.
#[verifier::spinoff_prover]
#[verifier::rlimit(30)]
pub proof fn lemma_trim_break(cs: Seq<char>, ss: int, end: int)
    requires
        spaces_clean(cs),
        0 <= ss < end <= cs.len(),
        only_cr(cs, ss, end),
        !is_line_sep(cs[end - 1]),
    ensures
        ({
            let t = trim_len(cs.subrange(ss, end));
            0 < t < end - ss ==> is_break(false, cs, ss + t)
        }),
{
    let seg = cs.subrange(ss, end);
    assert(seg.last() == cs[end - 1]);
    assert(cut(seg) == seg.len());
    lemma_trim_ws_blank(seg, seg.len() as int);
    let t = trim_len(seg);
    if 0 < t < seg.len() {
        assert(seg[t] == cs[ss + t]);
        lemma_blank_break(cs, ss + t);
    }
}

/// The segment up to the next break opportunity from `j`, or to the end,
/// holds what wrapping needs.
#[verifier::spinoff_prover]
#[verifier::rlimit(80)]
pub proof fn lemma_next_seg(cs: Seq<char>, j: int, ss: int)
    requires
        wrap_clean(cs),
        0 <= ss,
        (j == 0 && ss == 0) || (j == ss + 1 && ss < cs.len()),
    ensures
        ({
            let o = next_opportunity(cs, j);
            &&& ss <= o <= cs.len()
            &&& 0 <= j <= o < cs.len() ==> o > ss && seg_ok(cs, ss, o, verdict(cs, o)->Some_0)
            &&& !(0 <= j <= o < cs.len()) ==> o == cs.len() && (ss < cs.len() ==> seg_ok(
                cs,
                ss,
                cs.len() as int,
                Break::Mandatory,
            ))
        }),
{
    let o = next_opportunity(cs, j);
    crate::linebreak::lemma_next_opportunity(cs, j);
    if 0 <= j <= o < cs.len() {
        let kind = verdict(cs, o)->Some_0;
        crate::linebreak::lemma_no_break_at_start(cs);
        assert(o > ss);
        lemma_seg_facts(cs, ss, o, kind);
        assert(is_break(false, cs, o));
        if kind == Break::Allowed {
            lemma_trim_break(cs, ss, o);
        }
    } else {
        if ss < cs.len() {
            lemma_seg_facts(cs, ss, cs.len() as int, Break::Mandatory);
        }
    }
}

/// Handling the break opportunities from `j` on keeps wrapping fitting, and
/// ends at the end of the text.
#[verifier::spinoff_prover]
pub proof fn lemma_from_fits(w: Width, cs: Seq<char>, width: int, j: int, st: WrapState)
    requires
        wrap_clean(cs),
        width >= 1,
        fits(w, cs, width, st),
        (j == 0 && st.seg_start == 0) || (j == st.seg_start + 1 && st.seg_start < cs.len()),
    ensures
        fits(w, cs, width, wrap_from(w, cs, crate::ansi::strip_from(cs, 0), width, j, st)),
        wrap_from(w, cs, crate::ansi::strip_from(cs, 0), width, j, st).seg_start == cs.len(),
    decreases cs.len() - j,
{
    lemma_plain_ends(cs);
    let ss = st.seg_start;
    assert(0 <= ss <= cs.len()) by {
        reveal(fits);
    }
    let o = next_opportunity(cs, j);
    lemma_next_seg(cs, j, ss);
    if 0 <= j <= o < cs.len() {
        let kind = verdict(cs, o)->Some_0;
        lemma_step_fits(w, cs, width, st, o, kind);
        lemma_from_fits(w, cs, width, o + 1, wrap_step(w, cs, width, st, o, kind));
    } else {
        lemma_step_fits(w, cs, width, st, cs.len() as int, Break::Mandatory);
    }
}

/// Wrapping a text without escapes, where no space joins a Prepend
/// character and a cluster boundary falls at every break opportunity, gives
/// lines of at most `width` columns, but for a single cluster wider than any
/// line; and text of printable ASCII and line feeds wraps into lines of
/// printable ASCII alone.
pub proof fn lemma_wrap_fits(w: Width, cs: Seq<char>, width: int)
    requires
        wrap_clean(cs),
        width >= 0,
    ensures
        forall|i: int|
            0 <= i < wrap_spec(w, cs, width).len() ==> line_fits(w, #[trigger] wrap_spec(w, cs, width)[i], width),
        crate::table::plain_cell(cs) ==> lines_printable(wrap_spec(w, cs, width)),
{
    if width >= 1 {
        let init = wrap_init();
        lemma_fresh_fits(w, cs, width, init, 0);
        lemma_from_fits(w, cs, width, 0, init);
        let st = wrap_from(w, cs, crate::ansi::strip_from(cs, 0), width, 0, init);
        reveal(fits);
        if st.line_start < cs.len() || !st.wrote {
            reveal(line_fits);
            lemma_trim_tail(cs.subrange(st.line_start, cs.len() as int));
            lemma_emit_fits(w, cs, width, st.line_start, cs.len() as int, st.out);
        }
    }
}

/// Once a line has been written, there is one to show.
pub open spec fn wrote_ok(st: WrapState) -> bool {
    st.wrote ==> st.out.len() > 0
}

/// Cutting by column only adds lines, and says it wrote only if it did.
#[verifier::spinoff_prover]
#[verifier::rlimit(30)]
pub proof fn lemma_chunks_grow(
    w: Width,
    cs: Seq<char>,
    width: int,
    at: int,
    limit: int,
    out: Seq<Seq<char>>,
    style: Option<Seq<char>>,
    wrote: bool,
)
    ensures
        ({
            let (o, y, wr, a) = chunks(w, cs, width, at, limit, out, style, wrote);
            &&& o.len() >= out.len()
            &&& wr ==> wrote || o.len() > 0
        }),
    decreases limit - at,
{
    if at < limit && width_of(w, cs.subrange(at, limit)) > width {
        let sub = cs.subrange(at, limit);
        let te = crate::measure::trunc_end(w, sub, 0, 0, width);
        let fe = cluster_end(false, sub, 0);
        let take = if te > fe {
            te
        } else {
            fe
        };
        let stop = if at + take < limit {
            at + take
        } else {
            limit
        };
        if stop > at {
            let (o2, s2) = emit(w, cs, at, stop, out, style);
            lemma_chunks_grow(w, cs, width, stop, limit, o2, s2, true);
        }
    }
}

/// One break opportunity only adds lines, and keeps the written flag honest.
#[verifier::spinoff_prover]
#[verifier::rlimit(30)]
pub proof fn lemma_step_grow(w: Width, cs: Seq<char>, width: int, st: WrapState, end: int, kind: Break)
    requires
        wrote_ok(st),
    ensures
        wrote_ok(wrap_step(w, cs, width, st, end, kind)),
{
    lemma_step_shape(w, cs, width, st, end, kind);
    if end != st.seg_start {
        let st1 = flushed(w, cs, width, st, end);
        assert(wrote_ok(st1));
        let t = trim_len(cs.subrange(st1.seg_start, end));
        lemma_chunks_grow(w, cs, width, st1.line_start, st1.seg_start + t, st1.out, st1.style, st1.wrote);
    }
}

/// Handling the break opportunities keeps the written flag honest.
pub proof fn lemma_from_grow(w: Width, cs: Seq<char>, pl: Seq<char>, width: int, j: int, st: WrapState)
    requires
        wrote_ok(st),
    ensures
        wrote_ok(wrap_from(w, cs, pl, width, j, st)),
    decreases pl.len() - j,
{
    let o = next_opportunity(pl, j);
    if 0 <= j <= o < pl.len() {
        let st2 = wrap_step(w, cs, width, st, src_end(cs, o), verdict(pl, o)->Some_0);
        lemma_step_grow(w, cs, width, st, src_end(cs, o), verdict(pl, o)->Some_0);
        lemma_from_grow(w, cs, pl, width, o + 1, st2);
    } else {
        lemma_step_grow(w, cs, width, st, cs.len() as int, Break::Mandatory);
    }
}

/// Wrapping to a width of at least one always gives a line to print.
pub proof fn lemma_wrap_nonempty(w: Width, cs: Seq<char>, width: int)
    requires
        width >= 1,
    ensures
        wrap_spec(w, cs, width).len() >= 1,
{
    lemma_from_grow(w, cs, crate::ansi::strip_from(cs, 0), width, 0, wrap_init());
}


/// Text of nothing but spaces.
pub open spec fn blank(cs: Seq<char>) -> bool {
    forall|i: int| 0 <= i < cs.len() ==> cs[i] == ' '
}

/// Trailing spaces go, so a run of spaces trims to nothing.
proof fn lemma_trim_ws_spaces(cs: Seq<char>, n: int)
    requires
        0 <= n <= cs.len(),
        forall|i: int| 0 <= i < n ==> cs[i] == ' ',
    ensures
        trim_ws(cs, n) == 0,
    decreases n,
{
    if n > 0 {
        lemma_trim_ws_spaces(cs, n - 1);
    }
}

/// No break opportunity falls inside a run of spaces (LB7), so the first one
/// is the end of the text.
proof fn lemma_spaces_unbroken(cs: Seq<char>)
    requires
        blank(cs),
    ensures
        next_opportunity(cs, 0) == cs.len(),
{
    crate::tables::lemma_ascii_props(0x20);
    assert(lb_of(' ') == Lb::SP);
    assert forall|j: int| 0 <= j < cs.len() implies verdict(cs, j) is None by {
        if j == 0 {
            crate::linebreak::lemma_no_break_at_start(cs);
        } else {
            let st = crate::linebreak::lb_state(cs, j);
            assert(cs[j - 1] == ' ');
            if crate::linebreak::hard(st.prev.class) {
                crate::linebreak::lemma_prev_hard(cs, j);
            }
            assert(cs[j] == ' ');
        }
    }
    crate::linebreak::lemma_next_opportunity(cs, 0);
}

/// Wrapping text of nothing but spaces, the empty text among them, gives one
/// empty line.
pub proof fn lemma_wrap_blank(w: Width, cs: Seq<char>, width: int)
    requires
        blank(cs),
        width >= 1,
    ensures
        wrap_spec(w, cs, width) == seq![Seq::<char>::empty()],
{
    assert forall|i: int| 0 <= i < cs.len() implies !starts_escape(#[trigger] cs[i]) by {
        assert(cs[i] == ' ');
    }
    assert(!has_esc(cs));
    crate::ansi::lemma_strip_no_escape(cs, 0);
    assert(cs.subrange(0, cs.len() as int) =~= cs);
    lemma_spaces_unbroken(cs);
    reveal(wrap_step);
    lemma_plain_line(w, cs);
    lemma_trim_ws_spaces(cs, cs.len() as int);
    assert(trim_len(cs) == 0);
    assert(cs.take(0) =~= Seq::<char>::empty());
    assert(width_at(w, Seq::<char>::empty(), 0) == 0);
    if cs.len() > 0 {
        assert(cs.subrange(0, cs.len() as int).take(0) =~= Seq::<char>::empty());
    }
}

} // verus!
