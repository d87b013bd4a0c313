//! Wrapping loses no visible character.
//!
//! Each line [`Width::wrap`] emits is the body of the stretch of text from
//! where the previous line ended, and a body drops only the line separator
//! and the spaces at its end. So, for text without escape sequences (where no
//! styling is reopened on each line), the lines put together hold every
//! character of the text that is not white space, in order.

use vstd::prelude::*;

use crate::ansi::{has_esc, lemma_esc_bounds, open_from, piece_end, piece_is_escape, starts_escape, style_open};
use crate::append::lemma_text_end_clear;
use crate::fit::{
    body_spec, chunks, emit, is_line_sep, last_text_end, lemma_src_end_mono, lemma_trim_ws, line_spec,
    src_end, style_after, style_from, trim_len, trim_ws, wrap_from, wrap_init, wrap_spec, wrap_step,
    WrapState,
};
use crate::linebreak::{next_opportunity, verdict, Break};
use crate::measure::Width;
use crate::report::is_space;

verus! {

/// The characters of `s` that are not white space.
pub open spec fn visible(s: Seq<char>) -> Seq<char>
    decreases s.len(),
{
    if s.len() == 0 {
        seq![]
    } else {
        visible(s.drop_last()) + if is_space(s.last()) {
            Seq::<char>::empty()
        } else {
            seq![s.last()]
        }
    }
}

/// Lines put together.
pub open spec fn concat_lines(ls: Seq<Seq<char>>) -> Seq<char>
    decreases ls.len(),
{
    if ls.len() == 0 {
        seq![]
    } else {
        concat_lines(ls.drop_last()) + ls.last()
    }
}

/// What is visible of two texts together is what is visible of each.
pub proof fn lemma_visible_append(a: Seq<char>, b: Seq<char>)
    ensures
        visible(a + b) == visible(a) + visible(b),
    decreases b.len(),
{
    if b.len() == 0 {
        assert(a + b =~= a);
        assert(visible(a) + visible(b) =~= visible(a));
    } else {
        lemma_visible_append(a, b.drop_last());
        assert((a + b).drop_last() =~= a + b.drop_last());
        assert((a + b).last() == b.last());
        assert(visible(a + b) =~= visible(a) + visible(b));
    }
}

/// Nothing of white space is visible.
pub proof fn lemma_visible_blank(s: Seq<char>)
    requires
        forall|i: int| 0 <= i < s.len() ==> is_space(#[trigger] s[i]),
    ensures
        visible(s) == Seq::<char>::empty(),
    decreases s.len(),
{
    if s.len() > 0 {
        assert forall|i: int| 0 <= i < s.drop_last().len() implies is_space(#[trigger] s.drop_last()[i]) by {
            assert(s.drop_last()[i] == s[i]);
        }
        lemma_visible_blank(s.drop_last());
        assert(is_space(s[s.len() - 1]));
        assert(visible(s) =~= Seq::<char>::empty());
    }
}

/// The characters `trim_ws` drops are spaces and tabs.
pub proof fn lemma_trim_ws_blank(cs: Seq<char>, n: int)
    requires
        0 <= n <= cs.len(),
    ensures
        forall|i: int| trim_ws(cs, n) <= i < n ==> cs[i] == ' ' || cs[i] == '\t',
    decreases n,
{
    if n > 0 && (cs[n - 1] == ' ' || cs[n - 1] == '\t') {
        lemma_trim_ws_blank(cs, n - 1);
    }
}

/// Dropping the separator and trailing spaces of a line drops nothing visible.
pub proof fn lemma_trim_keeps_visible(cs: Seq<char>)
    ensures
        0 <= trim_len(cs) <= cs.len(),
        visible(cs.take(trim_len(cs))) == visible(cs),
{
    let n = if cs.len() >= 2 && cs[cs.len() - 2] == '\r' && cs[cs.len() - 1] == '\n' {
        cs.len() - 2
    } else if cs.len() >= 1 && is_line_sep(cs[cs.len() - 1]) {
        cs.len() - 1
    } else {
        cs.len() as int
    };
    lemma_trim_ws(cs, n);
    lemma_trim_ws_blank(cs, n);
    let m = trim_len(cs);
    let tail = cs.subrange(m, cs.len() as int);
    assert forall|i: int| 0 <= i < tail.len() implies is_space(#[trigger] tail[i]) by {
        assert(tail[i] == cs[m + i]);
    }
    lemma_visible_blank(tail);
    assert(cs =~= cs.take(m) + tail);
    lemma_visible_append(cs.take(m), tail);
}

// ---------------------------------------------------------------------------
// Lines of text without escape sequences.

/// A stretch of text without escapes has none either.
pub proof fn lemma_no_esc_sub(cs: Seq<char>, a: int, b: int)
    requires
        !has_esc(cs),
        0 <= a <= b <= cs.len(),
    ensures
        !has_esc(cs.subrange(a, b)),
{
    let s = cs.subrange(a, b);
    if has_esc(s) {
        let i = choose|i: int| 0 <= i < s.len() && starts_escape(#[trigger] s[i]);
        assert(s[i] == cs[a + i]);
        assert(starts_escape(cs[a + i]));
    }
}

/// Text without escapes is one run of text.
pub proof fn lemma_one_piece(cs: Seq<char>)
    requires
        !has_esc(cs),
        cs.len() > 0,
    ensures
        !piece_is_escape(cs, 0),
        piece_end(cs, 0) == cs.len(),
{
    assert(!starts_escape(cs[0]));
    lemma_esc_bounds(cs, 0);
    assert forall|q: int| 1 <= q < cs.len() implies !starts_escape(#[trigger] cs[q]) by {
    }
    lemma_text_end_clear(cs, 1);
}

/// The line emitted for a stretch of text without escapes is its body, which
/// is its content less the separator and trailing spaces; and it leaves no
/// styling to remember.
pub proof fn lemma_plain_line(w: Width, raw: Seq<char>)
    requires
        !has_esc(raw),
    ensures
        line_spec(w, raw, None) == raw.take(trim_len(raw)),
        style_after(w, raw, None) == None::<Seq<char>>,
        visible(line_spec(w, raw, None)) == visible(raw),
{
    lemma_trim_keeps_visible(raw);
    if raw.len() > 0 {
        lemma_one_piece(raw);
        assert(last_text_end(raw, raw.len() as int, raw.len() as int) == raw.len());
        assert(last_text_end(raw, 0, 0) == raw.len());
        assert(raw.take(raw.len() as int) =~= raw);
        assert(raw.subrange(raw.len() as int, raw.len() as int) =~= Seq::<char>::empty());
        assert(body_spec(raw) =~= raw.take(trim_len(raw)));
        assert(style_from(raw, 0, None) == style_from(raw, raw.len() as int, None));
        let b = raw.take(trim_len(raw));
        lemma_no_esc_sub(raw, 0, trim_len(raw));
        assert(b =~= raw.subrange(0, trim_len(raw)));
        if b.len() > 0 {
            lemma_one_piece(b);
            assert(open_from(b, 0, false) == open_from(b, b.len() as int, false));
        }
        assert(!style_open(b));
        assert(Seq::<char>::empty() + b =~= b);
    } else {
        assert(last_text_end(raw, 0, 0) == 0);
        assert(body_spec(raw) =~= Seq::<char>::empty());
        assert(raw.take(trim_len(raw)) =~= Seq::<char>::empty());
        assert(Seq::<char>::empty() + Seq::<char>::empty() =~= Seq::<char>::empty());
        assert(!style_open(Seq::<char>::empty()));
    }
}

/// What wrapping has kept so far: the lines emitted hold what is visible of
/// the text up to where the current line begins, and no styling is held.
pub open spec fn kept(cs: Seq<char>, st: WrapState) -> bool {
    &&& 0 <= st.line_start <= st.seg_start <= cs.len()
    &&& st.style == None::<Seq<char>>
    &&& visible(concat_lines(st.out)) == visible(cs.subrange(0, st.line_start))
}

/// Emitting the stretch from where the line begins keeps everything visible.
pub proof fn lemma_emit_keeps(
    w: Width,
    cs: Seq<char>,
    from: int,
    to: int,
    out: Seq<Seq<char>>,
)
    requires
        !has_esc(cs),
        0 <= from <= to <= cs.len(),
        visible(concat_lines(out)) == visible(cs.subrange(0, from)),
    ensures
        emit(w, cs, from, to, out, None).1 == None::<Seq<char>>,
        visible(concat_lines(emit(w, cs, from, to, out, None).0)) == visible(cs.subrange(0, to)),
{
    let raw = cs.subrange(from, to);
    lemma_no_esc_sub(cs, from, to);
    lemma_plain_line(w, raw);
    let o2 = out.push(line_spec(w, raw, None));
    assert(o2.drop_last() =~= out);
    lemma_visible_append(concat_lines(out), line_spec(w, raw, None));
    assert(cs.subrange(0, to) =~= cs.subrange(0, from) + raw);
    lemma_visible_append(cs.subrange(0, from), raw);
}

/// Cutting by column keeps everything visible, and ends no further than the limit.
pub proof fn lemma_chunks_keep(
    w: Width,
    cs: Seq<char>,
    width: int,
    at: int,
    limit: int,
    out: Seq<Seq<char>>,
    wrote: bool,
)
    requires
        !has_esc(cs),
        0 <= at <= limit <= cs.len(),
        visible(concat_lines(out)) == visible(cs.subrange(0, at)),
    ensures
        ({
            let (o, y, wr, a) = chunks(w, cs, width, at, limit, out, None, wrote);
            &&& at <= a <= limit
            &&& y == None::<Seq<char>>
            &&& visible(concat_lines(o)) == visible(cs.subrange(0, a))
        }),
    decreases limit - at,
{
    if at < limit && crate::measure::width_of(w, cs.subrange(at, limit)) > width {
        let sub = cs.subrange(at, limit);
        let te = crate::measure::trunc_end(w, sub, 0, 0, width);
        let fe = crate::grapheme::cluster_end(false, sub, 0);
        let take = if te > fe {
            te
        } else {
            fe
        };
        let stop = if at + take < limit {
            at + take
        } else {
            limit
        };
        if stop > at {
            lemma_emit_keeps(w, cs, at, stop, out);
            let (o2, s2) = emit(w, cs, at, stop, out, None);
            lemma_chunks_keep(w, cs, width, stop, limit, o2, true);
        }
    }
}

/// One break opportunity keeps everything visible, and the pending segment
/// then begins at it.
pub proof fn lemma_step_keeps(w: Width, cs: Seq<char>, width: int, st: WrapState, end: int, kind: Break)
    requires
        !has_esc(cs),
        kept(cs, st),
        st.seg_start <= end <= cs.len(),
    ensures
        kept(cs, wrap_step(w, cs, width, st, end, kind)),
        wrap_step(w, cs, width, st, end, kind).seg_start == end,
{
    reveal(wrap_step);
    if end != st.seg_start {
        let seg = cs.subrange(st.seg_start, end);
        let t = trim_len(seg);
        lemma_trim_keeps_visible(seg);
        let st1 = if st.col > 0 && st.col + crate::measure::width_at(w, seg.take(t), st.col) > width {
            lemma_emit_keeps(w, cs, st.line_start, st.seg_start, st.out);
            let (o, y) = emit(w, cs, st.line_start, st.seg_start, st.out, st.style);
            WrapState { out: o, style: y, line_start: st.seg_start, col: 0, wrote: true, ..st }
        } else {
            st
        };
        let wt = crate::measure::width_at(w, seg.take(t), st1.col);
        if st1.col == 0 && wt > width {
            lemma_chunks_keep(w, cs, width, st1.line_start, st1.seg_start + t, st1.out, st1.wrote);
            let (o, y, wr, at) = chunks(w, cs, width, st1.line_start, st1.seg_start + t, st1.out, st1.style, st1.wrote);
            if kind == Break::Mandatory {
                lemma_emit_keeps(w, cs, at, end, o);
            }
        } else {
            let st2 = WrapState { col: st1.col + crate::measure::width_at(w, seg, st1.col), seg_start: end, ..st1 };
            if kind == Break::Mandatory {
                lemma_emit_keeps(w, cs, st2.line_start, end, st2.out);
            }
        }
    }
}

/// Handling the break opportunities from `j` on keeps everything visible.
pub proof fn lemma_from_keeps(w: Width, cs: Seq<char>, width: int, j: int, st: WrapState)
    requires
        !has_esc(cs),
        kept(cs, st),
        0 <= j,
        st.seg_start <= src_end(cs, j),
    ensures
        kept(cs, wrap_from(w, cs, crate::ansi::strip_from(cs, 0), width, j, st)),
    decreases crate::ansi::strip_from(cs, 0).len() - j,
{
    let pl = crate::ansi::strip_from(cs, 0);
    let o = next_opportunity(pl, j);
    if 0 <= j <= o < pl.len() {
        lemma_src_end_mono(cs, j, o);
        lemma_src_end_mono(cs, o, o + 1);
        let end = src_end(cs, o);
        lemma_step_keeps(w, cs, width, st, end, verdict(pl, o)->Some_0);
        lemma_from_keeps(w, cs, width, o + 1, wrap_step(w, cs, width, st, end, verdict(pl, o)->Some_0));
    } else {
        lemma_step_keeps(w, cs, width, st, cs.len() as int, Break::Mandatory);
    }
}

/// Wrapping text without escape sequences into lines of at least one column
/// keeps every character that is not white space, in order.
pub proof fn lemma_wrap_keeps_text(w: Width, cs: Seq<char>, width: int)
    requires
        !has_esc(cs),
        width >= 1,
    ensures
        visible(concat_lines(wrap_spec(w, cs, width))) == visible(cs),
{
    let init = wrap_init();
    assert(cs.subrange(0, 0) =~= Seq::<char>::empty());
    assert(concat_lines(Seq::<Seq<char>>::empty()) == Seq::<char>::empty());
    assert(kept(cs, init));
    lemma_src_end_mono(cs, 0, 0);
    lemma_from_keeps(w, cs, width, 0, init);
    let st = wrap_from(w, cs, crate::ansi::strip_from(cs, 0), width, 0, init);
    if st.line_start < cs.len() || !st.wrote {
        lemma_emit_keeps(w, cs, st.line_start, cs.len() as int, st.out);
    }
    assert(cs.subrange(0, cs.len() as int) =~= cs);
}

} // verus!
