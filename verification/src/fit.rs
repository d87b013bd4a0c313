//! Cutting text to a column budget without breaking it.
//!
//! Everything here works in whole grapheme clusters and whole escape
//! sequences, so a cut never produces a broken character or a half-written
//! colour code.

use vstd::prelude::*;

use std::borrow::Cow;

use crate::append::{
    all_plain, ends_joining, lemma_append_closed, lemma_append_reset, lemma_ellipsis_plain,
    lemma_plain_width, lemma_spaces, lemma_trim_closed, lemma_trim_width, lemma_width_append,
};
use crate::units::{cap, lemma_cap_split, lemma_truncate_fits};
use crate::append::{lemma_space_plain, open_end};
use crate::concat::{joins_back, lemma_concat_closed, lemma_width_concat, lemma_width_no_tab};
use crate::ansi::{lemma_reset, lemma_trim_prefix, leaves_style_open, style_open, trim_dangling, trim_spec, RESET};
use crate::grapheme::{cluster_end, first_cluster, lemma_cluster_bounds};
use crate::linebreak::{next_opportunity, verdict, Break};
use crate::measure::{lemma_room_mono, lemma_trunc_bounds, room, trunc_end, width_at, width_of, Width};
use crate::ansi::{lemma_piece_bounds, piece_end, piece_is_escape, strip_from, Piece, Pieces};
use crate::text::{
    boff, byte_len, char_len, lemma_boff_len, lemma_boff_mono, lemma_boff_step, lemma_boff_sub,
    lemma_encode_subrange,
    prefix, push_spaces, push_str, to_chars,
};

verus! {

/// The default ellipsis used by [`Width::cell`]: a single-column `…`.
pub const ELLIPSIS: &'static str = "…";

/// The contents of `ELLIPSIS`.
pub proof fn lemma_ellipsis()
    ensures
        ELLIPSIS@ == seq!['\u{2026}'],
{
    reveal_strlit("…");
}

/// The characters of the SGR reset sequence.
pub open spec fn reset_seq() -> Seq<char> {
    seq!['\x1b', '[', '0', 'm']
}

/// `n` spaces.
pub open spec fn spaces(n: int) -> Seq<char> {
    Seq::new(n as nat, |i: int| ' ')
}

/// What [`Width::truncate_ellipsis`] returns for `cs`, a budget of `max`
/// columns and the marker `e`.
pub open spec fn ellipsis_spec(w: Width, cs: Seq<char>, max: int, e: Seq<char>) -> Seq<char> {
    if width_of(w, cs) <= max {
        cs
    } else if width_of(w, e) > max {
        cs.take(trunc_end(w, cs, 0, 0, max))
    } else {
        let head = trim_spec(cs.take(trunc_end(w, cs, 0, 0, max - width_of(w, e))));
        head + marker_break(head, e) + e + if w.ansi_on() && style_open(head) {
            reset_seq()
        } else {
            Seq::<char>::empty()
        }
    }
}

/// What goes between a cut text and its marker: a zero-width space where a
/// cluster boundary is not sure to fall between them, so that the marker
/// cannot merge with the end of the text.
pub open spec fn marker_break(head: Seq<char>, e: Seq<char>) -> Seq<char> {
    if crate::concat::clean_junction(head, e) {
        Seq::<char>::empty()
    } else {
        zwsp()
    }
}

/// Whether `t` holds a tab.
pub open spec fn has_tab(t: Seq<char>) -> bool {
    exists|i: int| 0 <= i < t.len() && t[i] == '\t'
}

/// Where padding goes.
pub enum Align {
    Start,
    End,
    Center,
}

/// Spaces (left, right) that pad a text short of the target by `gap` columns.
pub open spec fn gap_split(align: Align, gap: int) -> (int, int) {
    match align {
        Align::Start => (0, gap),
        Align::End => (gap, 0),
        Align::Center => (gap / 2, gap - gap / 2),
    }
}

/// A zero-width space.
pub open spec fn zwsp() -> Seq<char> {
    seq!['\u{200B}']
}

/// What goes between a text and the spaces that pad it on the right: a
/// zero-width space if the text ends in a character that would otherwise
/// join the first space into its cluster.
pub open spec fn join_break(t: Seq<char>) -> Seq<char> {
    if ends_joining(t) {
        zwsp()
    } else {
        Seq::<char>::empty()
    }
}

/// What goes between `l` spaces of padding on the left and a text: a
/// zero-width space if the text begins with a character that would otherwise
/// join the last space into its cluster.
pub open spec fn front_break(t: Seq<char>, l: int) -> Seq<char> {
    if l > 0 && t.len() > 0 && joins_back(t[0]) {
        zwsp()
    } else {
        Seq::<char>::empty()
    }
}

/// `head` padded on the right with `r` spaces, kept apart from it.
pub open spec fn pad_right(head: Seq<char>, r: int) -> Seq<char> {
    if r > 0 {
        head + join_break(head) + spaces(r)
    } else {
        head
    }
}

/// What padding `cs` to `width` columns gives: the text itself if it is
/// already that wide; otherwise the text with any dangling escape dropped,
/// and spaces around it as `align` says.
pub open spec fn pad_spec(w: Width, cs: Seq<char>, width: int, align: Align) -> Seq<char> {
    let t = trim_spec(cs);
    let have = width_of(w, t);
    if width_of(w, cs) >= width {
        cs
    } else if have >= width {
        t
    } else {
        let l = gap_split(align, width - have).0;
        pad_right(spaces(l) + front_break(t, l) + t, fill(w, t, l, width))
    }
}

/// Spaces on the right that bring `t`, set after `l` spaces, up to `width`
/// columns, measured where `t` then stands: a tab in it may have grown or
/// shrunk with the move.
pub open spec fn fill(w: Width, t: Seq<char>, l: int, width: int) -> int {
    let wl = width_at(w, t, l);
    if l + wl < width {
        width - l - wl
    } else {
        0
    }
}

/// What [`Width::cell`] keeps of the fitted text: any escape sequence left
/// open at its end is dropped.
pub open spec fn cell_kept(w: Width, cs: Seq<char>, width: int) -> Seq<char> {
    trim_spec(ellipsis_spec(w, cs, width, seq!['\u{2026}']))
}

/// What [`Width::cell`] returns: the text fitted with `…`, with any dangling
/// escape dropped, padded with spaces on the right up to `width` columns.
pub open spec fn cell_spec(w: Width, cs: Seq<char>, width: int) -> Seq<char> {
    let fitted = ellipsis_spec(w, cs, width, seq!['\u{2026}']);
    let kept = cell_kept(w, cs, width);
    let have = width_of(w, kept);
    if have >= width && kept.len() == fitted.len() {
        fitted
    } else {
        pad_right(kept, if width > have { width - have } else { 0 })
    }
}

/// When padding on the left keeps the width: the text holds no tab, whose
/// width would change as it moves right.
pub open spec fn pads_left_cleanly(w: Width, t: Seq<char>, width: int) -> bool {
    width_of(w, t) < width ==> forall|i: int| 0 <= i < t.len() ==> t[i] != '\t'
}

/// A zero-width space takes no columns, holds no escape, and nothing joins
/// across it.
pub proof fn lemma_zwsp(w: Width, col: int)
    ensures
        width_at(w, zwsp(), col) == 0,
        !open_end(zwsp()),
        !ends_joining(zwsp()),
        crate::grapheme::gcb_of('\u{200B}') == crate::grapheme::Gcb::Control,
        !crate::ansi::has_esc(zwsp()),
{
    crate::tables::lemma_zero_width_space_props();
    let z = zwsp();
    assert(!crate::ansi::starts_escape(z[0]));
    assert(!crate::ansi::has_esc(z));
    crate::wrap_fit::lemma_width_text(w, z, col);
    crate::wrap_keep::lemma_one_piece(z);
    assert(cluster_end(false, z, 0) == 1);
    assert(z.subrange(0, 1) =~= z);
    assert(crate::measure::char_w(w, z[0]) == 0);
    assert(z.drop_last() =~= Seq::<char>::empty());
    assert(crate::measure::sum_w(w, Seq::<char>::empty()) == 0);
    assert(crate::measure::count_ri(Seq::<char>::empty()) == 0);
    assert(z.last() == z[0]);
    assert(crate::measure::sum_w(w, z) == 0);
    assert(crate::measure::count_ri(z) <= 1);
    assert(!crate::measure::holds(z, '\u{FE0F}'));
    assert(!crate::measure::holds(z, '\u{FE0E}'));
    assert(!crate::measure::holds_modifier(z));
    assert(crate::measure::adv(w, z, col) == 0);
    assert(crate::measure::cl_text_w(w, z, 1, col) == 0);
    assert(crate::measure::cp_text_w(w, z, 1, col) == 0);
}

/// `y` kept apart from whatever stands on either side of it: a zero-width
/// space before it if it begins with a character that attaches to what
/// precedes, and after it if it ends with one that joins what follows.
pub open spec fn sealed(y: Seq<char>) -> Seq<char> {
    front_break(y, 1) + y + join_break(y)
}

/// Sealing adds no columns and closes nothing that was open, and a sealed
/// text neither attaches to what precedes it nor joins what follows it.
pub proof fn lemma_sealed(w: Width, y: Seq<char>)
    requires
        !open_end(y),
    ensures
        width_of(w, sealed(y)) == width_of(w, y),
        !open_end(sealed(y)),
        !ends_joining(sealed(y)),
        sealed(y).len() > 0 ==> !joins_back(sealed(y)[0]),
{
    let f = front_break(y, 1);
    let b = join_break(y);
    lemma_zwsp(w, 0);
    lemma_zwsp(w, width_of(w, y));
    let z = zwsp();
    assert(z.last() == '\u{200B}');
    assert(!crate::grapheme::extend_like(crate::grapheme::Gcb::Control));
    crate::concat::lemma_width_concat(w, f, y, 0);
    assert(width_at(w, f, 0) == 0);
    lemma_concat_closed(f, y);
    let fy = f + y;
    if b.len() > 0 {
        assert(b[0] == '\u{200B}');
    }
    crate::concat::lemma_width_concat(w, fy, b, 0);
    lemma_concat_closed(fy, b);
    assert(sealed(y) == fy + b);
    if b.len() > 0 {
        assert((fy + b).last() == b.last());
    } else if y.len() > 0 {
        assert((fy + b).last() == y.last());
    } else {
        assert(f.len() == 0);
        assert(fy + b =~= Seq::<char>::empty());
    }
    if f.len() > 0 {
        assert((fy + b)[0] == '\u{200B}');
    } else if y.len() > 0 {
        assert((fy + b)[0] == y[0]);
    }
}

/// Padding on the right, kept apart from the text, adds exactly one column
/// per space.
pub proof fn lemma_pad_right_width(w: Width, x: Seq<char>, n: int)
    requires
        !open_end(x),
        n >= 0,
    ensures
        width_of(w, pad_right(x, n)) == width_of(w, x) + n,
{
    if n > 0 {
        let j = join_break(x);
        let x2 = x + j;
        if ends_joining(x) {
            lemma_zwsp(w, width_of(w, x));
            assert(j[0] == '\u{200B}');
            lemma_width_concat(w, x, j, 0);
            lemma_concat_closed(x, j);
            assert(x2.last() == '\u{200B}');
        } else {
            assert(x2 =~= x);
        }
        lemma_spaces(w, n);
        lemma_width_append(w, x2, spaces(n), 0);
    }
}

/// A text fitted with a marker is at most `max` columns wide, the marker
/// included, whenever the marker holds no tab, whose width depends on where it
/// lands, and leaves no escape sequence open, which would swallow the reset
/// that may follow it.
pub proof fn lemma_ellipsis_fits(w: Width, cs: Seq<char>, max: int, e: Seq<char>)
    requires
        max >= 0,
        !has_tab(e),
        !open_end(e),
    ensures
        width_of(w, ellipsis_spec(w, cs, max, e)) <= max,
{
    if width_of(w, cs) <= max {
    } else if width_of(w, e) > max {
        lemma_truncate_fits(w, cs, max);
    } else {
        let ew = width_of(w, e);
        let k = trunc_end(w, cs, 0, 0, max - ew);
        lemma_truncate_fits(w, cs, max - ew);
        let cut = cs.take(k);
        let head = trim_spec(cut);
        lemma_trim_width(w, cut, 0);
        lemma_trim_closed(cut);
        let b = marker_break(head, e);
        lemma_zwsp(w, width_of(w, head));
        lemma_zwsp(w, 0);
        if b.len() > 0 {
            assert(b[0] == '\u{200B}');
            assert(b.last() == '\u{200B}');
        }
        crate::concat::lemma_width_concat(w, head, b, 0);
        lemma_concat_closed(head, b);
        let hb = head + b;
        if b.len() > 0 {
            assert(hb.last() == '\u{200B}');
        } else {
            assert(hb =~= head);
        }
        crate::concat::lemma_width_concat(w, hb, e, 0);
        crate::concat::lemma_width_no_tab(w, e, width_of(w, hb), 0);
        lemma_concat_closed(hb, e);
        let he = hb + e;
        assert(width_of(w, he) <= max);
        if w.ansi_on() && style_open(head) {
            crate::append::lemma_append_reset(w, he, 0);
        } else {
            assert(he + Seq::<char>::empty() =~= he);
        }
        assert(ellipsis_spec(w, cs, max, e) == he + if w.ansi_on() && style_open(head) {
            reset_seq()
        } else {
            Seq::<char>::empty()
        });
    }
}

/// `…` holds no tab and leaves no escape open.
pub proof fn lemma_ellipsis_marker(w: Width)
    ensures
        !has_tab(seq!['\u{2026}']),
        !open_end(seq!['\u{2026}']),
{
    let e = seq!['\u{2026}'];
    lemma_ellipsis_plain();
    assert(e[0] == '\u{2026}');
    crate::append::lemma_append_closed(Seq::<char>::empty(), e);
    assert(Seq::<char>::empty() + e =~= e);
}

/// A cell is exactly `width` columns wide, whatever the text.
pub proof fn lemma_cell_width(w: Width, cs: Seq<char>, width: int)
    requires
        width >= 0,
    ensures
        width_of(w, cell_spec(w, cs, width)) == width,
{
    let e = seq!['\u{2026}'];
    lemma_ellipsis_marker(w);
    let fitted = ellipsis_spec(w, cs, width, e);
    lemma_ellipsis_fits(w, cs, width, e);
    let kept = trim_spec(fitted);
    lemma_trim_width(w, fitted, 0);
    lemma_trim_prefix(fitted);
    let have = width_of(w, kept);
    if have >= width && kept.len() == fitted.len() {
        assert(fitted.take(fitted.len() as int) =~= fitted);
    } else {
        let pad = if width > have {
            width - have
        } else {
            0
        };
        lemma_trim_closed(fitted);
        lemma_pad_right_width(w, kept, pad);
    }
}

/// Padding on the right gives exactly `width` columns, or the text itself
/// when it is already as wide.
pub proof fn lemma_pad_end_width(w: Width, cs: Seq<char>, width: int)
    ensures
        width_of(w, pad_spec(w, cs, width, Align::Start)) == if width_of(w, cs) >= width {
            width_of(w, cs)
        } else if width_of(w, trim_spec(cs)) >= width {
            width_of(w, trim_spec(cs))
        } else {
            width
        },
{
    let t = trim_spec(cs);
    let have = width_of(w, t);
    if width_of(w, cs) < width && have < width {
        lemma_trim_closed(cs);
        assert(spaces(0) + t =~= t);
        lemma_pad_right_width(w, t, width - have);
    }
}

/// `n` spaces before a text that pads cleanly on the left, kept apart from
/// it, add `n` columns.
pub proof fn lemma_spaces_before(w: Width, t: Seq<char>, n: int, width: int)
    requires
        n >= 0,
        !open_end(t),
        n > 0 ==> pads_left_cleanly(w, t, width),
        n > 0 ==> width_of(w, t) < width,
    ensures
        width_of(w, spaces(n) + front_break(t, n) + t) == n + width_of(w, t),
        !open_end(spaces(n) + front_break(t, n) + t),
{
    lemma_spaces_before_at(w, t, n);
    if n > 0 {
        lemma_width_no_tab(w, t, n, 0);
    }
}

/// `n` spaces before a text, kept apart from it, take `n` columns, and the
/// text is measured where it then stands.
pub proof fn lemma_spaces_before_at(w: Width, t: Seq<char>, n: int)
    requires
        n >= 0,
        !open_end(t),
    ensures
        width_of(w, spaces(n) + front_break(t, n) + t) == n + width_at(w, t, n),
        !open_end(spaces(n) + front_break(t, n) + t),
{
    let sp = spaces(n);
    let fb = front_break(t, n);
    lemma_spaces(w, n);
    lemma_plain_width(w, sp, 0);
    lemma_append_closed(Seq::<char>::empty(), sp);
    assert(Seq::<char>::empty() + sp =~= sp);
    let x = sp + fb;
    if fb.len() > 0 {
        lemma_zwsp(w, n);
        assert(fb[0] == '\u{200B}');
        lemma_width_concat(w, sp, fb, 0);
        lemma_concat_closed(sp, fb);
        assert(x.last() == '\u{200B}');
    } else {
        assert(x =~= sp);
        if n > 0 {
            assert(sp.last() == ' ');
            lemma_space_plain();
        }
    }
    lemma_width_concat(w, x, t, 0);
    lemma_concat_closed(x, t);
}

/// Padding on the left reaches at least `width` columns, and exactly
/// `width`, or the text itself when it is already as wide, as long as the
/// text holds no tab, whose width changes as it moves right.
pub proof fn lemma_pad_start_width(w: Width, cs: Seq<char>, width: int)
    ensures
        width_of(w, pad_spec(w, cs, width, Align::End)) >= width,
        pads_left_cleanly(w, trim_spec(cs), width) ==> width_of(w, pad_spec(w, cs, width, Align::End)) == if width_of(
            w,
            cs,
        ) >= width {
            width_of(w, cs)
        } else if width_of(w, trim_spec(cs)) >= width {
            width_of(w, trim_spec(cs))
        } else {
            width
        },
{
    let t = trim_spec(cs);
    let have = width_of(w, t);
    lemma_trim_width(w, cs, 0);
    if width_of(w, cs) < width && have < width {
        let l = width - have;
        lemma_trim_closed(cs);
        lemma_spaces_before_at(w, t, l);
        lemma_pad_right_width(w, spaces(l) + front_break(t, l) + t, fill(w, t, l, width));
        if pads_left_cleanly(w, t, width) {
            lemma_width_no_tab(w, t, l, 0);
        }
    }
}

/// Centring reaches at least `width` columns, and exactly `width`, or the
/// text itself when it is already as wide, as long as the text holds no tab.
pub proof fn lemma_center_width(w: Width, cs: Seq<char>, width: int)
    ensures
        width_of(w, pad_spec(w, cs, width, Align::Center)) >= width,
        pads_left_cleanly(w, trim_spec(cs), width) ==> width_of(w, pad_spec(w, cs, width, Align::Center)) == if width_of(
            w,
            cs,
        ) >= width {
            width_of(w, cs)
        } else if width_of(w, trim_spec(cs)) >= width {
            width_of(w, trim_spec(cs))
        } else {
            width
        },
{
    let t = trim_spec(cs);
    let have = width_of(w, t);
    lemma_trim_width(w, cs, 0);
    if width_of(w, cs) < width && have < width {
        let gap = width - have;
        let l = gap / 2;
        lemma_trim_closed(cs);
        lemma_spaces_before_at(w, t, l);
        lemma_pad_right_width(w, spaces(l) + front_break(t, l) + t, fill(w, t, l, width));
        if pads_left_cleanly(w, t, width) {
            lemma_width_no_tab(w, t, l, 0);
        }
    }
}

/// The text a `Cow` holds.
pub(crate) fn cow_str<'b>(c: &'b Cow<'b, str>) -> (r: &'b str)
    ensures
        r@ == c@,
{
    match c {
        Cow::Borrowed(b) => *b,
        Cow::Owned(o) => o.as_str(),
    }
}

impl Width {
    /// Fit `s` into `max` columns, marking a cut with `ellipsis`.
    ///
    /// Returns the input untouched if it already fits. Otherwise the result is
    /// at most `max` columns wide including the ellipsis, and a reset is
    /// appended if the cut left styling switched on.
    pub fn truncate_ellipsis<'a>(&self, s: &'a str, max: usize, ellipsis: &str) -> (r: Cow<'a, str>)
        requires
            width_of(*self, s@) <= usize::MAX,
            width_of(*self, ellipsis@) <= usize::MAX,
        ensures
            r@ == ellipsis_spec(*self, s@, max as int, ellipsis@),
            (r matches Cow::Borrowed(_)) <==> (width_of(*self, s@) <= max || width_of(*self, ellipsis@)
                > max),
            !has_tab(ellipsis@) && !open_end(ellipsis@) ==> width_of(*self, r@) <= max,
    {
        proof {
            if !has_tab(ellipsis@) && !open_end(ellipsis@) {
                lemma_ellipsis_fits(*self, s@, max as int, ellipsis@);
            }
        }
        if self.of(s) <= max {
            return Cow::Borrowed(s);
        }
        let e_width = self.of(ellipsis);
        if e_width > max {
            // No room for the marker; a bare cut is the best available answer.
            return Cow::Borrowed(self.truncate(s, max));
        }
        // A dangling escape would swallow the ellipsis, so drop it.
        let head = trim_dangling(self.truncate(s, max - e_width));
        let mut out = String::new();
        push_str(&mut out, head);
        // A cut can end in a character that would merge with the marker.
        if !junction_clean(head, ellipsis) {
            let z = "\u{200B}";
            proof {
                reveal_strlit("\u{200B}");
            }
            push_str(&mut out, z);
        }
        assert(out@ == head@ + marker_break(head@, ellipsis@));
        push_str(&mut out, ellipsis);
        if self.ansi_enabled() && leaves_style_open(head) {
            proof {
                lemma_reset();
            }
            push_str(&mut out, RESET);
        }
        proof {
            let tail = if self.ansi_on() && style_open(head@) {
                reset_seq()
            } else {
                Seq::<char>::empty()
            };
            assert(out@ =~= head@ + marker_break(head@, ellipsis@) + ellipsis@ + tail);
        }
        Cow::Owned(out)
    }

    /// Pad `s` with spaces on the right to at least `width` columns.
    ///
    /// Text at least `width` columns wide is returned unchanged; use
    /// [`Width::cell`] to force an exact width.
    pub fn pad_end<'a>(&self, s: &'a str, width: usize) -> (r: Cow<'a, str>)
        requires
            width_of(*self, s@) <= usize::MAX,
        ensures
            r@ == pad_spec(*self, s@, width as int, Align::Start),
            width_of(*self, s@) >= width ==> r@ == s@,
            width_of(*self, r@) >= width,
            width_of(*self, s@) < width ==> width_of(*self, r@) == if width_of(*self, trim_spec(s@)) >= width {
                width_of(*self, trim_spec(s@))
            } else {
                width as int
            },
    {
        proof {
            lemma_pad_end_width(*self, s@, width as int);
        }
        self.pad(s, width, Align::Start)
    }

    /// Pad `s` with spaces on the left to at least `width` columns.
    pub fn pad_start<'a>(&self, s: &'a str, width: usize) -> (r: Cow<'a, str>)
        requires
            width_of(*self, s@) <= usize::MAX,
            has_tab(trim_spec(s@)) ==> width + cap(*self, trim_spec(s@)) <= usize::MAX,
        ensures
            r@ == pad_spec(*self, s@, width as int, Align::End),
            width_of(*self, s@) >= width ==> r@ == s@,
            width_of(*self, r@) >= width,
            pads_left_cleanly(*self, trim_spec(s@), width as int) ==> width_of(*self, r@) == if width_of(
                *self,
                s@,
            ) >= width {
                width_of(*self, s@)
            } else if width_of(*self, trim_spec(s@)) >= width {
                width_of(*self, trim_spec(s@))
            } else {
                width as int
            },
    {
        proof {
            lemma_pad_start_width(*self, s@, width as int);
        }
        self.pad(s, width, Align::End)
    }

    /// Pad `s` with spaces on both sides to at least `width` columns.
    ///
    /// An odd remainder goes on the right.
    pub fn center<'a>(&self, s: &'a str, width: usize) -> (r: Cow<'a, str>)
        requires
            width_of(*self, s@) <= usize::MAX,
            has_tab(trim_spec(s@)) ==> width + cap(*self, trim_spec(s@)) <= usize::MAX,
        ensures
            r@ == pad_spec(*self, s@, width as int, Align::Center),
            width_of(*self, s@) >= width ==> r@ == s@,
            width_of(*self, r@) >= width,
            pads_left_cleanly(*self, trim_spec(s@), width as int) ==> width_of(*self, r@) == if width_of(
                *self,
                s@,
            ) >= width {
                width_of(*self, s@)
            } else if width_of(*self, trim_spec(s@)) >= width {
                width_of(*self, trim_spec(s@))
            } else {
                width as int
            },
    {
        proof {
            lemma_center_width(*self, s@, width as int);
        }
        self.pad(s, width, Align::Center)
    }

    fn pad<'a>(&self, s: &'a str, width: usize, align: Align) -> (r: Cow<'a, str>)
        requires
            width_of(*self, s@) <= usize::MAX,
            !(align is Start) && has_tab(trim_spec(s@)) ==> width + cap(*self, trim_spec(s@)) <= usize::MAX,
        ensures
            r@ == pad_spec(*self, s@, width as int, align),
            (r matches Cow::Borrowed(_)) <==> (width_of(*self, s@) >= width || width_of(*self, trim_spec(s@))
                >= width),
    {
        if self.of(s) >= width {
            return Cow::Borrowed(s);
        }
        // An unterminated escape at the end would swallow the padding, leaving
        // a cell narrower than asked for. Such a sequence is malformed input;
        // dropping it is the only way to keep the width guarantee.
        let t = trim_dangling(s);
        proof {
            lemma_trim_prefix(s@);
            crate::append::lemma_trim_width(*self, s@, 0);
        }
        let have = self.of(t);
        if have >= width {
            return Cow::Borrowed(t);
        }
        let gap = width - have;
        let left = match align {
            Align::Start => 0,
            Align::End => gap,
            Align::Center => gap / 2,
        };
        // A tab moved right by the padding may change its width, so the text
        // is measured again where it will stand.
        let tabbed = left > 0 && holds_tab(t);
        proof {
            if !tabbed {
                if left > 0 {
                    lemma_width_no_tab(*self, t@, left as int, 0);
                }
            } else {
                crate::units::lemma_width_cap(*self, t@, left as int);
            }
        }
        let right = if tabbed {
            let at = self.of_at(t, left);
            if left + at < width {
                width - left - at
            } else {
                0
            }
        } else {
            width - left - have
        };
        assert(right == fill(*self, t@, left as int, width as int));
        let mut out = String::new();
        push_spaces(&mut out, left);
        if left > 0 && starts_joining_back(t) {
            let z = "\u{200B}";
            proof {
                reveal_strlit("\u{200B}");
            }
            push_str(&mut out, z);
        }
        assert(out@ =~= spaces(left as int) + front_break(t@, left as int));
        push_str(&mut out, t);
        push_padding(&mut out, right);
        Cow::Owned(out)
    }

    /// Fit `s` into exactly `width` columns: truncate with `…` if too long,
    /// pad with spaces if too short.
    ///
    /// This is the table-cell workhorse. The result is always `width` columns
    /// wide, whatever writing system or emoji the input contains.
    pub fn cell<'a>(&self, s: &'a str, width: usize) -> (r: Cow<'a, str>)
        requires
            width_of(*self, s@) <= usize::MAX,
        ensures
            r@ == cell_spec(*self, s@, width as int),
            width_of(*self, r@) == width,
    {
        proof {
            lemma_cell_width(*self, s@, width as int);
        }
        proof {
            lemma_ellipsis();
            lemma_ellipsis_plain();
            crate::measure::lemma_width_bound(*self, ELLIPSIS@, 0);
            lemma_room_mono(*self, 0, 1);
        }
        let fitted = self.truncate_ellipsis(s, width, ELLIPSIS);
        let f = cow_str(&fitted);
        proof {
            lemma_ellipsis_marker(*self);
            lemma_ellipsis_fits(*self, s@, width as int, seq!['\u{2026}']);
        }
        let kept = trim_dangling(f);
        proof {
            lemma_trim_prefix(f@);
            crate::append::lemma_trim_width(*self, f@, 0);
        }
        let have = self.of(kept);
        let same = byte_len(kept) == byte_len(f);
        proof {
            let m = kept@.len() as int;
            lemma_boff_len(kept@);
            lemma_boff_len(f@);
            assert(kept@ == f@.take(m));
            assert(f@.take(m).take(m) =~= f@.take(m));
            if m < f@.len() {
                lemma_boff_mono(f@, m, f@.len() as int);
            }
            assert(f@.take(f@.len() as int) =~= f@);
            assert(same <==> m == f@.len());
        }
        if have >= width && same {
            return fitted;
        }
        let pad = if width > have {
            width - have
        } else {
            0
        };
        let mut out = String::new();
        push_str(&mut out, kept);
        push_padding(&mut out, pad);
        Cow::Owned(out)
    }
}

/// Whether `s` holds a tab.
fn holds_tab(s: &str) -> (r: bool)
    ensures
        r == has_tab(s@),
{
    let v = crate::text::to_chars(s);
    let mut i: usize = 0;
    while i < v.len()
        invariant
            v@ == s@,
            i <= v.len(),
            forall|j: int| 0 <= j < i ==> v@[j] != '\t',
        decreases v.len() - i,
    {
        if v[i] == '\t' {
            return true;
        }
        i = i + 1;
    }
    false
}

/// Whether a cluster boundary is sure to fall where `y` follows `x`.
fn junction_clean(x: &str, y: &str) -> (r: bool)
    ensures
        r == crate::concat::clean_junction(x@, y@),
{
    let xs = crate::text::to_chars(x);
    let ys = crate::text::to_chars(y);
    if xs.len() == 0 || ys.len() == 0 {
        return true;
    }
    let last = crate::grapheme::gcb(xs[xs.len() - 1]);
    let first = crate::grapheme::gcb(ys[0]);
    let first_joins = matches!(
        first,
        crate::grapheme::Gcb::Extend | crate::grapheme::Gcb::InCBExtend | crate::grapheme::Gcb::InCBLinker
            | crate::grapheme::Gcb::Zwj | crate::grapheme::Gcb::SpacingMark
    );
    let last_is_other = matches!(last, crate::grapheme::Gcb::Other);
    let last_is_prepend = matches!(last, crate::grapheme::Gcb::Prepend);
    let first_is_other = matches!(first, crate::grapheme::Gcb::Other);
    let first_is_control = matches!(first, crate::grapheme::Gcb::Control);
    let last_is_control = matches!(last, crate::grapheme::Gcb::Control);
    proof {
        assert(x@.last() == xs@[xs.len() - 1]);
    }
    (last_is_other && !first_joins) || (!last_is_prepend && first_is_other) || first_is_control || last_is_control
}

/// Whether `s` begins with a character that joins what precedes it.
fn starts_joining_back(s: &str) -> (r: bool)
    ensures
        r == (s@.len() > 0 && joins_back(s@[0])),
{
    let v = crate::text::to_chars(s);
    v.len() > 0 && matches!(
        crate::grapheme::gcb(v[0]),
        crate::grapheme::Gcb::Extend | crate::grapheme::Gcb::InCBExtend | crate::grapheme::Gcb::InCBLinker
            | crate::grapheme::Gcb::Zwj | crate::grapheme::Gcb::SpacingMark
    )
}

/// Whether `s` ends in a character that joins what follows it.
fn ends_joining_str(s: &str) -> (r: bool)
    ensures
        r == ends_joining(s@),
{
    let v = crate::text::to_chars(s);
    v.len() > 0 && matches!(crate::grapheme::gcb(v[v.len() - 1]), crate::grapheme::Gcb::Prepend)
}

/// Append `s` to `out`, sealed off from its neighbours.
pub(crate) fn push_sealed(out: &mut String, s: &str)
    ensures
        final(out)@ == old(out)@ + sealed(s@),
{
    let z = "\u{200B}";
    proof {
        reveal_strlit("\u{200B}");
    }
    let ghost before = out@;
    if starts_joining_back(s) {
        push_str(out, z);
    }
    assert(out@ == before + front_break(s@, 1));
    push_str(out, s);
    if ends_joining_str(s) {
        push_str(out, z);
    }
    assert(out@ =~= before + sealed(s@));
}

/// Append `n` spaces of padding to `out`, kept apart from what is there.
fn push_padding(out: &mut String, n: usize)
    ensures
        final(out)@ == pad_right(old(out)@, n as int),
{
    if n > 0 {
        if ends_joining_str(out.as_str()) {
            let z = "\u{200B}";
            proof {
                reveal_strlit("\u{200B}");
            }
            push_str(out, z);
        }
        proof {
            assert(old(out)@ + join_break(old(out)@) == out@);
        }
        push_spaces(out, n);
        assert(out@ =~= pad_right(old(out)@, n as int));
    }
}

// ---------------------------------------------------------------------------
// Lines: separators, trailing blanks, and styling carried across.

/// A character that ends a line on its own.
pub open spec fn is_line_sep(c: char) -> bool {
    c == '\n' || c == '\r' || c == '\u{0B}' || c == '\u{0C}' || c == '\u{85}' || c == '\u{2028}'
        || c == '\u{2029}'
}

/// How many of the first `n` characters are left once trailing spaces and tabs go.
pub open spec fn trim_ws(cs: Seq<char>, n: int) -> int
    decreases n,
{
    if n > 0 && (cs[n - 1] == ' ' || cs[n - 1] == '\t') {
        trim_ws(cs, n - 1)
    } else {
        n
    }
}

/// How many characters are left once the line separator that ended the line,
/// and any trailing spaces and tabs, are removed.
pub open spec fn trim_len(cs: Seq<char>) -> int {
    let n = if cs.len() >= 2 && cs[cs.len() - 2] == '\r' && cs[cs.len() - 1] == '\n' {
        cs.len() - 2
    } else if cs.len() >= 1 && is_line_sep(cs[cs.len() - 1]) {
        cs.len() - 1
    } else {
        cs.len() as int
    };
    trim_ws(cs, n)
}

/// `trim_ws` only ever shortens.
pub proof fn lemma_trim_ws(cs: Seq<char>, n: int)
    requires
        0 <= n <= cs.len(),
    ensures
        0 <= trim_ws(cs, n) <= n,
    decreases n,
{
    if n > 0 && (cs[n - 1] == ' ' || cs[n - 1] == '\t') {
        lemma_trim_ws(cs, n - 1);
    }
}

/// Length of `s` once the line separator that ended it, and any trailing
/// spaces, are removed.
pub fn trim_end_len(s: &str) -> (r: usize)
    ensures
        0 <= trim_len(s@) <= s@.len(),
        r == boff(s@, trim_len(s@)),
{
    let ghost cs = s@;
    let v = to_chars(s);
    let mut n = byte_len(s);
    let mut j = v.len();
    proof {
        lemma_boff_len(cs);
        lemma_boff_mono(cs, 0, cs.len() as int);
    }
    // The separator itself is not part of the line it terminates.
    if j >= 2 && v[j - 2] == '\r' && v[j - 1] == '\n' {
        proof {
            lemma_boff_step(cs, j - 1);
            lemma_boff_step(cs, j - 2);
        }
        n = n - 2;
        j = j - 2;
    } else if j >= 1 && (v[j - 1] == '\n' || v[j - 1] == '\r' || v[j - 1] == '\u{0B}' || v[j - 1]
        == '\u{0C}' || v[j - 1] == '\u{85}' || v[j - 1] == '\u{2028}' || v[j - 1] == '\u{2029}') {
        proof {
            lemma_boff_step(cs, j - 1);
        }
        n = n - char_len(v[j - 1]);
        j = j - 1;
    }
    proof {
        lemma_trim_ws(cs, j as int);
    }
    while j > 0 && (v[j - 1] == ' ' || v[j - 1] == '\t')
        invariant
            v@ == cs,
            j <= cs.len(),
            n == boff(cs, j as int),
            trim_ws(cs, j as int) == trim_len(cs),
        decreases j,
    {
        proof {
            lemma_boff_step(cs, j - 1);
        }
        n = n - 1;
        j = j - 1;
    }
    proof {
        lemma_trim_ws(cs, cs.len() as int);
    }
    n
}

/// Where the last text piece from `k` on ends, or `acc` if there is none.
pub open spec fn last_text_end(cs: Seq<char>, k: int, acc: int) -> int
    decreases cs.len() - k,
{
    if !(0 <= k < cs.len()) {
        acc
    } else {
        let e = piece_end(cs, k);
        if e <= k || e > cs.len() {
            acc
        } else if piece_is_escape(cs, k) {
            last_text_end(cs, e, acc)
        } else {
            last_text_end(cs, e, e)
        }
    }
}

/// Bounds of `last_text_end`.
pub proof fn lemma_last_text_end(cs: Seq<char>, k: int, acc: int)
    requires
        0 <= k <= cs.len(),
        0 <= acc <= k,
    ensures
        acc <= last_text_end(cs, k, acc) <= cs.len(),
    decreases cs.len() - k,
{
    if k < cs.len() {
        lemma_piece_bounds(cs, k);
        let e = piece_end(cs, k);
        if piece_is_escape(cs, k) {
            lemma_last_text_end(cs, e, acc);
        } else {
            lemma_last_text_end(cs, e, e);
        }
    }
}

/// The printable content of a line: the separator that ended it and any
/// trailing spaces removed, but the escape sequences after its last text kept.
pub open spec fn body_spec(cs: Seq<char>) -> Seq<char> {
    let te = last_text_end(cs, 0, 0);
    cs.take(trim_len(cs.take(te))) + cs.subrange(te, cs.len() as int)
}

/// The printable content of a line: the separator that ended it and any
/// trailing spaces removed, but trailing escape sequences kept.
///
/// The separator is not always last. `"line\n\x1b[0m"` ends with a reset, and
/// dropping the reset to get at the newline would leak colour into the next
/// line, so the two are separated rather than truncated.
pub fn line_body(s: &str) -> (r: Cow<'_, str>)
    ensures
        r@ == body_spec(s@),
{
    let ghost cs = s@;
    // Everything after the last printable text is escapes, and stays.
    let mut text_end: usize = 0;
    let ghost mut te: int = 0;
    let mut at: usize = 0;
    let mut it = Pieces::new(s);
    let nb = byte_len(s);
    proof {
        lemma_boff_mono(cs, 0, cs.len() as int);
    }
    loop
        invariant
            cs == s@,
            nb == boff(cs, cs.len() as int),
            it.text() == cs,
            0 <= it.index() <= cs.len(),
            at == boff(cs, it.index()),
            0 <= te <= it.index(),
            text_end == boff(cs, te),
            last_text_end(cs, 0, 0) == last_text_end(cs, it.index(), te),
        ensures
            text_end == boff(cs, te),
            te == last_text_end(cs, 0, 0),
            0 <= te <= cs.len(),
        decreases cs.len() - it.index(),
    {
        let ghost k = it.index();
        proof {
            if k < cs.len() {
                lemma_piece_bounds(cs, k);
                lemma_encode_subrange(cs, k, piece_end(cs, k));
                lemma_boff_mono(cs, piece_end(cs, k), cs.len() as int);
            }
        }
        match it.next() {
            None => {
                break;
            },
            Some(p) => {
                proof {
                    assert(p@.take(p@.len() as int) =~= p@);
                }
                at = at + byte_len(p.as_str());
                if !p.is_escape() {
                    text_end = at;
                    proof {
                        te = it.index();
                    }
                }
            },
        }
    }
    let head = prefix(s, text_end, Ghost(te));
    let keep = trim_end_len(head);
    let ghost kc = trim_len(head@);
    proof {
        assert(head@.take(kc) =~= cs.take(kc));
        crate::text::lemma_boff_skip(cs, 0, kc);
        assert(cs.subrange(0, cs.len() as int) =~= cs);
        assert(cs.take(te).take(kc) =~= cs.take(kc));
        lemma_encode_subrange(cs, 0, kc);
        lemma_encode_subrange(cs.take(te), 0, kc);
        assert(cs.take(te).subrange(0, kc) =~= cs.subrange(0, kc));
        assert(cs.take(kc) =~= cs.subrange(0, kc));
        lemma_boff_mono(cs, 0, kc);
        lemma_boff_mono(cs.take(te), 0, kc);
        lemma_boff_mono(cs, kc, te);
        lemma_boff_mono(cs, te, cs.len() as int);
        lemma_boff_len(cs);
    }
    let n = byte_len(s);
    if keep == n {
        proof {
            if kc < cs.len() {
                lemma_boff_mono(cs, kc, cs.len() as int);
            }
            assert(cs.take(kc) =~= cs);
            assert(cs.subrange(te, cs.len() as int) =~= Seq::<char>::empty());
            assert(body_spec(cs) =~= cs);
        }
        return Cow::Borrowed(s);
    }
    let kept = prefix(s, keep, Ghost(kc));
    if text_end == n {
        proof {
            if te < cs.len() {
                lemma_boff_mono(cs, te, cs.len() as int);
            }
            assert(cs.subrange(te, cs.len() as int) =~= Seq::<char>::empty());
            assert(body_spec(cs) =~= kept@);
        }
        return Cow::Borrowed(kept);
    }
    let tail = crate::text::suffix(s, text_end, Ghost(te));
    let mut out = String::new();
    push_str(&mut out, kept);
    push_str(&mut out, tail);
    Cow::Owned(out)
}

/// Translate a break offset in the escape-stripped text back to the full text.
///
/// The very end of the text maps to the very end of the full text, so trailing
/// escape sequences -- a reset, typically -- stay on the last line.
pub fn map_offset(map: &Vec<usize>, i: usize, len: usize) -> (r: usize)
    requires
        map@.len() >= 1,
    ensures
        r == (if i + 1 >= map@.len() {
            len
        } else {
            map@[i as int]
        }),
{
    if i >= map.len() - 1 {
        len
    } else {
        map[i]
    }
}

/// The styling sequence remembered after the pieces of `cs` from `k` on: the
/// last SGR sequence that leaves styling on, forgotten again by a reset.
pub open spec fn style_from(cs: Seq<char>, k: int, st: Option<Seq<char>>) -> Option<Seq<char>>
    decreases cs.len() - k,
{
    if !(0 <= k < cs.len()) {
        st
    } else {
        let e = piece_end(cs, k);
        if e <= k || e > cs.len() {
            st
        } else if piece_is_escape(cs, k) {
            let x = cs.subrange(k, e);
            let st2 = if style_open(x) {
                Some(x)
            } else if x.len() > 0 && x.last() == 'm' {
                None
            } else {
                st
            };
            style_from(cs, e, st2)
        } else {
            style_from(cs, e, st)
        }
    }
}

/// The styling remembered after a line `cs`, when escapes are recognised.
pub open spec fn style_after(w: Width, cs: Seq<char>, st: Option<Seq<char>>) -> Option<Seq<char>> {
    if w.ansi_on() {
        style_from(cs, 0, st)
    } else {
        st
    }
}

/// The text of an optional string.
pub open spec fn opt_view(o: Option<String>) -> Option<Seq<char>> {
    match o {
        Some(x) => Some(x@),
        None => None,
    }
}

/// The texts of some strings.
pub open spec fn lines_view(v: Seq<String>) -> Seq<Seq<char>> {
    v.map_values(|x: String| x@)
}

/// One emitted line: the remembered styling reopened at the front, the body of
/// `raw`, and a reset at the end if styling is left on.
pub open spec fn line_spec(w: Width, raw: Seq<char>, st: Option<Seq<char>>) -> Seq<char> {
    let pre = match st {
        Some(x) => x,
        None => Seq::<char>::empty(),
    };
    let line = pre + body_spec(raw);
    if w.ansi_on() && style_open(line) {
        line + reset_seq()
    } else {
        line
    }
}

/// Whether the last character of `e` is `m`.
fn ends_with_m(e: &str) -> (r: bool)
    ensures
        r == (e@.len() > 0 && e@.last() == 'm'),
{
    let v = to_chars(e);
    v.len() > 0 && v[v.len() - 1] == 'm'
}

impl Width {
    /// Remember the last styling sequence so wrapped lines can reopen it.
    fn track_style(&self, s: &str, style: &mut Option<String>)
        ensures
            opt_view(*final(style)) == style_after(*self, s@, opt_view(*old(style))),
    {
        if !self.ansi_enabled() {
            return;
        }
        let ghost cs = s@;
        let mut it = Pieces::new(s);
        loop
            invariant
                cs == s@,
                self.ansi_on(),
                it.text() == cs,
                0 <= it.index() <= cs.len(),
                style_from(cs, 0, opt_view(*old(style))) == style_from(cs, it.index(), opt_view(*style)),
            ensures
                style_from(cs, 0, opt_view(*old(style))) == opt_view(*style),
            decreases cs.len() - it.index(),
        {
            let ghost k = it.index();
            proof {
                if k < cs.len() {
                    lemma_piece_bounds(cs, k);
                }
            }
            match it.next() {
                None => {
                    break;
                },
                Some(p) => {
                    if let Piece::Escape(e) = p {
                        if leaves_style_open(e) {
                            *style = Some(e.to_owned());
                        } else if ends_with_m(e) {
                            *style = None;
                        }
                    }
                },
            }
        }
    }

    /// Emit the characters of `s` from `fk` to `tk` (at byte offsets `from`
    /// and `to`) as a line: trailing spaces trimmed, styling reopened at the
    /// front and closed at the end.
    fn push_line(
        &self,
        out: &mut Vec<String>,
        s: &str,
        from: usize,
        to: usize,
        Ghost(fk): Ghost<int>,
        Ghost(tk): Ghost<int>,
        style: &mut Option<String>,
    )
        requires
            0 <= fk <= s@.len(),
            0 <= tk <= s@.len(),
            from == boff(s@, fk),
            to == boff(s@, tk),
        ensures
            lines_view(final(out)@) == lines_view(old(out)@).push(
                line_spec(*self, s@.subrange(fk, if tk > fk { tk } else { fk }), opt_view(*old(style))),
            ),
            opt_view(*final(style)) == style_after(
                *self,
                s@.subrange(fk, if tk > fk { tk } else { fk }),
                opt_view(*old(style)),
            ),
    {
        proof {
            if fk <= tk {
                lemma_boff_mono(s@, fk, tk);
            } else {
                lemma_boff_mono(s@, tk, fk);
            }
        }
        let (end, Ghost(ek)) = if to > from {
            (to, Ghost(tk))
        } else {
            (from, Ghost(fk))
        };
        let raw = crate::text::slice(s, from, end, Ghost(fk), Ghost(ek));
        let body = line_body(raw);
        let mut line = String::new();
        match style {
            Some(open) => push_str(&mut line, open.as_str()),
            None => {},
        }
        push_str(&mut line, cow_str(&body));
        let ghost before = line@;
        self.track_style(raw, style);
        if self.ansi_enabled() && leaves_style_open(line.as_str()) {
            proof {
                lemma_reset();
            }
            push_str(&mut line, RESET);
        }
        let ghost old_lines = lines_view(out@);
        out.push(line);
        proof {
            assert(lines_view(out@) =~= old_lines.push(line@));
        }
    }
}

// ---------------------------------------------------------------------------
// The text without its escapes, and where each of its characters came from.

/// The index in `cs` of each character that survives stripping, from `k` on.
pub open spec fn kept_from(cs: Seq<char>, k: int) -> Seq<int>
    decreases cs.len() - k,
{
    if !(0 <= k < cs.len()) {
        seq![]
    } else {
        let e = piece_end(cs, k);
        if e <= k || e > cs.len() {
            seq![]
        } else if piece_is_escape(cs, k) {
            kept_from(cs, e)
        } else {
            Seq::new((e - k) as nat, |i: int| k + i) + kept_from(cs, e)
        }
    }
}

/// Each stripped character is the character of `cs` it was kept from; the
/// kept positions lie from `k` on and strictly increase.
pub proof fn lemma_kept(cs: Seq<char>, k: int)
    requires
        0 <= k <= cs.len(),
    ensures
        kept_from(cs, k).len() == strip_from(cs, k).len(),
        forall|j: int| 0 <= j < kept_from(cs, k).len() ==> k <= #[trigger] kept_from(cs, k)[j] < cs.len(),
        forall|j: int|
            0 <= j < kept_from(cs, k).len() ==> #[trigger] strip_from(cs, k)[j] == cs[kept_from(cs, k)[j]],
        forall|i: int, j: int|
            0 <= i < j < kept_from(cs, k).len() ==> #[trigger] kept_from(cs, k)[i] < #[trigger] kept_from(
                cs,
                k,
            )[j],
    decreases cs.len() - k,
{
    if k < cs.len() {
        lemma_piece_bounds(cs, k);
        let e = piece_end(cs, k);
        lemma_kept(cs, e);
        if !piece_is_escape(cs, k) {
            let a = Seq::new((e - k) as nat, |i: int| k + i);
            let kk = kept_from(cs, k);
            let st = strip_from(cs, k);
            let ke = kept_from(cs, e);
            assert(kk == a + ke);
            assert(st == cs.subrange(k, e) + strip_from(cs, e));
            assert forall|j: int| 0 <= j < kk.len() implies k <= #[trigger] kk[j] < cs.len() by {
                if j >= a.len() {
                    assert(kk[j] == ke[j - a.len()]);
                }
            }
            assert forall|j: int| 0 <= j < kk.len() implies #[trigger] st[j] == cs[kk[j]] by {
                if j >= a.len() {
                    assert(kk[j] == ke[j - a.len()]);
                    assert(st[j] == strip_from(cs, e)[j - a.len()]);
                }
            }
            assert forall|i: int, j: int| 0 <= i < j < kk.len() implies #[trigger] kk[i] < #[trigger] kk[j] by {
                if j >= a.len() {
                    assert(kk[j] == ke[j - a.len()]);
                    if i >= a.len() {
                        assert(kk[i] == ke[i - a.len()]);
                    }
                }
            }
        }
    }
}

/// The escape-stripped text, and for each byte offset of it past the start,
/// the byte offset in `s` where the character holding the byte before it ends.
pub open spec fn offsets_ok(cs: Seq<char>, pl: Seq<char>, map: Seq<usize>) -> bool {
    &&& pl == strip_from(cs, 0)
    &&& map.len() == boff(pl, pl.len() as int) + 1
    &&& map[0] == 0
    &&& forall|j: int, b: int|
        #![trigger map[b], boff(pl, j)]
        0 <= j < pl.len() && boff(pl, j) < b <= boff(pl, j + 1) ==> map[b] == boff(
            cs,
            kept_from(cs, 0)[j] + 1,
        )
}

impl Width {
    /// The text with escape sequences removed, plus a map from each break
    /// offset in the stripped text back to the full text.
    ///
    /// The map records where each prefix *ends*, not where the next character
    /// begins. The difference matters when an escape sits between them: a break
    /// after a newline has to land before the escape, or the newline ends up
    /// inside the line instead of terminating it.
    fn strip_with_offsets(&self, s: &str) -> (r: (String, Vec<usize>))
        ensures
            offsets_ok(s@, r.0@, r.1@),
    {
        let ghost cs = s@;
        let ghost pl = strip_from(cs, 0);
        let ghost kept = kept_from(cs, 0);
        let mut plain = String::new();
        let mut ends: Vec<usize> = Vec::new();
        ends.push(0);
        let mut at: usize = 0;
        let nb = byte_len(s);
        let mut it = Pieces::new(s);
        proof {
            lemma_kept(cs, 0);
            lemma_boff_mono(cs, 0, cs.len() as int);
            assert(plain@.take(0) =~= plain@);
            assert(pl.take(0) =~= plain@);
        }
        loop
            invariant
                cs == s@,
                nb == boff(cs, cs.len() as int),
                pl == strip_from(cs, 0),
                kept == kept_from(cs, 0),
                kept.len() == pl.len(),
                forall|j: int| 0 <= j < kept.len() ==> #[trigger] pl[j] == cs[kept[j]],
                it.text() == cs,
                0 <= it.index() <= cs.len(),
                at == boff(cs, it.index()),
                pl == plain@ + strip_from(cs, it.index()),
                kept == kept.take(plain@.len() as int) + kept_from(cs, it.index()),
                ends@.len() == boff(pl, plain@.len() as int) + 1,
                ends@[0] == 0,
                forall|j: int, b: int|
                    #![trigger ends@[b], boff(pl, j)]
                    0 <= j < plain@.len() && boff(pl, j) < b <= boff(pl, j + 1) ==> ends@[b]
                        == boff(cs, kept[j] + 1),
            ensures
                pl == plain@,
                ends@.len() == boff(pl, plain@.len() as int) + 1,
                ends@[0] == 0,
                forall|j: int, b: int|
                    #![trigger ends@[b], boff(pl, j)]
                    0 <= j < plain@.len() && boff(pl, j) < b <= boff(pl, j + 1) ==> ends@[b]
                        == boff(cs, kept[j] + 1),
            decreases cs.len() - it.index(),
        {
            let ghost k = it.index();
            let ghost m = plain@.len() as int;
            proof {
                if k < cs.len() {
                    lemma_piece_bounds(cs, k);
                    lemma_encode_subrange(cs, k, piece_end(cs, k));
                    lemma_boff_mono(cs, piece_end(cs, k), cs.len() as int);
                    lemma_kept(cs, piece_end(cs, k));
                }
            }
            match it.next() {
                None => {
                    proof {
                        assert(strip_from(cs, k) =~= Seq::<char>::empty());
                        assert(pl =~= plain@);
                    }
                    break;
                },
                Some(p) => {
                    let ghost e = it.index();
                    proof {
                        assert(p@.take(p@.len() as int) =~= p@);
                    }
                    let len = byte_len(p.as_str());
                    if let Piece::Text(t) = p {
                        // Each character of the run maps all of its bytes to
                        // the offset just past it in `s`.
                        let mut q = at;
                        let ghost mut i: int = 0;
                        proof {
                            assert(kept_from(cs, k) == Seq::new((e - k) as nat, |x: int| k + x) + kept_from(cs, e));
                            assert(strip_from(cs, k) == cs.subrange(k, e) + strip_from(cs, e));
                        }
                        let limit = at + len;
                        while q < limit
                            invariant
                                cs == s@,
                                pl == strip_from(cs, 0),
                                kept == kept_from(cs, 0),
                                kept.len() == pl.len(),
                                forall|j: int| 0 <= j < kept.len() ==> #[trigger] pl[j] == cs[kept[j]],
                                0 <= k < e <= cs.len(),
                                at == boff(cs, k),
                                limit == boff(cs, e),
                                nb == boff(cs, cs.len() as int),
                                m == plain@.len(),
                                0 <= i <= e - k,
                                q == boff(cs, k + i),
                                pl == plain@ + cs.subrange(k, e) + strip_from(cs, e),
                                kept == kept.take(m) + Seq::new((e - k) as nat, |x: int| k + x) + kept_from(cs, e),
                                ends@.len() == boff(pl, m + i) + 1,
                                ends@[0] == 0,
                                forall|j: int, b: int|
                                    #![trigger ends@[b], boff(pl, j)]
                                    0 <= j < m + i && boff(pl, j) < b <= boff(pl, j + 1) ==> ends@[b]
                                        == boff(cs, kept[j] + 1),
                            decreases e - k - i,
                        {
                            proof {
                                if i >= e - k {
                                    lemma_boff_mono(cs, e, cs.len() as int);
                                    assert(false);
                                }
                                lemma_boff_mono(cs, k + i + 1, cs.len() as int);
                                lemma_boff_mono(cs, k + i + 1, e);
                                assert(pl[m + i] == cs[k + i]);
                                assert(kept[m + i] == k + i);
                                lemma_boff_step(pl, m + i);
                                lemma_boff_step(cs, k + i);
                            }
                            let (_, l) = crate::text::char_at(s, q, Ghost(k + i));
                            let stop = q + l;
                            let mut c: usize = 0;
                            let ghost base = ends@.len() as int;
                            let ghost snap = ends@;
                            while c < l
                                invariant
                                    c <= l,
                                    0 <= base,
                                    ends@.len() == base + c,
                                    forall|b: int| 0 <= b < base ==> #[trigger] ends@[b] == snap[b],
                                    forall|b: int| base <= b < base + c ==> #[trigger] ends@[b] == stop,
                                decreases l - c,
                            {
                                let ghost prev = ends@;
                                ends.push(stop);
                                proof {
                                    assert(ends@ == prev.push(stop));
                                    assert forall|b: int| base <= b < base + c + 1 implies #[trigger] ends@[b] == stop by {
                                        if b < base + c {
                                            assert(ends@[b] == prev[b]);
                                        }
                                    }
                                    assert forall|b: int| 0 <= b < base implies #[trigger] ends@[b] == snap[b] by {
                                        assert(ends@[b] == prev[b]);
                                    }
                                }
                                c = c + 1;
                            }
                            q = stop;
                            proof {
                                i = i + 1;
                                assert forall|j: int, b: int|
                                    #![trigger ends@[b], boff(pl, j)]
                                    0 <= j < m + i && boff(pl, j) < b <= boff(pl, j + 1) implies ends@[b]
                                        == boff(cs, kept[j] + 1) by {
                                    if j < m + i - 1 {
                                        lemma_boff_mono(pl, j + 1, m + i - 1);
                                        assert(ends@[b] == snap[b]);
                                    } else {
                                        assert(ends@[b] == stop);
                                    }
                                }
                            }
                        }
                        proof {
                            if k + i < e {
                                lemma_boff_mono(cs, k + i, e);
                            }
                            assert(k + i == e);
                        }
                        push_str(&mut plain, t);
                        proof {
                            assert(pl =~= plain@ + strip_from(cs, e));
                            assert(kept.take(plain@.len() as int) =~= kept.take(m) + Seq::new((e - k) as nat, |x: int| k + x));
                        }
                    }
                    at = at + len;
                },
            }
        }
        (plain, ends)
    }
}

// ---------------------------------------------------------------------------
// Wrapping.

/// Where break `j` of the stripped text falls in the full text: just past the
/// character the stripped prefix ends with, or the very end of the full text
/// for the final break, so that trailing escape sequences stay on the last line.
pub open spec fn src_end(cs: Seq<char>, j: int) -> int {
    if j >= strip_from(cs, 0).len() {
        cs.len() as int
    } else if j <= 0 {
        0
    } else {
        kept_from(cs, 0)[j - 1] + 1
    }
}

/// Break positions in the full text keep their order.
pub proof fn lemma_src_end_mono(cs: Seq<char>, a: int, b: int)
    requires
        0 <= a <= b,
    ensures
        0 <= src_end(cs, a) <= src_end(cs, b) <= cs.len(),
{
    lemma_kept(cs, 0);
    let n = strip_from(cs, 0).len();
    let kept = kept_from(cs, 0);
    if 0 < a < n {
        assert(0 <= kept[a - 1] < cs.len());
    }
    if 0 < b < n {
        assert(0 <= kept[b - 1] < cs.len());
    }
    if 0 < a < b && b < n {
        assert(kept[a - 1] < kept[b - 1]);
    }
}

/// Emit the characters from `from` to `to` as a line.
pub open spec fn emit(
    w: Width,
    cs: Seq<char>,
    from: int,
    to: int,
    out: Seq<Seq<char>>,
    style: Option<Seq<char>>,
) -> (Seq<Seq<char>>, Option<Seq<char>>) {
    let raw = cs.subrange(from, if to > from { to } else { from });
    (out.push(line_spec(w, raw, style)), style_after(w, raw, style))
}

/// Cut the characters from `at` to `limit` into lines of at most `width`
/// columns while they do not fit: each line is as much as fits, but always at
/// least one cluster. Gives the lines, the styling, whether anything was
/// written, and where the leftover begins.
pub open spec fn chunks(
    w: Width,
    cs: Seq<char>,
    width: int,
    at: int,
    limit: int,
    out: Seq<Seq<char>>,
    style: Option<Seq<char>>,
    wrote: bool,
) -> (Seq<Seq<char>>, Option<Seq<char>>, bool, int)
    decreases limit - at,
{
    if at < limit && width_of(w, cs.subrange(at, limit)) > width {
        let sub = cs.subrange(at, limit);
        let te = trunc_end(w, sub, 0, 0, width);
        let fe = cluster_end(false, sub, 0);
        let take = if te > fe { te } else { fe };
        let stop = if at + take < limit { at + take } else { limit };
        if stop <= at {
            (out, style, wrote, at)
        } else {
            let (o2, s2) = emit(w, cs, at, stop, out, style);
            chunks(w, cs, width, stop, limit, o2, s2, true)
        }
    } else {
        (out, style, wrote, at)
    }
}

/// Where wrapping has got to.
pub struct WrapState {
    pub out: Seq<Seq<char>>,
    pub style: Option<Seq<char>>,
    /// Where the current line begins.
    pub line_start: int,
    /// Where the pending segment begins.
    pub seg_start: int,
    /// Columns the current line occupies so far.
    pub col: int,
    /// Whether a line has been flushed by a break.
    pub wrote: bool,
}

/// Nothing written yet.
pub open spec fn wrap_init() -> WrapState {
    WrapState { out: seq![], style: None, line_start: 0, seg_start: 0, col: 0, wrote: false }
}

/// Handle a break opportunity of kind `kind` that falls at `end` in the full text.
#[verifier::opaque]
pub open spec fn wrap_step(w: Width, cs: Seq<char>, width: int, st: WrapState, end: int, kind: Break) -> WrapState {
    if end == st.seg_start {
        st
    } else {
        let seg = cs.subrange(st.seg_start, end);
        let t = trim_len(seg);
        // Does the segment still fit once trailing spaces are ignored?
        let st1 = if st.col > 0 && st.col + width_at(w, seg.take(t), st.col) > width {
            let (o, y) = emit(w, cs, st.line_start, st.seg_start, st.out, st.style);
            WrapState { out: o, style: y, line_start: st.seg_start, col: 0, wrote: true, ..st }
        } else {
            st
        };
        let wt = width_at(w, seg.take(t), st1.col);
        if st1.col == 0 && wt > width {
            // A segment wider than the whole line is cut by column.
            let (o, y, wr, at) = chunks(w, cs, width, st1.line_start, st1.seg_start + t, st1.out, st1.style, st1.wrote);
            let st3 = WrapState {
                out: o,
                style: y,
                line_start: at,
                seg_start: end,
                col: width_of(w, cs.subrange(at, end)),
                wrote: wr,
            };
            if kind == Break::Mandatory {
                let (o2, y2) = emit(w, cs, at, end, st3.out, st3.style);
                WrapState { out: o2, style: y2, line_start: end, col: 0, ..st3 }
            } else {
                st3
            }
        } else {
            let st2 = WrapState { col: st1.col + width_at(w, seg, st1.col), seg_start: end, ..st1 };
            if kind == Break::Mandatory {
                let (o2, y2) = emit(w, cs, st2.line_start, end, st2.out, st2.style);
                WrapState { out: o2, style: y2, line_start: end, col: 0, wrote: true, ..st2 }
            } else {
                st2
            }
        }
    }
}

/// Handle the break opportunities of the stripped text `pl` from character `j` on.
pub open spec fn wrap_from(w: Width, cs: Seq<char>, pl: Seq<char>, width: int, j: int, st: WrapState) -> WrapState
    decreases pl.len() - j,
{
    let o = next_opportunity(pl, j);
    if 0 <= j <= o < pl.len() {
        wrap_from(w, cs, pl, width, o + 1, wrap_step(w, cs, width, st, src_end(cs, o), verdict(pl, o)->Some_0))
    } else {
        wrap_step(w, cs, width, st, cs.len() as int, Break::Mandatory)
    }
}

/// The lines [`Width::wrap`] gives for `cs` at `width` columns.
pub open spec fn wrap_spec(w: Width, cs: Seq<char>, width: int) -> Seq<Seq<char>> {
    if width == 0 {
        seq![]
    } else {
        let st = wrap_from(w, cs, strip_from(cs, 0), width, 0, wrap_init());
        if st.line_start < cs.len() || !st.wrote {
            emit(w, cs, st.line_start, cs.len() as int, st.out, st.style).0
        } else {
            st.out
        }
    }
}

impl Width {
    /// Cut the characters of `s` from `ak` to `lk` (at byte offsets `at0` and
    /// `limit`) into lines while they do not fit in `width` columns; returns
    /// where the leftover begins.
    fn push_chunks(
        &self,
        out: &mut Vec<String>,
        s: &str,
        width: usize,
        at0: usize,
        limit: usize,
        Ghost(ak): Ghost<int>,
        Ghost(lk): Ghost<int>,
        style: &mut Option<String>,
        wrote: &mut bool,
    ) -> (r: (usize, Ghost<int>))
        requires
            0 <= ak <= lk <= s@.len(),
            at0 == boff(s@, ak),
            limit == boff(s@, lk),
            cap(*self, s@) <= usize::MAX,
        ensures
            ({
                let (o, y, wr, a) = chunks(
                    *self,
                    s@,
                    width as int,
                    ak,
                    lk,
                    lines_view(old(out)@),
                    opt_view(*old(style)),
                    *old(wrote),
                );
                &&& lines_view(final(out)@) == o
                &&& opt_view(*final(style)) == y
                &&& *final(wrote) == wr
                &&& r.1@ == a
                &&& ak <= a <= lk
                &&& r.0 == boff(s@, a)
            }),
    {
        let ghost cs = s@;
        let ghost w = *self;
        let mut at = at0;
        let ghost mut a = ak;
        loop
            invariant
                cs == s@,
                w == *self,
                0 <= ak <= a <= lk <= cs.len(),
                at == boff(cs, a),
                limit == boff(cs, lk),
                cap(w, cs) <= usize::MAX,
                chunks(w, cs, width as int, ak, lk, lines_view(old(out)@), opt_view(*old(style)), *old(wrote))
                    == chunks(w, cs, width as int, a, lk, lines_view(out@), opt_view(*style), *wrote),
            ensures
                ak <= a <= lk,
                at == boff(cs, a),
                chunks(w, cs, width as int, ak, lk, lines_view(old(out)@), opt_view(*old(style)), *old(wrote))
                    == (lines_view(out@), opt_view(*style), *wrote, a),
            decreases lk - a,
        {
            proof {
                lemma_boff_mono(cs, a, lk);
            }
            if at >= limit {
                break;
            }
            let sub = crate::text::slice(s, at, limit, Ghost(a), Ghost(lk));
            proof {
                lemma_cap_split(w, cs, a, lk, lk);
                crate::units::lemma_width_cap(w, sub@, 0);
            }
            if self.of(sub) <= width {
                break;
            }
            let head = self.truncate(sub, width);
            // Always take at least one cluster, or an over-wide glyph would
            // loop forever.
            let fc = first_cluster(sub);
            let hl = byte_len(head);
            let fl = byte_len(fc);
            let ghost te = trunc_end(w, sub@, 0, 0, width as int);
            let ghost fe = cluster_end(false, sub@, 0);
            proof {
                lemma_trunc_bounds(w, sub@, 0, 0, width as int);
                lemma_cluster_bounds(false, sub@, 0);
                assert(head@.take(te) =~= sub@.take(te));
                assert(head@ == sub@.take(te));
                assert(fc@ =~= sub@.take(fe));
                assert(head@.take(te) =~= head@);
                assert(fc@.take(fe) =~= fc@);
                lemma_boff_sub(cs, a, lk, te);
                lemma_boff_sub(cs, a, lk, fe);
            }
            let take = if hl > fl {
                hl
            } else {
                fl
            };
            let ghost m = if te > fe {
                te
            } else {
                fe
            };
            proof {
                if te > fe {
                    lemma_boff_mono(sub@, fe, te);
                } else if fe > te {
                    lemma_boff_mono(sub@, te, fe);
                }
                lemma_boff_mono(cs, a + m, lk);
            }
            let stop = if at + take < limit {
                at + take
            } else {
                limit
            };
            let ghost sk = if a + m < lk {
                a + m
            } else {
                lk
            };
            self.push_line(out, s, at, stop, Ghost(a), Ghost(sk), style);
            *wrote = true;
            at = stop;
            proof {
                a = sk;
            }
        }
        (at, Ghost(a))
    }
}

/// Where wrapping has got to, in code.
struct Cursor {
    /// Byte offset where the current line begins.
    line_start: usize,
    /// Byte offset of the pending segment.
    seg_start: usize,
    col: usize,
    wrote: bool,
    ls: Ghost<int>,
    ss: Ghost<int>,
}

/// The state a cursor and the lines so far stand for.
spec fn state_of(out: Seq<String>, style: Option<String>, c: Cursor) -> WrapState {
    WrapState {
        out: lines_view(out),
        style: opt_view(style),
        line_start: c.ls@,
        seg_start: c.ss@,
        col: c.col as int,
        wrote: c.wrote,
    }
}

/// A cursor's offsets point at characters of `cs`, and its column fits the line so far.
spec fn cursor_ok(w: Width, cs: Seq<char>, c: Cursor) -> bool {
    &&& 0 <= c.ls@ <= c.ss@ <= cs.len()
    &&& c.line_start == boff(cs, c.ls@)
    &&& c.seg_start == boff(cs, c.ss@)
    &&& c.col <= cap(w, cs.subrange(c.ls@, c.ss@))
}

impl Width {
    /// Handle a break opportunity of kind `kind` at byte offset `end` (character `ek`) of `s`.
    #[verifier::rlimit(40)]
    fn wrap_at(
        &self,
        out: &mut Vec<String>,
        s: &str,
        width: usize,
        style: &mut Option<String>,
        cur: &mut Cursor,
        end: usize,
        Ghost(ek): Ghost<int>,
        kind: Break,
    )
        requires
            cursor_ok(*self, s@, *old(cur)),
            old(cur).ss@ <= ek <= s@.len(),
            end == boff(s@, ek),
            cap(*self, s@) <= usize::MAX,
        ensures
            cursor_ok(*self, s@, *final(cur)),
            final(cur).ss@ == ek,
            state_of(final(out)@, *final(style), *final(cur)) == wrap_step(
                *self,
                s@,
                width as int,
                state_of(old(out)@, *old(style), *old(cur)),
                ek,
                kind,
            ),
    {
        let ghost cs = s@;
        let ghost w = *self;
        let ghost st0 = state_of(out@, *style, *cur);
        proof {
            reveal(wrap_step);
            lemma_boff_mono(cs, cur.ss@, ek);
            lemma_boff_mono(cs, ek, cs.len() as int);
            lemma_boff_mono(cs, cur.ls@, cur.ss@);
        }
        if end == cur.seg_start {
            return;
        }
        let seg = crate::text::slice(s, cur.seg_start, end, Ghost(cur.ss@), Ghost(ek));
        let tl = trim_end_len(seg);
        let ghost t = trim_len(seg@);
        let trimmed = prefix(seg, tl, Ghost(t));
        proof {
            lemma_boff_sub(cs, cur.ss@, ek, t);
            lemma_cap_split(w, cs, cur.ls@, cur.ss@, cur.ss@ + t);
            lemma_cap_split(w, cs, cur.ss@, cur.ss@ + t, ek);
            lemma_cap_split(w, cs, cur.ls@, cur.ss@, ek);
            assert(trimmed@ =~= cs.subrange(cur.ss@, cur.ss@ + t));
            crate::units::lemma_width_cap(w, trimmed@, cur.col as int);
        }
        // Does the segment still fit once trailing spaces are ignored?
        // Measured where it will sit, not from column zero: a tab's width
        // depends on the column it starts in.
        if cur.col > 0 && cur.col + self.of_at(trimmed, cur.col) > width {
            self.push_line(out, s, cur.line_start, cur.seg_start, Ghost(cur.ls@), Ghost(cur.ss@), style);
            cur.line_start = cur.seg_start;
            cur.ls = Ghost(cur.ss@);
            cur.col = 0;
            cur.wrote = true;
        }
        let ghost st1 = state_of(out@, *style, *cur);
        proof {
            lemma_cap_split(w, cs, cur.ls@, cur.ss@, cur.ss@ + t);
            crate::units::lemma_width_cap(w, trimmed@, cur.col as int);
        }
        // Re-measure: the flush above may have moved the segment to column
        // zero, where a tab in it is a different width.
        let w_trimmed = self.of_at(trimmed, cur.col);
        // A segment wider than the whole line has to be cut by column.
        // Start from `line_start`, not `seg_start`: anything already pending
        // on the line occupies no columns but is still text, and must ride
        // along with the first chunk rather than be dropped.
        if cur.col == 0 && w_trimmed > width {
            proof {
                lemma_boff_mono(cs, cur.ss@ + t, ek);
            }
            let limit = cur.seg_start + tl;
            let mut wr = cur.wrote;
            let (at, Ghost(ak)) = self.push_chunks(
                out,
                s,
                width,
                cur.line_start,
                limit,
                Ghost(cur.ls@),
                Ghost(cur.ss@ + t),
                style,
                &mut wr,
            );
            let rest = crate::text::slice(s, at, end, Ghost(ak), Ghost(ek));
            proof {
                lemma_cap_split(w, cs, ak, ek, ek);
                assert(rest@ =~= cs.subrange(ak, ek));
                crate::units::lemma_width_cap(w, rest@, 0);
            }
            cur.col = self.of(rest);
            cur.wrote = wr;
            cur.line_start = at;
            cur.ls = Ghost(ak);
            cur.seg_start = end;
            cur.ss = Ghost(ek);
            if kind == Break::Mandatory {
                self.push_line(out, s, at, end, Ghost(ak), Ghost(ek), style);
                cur.line_start = end;
                cur.ls = Ghost(ek);
                cur.col = 0;
            }
            return;
        }
        proof {
            lemma_cap_split(w, cs, cur.ls@, cur.ss@, ek);
            assert(seg@ =~= cs.subrange(cur.ss@, ek));
            crate::units::lemma_width_cap(w, seg@, cur.col as int);
        }
        let a = self.of_at(seg, cur.col);
        cur.col = cur.col + a;
        cur.seg_start = end;
        cur.ss = Ghost(ek);
        if kind == Break::Mandatory {
            self.push_line(out, s, cur.line_start, end, Ghost(cur.ls@), Ghost(ek), style);
            cur.line_start = end;
            cur.ls = Ghost(ek);
            cur.col = 0;
            cur.wrote = true;
        }
    }
}

/// A break offset of the stripped text maps to the offset in the full text
/// where that break falls.
pub proof fn lemma_map_end(cs: Seq<char>, pl: Seq<char>, map: Seq<usize>, o: int, b: int)
    requires
        offsets_ok(cs, pl, map),
        0 < o <= pl.len() || o == pl.len(),
        b == boff(pl, o),
    ensures
        (if b + 1 >= map.len() {
            boff(cs, cs.len() as int)
        } else {
            map[b] as int
        }) == boff(cs, src_end(cs, o)),
{
    lemma_kept(cs, 0);
    if o < pl.len() {
        lemma_boff_mono(pl, o, pl.len() as int);
        lemma_boff_mono(pl, o - 1, o);
        assert(map[b] == boff(cs, kept_from(cs, 0)[o - 1] + 1));
    }
}

impl Width {
    /// Break `s` into lines of at most `width` columns.
    ///
    /// Break opportunities come from the Unicode line breaking algorithm
    /// (UAX #14), so this finds the places a reader would accept: between CJK
    /// ideographs, after a hyphen, never inside `1,000` or between a bracket
    /// and what it encloses. Existing newlines are honoured. A word longer than
    /// the line is broken by column.
    ///
    /// Styling open at the end of a line is closed and reopened on the next, so
    /// each line can be printed on its own.
    #[verifier::spinoff_prover]
    #[verifier::rlimit(60)]
    pub fn wrap(&self, s: &str, width: usize) -> (r: Vec<String>)
        requires
            cap(*self, s@) <= usize::MAX,
        ensures
            lines_view(r@) == wrap_spec(*self, s@, width as int),
            !crate::ansi::has_esc(s@) && width >= 1 ==> crate::wrap_keep::visible(
                crate::wrap_keep::concat_lines(lines_view(r@)),
            ) == crate::wrap_keep::visible(s@),
            crate::wrap_fit::wrap_clean(s@) ==> forall|i: int|
                0 <= i < r@.len() ==> crate::wrap_fit::line_fits(*self, #[trigger] lines_view(r@)[i], width as int),
            width >= 1 ==> r@.len() >= 1,
            width >= 1 && crate::wrap_fit::blank(s@) ==> lines_view(r@) == seq![Seq::<char>::empty()],
    {
        proof {
            if width >= 1 {
                crate::wrap_fit::lemma_wrap_nonempty(*self, s@, width as int);
            }
            if width >= 1 && crate::wrap_fit::blank(s@) {
                crate::wrap_fit::lemma_wrap_blank(*self, s@, width as int);
            }
            if !crate::ansi::has_esc(s@) && width >= 1 {
                crate::wrap_keep::lemma_wrap_keeps_text(*self, s@, width as int);
            }
            if crate::wrap_fit::wrap_clean(s@) {
                crate::wrap_fit::lemma_wrap_fits(*self, s@, width as int);
            }
        }
        let mut out: Vec<String> = Vec::new();
        if width == 0 {
            assert(lines_view(out@) =~= Seq::<Seq<char>>::empty());
            return out;
        }
        let ghost cs = s@;
        let ghost w = *self;
        // Line breaking must not see escape sequences: their bytes would look
        // like ordinary letters and invite breaks inside them. Analyse the
        // stripped text and map the offsets back.
        let (plain, map) = self.strip_with_offsets(s);
        let ghost pl = plain@;
        let n = byte_len(s);
        let pn = byte_len(plain.as_str());
        let mut style: Option<String> = None;
        let mut cur = Cursor { line_start: 0, seg_start: 0, col: 0, wrote: false, ls: Ghost(0), ss: Ghost(0) };
        let mut lb = crate::linebreak::LineBreaks::new(plain.as_str());
        let ghost total = wrap_from(w, cs, pl, width as int, 0, wrap_init());
        proof {
            lemma_boff_mono(cs, 0, cs.len() as int);
            assert(lines_view(out@) =~= Seq::<Seq<char>>::empty());
            assert(state_of(out@, style, cur) == wrap_init());
            assert forall|j: int| 0 <= j implies 0 <= #[trigger] src_end(cs, j) by {
                lemma_src_end_mono(cs, j, j);
            }
            lemma_kept(cs, 0);
            lemma_boff_len(pl);
        }
        loop
            invariant
                cs == s@,
                w == *self,
                width > 0,
                cap(w, cs) <= usize::MAX,
                pl == plain@,
                offsets_ok(cs, pl, map@),
                n == boff(cs, cs.len() as int),
                pn == boff(pl, pl.len() as int),
                lb.text() == pl,
                0 <= lb.index() <= pl.len(),
                cursor_ok(w, cs, cur),
                forall|j: int| lb.index() <= j ==> cur.ss@ <= #[trigger] src_end(cs, j),
                total == wrap_from(w, cs, pl, width as int, 0, wrap_init()),
                lb.is_done() ==> total == state_of(out@, style, cur),
                !lb.is_done() ==> total == wrap_from(w, cs, pl, width as int, lb.index(), state_of(out@, style, cur)),
            ensures
                cursor_ok(w, cs, cur),
                total == state_of(out@, style, cur),
            decreases pl.len() - lb.index() + (if lb.is_done() { 0int } else { 1int }),
        {
            let ghost j0 = lb.index();
            let ghost before = state_of(out@, style, cur);
            proof {
                crate::linebreak::lemma_next_opportunity(pl, j0);
                if pl.len() > 0 {
                    crate::linebreak::lemma_no_break_at_start(pl);
                }
            }
            match lb.next() {
                None => {
                    break;
                },
                Some((end_plain, kind)) => {
                    let ghost o = next_opportunity(pl, j0);
                    let end = map_offset(&map, end_plain, n);
                    let ghost ek = src_end(cs, o);
                    proof {
                        lemma_src_end_mono(cs, o, o);
                        lemma_boff_mono(pl, o, pl.len() as int);
                        lemma_map_end(cs, pl, map@, o, end_plain as int);
                    }
                    self.wrap_at(&mut out, s, width, &mut style, &mut cur, end, Ghost(ek), kind);
                    proof {
                        assert forall|j: int| lb.index() <= j implies cur.ss@ <= #[trigger] src_end(cs, j) by {
                            lemma_src_end_mono(cs, o, j);
                        }
                    }
                },
            }
        }
        if cur.line_start < n || !cur.wrote {
            proof {
                lemma_boff_mono(cs, cur.ls@, cs.len() as int);
            }
            self.push_line(&mut out, s, cur.line_start, n, Ghost(cur.ls@), Ghost(cs.len() as int), &mut style);
        } else {
            proof {
                if cur.ls@ < cs.len() {
                    lemma_boff_mono(cs, cur.ls@, cs.len() as int);
                }
            }
        }
        out
    }
}

} // verus!
