//! Every line a table draws is as wide as every other.
//!
//! Each column of a row line is its cell's line fitted to exactly the
//! column's width, sealed off from the padding on either side, with padding
//! and a border glyph around it; and each rule is built of glyphs one column
//! wide; so every line comes to the same total. The glyphs drawn are always
//! one column wide under the table's policy (box drawing gives way to ASCII
//! where ambiguous characters are wide). What is needed of a cell's line is
//! that it holds no tab, whose width depends on where it stands, and no line
//! feed, which would end the line early.

use vstd::prelude::*;

use crate::ansi::{lemma_trim_prefix, trim_spec};
use crate::append::{
    all_plain, ends_joining, lemma_append_closed, lemma_ellipsis_plain, lemma_plain_width,
    lemma_space_plain, lemma_spaces, lemma_trim_closed, lemma_trim_width, open_end, plain,
};
use crate::concat::{joins_back, lemma_concat_closed, lemma_width_concat, lemma_width_no_tab};
use crate::fit::{
    cell_kept, cell_spec, ellipsis_spec, lemma_cell_width, lemma_center_width, lemma_pad_start_width,
    lemma_spaces_before, pad_spec, reset_seq, spaces,
};
use crate::grapheme::{gcb_of, Gcb};
use crate::measure::{char_w, lemma_trunc_bounds, sum_w, trunc_end, width_at, width_of, Width};
use crate::table::{
    align_spec, drawn_border, cell_line, flexible, glyph_spec, naturals, newline_tail, part, parts_from, render_spec,
    repeat, resolve_spec, row_from, row_height, row_line, row_spec, rows_from, rule_from, rule_line,
    rule_spec, seq_sum, Align, Border, Table,
};

verus! {

/// A character a cell line may hold without disturbing the columns: anything
/// but a tab, whose width depends on where it stands, and a line feed, which
/// would end the line.
pub open spec fn steady(c: char) -> bool {
    c != '\t' && c != '\n'
}

/// Every character of `x` is steady.
pub open spec fn all_steady(x: Seq<char>) -> bool {
    forall|i: int| 0 <= i < x.len() ==> steady(#[trigger] x[i])
}

/// A line that lays out cleanly: every character steady.
pub open spec fn clean_line(x: Seq<char>) -> bool {
    all_steady(x)
}

/// Every line a table lays out for a cell is clean.
pub proof fn lemma_cell_line_clean(w: Width, cells: Seq<Seq<char>>, ws: Seq<int>, i: int, l: int)
    ensures
        clean_line(cell_line(w, cells, ws, i, l)),
{
    let x = cell_line(w, cells, ws, i, l);
    let lines = crate::table::cell_lines(w, cells, ws, i);
    if l < lines.len() {
        crate::table::lemma_unbroken(lines[l]);
    }
    assert forall|k: int| 0 <= k < x.len() implies steady(#[trigger] x[k]) by {}
}

/// A plain character is steady and attaches to nothing before it.
pub proof fn lemma_plain_steady(c: char)
    requires
        plain(c),
    ensures
        steady(c),
        !joins_back(c),
{
    crate::units::lemma_tab_is_control();
    crate::tables::lemma_ascii_props(0x0A);
}

/// A prefix of a steady text is steady.
pub proof fn lemma_steady_take(x: Seq<char>, k: int)
    requires
        all_steady(x),
        0 <= k <= x.len(),
    ensures
        all_steady(x.take(k)),
{
    assert forall|i: int| 0 <= i < x.take(k).len() implies steady(#[trigger] x.take(k)[i]) by {
        assert(x.take(k)[i] == x[i]);
    }
}

/// Steady texts put together are steady.
pub proof fn lemma_steady_concat(x: Seq<char>, y: Seq<char>)
    requires
        all_steady(x),
        all_steady(y),
    ensures
        all_steady(x + y),
{
    assert forall|i: int| 0 <= i < (x + y).len() implies steady(#[trigger] (x + y)[i]) by {
        if i < x.len() {
            assert((x + y)[i] == x[i]);
        } else {
            assert((x + y)[i] == y[i - x.len()]);
        }
    }
}

/// Plain characters are steady.
pub proof fn lemma_plain_all_steady(y: Seq<char>)
    requires
        all_plain(y),
    ensures
        all_steady(y),
        y.len() > 0 ==> !joins_back(y[0]),
{
    assert forall|i: int| 0 <= i < y.len() implies steady(#[trigger] y[i]) by {
        assert(plain(y[i]));
        lemma_plain_steady(y[i]);
    }
    if y.len() > 0 {
        assert(plain(y[0]));
        lemma_plain_steady(y[0]);
    }
}

/// A zero-width space is steady.
pub proof fn lemma_zwsp_steady()
    ensures
        all_steady(crate::fit::zwsp()),
{
    let z = crate::fit::zwsp();
    assert forall|i: int| 0 <= i < z.len() implies steady(#[trigger] z[i]) by {
        assert(z[i] == '\u{200B}');
    }
}

/// Whatever `join_break` or `front_break` puts in is steady and leaves
/// nothing open.
pub proof fn lemma_breaks_steady(w: Width, t: Seq<char>, l: int)
    ensures
        all_steady(crate::fit::join_break(t)),
        !open_end(crate::fit::join_break(t)),
        all_steady(crate::fit::front_break(t, l)),
        !open_end(crate::fit::front_break(t, l)),
{
    lemma_zwsp_steady();
    crate::fit::lemma_zwsp(w, 0);
    assert forall|i: int| 0 <= i < Seq::<char>::empty().len() implies steady(#[trigger] Seq::<char>::empty()[i]) by {
    }
}

/// The reset sequence is steady.
pub proof fn lemma_reset_steady()
    ensures
        all_steady(reset_seq()),
{
    let r = reset_seq();
    crate::tables::lemma_ascii_props(0x1B);
    crate::tables::lemma_ascii_props(0x5B);
    crate::tables::lemma_ascii_props(0x30);
    crate::tables::lemma_ascii_props(0x6D);
    assert forall|i: int| 0 <= i < r.len() implies steady(#[trigger] r[i]) by {
        if i == 0 {
            assert(r[0] == '\x1b');
        } else if i == 1 {
            assert(r[1] == '[');
        } else if i == 2 {
            assert(r[2] == '0');
        } else {
            assert(r[3] == 'm');
        }
    }
}

// ---------------------------------------------------------------------------
// One cell's line, fitted.

/// Fitting a clean line to a cell keeps it clean.
pub proof fn lemma_fitted_clean(w: Width, x: Seq<char>, width: int)
    requires
        width >= 0,
        clean_line(x),
    ensures
        all_steady(ellipsis_spec(w, x, width, seq!['\u{2026}'])),
{
    let e = seq!['\u{2026}'];
    lemma_ellipsis_plain();
    assert(all_plain(e));
    lemma_plain_all_steady(e);
    let fitted = ellipsis_spec(w, x, width, e);
    if width_of(w, x) <= width {
    } else if width_of(w, e) > width {
        lemma_trunc_bounds(w, x, 0, 0, width);
        lemma_steady_take(x, trunc_end(w, x, 0, 0, width));
    } else {
        let k = trunc_end(w, x, 0, 0, width - width_of(w, e));
        lemma_trunc_bounds(w, x, 0, 0, width - width_of(w, e));
        let cut = x.take(k);
        let head = trim_spec(cut);
        lemma_trim_prefix(cut);
        lemma_steady_take(x, k);
        lemma_steady_take(cut, head.len() as int);
        lemma_steady_concat(head, e);
        lemma_reset_steady();
        lemma_steady_concat(head + e, reset_seq());
        lemma_steady_concat(head + e, Seq::<char>::empty());
    }
}

/// A cell's line, fitted to `width` columns as the column aligns it, is
/// exactly `width` columns wide, stays steady and ends with no escape open.
pub proof fn lemma_align_clean(w: Width, x: Seq<char>, width: int, a: Align)
    requires
        width >= 0,
        clean_line(x),
    ensures
        width_of(w, align_spec(w, x, width, a)) == width,
        clean_line(align_spec(w, x, width, a)),
        !open_end(align_spec(w, x, width, a)),
{
    let y = align_spec(w, x, width, a);
    let t = trim_spec(x);
    lemma_trim_prefix(x);
    lemma_steady_take(x, t.len() as int);
    lemma_trim_closed(x);
    lemma_space_plain();
    let use_cell = match a {
        Align::Left => true,
        _ => width_of(w, x) >= width,
    };
    if use_cell {
        let fitted = ellipsis_spec(w, x, width, seq!['\u{2026}']);
        lemma_fitted_clean(w, x, width);
        let kept = cell_kept(w, x, width);
        lemma_trim_prefix(fitted);
        lemma_steady_take(fitted, kept.len() as int);
        lemma_cell_width(w, x, width);
        lemma_trim_closed(fitted);
        let have = width_of(w, kept);
        if !(have >= width && kept.len() == fitted.len()) {
            let pad = if width > have {
                width - have
            } else {
                0
            };
            let jb = crate::fit::join_break(kept);
            lemma_breaks_steady(w, kept, 0);
            lemma_spaces(w, pad);
            lemma_plain_all_steady(spaces(pad));
            lemma_steady_concat(kept, jb);
            lemma_steady_concat(kept + jb, spaces(pad));
            lemma_concat_closed(kept, jb);
            lemma_append_closed(kept + jb, spaces(pad));
            if pad > 0 {
                assert(crate::fit::pad_right(kept, pad) == kept + jb + spaces(pad));
            }
        } else {
            assert(fitted.take(fitted.len() as int) =~= fitted);
        }
    } else {
        lemma_trim_width(w, x, 0);
        let have = width_of(w, t);
        let gap = width - have;
        let (l, r) = match a {
            Align::Right => (gap, 0int),
            _ => (gap / 2, gap - gap / 2),
        };
        let fb = crate::fit::front_break(t, l);
        lemma_breaks_steady(w, t, l);
        lemma_spaces(w, l);
        lemma_spaces(w, r);
        lemma_plain_all_steady(spaces(l));
        lemma_plain_all_steady(spaces(r));
        lemma_steady_concat(spaces(l), fb);
        lemma_steady_concat(spaces(l) + fb, t);
        let head = spaces(l) + fb + t;
        lemma_spaces_before(w, t, l, width);
        assert forall|q: int| 0 <= q < t.len() implies t[q] != '\t' by {
            assert(steady(t[q]));
        }
        lemma_width_no_tab(w, t, l, 0);
        assert(crate::fit::fill(w, t, l, width) == r);
        let jb = crate::fit::join_break(head);
        lemma_breaks_steady(w, head, 0);
        lemma_steady_concat(head, jb);
        lemma_steady_concat(head + jb, spaces(r));
        lemma_concat_closed(head, jb);
        lemma_append_closed(head + jb, spaces(r));
        let padded = crate::fit::pad_right(head, r);
        if r > 0 {
            assert(padded == head + jb + spaces(r));
        }
        match a {
            Align::Right => {
                lemma_pad_start_width(w, x, width);
                assert(pad_spec(w, x, width, crate::fit::Align::End) == padded);
            },
            _ => {
                lemma_center_width(w, x, width);
                assert(pad_spec(w, x, width, crate::fit::Align::Center) == padded);
            },
        }
    }
}

// ---------------------------------------------------------------------------
// Glyphs.

/// Every character of `s` is plain and one column wide.
pub open spec fn all_unit(w: Width, s: Seq<char>) -> bool {
    forall|i: int| 0 <= i < s.len() ==> plain(#[trigger] s[i]) && char_w(w, s[i]) == 1
}

/// Whether the drawn border's glyphs are one column wide under the table's
/// policy: box drawing characters are East Asian Ambiguous, two columns wide
/// where those are taken wide, which is why they are not drawn there.
pub open spec fn narrow_glyphs(t: Table) -> bool {
    !t.measure().amb_wide() || !(drawn_border(t) is Light || drawn_border(t) is Heavy)
}

/// The glyphs a table is drawn with are always one column wide under its
/// policy.
pub proof fn lemma_narrow_glyphs(t: Table)
    ensures
        narrow_glyphs(t),
{
}

/// A text of plain one-column characters is as wide as it is long.
pub proof fn lemma_unit_width(w: Width, s: Seq<char>, col: int)
    requires
        all_unit(w, s),
    ensures
        width_at(w, s, col) == s.len(),
        all_plain(s),
        all_steady(s),
        s.len() > 0 ==> !joins_back(s[0]),
        !open_end(s),
    decreases s.len(),
{
    assert(all_plain(s));
    lemma_plain_width(w, s, col);
    lemma_unit_sum(w, s);
    lemma_plain_all_steady(s);
    lemma_append_closed(Seq::<char>::empty(), s);
    assert(Seq::<char>::empty() + s =~= s);
}

/// The widths of one-column characters add up to their number.
pub proof fn lemma_unit_sum(w: Width, s: Seq<char>)
    requires
        all_unit(w, s),
    ensures
        sum_w(w, s) == s.len(),
    decreases s.len(),
{
    if s.len() > 0 {
        let d = s.drop_last();
        assert forall|i: int| 0 <= i < d.len() implies plain(#[trigger] d[i]) && char_w(w, d[i]) == 1 by {
            assert(d[i] == s[i]);
        }
        lemma_unit_sum(w, d);
        assert(s.last() == s[s.len() - 1]);
    }
}

/// One-column texts put together are one column per character.
pub proof fn lemma_unit_concat(w: Width, x: Seq<char>, y: Seq<char>)
    requires
        all_unit(w, x),
        all_unit(w, y),
    ensures
        all_unit(w, x + y),
{
    assert forall|i: int| 0 <= i < (x + y).len() implies plain(#[trigger] (x + y)[i]) && char_w(w, (x + y)[i]) == 1 by {
        if i < x.len() {
            assert((x + y)[i] == x[i]);
        } else {
            assert((x + y)[i] == y[i - x.len()]);
        }
    }
}

/// A box drawing glyph of the light or heavy border.
pub proof fn lemma_box_glyph(w: Width, c: char)
    requires
        0x24EB <= c as u32 && (c as u32) < 0x254C,
        !w.amb_wide(),
    ensures
        plain(c),
        char_w(w, c) == 1,
{
    crate::tables::lemma_box_props(c as u32);
}

/// An ASCII glyph.
pub proof fn lemma_ascii_glyph(w: Width, c: char)
    requires
        c == '-' || c == '|' || c == '+' || c == ' ',
    ensures
        plain(c),
        char_w(w, c) == 1,
{
    crate::tables::lemma_ascii_props(c as u32);
}

/// Under a policy that takes them narrow, the border's glyphs are plain and
/// one column wide.
pub proof fn lemma_glyphs_unit(t: Table)
    requires
        narrow_glyphs(t),
        glyph_spec(drawn_border(t)) is Some,
    ensures
        forall|k: int| 0 <= k < 11 ==> all_unit(t.measure(), #[trigger] glyph_spec(drawn_border(t))->Some_0[k]),
        glyph_spec(drawn_border(t))->Some_0.len() == 11,
        glyph_spec(drawn_border(t))->Some_0[0].len() == 1,
        glyph_spec(drawn_border(t))->Some_0[1].len() == 1,
{
    let w = t.measure();
    let g = glyph_spec(drawn_border(t))->Some_0;
    assert forall|k: int| 0 <= k < 11 implies all_unit(w, #[trigger] g[k]) by {
        assert forall|i: int| 0 <= i < g[k].len() implies plain(#[trigger] g[k][i]) && char_w(w, g[k][i]) == 1 by {
            match drawn_border(t) {
                Border::Light => {
                    assert(g[k].len() == 1);
                    lemma_box_glyph(w, g[k][i]);
                },
                Border::Heavy => {
                    assert(g[k].len() == 1);
                    lemma_box_glyph(w, g[k][i]);
                },
                _ => {
                    lemma_ascii_glyph(w, g[k][i]);
                },
            }
        }
    }
}

// ---------------------------------------------------------------------------
// Row lines.

/// Two spaces are two spaces.
pub proof fn lemma_two_spaces()
    ensures
        seq![' ', ' '] == spaces(2),
{
    assert(seq![' ', ' '] =~= spaces(2));
}

/// Spaces are one column each.
pub proof fn lemma_spaces_unit(w: Width, n: int)
    requires
        n >= 0,
    ensures
        all_unit(w, spaces(n)),
        spaces(n).len() == n,
{
    lemma_ascii_glyph(w, ' ');
}

/// Columns a part takes: its padding, its width and its border, or the gap
/// before it in a borderless table.
pub open spec fn part_w(t: Table, i: int, width: int) -> int {
    if glyph_spec(drawn_border(t)) is Some {
        2 * t.pad() + width + 1
    } else if i > 0 {
        width + 2
    } else {
        width
    }
}

/// One column of a line, with its padding and border, takes exactly its
/// share, stays steady, leaves no escape open, neither attaches to what
/// precedes it nor joins what follows it, and ends with the border glyph when
/// there is one.
pub proof fn lemma_part(t: Table, i: int, x: Seq<char>, width: int)
    requires
        narrow_glyphs(t),
        0 <= i,
        width >= 0,
        clean_line(x),
    ensures
        ({
            let p = part(t, i, x, width);
            let g = glyph_spec(drawn_border(t));
            &&& width_of(t.measure(), p) == part_w(t, i, width)
            &&& forall|c: int| width_at(t.measure(), p, c) == width_of(t.measure(), p)
            &&& all_steady(p)
            &&& !open_end(p)
            &&& p.len() > 0 ==> !joins_back(p[0])
            &&& !ends_joining(p)
            &&& g is Some ==> p.len() > 0 && p.last() == g->Some_0[1][0]
            &&& (g is None && i > 0) ==> p.len() > 0 && p[0] == ' '
        }),
{
    let w = t.measure();
    let g = glyph_spec(drawn_border(t));
    let pad = t.pad() as int;
    let y = align_spec(w, x, width, t.aligns()[i]);
    lemma_align_clean(w, x, width, t.aligns()[i]);
    let s = crate::fit::sealed(y);
    crate::fit::lemma_sealed(w, y);
    lemma_breaks_steady(w, y, 1);
    lemma_steady_concat(crate::fit::front_break(y, 1), y);
    lemma_steady_concat(crate::fit::front_break(y, 1) + y, crate::fit::join_break(y));
    lemma_two_spaces();
    let lead = if g is Some {
        spaces(pad)
    } else if i > 0 {
        seq![' ', ' ']
    } else {
        seq![]
    };
    let trail = if g is Some {
        spaces(pad) + g->Some_0[1]
    } else {
        seq![]
    };
    lemma_spaces_unit(w, pad);
    lemma_spaces_unit(w, 2);
    lemma_spaces_unit(w, 0);
    assert(spaces(0) =~= Seq::<char>::empty());
    if g is Some {
        lemma_glyphs_unit(t);
        lemma_unit_concat(w, spaces(pad), g->Some_0[1]);
    }
    assert(all_unit(w, lead));
    assert(all_unit(w, trail));
    lemma_unit_width(w, lead, 0);
    lemma_unit_width(w, trail, 0);
    lemma_ascii_glyph(w, ' ');
    // The lead, then the sealed text.
    if lead.len() > 0 {
        assert(lead.last() == ' ');
    }
    assert forall|q: int| 0 <= q < s.len() implies s[q] != '\t' by {
        assert(steady(s[q]));
    }
    lemma_width_concat(w, lead, s, 0);
    lemma_width_no_tab(w, s, lead.len() as int, 0);
    lemma_concat_closed(lead, s);
    lemma_steady_concat(lead, s);
    let ls = lead + s;
    assert(width_of(w, ls) == lead.len() + width);
    if s.len() > 0 {
        assert(ls.last() == s.last());
    } else if lead.len() > 0 {
        assert(ls.last() == ' ');
    }
    assert(!ends_joining(ls));
    // Then the trail.
    if trail.len() > 0 {
        if pad > 0 {
            assert(trail[0] == ' ');
        } else {
            assert(trail[0] == g->Some_0[1][0]);
        }
        assert(plain(trail[0]));
        assert(trail.last() == g->Some_0[1][0]);
        assert(plain(trail.last()));
    }
    lemma_width_concat(w, ls, trail, 0);
    lemma_unit_width(w, trail, width_of(w, ls));
    lemma_concat_closed(ls, trail);
    lemma_steady_concat(ls, trail);
    let p = ls + trail;
    assert(p =~= part(t, i, x, width));
    // The same wherever it starts: no tab.
    assert forall|c: int| width_at(w, p, c) == width_of(w, p) by {
        assert forall|q: int| 0 <= q < p.len() implies p[q] != '\t' by {
            assert(steady(p[q]));
        }
        lemma_width_no_tab(w, p, c, 0);
    }
    // First and last characters.
    if p.len() > 0 {
        if lead.len() > 0 {
            assert(p[0] == lead[0]);
        } else if s.len() > 0 {
            assert(p[0] == s[0]);
        } else {
            assert(p[0] == trail[0]);
        }
    }
    if trail.len() > 0 {
        assert(p.last() == trail.last());
    } else {
        assert(p =~= ls);
    }
    if g is None && i > 0 {
        assert(p[0] == lead[0]);
    }
    if g is Some {
        assert(trail.len() == pad + 1);
    }
}

/// Columns every line of a table takes, for column widths `ws`: a border
/// glyph, then each column with its padding and border; or, without
/// borders, the columns with two spaces between them.
pub open spec fn line_width(t: Table, ws: Seq<int>) -> int {
    if glyph_spec(drawn_border(t)) is Some {
        1 + seq_sum(ws) + ws.len() * (2 * t.pad() + 1)
    } else if ws.len() == 0 {
        0
    } else {
        seq_sum(ws) + 2 * (ws.len() - 1)
    }
}

/// What a row line starts with: the left border glyph, if any.
pub open spec fn left_of(t: Table) -> Seq<char> {
    match glyph_spec(drawn_border(t)) {
        Some(g) => g[1],
        None => seq![],
    }
}

/// A row line up to column `i`: the left border and the first `i` columns.
pub open spec fn row_prefix(t: Table, cells: Seq<Seq<char>>, ws: Seq<int>, l: int, i: int) -> Seq<char>
    decreases i,
{
    if i <= 0 {
        left_of(t)
    } else {
        row_prefix(t, cells, ws, l, i - 1) + part(t, i - 1, cell_line(t.measure(), cells, ws, i - 1, l), ws[i - 1])
    }
}

/// Columns a row line takes up to column `i`.
pub open spec fn prefix_w(t: Table, ws: Seq<int>, i: int) -> int {
    if glyph_spec(drawn_border(t)) is Some {
        1 + seq_sum(ws.take(i)) + i * (2 * t.pad() + 1)
    } else if i == 0 {
        0
    } else {
        seq_sum(ws.take(i)) + 2 * (i - 1)
    }
}

proof fn lemma_mul_next(i: int, m: int)
    by (nonlinear_arith)
    ensures
        (i + 1) * m == i * m + m,
{
}

/// The sum of the first `i + 1` widths.
pub proof fn lemma_sum_take(ws: Seq<int>, i: int)
    requires
        0 <= i < ws.len(),
    ensures
        seq_sum(ws.take(i + 1)) == seq_sum(ws.take(i)) + ws[i],
{
    assert(ws.take(i + 1).drop_last() =~= ws.take(i));
    assert(ws.take(i + 1).last() == ws[i]);
}

/// A row line is its prefix up to any column, then the rest of its columns.
pub proof fn lemma_row_assoc(t: Table, cells: Seq<Seq<char>>, ws: Seq<int>, l: int, i: int)
    requires
        0 <= i <= ws.len(),
    ensures
        row_prefix(t, cells, ws, l, i) + parts_from(t, cells, ws, l, i) == left_of(t) + parts_from(t, cells, ws, l, 0),
    decreases i,
{
    if i > 0 {
        lemma_row_assoc(t, cells, ws, l, i - 1);
        let p = part(t, i - 1, cell_line(t.measure(), cells, ws, i - 1, l), ws[i - 1]);
        assert(row_prefix(t, cells, ws, l, i - 1) + p + parts_from(t, cells, ws, l, i) =~= row_prefix(
            t,
            cells,
            ws,
            l,
            i - 1,
        ) + (p + parts_from(t, cells, ws, l, i)));
    }
}

/// The width of a row line up to column `i`, and what the next column can
/// be joined to.
#[verifier::spinoff_prover]
#[verifier::rlimit(30)]
pub proof fn lemma_row_prefix(t: Table, cells: Seq<Seq<char>>, ws: Seq<int>, l: int, i: int)
    requires
        narrow_glyphs(t),
        0 <= i <= ws.len(),
        forall|j: int| 0 <= j < ws.len() ==> #[trigger] ws[j] >= 0,
    ensures
        ({
            let x = row_prefix(t, cells, ws, l, i);
            let g = glyph_spec(drawn_border(t));
            &&& width_of(t.measure(), x) == prefix_w(t, ws, i)
            &&& all_steady(x)
            &&& !open_end(x)
            &&& !ends_joining(x)
            &&& g is Some ==> x.len() > 0 && x.last() == g->Some_0[1][0]
            &&& (g is None && i == 0) ==> x.len() == 0
        }),
    decreases i,
{
    let w = t.measure();
    let g = glyph_spec(drawn_border(t));
    let pad = t.pad() as int;
    if i == 0 {
        if g is Some {
            lemma_glyphs_unit(t);
            lemma_unit_width(w, g->Some_0[1], 0);
            assert(ws.take(0) =~= Seq::<int>::empty());
        }
    } else {
        lemma_row_prefix(t, cells, ws, l, i - 1);
        let x = row_prefix(t, cells, ws, l, i - 1);
        let xl = cell_line(w, cells, ws, i - 1, l);
        lemma_cell_line_clean(w, cells, ws, i - 1, l);
        assert(ws[i - 1] >= 0);
        lemma_part(t, i - 1, xl, ws[i - 1]);
        let p = part(t, i - 1, xl, ws[i - 1]);
        if g is Some {
            lemma_glyphs_unit(t);
            assert(plain(g->Some_0[1][0]));
        } else if i - 1 > 0 {
            lemma_ascii_glyph(w, ' ');
        }
        lemma_width_concat(w, x, p, 0);
        lemma_concat_closed(x, p);
        lemma_steady_concat(x, p);
        lemma_sum_take(ws, i - 1);
        lemma_mul_next(i - 1, 2 * pad + 1);
        if p.len() > 0 {
            assert((x + p).last() == p.last());
        } else {
            assert(x + p =~= x);
        }
    }
}

/// Every line of a row is `line_width` columns wide, when the glyphs are
/// narrow and the widths are not negative.
pub proof fn lemma_row_line_width(t: Table, cells: Seq<Seq<char>>, ws: Seq<int>, l: int)
    requires
        narrow_glyphs(t),
        forall|j: int| 0 <= j < ws.len() ==> #[trigger] ws[j] >= 0,
    ensures
        width_of(t.measure(), row_line(t, cells, ws, l).drop_last()) == line_width(t, ws),
        all_steady(row_line(t, cells, ws, l).drop_last()),
{
    let n = ws.len() as int;
    lemma_row_prefix(t, cells, ws, l, n);
    lemma_row_assoc(t, cells, ws, l, n);
    assert(parts_from(t, cells, ws, l, n) =~= Seq::<char>::empty());
    assert(row_prefix(t, cells, ws, l, n) + Seq::<char>::empty() =~= row_prefix(t, cells, ws, l, n));
    assert(row_line(t, cells, ws, l).drop_last() =~= left_of(t) + parts_from(t, cells, ws, l, 0));
    assert(ws.take(n) =~= ws);
}

// ---------------------------------------------------------------------------
// Rules.

/// Copies of a one-column glyph are one column each.
pub proof fn lemma_repeat(w: Width, h: Seq<char>, n: int)
    requires
        all_unit(w, h),
        h.len() == 1,
        n >= 0,
    ensures
        all_unit(w, repeat(h, n)),
        repeat(h, n).len() == n,
    decreases n,
{
    if n > 0 {
        lemma_repeat(w, h, n - 1);
        lemma_unit_concat(w, repeat(h, n - 1), h);
    } else {
        assert(repeat(h, n) =~= Seq::<char>::empty());
    }
}

/// A rule from column `i` on: one column per character, as many as the
/// columns it spans.
pub proof fn lemma_rule_from(
    w: Width,
    ws: Seq<int>,
    pad: int,
    mid: Seq<char>,
    right: Seq<char>,
    h: Seq<char>,
    i: int,
)
    requires
        all_unit(w, mid),
        all_unit(w, right),
        all_unit(w, h),
        mid.len() == 1,
        right.len() == 1,
        h.len() == 1,
        pad >= 0,
        0 <= i <= ws.len(),
        forall|j: int| 0 <= j < ws.len() ==> #[trigger] ws[j] >= 0,
    ensures
        all_unit(w, rule_from(ws, pad, mid, right, h, i)),
        rule_from(ws, pad, mid, right, h, i).len() == (seq_sum(ws) - seq_sum(ws.take(i))) + (ws.len() - i) * (
        2 * pad + 1),
    decreases ws.len() - i,
{
    if i == ws.len() {
        assert(ws.take(i) =~= ws);
        assert(rule_from(ws, pad, mid, right, h, i) =~= Seq::<char>::empty());
    } else {
        assert(ws[i] >= 0);
        lemma_rule_from(w, ws, pad, mid, right, h, i + 1);
        lemma_repeat(w, h, ws[i] + 2 * pad);
        let end = if i + 1 == ws.len() {
            right
        } else {
            mid
        };
        lemma_unit_concat(w, repeat(h, ws[i] + 2 * pad), end);
        lemma_unit_concat(w, repeat(h, ws[i] + 2 * pad) + end, rule_from(ws, pad, mid, right, h, i + 1));
        lemma_sum_take(ws, i);
        lemma_mul_next(ws.len() - i - 1, 2 * pad + 1);
    }
}

/// Every rule a table draws is `line_width` columns wide, when the glyphs
/// are narrow and the widths are not negative.
pub proof fn lemma_rule_line_width(t: Table, ws: Seq<int>, a: int, b: int, c: int)
    requires
        narrow_glyphs(t),
        glyph_spec(drawn_border(t)) is Some,
        0 <= a < 11,
        0 <= b < 11,
        0 <= c < 11,
        glyph_spec(drawn_border(t))->Some_0[a].len() == 1,
        glyph_spec(drawn_border(t))->Some_0[b].len() == 1,
        glyph_spec(drawn_border(t))->Some_0[c].len() == 1,
        forall|j: int| 0 <= j < ws.len() ==> #[trigger] ws[j] >= 0,
    ensures
        width_of(t.measure(), rule_line(t, ws, glyph_spec(drawn_border(t))->Some_0, a, b, c).drop_last())
            == line_width(t, ws),
        all_steady(rule_line(t, ws, glyph_spec(drawn_border(t))->Some_0, a, b, c).drop_last()),
{
    let w = t.measure();
    let g = glyph_spec(drawn_border(t))->Some_0;
    let pad = t.pad() as int;
    lemma_glyphs_unit(t);
    assert(all_unit(w, g[a]));
    assert(all_unit(w, g[b]));
    assert(all_unit(w, g[c]));
    assert(all_unit(w, g[0]));
    lemma_rule_from(w, ws, pad, g[b], g[c], g[0], 0);
    assert(ws.take(0) =~= Seq::<int>::empty());
    let r = rule_spec(ws, pad, g[a], g[b], g[c], g[0]);
    lemma_unit_concat(w, g[a], rule_from(ws, pad, g[b], g[c], g[0], 0));
    lemma_unit_width(w, r, 0);
    assert(rule_line(t, ws, g, a, b, c).drop_last() =~= r);
}

// ---------------------------------------------------------------------------
// The lines of a rendered table.

/// Lines, each followed by a line feed.
pub open spec fn join_lines(ls: Seq<Seq<char>>) -> Seq<char>
    decreases ls.len(),
{
    if ls.len() == 0 {
        seq![]
    } else {
        ls[0] + seq!['\n'] + join_lines(ls.drop_first())
    }
}

/// Joining two runs of lines is joining each.
pub proof fn lemma_join_append(a: Seq<Seq<char>>, b: Seq<Seq<char>>)
    ensures
        join_lines(a + b) == join_lines(a) + join_lines(b),
    decreases a.len(),
{
    if a.len() == 0 {
        assert(a + b =~= b);
        assert(join_lines(a) + join_lines(b) =~= join_lines(b));
    } else {
        lemma_join_append(a.drop_first(), b);
        assert((a + b).drop_first() =~= a.drop_first() + b);
        assert((a + b)[0] == a[0]);
        assert(join_lines(a + b) =~= join_lines(a) + join_lines(b));
    }
}

/// One line, joined.
pub proof fn lemma_join_one(x: Seq<char>)
    ensures
        join_lines(seq![x]) == x + seq!['\n'],
{
    assert(seq![x].drop_first() =~= Seq::<Seq<char>>::empty());
    assert(join_lines(Seq::<Seq<char>>::empty()) == Seq::<char>::empty());
    assert(seq![x][0] == x);
    assert(join_lines(seq![x]) =~= x + seq!['\n']);
}

/// The lines of a row from line `l` on, without their line feeds.
pub open spec fn row_lines(t: Table, cells: Seq<Seq<char>>, ws: Seq<int>, l: int) -> Seq<Seq<char>>
    decreases row_height(t.measure(), cells, ws) - l,
{
    if l < 0 || l >= row_height(t.measure(), cells, ws) {
        seq![]
    } else {
        seq![row_line(t, cells, ws, l).drop_last()] + row_lines(t, cells, ws, l + 1)
    }
}

/// A row is its lines, joined.
pub proof fn lemma_row_lines(t: Table, cells: Seq<Seq<char>>, ws: Seq<int>, l: int)
    requires
        l >= 0,
    ensures
        join_lines(row_lines(t, cells, ws, l)) == row_from(t, cells, ws, l),
        forall|k: int| 0 <= k < row_lines(t, cells, ws, l).len() ==> exists|m: int| l <= m && #[trigger] row_lines(t, cells, ws, l)[k] == row_line(t, cells, ws, m).drop_last(),
    decreases row_height(t.measure(), cells, ws) - l,
{
    if l < row_height(t.measure(), cells, ws) {
        let rl = row_line(t, cells, ws, l);
        assert(rl =~= rl.drop_last() + seq!['\n']);
        lemma_row_lines(t, cells, ws, l + 1);
        let rest = row_lines(t, cells, ws, l + 1);
        let all = row_lines(t, cells, ws, l);
        lemma_join_append(seq![rl.drop_last()], rest);
        lemma_join_one(rl.drop_last());
        assert forall|k: int| 0 <= k < all.len() implies exists|m: int| l <= m && #[trigger] all[k] == row_line(t, cells, ws, m).drop_last() by {
            if k == 0 {
                assert(all[0] == row_line(t, cells, ws, l).drop_last());
            } else {
                assert(all[k] == rest[k - 1]);
                let m = choose|m: int| l + 1 <= m && #[trigger] rest[k - 1] == row_line(t, cells, ws, m).drop_last();
                assert(all[k] == row_line(t, cells, ws, m).drop_last());
            }
        }
    } else {
        assert(row_lines(t, cells, ws, l) =~= Seq::<Seq<char>>::empty());
    }
}

/// The lines of the body rows from row `r` on.
pub open spec fn body_lines(t: Table, ws: Seq<int>, r: int) -> Seq<Seq<char>>
    decreases t.cells().len() - r,
{
    if !(0 <= r < t.cells().len()) {
        seq![]
    } else {
        row_lines(t, t.cells()[r], ws, 0) + body_lines(t, ws, r + 1)
    }
}

/// The body rows are their lines, joined; each line is a line of some row.
pub proof fn lemma_body_lines(t: Table, ws: Seq<int>, r: int)
    requires
        r >= 0,
    ensures
        join_lines(body_lines(t, ws, r)) == rows_from(t, ws, r),
        forall|k: int| 0 <= k < body_lines(t, ws, r).len() ==> exists|q: int, m: int| r <= q < t.cells().len() && 0 <= m && #[trigger] body_lines(t, ws, r)[k] == row_line(t, t.cells()[q], ws, m).drop_last(),
    decreases t.cells().len() - r,
{
    if r < t.cells().len() {
        reveal(row_spec);
        let here = row_lines(t, t.cells()[r], ws, 0);
        let rest = body_lines(t, ws, r + 1);
        lemma_row_lines(t, t.cells()[r], ws, 0);
        lemma_body_lines(t, ws, r + 1);
        lemma_join_append(here, rest);
        let all = body_lines(t, ws, r);
        assert forall|k: int| 0 <= k < all.len() implies exists|q: int, m: int| r <= q < t.cells().len() && 0 <= m && #[trigger] all[k] == row_line(t, t.cells()[q], ws, m).drop_last() by {
            if k < here.len() {
                assert(all[k] == here[k]);
                let m = choose|m: int| 0 <= m && #[trigger] here[k] == row_line(t, t.cells()[r], ws, m).drop_last();
                assert(all[k] == row_line(t, t.cells()[r], ws, m).drop_last());
            } else {
                assert(all[k] == rest[k - here.len()]);
                let (q, m) = choose|q: int, m: int| r + 1 <= q < t.cells().len() && 0 <= m && #[trigger] rest[k - here.len()] == row_line(t, t.cells()[q], ws, m).drop_last();
                assert(all[k] == row_line(t, t.cells()[q], ws, m).drop_last());
            }
        }
    } else {
        assert(body_lines(t, ws, r) =~= Seq::<Seq<char>>::empty());
    }
}

/// A rule of the table, without its line feed.
pub open spec fn rule_body(t: Table, ws: Seq<int>, a: int, b: int, c: int) -> Seq<char> {
    rule_line(t, ws, glyph_spec(drawn_border(t))->Some_0, a, b, c).drop_last()
}

/// Every line a table draws, without its line feed: the top rule, the header
/// row and the rule under it, the body rows, and the bottom rule, as the
/// border has them.
pub open spec fn drawn_lines(t: Table, max_width: Option<usize>) -> Seq<Seq<char>> {
    if t.headers().len() == 0 {
        seq![]
    } else {
        let ws = resolve_spec(t, max_width);
        let g = glyph_spec(drawn_border(t));
        let framed = g is Some && drawn_border(t) != Border::Markdown;
        let top = if framed {
            seq![rule_body(t, ws, 2, 3, 4)]
        } else {
            seq![]
        };
        let head = if t.shows_header() {
            row_lines(t, t.headers(), ws, 0) + if g is Some {
                seq![rule_body(t, ws, 5, 6, 7)]
            } else {
                seq![]
            }
        } else {
            seq![]
        };
        let bottom = if framed {
            seq![rule_body(t, ws, 8, 9, 10)]
        } else {
            seq![]
        };
        top + head + body_lines(t, ws, 0) + bottom
    }
}

/// A rendered table is its drawn lines, each followed by a line feed, with
/// the line feeds at the very end dropped.
pub proof fn lemma_render_lines(t: Table, max_width: Option<usize>)
    ensures
        render_spec(t, max_width) == join_lines(drawn_lines(t, max_width)).take(
            newline_tail(join_lines(drawn_lines(t, max_width)), join_lines(drawn_lines(t, max_width)).len() as int),
        ),
{
    if t.headers().len() > 0 {
        reveal(row_spec);
        let ws = resolve_spec(t, max_width);
        let g = glyph_spec(drawn_border(t));
        let framed = g is Some && drawn_border(t) != Border::Markdown;
        let top = if framed {
            seq![rule_body(t, ws, 2, 3, 4)]
        } else {
            seq![]
        };
        let hrule = if g is Some {
            seq![rule_body(t, ws, 5, 6, 7)]
        } else {
            seq![]
        };
        let head = if t.shows_header() {
            row_lines(t, t.headers(), ws, 0) + hrule
        } else {
            seq![]
        };
        let bottom = if framed {
            seq![rule_body(t, ws, 8, 9, 10)]
        } else {
            seq![]
        };
        let body = body_lines(t, ws, 0);
        lemma_join_append(top + head + body, bottom);
        lemma_join_append(top + head, body);
        lemma_join_append(top, head);
        lemma_body_lines(t, ws, 0);
        if g is Some {
            let gl = g->Some_0;
            let r1 = rule_line(t, ws, gl, 2, 3, 4);
            let r2 = rule_line(t, ws, gl, 5, 6, 7);
            let r3 = rule_line(t, ws, gl, 8, 9, 10);
            assert(r1 =~= r1.drop_last() + seq!['\n']);
            assert(r2 =~= r2.drop_last() + seq!['\n']);
            assert(r3 =~= r3.drop_last() + seq!['\n']);
            lemma_join_one(r1.drop_last());
            lemma_join_one(r2.drop_last());
            lemma_join_one(r3.drop_last());
        }
        if t.shows_header() {
            lemma_row_lines(t, t.headers(), ws, 0);
            lemma_join_append(row_lines(t, t.headers(), ws, 0), hrule);
        }
        assert(join_lines(Seq::<Seq<char>>::empty()) =~= Seq::<char>::empty());
        let all = join_lines(drawn_lines(t, max_width));
        let top_s = if framed {
            rule_line(t, ws, g->Some_0, 2, 3, 4)
        } else {
            seq![]
        };
        let head_s = if t.shows_header() {
            row_spec(t, t.headers(), ws) + if g is Some {
                rule_line(t, ws, g->Some_0, 5, 6, 7)
            } else {
                seq![]
            }
        } else {
            seq![]
        };
        let bottom_s = if framed {
            rule_line(t, ws, g->Some_0, 8, 9, 10)
        } else {
            seq![]
        };
        assert(join_lines(top) =~= top_s);
        assert(join_lines(head) =~= head_s);
        assert(join_lines(bottom) =~= bottom_s);
        assert(all =~= top_s + head_s + rows_from(t, ws, 0) + bottom_s);
    }
}

/// The glyphs a table draws its rules with are single characters.
pub proof fn lemma_glyph_lens(b: Border)
    requires
        glyph_spec(b) is Some,
    ensures
        ({
            let g = glyph_spec(b)->Some_0;
            &&& g[5].len() == 1 && g[6].len() == 1 && g[7].len() == 1
            &&& b != Border::Markdown ==> g[2].len() == 1 && g[3].len() == 1 && g[4].len() == 1
                && g[8].len() == 1 && g[9].len() == 1 && g[10].len() == 1
        }),
{
}

/// The resolved column widths: one per column, none negative.
pub proof fn lemma_widths(t: Table, max_width: Option<usize>)
    ensures
        resolve_spec(t, max_width).len() == t.headers().len(),
        forall|i: int| 0 <= i < t.headers().len() ==> #[trigger] resolve_spec(t, max_width)[i] >= 0,
{
    crate::table::lemma_naturals(t);
    let ws = naturals(t);
    assert(ws.len() == t.headers().len());
    assert(flexible(t).len() == ws.len());
    match max_width {
        Some(limit) => {
            let total = seq_sum(ws) + crate::table::chrome(t);
            crate::table::lemma_shrink_le(ws, flexible(t), total, limit as int, seq_sum(ws) as nat);
        },
        None => {},
    }
}

/// A line that is `width` columns wide and steady.
pub open spec fn line_ok(w: Width, x: Seq<char>, width: int) -> bool {
    width_of(w, x) == width && all_steady(x)
}

/// Every line of a row is as wide as the table's lines.
pub proof fn lemma_row_lines_ok(t: Table, cells: Seq<Seq<char>>, ws: Seq<int>)
    requires
        narrow_glyphs(t),
        forall|j: int| 0 <= j < ws.len() ==> #[trigger] ws[j] >= 0,
    ensures
        forall|k: int| 0 <= k < row_lines(t, cells, ws, 0).len() ==> line_ok(t.measure(), #[trigger] row_lines(t, cells, ws, 0)[k], line_width(t, ws)),
{
    let rows = row_lines(t, cells, ws, 0);
    lemma_row_lines(t, cells, ws, 0);
    assert forall|k: int| 0 <= k < rows.len() implies line_ok(t.measure(), #[trigger] rows[k], line_width(t, ws)) by {
        let m = choose|m: int| 0 <= m && #[trigger] rows[k] == row_line(t, cells, ws, m).drop_last();
        lemma_row_line_width(t, cells, ws, m);
    }
}

/// Every line of the body rows is as wide as the table's lines.
pub proof fn lemma_body_ok(t: Table, ws: Seq<int>, r: int)
    requires
        narrow_glyphs(t),
        r >= 0,
        forall|j: int| 0 <= j < ws.len() ==> #[trigger] ws[j] >= 0,
    ensures
        forall|k: int| 0 <= k < body_lines(t, ws, r).len() ==> line_ok(t.measure(), #[trigger] body_lines(t, ws, r)[k], line_width(t, ws)),
    decreases t.cells().len() - r,
{
    if r < t.cells().len() {
        let here = row_lines(t, t.cells()[r], ws, 0);
        let rest = body_lines(t, ws, r + 1);
        lemma_row_lines_ok(t, t.cells()[r], ws);
        lemma_body_ok(t, ws, r + 1);
        let all = body_lines(t, ws, r);
        assert forall|k: int| 0 <= k < all.len() implies line_ok(t.measure(), #[trigger] all[k], line_width(t, ws)) by {
            if k < here.len() {
                assert(all[k] == here[k]);
            } else {
                assert(all[k] == rest[k - here.len()]);
            }
        }
    }
}

/// Every line a table draws is as wide as every other, and holds no line
/// feed, so the lines of the rendered text are exactly these, under any
/// policy and border and whatever the cells hold.
#[verifier::rlimit(40)]
pub proof fn lemma_table_lines_agree(t: Table, max_width: Option<usize>)
    ensures
        render_spec(t, max_width) == join_lines(drawn_lines(t, max_width)).take(
            newline_tail(join_lines(drawn_lines(t, max_width)), join_lines(drawn_lines(t, max_width)).len() as int),
        ),
        forall|k: int|
            0 <= k < drawn_lines(t, max_width).len() ==> width_of(t.measure(), #[trigger] drawn_lines(t, max_width)[k])
                == line_width(t, resolve_spec(t, max_width)),
        forall|k: int, j: int|
            0 <= k < drawn_lines(t, max_width).len() && 0 <= j < drawn_lines(t, max_width)[k].len() ==> #[trigger] drawn_lines(t, max_width)[k][j] != '\n',
{
    lemma_narrow_glyphs(t);
    lemma_render_lines(t, max_width);
    let w = t.measure();
    let ws = resolve_spec(t, max_width);
    let d = drawn_lines(t, max_width);
    let lw = line_width(t, ws);
    lemma_widths(t, max_width);
    if t.headers().len() > 0 {
        let g = glyph_spec(drawn_border(t));
        let framed = g is Some && drawn_border(t) != Border::Markdown;
        let top = if framed {
            seq![rule_body(t, ws, 2, 3, 4)]
        } else {
            seq![]
        };
        let hrule = if g is Some {
            seq![rule_body(t, ws, 5, 6, 7)]
        } else {
            seq![]
        };
        let hrows = row_lines(t, t.headers(), ws, 0);
        let head = if t.shows_header() {
            hrows + hrule
        } else {
            seq![]
        };
        let body = body_lines(t, ws, 0);
        let bottom = if framed {
            seq![rule_body(t, ws, 8, 9, 10)]
        } else {
            seq![]
        };
        assert(d == top + head + body + bottom);
        if g is Some {
            lemma_glyph_lens(drawn_border(t));
            lemma_glyphs_unit(t);
            lemma_rule_line_width(t, ws, 5, 6, 7);
            if framed {
                lemma_rule_line_width(t, ws, 2, 3, 4);
                lemma_rule_line_width(t, ws, 8, 9, 10);
            }
        }
        if t.shows_header() {
            lemma_row_lines_ok(t, t.headers(), ws);
        }
        lemma_body_ok(t, ws, 0);
        assert forall|k: int| 0 <= k < d.len() implies line_ok(w, #[trigger] d[k], lw) by {
            if k < top.len() {
                assert(d[k] == top[k]);
            } else if k < top.len() + head.len() {
                let k2 = k - top.len();
                assert(d[k] == head[k2]);
                if k2 < hrows.len() {
                    assert(head[k2] == hrows[k2]);
                } else {
                    assert(head[k2] == hrule[k2 - hrows.len()]);
                }
            } else if k < top.len() + head.len() + body.len() {
                assert(d[k] == body[k - top.len() - head.len()]);
            } else {
                assert(d[k] == bottom[k - top.len() - head.len() - body.len()]);
            }
        }
        assert forall|k: int, j: int| 0 <= k < d.len() && 0 <= j < d[k].len() implies #[trigger] d[k][j] != '\n' by {
            assert(line_ok(w, d[k], lw));
            assert(steady(d[k][j]));
        }
        assert forall|k: int| 0 <= k < d.len() implies width_of(w, #[trigger] d[k]) == lw by {
            assert(line_ok(w, d[k], lw));
        }
    }
}

/// A line is as wide as the columns and the borders and padding around them.
pub proof fn lemma_line_width_chrome(t: Table, ws: Seq<int>)
    requires
        ws.len() == t.headers().len(),
    ensures
        line_width(t, ws) == crate::table::chrome(t) + seq_sum(ws),
{
    let n = ws.len() as int;
    let p = t.pad() as int;
    assert(n * (2 * p + 1) == 2 * p * n + n) by (nonlinear_arith);
}

/// Given a limit at least the borders and padding plus the narrowest each
/// column can be, every line a table draws fits in it, whatever the cells
/// hold.
pub proof fn lemma_table_within(t: Table, limit: usize)
    requires
        limit >= crate::table::chrome(t) + seq_sum(crate::table::floors(t)),
    ensures
        forall|k: int|
            0 <= k < drawn_lines(t, Some(limit)).len() ==> width_of(
                t.measure(),
                #[trigger] drawn_lines(t, Some(limit))[k],
            ) <= limit,
{
    crate::table::lemma_resolved_within(t, limit);
    lemma_line_width_chrome(t, resolve_spec(t, Some(limit)));
    lemma_table_lines_agree(t, Some(limit));
}


/// The height found from cell `i` on is at least what was found before, and
/// at least as many lines as any cell from `i` on wraps into.
proof fn lemma_height_from(w: Width, cells: Seq<Seq<char>>, ws: Seq<int>, i: int, acc: int)
    requires
        0 <= i,
    ensures
        crate::table::height_from(w, cells, ws, i, acc) >= acc,
        forall|j: int|
            i <= j < cells.len() ==> #[trigger] crate::table::cell_lines(w, cells, ws, j).len()
                <= crate::table::height_from(w, cells, ws, i, acc),
    decreases cells.len() - i,
{
    if i < cells.len() {
        let h = crate::table::cell_lines(w, cells, ws, i).len() as int;
        let acc2 = if h > acc {
            h
        } else {
            acc
        };
        lemma_height_from(w, cells, ws, i + 1, acc2);
    }
}

/// The lines of a row from `m` on are its lines `m`, `m + 1`, ... in order.
proof fn lemma_row_lines_at(t: Table, cells: Seq<Seq<char>>, ws: Seq<int>, m: int)
    requires
        0 <= m <= row_height(t.measure(), cells, ws),
    ensures
        row_lines(t, cells, ws, m).len() == row_height(t.measure(), cells, ws) - m,
        forall|l: int|
            m <= l < row_height(t.measure(), cells, ws) ==> #[trigger] row_lines(t, cells, ws, m)[l - m]
                == row_line(t, cells, ws, l).drop_last(),
    decreases row_height(t.measure(), cells, ws) - m,
{
    if m < row_height(t.measure(), cells, ws) {
        lemma_row_lines_at(t, cells, ws, m + 1);
        let rest = row_lines(t, cells, ws, m + 1);
        let all = row_lines(t, cells, ws, m);
        assert forall|l: int| m <= l < row_height(t.measure(), cells, ws) implies #[trigger] all[l - m]
            == row_line(t, cells, ws, l).drop_last() by {
            if l > m {
                assert(all[l - m] == rest[l - (m + 1)]);
            }
        }
    }
}

/// A row loses no line of any of its cells: it is as tall as its tallest
/// cell, at least one line, and its line `l` is drawn from line `l` of every
/// cell, so every line any cell wraps into is drawn.
pub proof fn lemma_row_holds_every_line(t: Table, cells: Seq<Seq<char>>, ws: Seq<int>)
    ensures
        row_height(t.measure(), cells, ws) >= 1,
        row_lines(t, cells, ws, 0).len() == row_height(t.measure(), cells, ws),
        forall|i: int|
            0 <= i < cells.len() ==> #[trigger] crate::table::cell_lines(t.measure(), cells, ws, i).len()
                <= row_lines(t, cells, ws, 0).len(),
        forall|l: int|
            0 <= l < row_lines(t, cells, ws, 0).len() ==> #[trigger] row_lines(t, cells, ws, 0)[l] == row_line(
                t,
                cells,
                ws,
                l,
            ).drop_last(),
        forall|i: int, l: int|
            0 <= i < cells.len() && 0 <= l < crate::table::cell_lines(t.measure(), cells, ws, i).len() ==> #[trigger] crate::table::cell_line(
                t.measure(),
                cells,
                ws,
                i,
                l,
            ) == crate::table::unbroken(crate::table::cell_lines(t.measure(), cells, ws, i)[l]),
{
    let w = t.measure();
    let h = row_height(w, cells, ws);
    if cells.len() > 0 {
        let k = if ws[0] > 1 {
            ws[0]
        } else {
            1
        };
        crate::wrap_fit::lemma_wrap_nonempty(w, crate::table::cell_text_spec(w, cells[0]), k);
        lemma_height_from(w, cells, ws, 1, crate::table::cell_lines(w, cells, ws, 0).len() as int);
    }
    assert forall|i: int| 0 <= i < cells.len() implies #[trigger] crate::table::cell_lines(w, cells, ws, i).len()
        <= h by {
        if i > 0 {
            assert(crate::table::cell_lines(w, cells, ws, i).len() <= crate::table::height_from(
                w,
                cells,
                ws,
                1,
                crate::table::cell_lines(w, cells, ws, 0).len() as int,
            ));
        }
    }
    lemma_row_lines_at(t, cells, ws, 0);
    assert forall|l: int| 0 <= l < row_lines(t, cells, ws, 0).len() implies #[trigger] row_lines(t, cells, ws, 0)[l]
        == row_line(t, cells, ws, l).drop_last() by {
        assert(row_lines(t, cells, ws, 0)[l - 0] == row_line(t, cells, ws, l).drop_last());
    }
}


/// How many lines the body rows from `r` up to `q` take.
pub open spec fn rows_before(t: Table, ws: Seq<int>, r: int, q: int) -> int
    decreases q - r,
{
    if r >= q {
        0
    } else {
        row_lines(t, t.cells()[r], ws, 0).len() + rows_before(t, ws, r + 1, q)
    }
}

/// The lines of body row `q` stand in the body lines from row `r` on, after
/// the lines of the rows between.
proof fn lemma_body_at(t: Table, ws: Seq<int>, r: int, q: int, l: int)
    requires
        0 <= r <= q < t.cells().len(),
        0 <= l < row_lines(t, t.cells()[q], ws, 0).len(),
    ensures
        0 <= rows_before(t, ws, r, q) + l < body_lines(t, ws, r).len(),
        body_lines(t, ws, r)[rows_before(t, ws, r, q) + l] == row_lines(t, t.cells()[q], ws, 0)[l],
    decreases q - r,
{
    let here = row_lines(t, t.cells()[r], ws, 0);
    let rest = body_lines(t, ws, r + 1);
    assert(body_lines(t, ws, r) == here + rest);
    if r < q {
        lemma_body_at(t, ws, r + 1, q, l);
        let k = rows_before(t, ws, r + 1, q) + l;
        assert(body_lines(t, ws, r)[here.len() + k] == rest[k]);
    }
}

/// Rendering loses no cell text: every line that any cell of any body row
/// wraps into is drawn, as the line of its row with the same index, in a
/// table with at least one column.
#[verifier::spinoff_prover]
#[verifier::rlimit(50)]
pub proof fn lemma_render_holds_every_line(t: Table, max_width: Option<usize>)
    requires
        t.headers().len() > 0,
    ensures
        forall|q: int, i: int, l: int|
            #![trigger crate::table::cell_lines(t.measure(), t.cells()[q], resolve_spec(t, max_width), i), row_lines(t, t.cells()[q], resolve_spec(t, max_width), 0)[l]]
            0 <= q < t.cells().len() && 0 <= i < t.cells()[q].len() && 0 <= l < crate::table::cell_lines(
                t.measure(),
                t.cells()[q],
                resolve_spec(t, max_width),
                i,
            ).len() ==> row_lines(t, t.cells()[q], resolve_spec(t, max_width), 0)[l] == row_line(
                t,
                t.cells()[q],
                resolve_spec(t, max_width),
                l,
            ).drop_last() && exists|k: int|
                0 <= k < drawn_lines(t, max_width).len() && drawn_lines(t, max_width)[k] == row_lines(
                    t,
                    t.cells()[q],
                    resolve_spec(t, max_width),
                    0,
                )[l],
{
    let ws = resolve_spec(t, max_width);
    let d = drawn_lines(t, max_width);
    let g = glyph_spec(drawn_border(t));
    let framed = g is Some && drawn_border(t) != Border::Markdown;
    let top = if framed {
        seq![rule_body(t, ws, 2, 3, 4)]
    } else {
        seq![]
    };
    let head = if t.shows_header() {
        row_lines(t, t.headers(), ws, 0) + if g is Some {
            seq![rule_body(t, ws, 5, 6, 7)]
        } else {
            seq![]
        }
    } else {
        seq![]
    };
    let bottom = if framed {
        seq![rule_body(t, ws, 8, 9, 10)]
    } else {
        seq![]
    };
    let body = body_lines(t, ws, 0);
    assert(d == top + head + body + bottom);
    assert forall|q: int, i: int, l: int|
        #![trigger crate::table::cell_lines(t.measure(), t.cells()[q], ws, i), row_lines(t, t.cells()[q], ws, 0)[l]]
        0 <= q < t.cells().len() && 0 <= i < t.cells()[q].len() && 0 <= l < crate::table::cell_lines(
            t.measure(),
            t.cells()[q],
            ws,
            i,
        ).len() implies row_lines(t, t.cells()[q], ws, 0)[l] == row_line(t, t.cells()[q], ws, l).drop_last()
        && exists|k: int| 0 <= k < d.len() && d[k] == row_lines(t, t.cells()[q], ws, 0)[l] by {
        lemma_row_holds_every_line(t, t.cells()[q], ws);
        let rl = row_lines(t, t.cells()[q], ws, 0);
        assert(crate::table::cell_lines(t.measure(), t.cells()[q], ws, i).len() <= rl.len());
        assert(rl[l] == row_line(t, t.cells()[q], ws, l).drop_last());
        lemma_body_at(t, ws, 0, q, l);
        let k = rows_before(t, ws, 0, q) + l;
        let k2 = top.len() + head.len() + k;
        assert(d[k2] == body[k]);
    }
}

} // verus!
