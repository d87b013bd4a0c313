//! Laying out a grid of text so the columns line up.
//!
//! This is the thing everyone writes by hand and gets subtly wrong. It uses the
//! rest of the crate: columns are measured in terminal cells, cells are wrapped
//! at UAX #14 opportunities, and colour codes survive the process.

use vstd::prelude::*;

use std::borrow::Cow;

use crate::ansi::{lemma_piece_bounds, piece_end, piece_is_escape, Piece, Pieces};
use crate::fit::{cell_spec, lines_view, pad_spec, spaces, wrap_spec};
use crate::grapheme::{attaches, cluster_end, gcb_of, lemma_cluster_bounds, Graphemes};
use crate::measure::{holds, lemma_room_mono, room, width_at, width_of, Width};

verus! {

/// Horizontal alignment within a column.
#[derive(Clone, Copy, PartialEq, Eq, Debug, Default, Structural)]
pub enum Align {
    /// Against the left edge. The default.
    #[default]
    Left,
    /// Centred, with an odd column going to the right.
    Center,
    /// Against the right edge. Usually what numbers want.
    Right,
}

/// How wide a column should be.
#[derive(Clone, Copy, PartialEq, Eq, Debug, Default, Structural)]
#[non_exhaustive]
pub enum Sizing {
    /// As wide as its widest cell. The default.
    #[default]
    Auto,
    /// Exactly this many columns, truncating or padding as needed.
    Fixed(usize),
    /// As wide as its widest cell, but never more than this.
    Max(usize),
}

/// The border a table is drawn with: its own, except that box drawing
/// characters, which are East Asian Ambiguous, give way to ASCII under a
/// policy that takes those two columns wide, so that the lines still agree.
pub open spec fn drawn_border(t: Table) -> Border {
    if t.measure().amb_wide() && (t.border_style() is Light || t.border_style() is Heavy) {
        Border::Ascii
    } else {
        t.border_style()
    }
}

/// The characters a table is drawn with.
#[derive(Clone, Copy, PartialEq, Eq, Debug, Default, Structural)]
#[non_exhaustive]
pub enum Border {
    /// Box drawing characters. The default.
    #[default]
    Light,
    /// Heavier box drawing characters.
    Heavy,
    /// `+`, `-` and `|`, for terminals or logs that mangle anything else.
    Ascii,
    /// A GitHub-flavoured Markdown table.
    Markdown,
    /// Two spaces between columns and nothing else.
    Spaces,
}

/// The glyphs of a border, in the order h v tl tm tr ml mm mr bl bm br, or
/// `None` for a borderless table.
pub open spec fn glyph_spec(b: Border) -> Option<Seq<Seq<char>>> {
    match b {
        Border::Light => Some(
            seq![
                seq!['─'],
                seq!['│'],
                seq!['┌'],
                seq!['┬'],
                seq!['┐'],
                seq!['├'],
                seq!['┼'],
                seq!['┤'],
                seq!['└'],
                seq!['┴'],
                seq!['┘'],
            ],
        ),
        Border::Heavy => Some(
            seq![
                seq!['━'],
                seq!['┃'],
                seq!['┏'],
                seq!['┳'],
                seq!['┓'],
                seq!['┣'],
                seq!['╋'],
                seq!['┫'],
                seq!['┗'],
                seq!['┻'],
                seq!['┛'],
            ],
        ),
        Border::Ascii => Some(
            seq![
                seq!['-'],
                seq!['|'],
                seq!['+'],
                seq!['+'],
                seq!['+'],
                seq!['+'],
                seq!['+'],
                seq!['+'],
                seq!['+'],
                seq!['+'],
                seq!['+'],
            ],
        ),
        Border::Markdown => Some(
            seq![
                seq!['-'],
                seq!['|'],
                seq![],
                seq![],
                seq![],
                seq!['|'],
                seq!['|'],
                seq!['|'],
                seq![],
                seq![],
                seq![],
            ],
        ),
        Border::Spaces => None,
    }
}

// ---------------------------------------------------------------------------
// Cell text.

/// A control character (general category Cc), as `char::is_control` decides.
pub open spec fn is_cc(c: char) -> bool {
    (c as u32) <= 0x1F || (0x7F <= (c as u32) && (c as u32) <= 0x9F)
}

/// A cluster made only of control characters other than a line feed or a tab.
pub open spec fn junk(g: Seq<char>) -> bool {
    forall|i: int| 0 <= i < g.len() ==> is_cc(#[trigger] g[i]) && g[i] != '\n' && g[i] != '\t'
}

/// Text that needs nothing done to it: printable ASCII and line feeds.
pub open spec fn plain_cell(cs: Seq<char>) -> bool {
    forall|i: int| 0 <= i < cs.len() ==> (#[trigger] cs[i] == '\n' || (0x20 <= (cs[i] as u32) && (cs[i] as u32) < 0x7F))
}

/// Columns a tab expands to at column `col`: at least one.
pub open spec fn tab_cells(w: Width, col: int) -> int {
    let a = width_at(w, seq!['\t'], col);
    if a > 1 {
        a
    } else {
        1
    }
}

/// One pass over the clusters of a text run `t` from `k` on, starting at
/// column `col`: control clusters dropped, tabs expanded to spaces. Gives the
/// output and the column reached.
pub open spec fn san_text(w: Width, t: Seq<char>, k: int, col: int) -> (Seq<char>, int)
    decreases t.len() - k,
{
    if !(0 <= k < t.len()) {
        (seq![], col)
    } else {
        let e = cluster_end(false, t, k);
        if e <= k || e > t.len() {
            (seq![], col)
        } else {
            let g = t.subrange(k, e);
            if junk(g) {
                san_text(w, t, e, col)
            } else if g == seq!['\t'] {
                let a = tab_cells(w, col);
                let (rest, c2) = san_text(w, t, e, col + a);
                (spaces(a) + rest, c2)
            } else {
                let a = width_at(w, g, col);
                let (rest, c2) = san_text(w, t, e, col + a);
                (g + rest, c2)
            }
        }
    }
}

/// One pass over the pieces of `cs` from `k` on, starting at column `col`:
/// escape sequences carrying a line separator dropped, text runs sanitised.
pub open spec fn san_pieces(w: Width, cs: Seq<char>, k: int, col: int) -> Seq<char>
    decreases cs.len() - k,
{
    if !(0 <= k < cs.len()) {
        seq![]
    } else {
        let e = piece_end(cs, k);
        if e <= k || e > cs.len() {
            seq![]
        } else if piece_is_escape(cs, k) {
            let x = cs.subrange(k, e);
            if holds(x, '\n') || holds(x, '\r') {
                san_pieces(w, cs, e, col)
            } else {
                x + san_pieces(w, cs, e, col)
            }
        } else {
            let (o, c2) = san_text(w, cs.subrange(k, e), 0, col);
            o + san_pieces(w, cs, e, c2)
        }
    }
}

/// One sanitising pass: expand tabs, drop control characters, drop any escape
/// sequence carrying a line separator, and put a leading combining mark on a
/// dotted circle.
pub open spec fn sanitise_spec(w: Width, cs: Seq<char>) -> Seq<char> {
    let o = san_pieces(w, cs, 0, 0);
    if o.len() > 0 && attaches(gcb_of(o[0])) {
        seq!['\u{25CC}'] + o
    } else {
        o
    }
}

/// Passes repeated until the text stops changing, at most `fuel` more of
/// them, and only while the text is short enough to measure.
pub open spec fn settle(w: Width, cs: Seq<char>, fuel: nat) -> Seq<char>
    decreases fuel,
{
    if fuel == 0 || room(w, cs.len() as int) > usize::MAX {
        cs
    } else {
        let next = sanitise_spec(w, cs);
        if next == cs {
            cs
        } else {
            settle(w, next, (fuel - 1) as nat)
        }
    }
}

/// Cell text, ready to measure and lay out.
pub open spec fn cell_text_spec(w: Width, cs: Seq<char>) -> Seq<char> {
    if plain_cell(cs) {
        cs
    } else {
        let first = sanitise_spec(w, cs);
        settle(w, first, first.len())
    }
}

/// A sanitising pass never moves the column back, nor past what the text
/// could take.
pub proof fn lemma_san_text_col(w: Width, t: Seq<char>, k: int, col: int)
    requires
        0 <= k <= t.len(),
        col >= 0,
    ensures
        col <= san_text(w, t, k, col).1 <= col + room(w, t.len() - k),
    decreases t.len() - k,
{
    if k < t.len() {
        lemma_cluster_bounds(false, t, k);
        let e = cluster_end(false, t, k);
        let g = t.subrange(k, e);
        lemma_room_mono(w, e - k, t.len() - k);
        lemma_room_mono(w, 1, e - k);
        crate::measure::lemma_width_bound(w, g, col);
        crate::measure::lemma_width_bound(w, seq!['\t'], col);
        let a = if junk(g) {
            0
        } else if g == seq!['\t'] {
            tab_cells(w, col)
        } else {
            width_at(w, g, col)
        };
        lemma_san_text_col(w, t, e, col + a);
        lemma_room_mono(w, 0, 1);
    }
}

/// Whether `s` holds the character `c`.
fn has_char(s: &str, c: char) -> (r: bool)
    ensures
        r == holds(s@, c),
{
    let v = crate::text::to_chars(s);
    let mut i: usize = 0;
    while i < v.len()
        invariant
            v@ == s@,
            i <= v.len(),
            forall|j: int| 0 <= j < i ==> v@[j] != c,
        decreases v.len() - i,
    {
        if v[i] == c {
            return true;
        }
        i = i + 1;
    }
    false
}

/// Whether every character of `s` is a control character other than a line
/// feed or a tab.
fn is_junk(s: &str) -> (r: bool)
    ensures
        r == junk(s@),
{
    let v = crate::text::to_chars(s);
    let mut i: usize = 0;
    while i < v.len()
        invariant
            v@ == s@,
            i <= v.len(),
            forall|j: int| 0 <= j < i ==> is_cc(#[trigger] v@[j]) && v@[j] != '\n' && v@[j] != '\t',
        decreases v.len() - i,
    {
        let u = v[i] as u32;
        if !(u <= 0x1F || (0x7F <= u && u <= 0x9F)) || v[i] == '\n' || v[i] == '\t' {
            return false;
        }
        i = i + 1;
    }
    true
}

/// Whether `s` is a lone tab.
fn is_tab(s: &str) -> (r: bool)
    ensures
        r == (s@ == seq!['\t']),
{
    let v = crate::text::to_chars(s);
    if v.len() == 1 && v[0] == '\t' {
        assert(s@ =~= seq!['\t']);
        true
    } else {
        false
    }
}

/// Whether `s` is printable ASCII and line feeds.
fn is_plain(s: &str) -> (r: bool)
    ensures
        r == plain_cell(s@),
{
    let v = crate::text::to_chars(s);
    let mut i: usize = 0;
    while i < v.len()
        invariant
            v@ == s@,
            i <= v.len(),
            forall|j: int| 0 <= j < i ==> (#[trigger] v@[j] == '\n' || (0x20 <= (v@[j] as u32) && (v@[j] as u32) < 0x7F)),
        decreases v.len() - i,
    {
        let u = v[i] as u32;
        if !(v[i] == '\n' || (0x20 <= u && u < 0x7F)) {
            return false;
        }
        i = i + 1;
    }
    true
}

/// One column's configuration.
#[derive(Clone, Debug)]
struct Column {
    header: String,
    align: Align,
    sizing: Sizing,
}

/// A text table that lines up in a terminal.
#[derive(Clone, Debug, Default)]
pub struct Table {
    columns: Vec<Column>,
    rows: Vec<Vec<String>>,
    border: Border,
    width: Width,
    padding: usize,
    header: bool,
}

impl Table {
    /// Sanitise the clusters of a text run `t`, starting at column `col`,
    /// onto `out`; gives the column reached.
    fn san_run(&self, out: &mut String, t: &str, col: usize) -> (r: usize)
        requires
            col + room(self.width, t@.len() as int) <= usize::MAX,
        ensures
            final(out)@ == old(out)@ + san_text(self.width, t@, 0, col as int).0,
            r == san_text(self.width, t@, 0, col as int).1,
    {
        let ghost w = self.width;
        let ghost ts = t@;
        let mut c = col;
        let mut g = Graphemes::new(t);
        loop
            invariant
                w == self.width,
                ts == t@,
                g.text() == ts,
                !g.is_legacy(),
                0 <= g.index() <= ts.len(),
                col + room(w, ts.len() as int) <= usize::MAX,
                col <= c <= col + room(w, g.index()),
                old(out)@ + san_text(w, ts, 0, col as int).0 == out@ + san_text(w, ts, g.index(), c as int).0,
                san_text(w, ts, 0, col as int).1 == san_text(w, ts, g.index(), c as int).1,
            ensures
                out@ == old(out)@ + san_text(w, ts, 0, col as int).0,
                c == san_text(w, ts, 0, col as int).1,
            decreases ts.len() - g.index(),
        {
            let ghost k = g.index();
            proof {
                if k < ts.len() {
                    lemma_cluster_bounds(false, ts, k);
                    let e = cluster_end(false, ts, k);
                    lemma_room_mono(w, e - k, ts.len() - k);
                    lemma_room_mono(w, k, ts.len() as int);
                    lemma_room_mono(w, k, e);
                    lemma_room_mono(w, 1, e - k);
                    lemma_room_mono(w, 0, 1);
                    crate::measure::lemma_width_bound(w, ts.subrange(k, e), c as int);
                    crate::measure::lemma_width_bound(w, seq!['\t'], c as int);
                }
            }
            match g.next() {
                None => {
                    assert(out@ + san_text(w, ts, k, c as int).0 =~= out@);
                    break;
                },
                Some(cl) => {
                    // Control characters other than a line break have no
                    // place in a cell: they occupy no columns but confuse
                    // anything that reads the output back.
                    if is_junk(cl) {
                    } else if is_tab(cl) {
                        let tab = "\t";
                        proof {
                            reveal_strlit("\t");
                            assert(tab@ =~= seq!['\t']);
                        }
                        let a0 = self.width.of_at(tab, c);
                        let advance = if a0 > 1 {
                            a0
                        } else {
                            1
                        };
                        proof {
                            assert(tab@ == seq!['\t']);
                            assert(cl@ == seq!['\t']);
                            assert(g.index() == k + 1);
                            assert(room(w, 1) == crate::measure::wmax(w));
                            assert(advance == tab_cells(w, c as int));
                            assert(advance <= room(w, 1));
                        }
                        crate::text::push_spaces(out, advance);
                        c = c + advance;
                    } else {
                        crate::text::push_str(out, cl);
                        c = c + self.width.of_at(cl, c);
                    }
                    proof {
                        assert(out@ + san_text(w, ts, g.index(), c as int).0 =~= old(out)@ + san_text(w, ts, 0, col as int).0);
                    }
                },
            }
        }
        c
    }

    /// One sanitising pass: expand tabs, drop control characters, and drop any
    /// escape sequence carrying a line separator.
    fn sanitise(&self, s: &str) -> (r: String)
        requires
            room(self.width, s@.len() as int) <= usize::MAX,
        ensures
            r@ == sanitise_spec(self.width, s@),
    {
        let ghost w = self.width;
        let ghost cs = s@;
        let mut out = String::new();
        let mut col: usize = 0;
        let mut it = Pieces::new(s);
        proof {
            lemma_room_mono(w, 0, cs.len() as int);
        }
        loop
            invariant
                w == self.width,
                cs == s@,
                it.text() == cs,
                0 <= it.index() <= cs.len(),
                room(w, cs.len() as int) <= usize::MAX,
                col <= room(w, it.index()),
                san_pieces(w, cs, 0, 0) == out@ + san_pieces(w, cs, it.index(), col as int),
            ensures
                san_pieces(w, cs, 0, 0) == out@,
            decreases cs.len() - it.index(),
        {
            let ghost k = it.index();
            proof {
                if k < cs.len() {
                    lemma_piece_bounds(cs, k);
                    let e = piece_end(cs, k);
                    lemma_room_mono(w, e - k, cs.len() - k);
                    lemma_room_mono(w, k, cs.len() as int);
                    lemma_room_mono(w, k, e);
                    lemma_san_text_col(w, cs.subrange(k, e), 0, col as int);
                }
            }
            match it.next() {
                None => {
                    assert(out@ + san_pieces(w, cs, k, col as int) =~= out@);
                    break;
                },
                Some(p) => {
                    match p {
                        // A string sequence carrying a raw line separator is
                        // malformed and would split a rendered row in half.
                        Piece::Escape(e) => {
                            if !(has_char(e, '\n') || has_char(e, '\r')) {
                                crate::text::push_str(&mut out, e);
                            }
                        },
                        Piece::Text(t) => {
                            col = self.san_run(&mut out, t, col);
                        },
                    }
                    proof {
                        assert(san_pieces(w, cs, 0, 0) =~= out@ + san_pieces(w, cs, it.index(), col as int));
                    }
                },
            }
        }
        // A cell that begins with a combining mark is not self-contained: the
        // mark would attach to the padding space drawn before it. Unicode's
        // own convention for showing an isolated mark is a dotted circle.
        let v = crate::text::to_chars(out.as_str());
        if v.len() > 0 && crate::grapheme::attaches_to_previous(v[0]) {
            let circle = "\u{25CC}";
            proof {
                reveal_strlit("\u{25CC}");
            }
            let mut o2 = String::new();
            crate::text::push_str(&mut o2, circle);
            crate::text::push_str(&mut o2, out.as_str());
            return o2;
        }
        out
    }

    /// Cell text, ready to measure and lay out.
    ///
    /// Tabs are expanded to spaces first. A tab's width depends on the column
    /// it starts in, but a cell does not know where on the line it will be
    /// drawn, so expanding it against the cell's own origin is the only stable
    /// answer.
    fn cell_text<'b>(&self, s: &'b str) -> (r: Cow<'b, str>)
        requires
            room(self.width, s@.len() as int) <= usize::MAX,
        ensures
            r@ == cell_text_spec(self.width, s@),
    {
        // Skip the walk only for text that plainly needs nothing done to it.
        if is_plain(s) {
            return Cow::Borrowed(s);
        }
        // Deleting a character can leave its neighbours adjacent, and those
        // neighbours can form an escape introducer that was not there before
        // -- `ESC NUL ]` becomes `ESC ]`. Repeat until the text stops
        // changing; every pass but the last removes characters, so there are
        // at most as many passes as characters.
        let mut cur = self.sanitise(s);
        let ghost first = cur@;
        let mut fuel = crate::text::to_chars(cur.as_str()).len();
        loop
            invariant
                !plain_cell(s@),
                first == sanitise_spec(self.width, s@),
                settle(self.width, first, first.len()) == settle(self.width, cur@, fuel as nat),
            decreases fuel,
        {
            if fuel == 0 {
                return Cow::Owned(cur);
            }
            let n = crate::text::to_chars(cur.as_str()).len();
            if self.width.room_of(n).is_none() {
                return Cow::Owned(cur);
            }
            let next = self.sanitise(cur.as_str());
            if next == cur {
                return Cow::Owned(cur);
            }
            cur = next;
            fuel = fuel - 1;
        }
    }
}

impl Table {
    /// The column headers.
    pub closed spec fn headers(self) -> Seq<Seq<char>> {
        self.columns@.map_values(|c: Column| c.header@)
    }

    /// The alignment of each column.
    pub closed spec fn aligns(self) -> Seq<Align> {
        self.columns@.map_values(|c: Column| c.align)
    }

    /// The sizing of each column.
    pub closed spec fn sizings(self) -> Seq<Sizing> {
        self.columns@.map_values(|c: Column| c.sizing)
    }

    /// The rows, cell by cell.
    pub closed spec fn cells(self) -> Seq<Seq<Seq<char>>> {
        self.rows@.map_values(|r: Vec<String>| r@.map_values(|x: String| x@))
    }

    /// The border this table is drawn with.
    fn drawn(&self) -> (r: Border)
        ensures
            r == drawn_border(*self),
    {
        if self.width.ambiguous_wide() && (self.border == Border::Light || self.border == Border::Heavy) {
            Border::Ascii
        } else {
            self.border
        }
    }

    /// The border style.
    pub closed spec fn border_style(self) -> Border {
        self.border
    }

    /// The measurement policy.
    pub closed spec fn measure(self) -> Width {
        self.width
    }

    /// Spaces between a cell's text and the border.
    pub closed spec fn pad(self) -> usize {
        self.padding
    }

    /// Whether the header row is drawn.
    pub closed spec fn shows_header(self) -> bool {
        self.header
    }

    /// An empty table with light box-drawing borders and a header row.
    pub fn new() -> (r: Self)
        ensures
            r.headers().len() == 0,
            r.cells().len() == 0,
            r.border_style() == Border::Light,
            r.measure().is_default(),
            r.pad() == 1,
            r.shows_header(),
    {
        Table {
            columns: Vec::new(),
            rows: Vec::new(),
            border: Border::Light,
            width: Width::modern(),
            padding: 1,
            header: true,
        }
    }

    /// Add a left-aligned, auto-sized column.
    pub fn column(self, header: &str) -> (r: Self)
        ensures
            r.headers() == self.headers().push(header@),
            r.aligns() == self.aligns().push(Align::Left),
            r.sizings() == self.sizings().push(Sizing::Auto),
            r.cells() == self.cells(),
            r.border_style() == self.border_style(),
            r.measure() == self.measure(),
            r.pad() == self.pad(),
            r.shows_header() == self.shows_header(),
    {
        self.column_with(header, Align::Left, Sizing::Auto)
    }

    /// Add an auto-sized column with the given alignment.
    pub fn column_aligned(self, header: &str, align: Align) -> (r: Self)
        ensures
            r.headers() == self.headers().push(header@),
            r.aligns() == self.aligns().push(align),
            r.sizings() == self.sizings().push(Sizing::Auto),
            r.cells() == self.cells(),
            r.border_style() == self.border_style(),
            r.measure() == self.measure(),
            r.pad() == self.pad(),
            r.shows_header() == self.shows_header(),
    {
        self.column_with(header, align, Sizing::Auto)
    }

    /// Add a column, specifying both alignment and sizing.
    pub fn column_with(self, header: &str, align: Align, sizing: Sizing) -> (r: Self)
        ensures
            r.headers() == self.headers().push(header@),
            r.aligns() == self.aligns().push(align),
            r.sizings() == self.sizings().push(sizing),
            r.cells() == self.cells(),
            r.border_style() == self.border_style(),
            r.measure() == self.measure(),
            r.pad() == self.pad(),
            r.shows_header() == self.shows_header(),
    {
        let mut t = self;
        t.columns.push(Column { header: header.to_owned(), align, sizing });
        proof {
            assert(t.headers() =~= self.headers().push(header@));
            assert(t.aligns() =~= self.aligns().push(align));
            assert(t.sizings() =~= self.sizings().push(sizing));
        }
        t
    }

    /// Add a row whose cells come as a slice. Missing cells are left blank;
    /// extra cells are ignored.
    pub fn row_slice(self, cells: &[&str]) -> (r: Self)
        ensures
            r.cells() == self.cells().push(
                Seq::new(
                    self.headers().len(),
                    |i: int| if i < cells@.len() { cells@[i]@ } else { Seq::<char>::empty() },
                ),
            ),
            r.headers() == self.headers(),
            r.aligns() == self.aligns(),
            r.sizings() == self.sizings(),
            r.border_style() == self.border_style(),
            r.measure() == self.measure(),
            r.pad() == self.pad(),
            r.shows_header() == self.shows_header(),
    {
        let mut t = self;
        let n = t.columns.len();
        let m = cells.len();
        let mut row: Vec<String> = Vec::new();
        let mut i: usize = 0;
        while i < n
            invariant
                n == t.columns@.len(),
                m == cells@.len(),
                i <= n,
                row@.len() == i,
                forall|j: int|
                    0 <= j < i ==> #[trigger] row@[j]@ == (if j < m { cells@[j]@ } else { Seq::<char>::empty() }),
            decreases n - i,
        {
            if i < m {
                row.push(cells[i].to_owned());
            } else {
                row.push(String::new());
            }
            i = i + 1;
        }
        let ghost old_cells = t.cells();
        proof {
            assert(row@.map_values(|x: String| x@) =~= Seq::new(
                self.headers().len(),
                |i: int| if i < cells@.len() { cells@[i]@ } else { Seq::<char>::empty() },
            ));
        }
        t.rows.push(row);
        proof {
            assert(t.headers() =~= self.headers());
            assert(t.cells() =~= old_cells.push(
                Seq::new(
                    self.headers().len(),
                    |i: int| if i < cells@.len() { cells@[i]@ } else { Seq::<char>::empty() },
                ),
            ));
        }
        t
    }

    /// Add a row. Missing cells are left blank; extra cells are ignored.
    pub fn row<const N: usize>(self, cells: [&str; N]) -> (r: Self)
        ensures
            r.cells() == self.cells().push(
                Seq::new(self.headers().len(), |i: int| if i < N { cells@[i]@ } else { Seq::<char>::empty() }),
            ),
            r.headers() == self.headers(),
            r.aligns() == self.aligns(),
            r.sizings() == self.sizings(),
            r.border_style() == self.border_style(),
            r.measure() == self.measure(),
            r.pad() == self.pad(),
            r.shows_header() == self.shows_header(),
    {
        let mut t = self;
        let n = t.columns.len();
        let mut row: Vec<String> = Vec::new();
        let mut i: usize = 0;
        while i < n
            invariant
                n == t.columns@.len(),
                i <= n,
                row@.len() == i,
                forall|j: int| 0 <= j < i ==> #[trigger] row@[j]@ == (if j < N { cells@[j]@ } else { Seq::<char>::empty() }),
            decreases n - i,
        {
            if i < N {
                row.push(cells[i].to_owned());
            } else {
                row.push(String::new());
            }
            i = i + 1;
        }
        let ghost old_cells = t.cells();
        proof {
            assert(row@.map_values(|x: String| x@) =~= Seq::new(
                self.headers().len(),
                |i: int| if i < N { cells@[i]@ } else { Seq::<char>::empty() },
            ));
        }
        t.rows.push(row);
        proof {
            assert(t.headers() =~= self.headers());
            assert(t.cells() =~= old_cells.push(
                Seq::new(self.headers().len(), |i: int| if i < N { cells@[i]@ } else { Seq::<char>::empty() }),
            ));
        }
        t
    }

    /// Choose the border style.
    ///
    /// Box drawing characters are East Asian Ambiguous: under a policy that
    /// takes those two columns wide, `Light` and `Heavy` are drawn in ASCII so
    /// that the lines still agree.
    pub fn border(self, border: Border) -> (r: Self)
        ensures
            r.border_style() == border,
            r.headers() == self.headers(),
            r.aligns() == self.aligns(),
            r.sizings() == self.sizings(),
            r.cells() == self.cells(),
            r.measure() == self.measure(),
            r.pad() == self.pad(),
            r.shows_header() == self.shows_header(),
    {
        let mut t = self;
        t.border = border;
        t
    }

    /// Spaces between a cell's text and the border. Defaults to one.
    pub fn padding(self, cells: usize) -> (r: Self)
        ensures
            r.pad() == cells,
            r.headers() == self.headers(),
            r.aligns() == self.aligns(),
            r.sizings() == self.sizings(),
            r.cells() == self.cells(),
            r.border_style() == self.border_style(),
            r.measure() == self.measure(),
            r.shows_header() == self.shows_header(),
    {
        let mut t = self;
        t.padding = cells;
        t
    }

    /// Whether to draw the header row. Defaults to `true`.
    pub fn with_header(self, show: bool) -> (r: Self)
        ensures
            r.shows_header() == show,
            r.headers() == self.headers(),
            r.aligns() == self.aligns(),
            r.sizings() == self.sizings(),
            r.cells() == self.cells(),
            r.border_style() == self.border_style(),
            r.measure() == self.measure(),
            r.pad() == self.pad(),
    {
        let mut t = self;
        t.header = show;
        t
    }

    /// The measurement policy, for terminals that need a different one.
    pub fn measured_by(self, width: Width) -> (r: Self)
        ensures
            r.measure() == width,
            r.headers() == self.headers(),
            r.aligns() == self.aligns(),
            r.sizings() == self.sizings(),
            r.cells() == self.cells(),
            r.border_style() == self.border_style(),
            r.pad() == self.pad(),
            r.shows_header() == self.shows_header(),
    {
        let mut t = self;
        t.width = width;
        t
    }
}

// ---------------------------------------------------------------------------
// Layout, as a specification.

/// Columns the cell text of `cs` occupies.
pub open spec fn text_cols(w: Width, cs: Seq<char>) -> int {
    width_of(w, cell_text_spec(w, cs))
}

/// The widest cell of column `i` among the first `r` rows.
pub open spec fn body_max(w: Width, rows: Seq<Seq<Seq<char>>>, i: int, r: int) -> int
    decreases r,
{
    if r <= 0 {
        0
    } else {
        let a = body_max(w, rows, i, r - 1);
        let b = text_cols(w, rows[r - 1][i]);
        if b > a {
            b
        } else {
            a
        }
    }
}

/// Natural width of column `i`: the widest thing that has to go in it, as
/// its sizing allows.
pub open spec fn natural(t: Table, i: int) -> int {
    let w = t.measure();
    let h = if t.shows_header() {
        text_cols(w, t.headers()[i])
    } else {
        0
    };
    let b = body_max(w, t.cells(), i, t.cells().len() as int);
    let m = if h >= b {
        h
    } else {
        b
    };
    match t.sizings()[i] {
        Sizing::Fixed(x) => x as int,
        Sizing::Max(x) => if m <= x {
            m
        } else {
            x as int
        },
        Sizing::Auto => m,
    }
}

/// Natural widths of all columns.
pub open spec fn naturals(t: Table) -> Seq<int> {
    Seq::new(t.headers().len(), |i: int| natural(t, i))
}

/// Whether column `i` may be narrowed: every column but a fixed one.
pub open spec fn flexible(t: Table) -> Seq<bool> {
    Seq::new(t.headers().len(), |i: int| !(t.sizings()[i] is Fixed))
}

/// Everything on a line that is not a column: borders and padding.
pub open spec fn chrome(t: Table) -> int {
    let n = t.headers().len() as int;
    match drawn_border(t) {
        Border::Spaces => 2 * (if n >= 1 {
            n - 1
        } else {
            0
        }),
        _ => (n + 1) + 2 * t.pad() * n,
    }
}

/// The sum of some integers.
pub open spec fn seq_sum(ws: Seq<int>) -> int
    decreases ws.len(),
{
    if ws.len() == 0 {
        0
    } else {
        seq_sum(ws.drop_last()) + ws.last()
    }
}

/// The widest flexible column wider than one, scanning from `i` with the best
/// so far; on a tie the later column wins.
pub open spec fn pick_from(ws: Seq<int>, flex: Seq<bool>, i: int, best: Option<int>) -> Option<int>
    decreases ws.len() - i,
{
    if !(0 <= i < ws.len()) {
        best
    } else if flex[i] && ws[i] > 1 && (best is None || ws[i] >= ws[best->Some_0]) {
        pick_from(ws, flex, i + 1, Some(i))
    } else {
        pick_from(ws, flex, i + 1, best)
    }
}

/// Narrow the widest flexible column, one column at a time, until the total
/// fits in `limit` or nothing can give any more.
pub open spec fn shrink(ws: Seq<int>, flex: Seq<bool>, total: int, limit: int, fuel: nat) -> Seq<int>
    decreases fuel,
{
    if fuel == 0 {
        ws
    } else {
        match pick_from(ws, flex, 0, None) {
            None => ws,
            Some(i) => {
                let ws2 = ws.update(i, ws[i] - 1);
                if total - 1 <= limit {
                    ws2
                } else {
                    shrink(ws2, flex, total - 1, limit, (fuel - 1) as nat)
                }
            },
        }
    }
}

/// How wide each column is drawn, fitting the table into `max_width` if given.
pub open spec fn resolve_spec(t: Table, max_width: Option<usize>) -> Seq<int> {
    let ws = naturals(t);
    match max_width {
        None => ws,
        Some(limit) => {
            let total = seq_sum(ws) + chrome(t);
            if total <= limit {
                ws
            } else {
                shrink(ws, flexible(t), total, limit as int, seq_sum(ws) as nat)
            }
        },
    }
}

/// `n` copies of `h`.
pub open spec fn repeat(h: Seq<char>, n: int) -> Seq<char>
    decreases n,
{
    if n <= 0 {
        seq![]
    } else {
        repeat(h, n - 1) + h
    }
}

/// The columns of a rule from column `i` on.
pub open spec fn rule_from(ws: Seq<int>, pad: int, mid: Seq<char>, right: Seq<char>, h: Seq<char>, i: int) -> Seq<char>
    decreases ws.len() - i,
{
    if !(0 <= i < ws.len()) {
        seq![]
    } else {
        repeat(h, ws[i] + 2 * pad) + (if i + 1 == ws.len() {
            right
        } else {
            mid
        }) + rule_from(ws, pad, mid, right, h, i + 1)
    }
}

/// A rule such as `+-----+-----+`, drawn with the given glyphs.
pub open spec fn rule_spec(ws: Seq<int>, pad: int, left: Seq<char>, mid: Seq<char>, right: Seq<char>, h: Seq<char>) -> Seq<char> {
    left + rule_from(ws, pad, mid, right, h, 0)
}

/// One cell's line fitted into exactly `width` columns.
pub open spec fn align_spec(w: Width, text: Seq<char>, width: int, a: Align) -> Seq<char> {
    match a {
        Align::Left => cell_spec(w, text, width),
        Align::Right => if width_of(w, text) >= width {
            cell_spec(w, text, width)
        } else {
            pad_spec(w, text, width, crate::fit::Align::End)
        },
        Align::Center => if width_of(w, text) >= width {
            cell_spec(w, text, width)
        } else {
            pad_spec(w, text, width, crate::fit::Align::Center)
        },
    }
}

/// The lines cell `i` wraps into.
pub open spec fn cell_lines(w: Width, cells: Seq<Seq<char>>, ws: Seq<int>, i: int) -> Seq<Seq<char>> {
    wrap_spec(w, cell_text_spec(w, cells[i]), if ws[i] > 1 {
        ws[i]
    } else {
        1
    })
}

/// The tallest of the cells from `i` on, or `acc`.
pub open spec fn height_from(w: Width, cells: Seq<Seq<char>>, ws: Seq<int>, i: int, acc: int) -> int
    decreases cells.len() - i,
{
    if !(0 <= i < cells.len()) {
        acc
    } else {
        let h = cell_lines(w, cells, ws, i).len() as int;
        height_from(w, cells, ws, i + 1, if h > acc {
            h
        } else {
            acc
        })
    }
}

/// How many lines a row takes: as many as its tallest cell.
pub open spec fn row_height(w: Width, cells: Seq<Seq<char>>, ws: Seq<int>) -> int {
    if cells.len() == 0 {
        1
    } else {
        height_from(w, cells, ws, 1, cell_lines(w, cells, ws, 0).len() as int)
    }
}

/// Line `l` of cell `i`, or nothing once the cell has run out.
pub open spec fn cell_line(w: Width, cells: Seq<Seq<char>>, ws: Seq<int>, i: int, l: int) -> Seq<char> {
    let lines = cell_lines(w, cells, ws, i);
    if l < lines.len() {
        unbroken(lines[l])
    } else {
        seq![]
    }
}

/// `x` without its tabs and line feeds.
///
/// A cell's text has its tabs expanded before it is wrapped, and wrapping
/// ends a line at every line feed, so the lines of a cell hold neither but
/// inside an escape sequence, where either would still throw the columns
/// out: a tab takes a width that depends on where it stands, and a line feed
/// ends the table's line early. The table lays out its cells' lines without
/// them.
pub open spec fn unbroken(x: Seq<char>) -> Seq<char>
    decreases x.len(),
{
    if x.len() == 0 {
        x
    } else {
        let r = unbroken(x.drop_last());
        if x.last() == '\t' || x.last() == '\n' {
            r
        } else {
            r.push(x.last())
        }
    }
}

/// What `unbroken` keeps holds no tab and no line feed, and is no longer.
pub proof fn lemma_unbroken(x: Seq<char>)
    ensures
        unbroken(x).len() <= x.len(),
        forall|k: int| 0 <= k < unbroken(x).len() ==> #[trigger] unbroken(x)[k] != '\t' && unbroken(x)[k] != '\n',
    decreases x.len(),
{
    if x.len() > 0 {
        lemma_unbroken(x.drop_last());
        let r = unbroken(x.drop_last());
        if !(x.last() == '\t' || x.last() == '\n') {
            assert forall|k: int| 0 <= k < r.push(x.last()).len() implies #[trigger] r.push(x.last())[k] != '\t'
                && r.push(x.last())[k] != '\n' by {
                if k < r.len() {
                    assert(r.push(x.last())[k] == r[k]);
                }
            }
        }
    }
}

/// `s` without its tabs and line feeds.
fn unbroken_str(s: &str) -> (r: String)
    ensures
        r@ == unbroken(s@),
{
    let n = crate::text::byte_len(s);
    let mut out = String::new();
    let mut p: usize = 0;
    let ghost mut k: int = 0;
    proof {
        crate::text::lemma_boff_mono(s@, 0, s@.len() as int);
        assert(s@.take(0) =~= Seq::<char>::empty());
    }
    while p < n
        invariant
            n == crate::text::boff(s@, s@.len() as int),
            0 <= k <= s@.len(),
            p == crate::text::boff(s@, k),
            out@ == unbroken(s@.take(k)),
        decreases s@.len() - k,
    {
        proof {
            if k == s@.len() {
                assert(false);
            }
        }
        let (c, l) = crate::text::char_at(s, p, Ghost(k));
        proof {
            crate::text::lemma_boff_mono(s@, k + 1, s@.len() as int);
            assert(s@.take(k + 1).drop_last() =~= s@.take(k));
            assert(s@.take(k + 1).last() == c);
        }
        if c != '\t' && c != '\n' {
            let one = crate::text::slice(s, p, p + l, Ghost(k), Ghost(k + 1));
            crate::text::push_str(&mut out, one);
            proof {
                assert(one@ =~= seq![c]);
                assert(out@ =~= unbroken(s@.take(k)).push(c));
            }
        }
        p = p + l;
        proof {
            k = k + 1;
        }
    }
    proof {
        if k < s@.len() {
            crate::text::lemma_boff_mono(s@, k, s@.len() as int);
        }
        assert(s@.take(k) =~= s@);
    }
    out
}

/// Column `i` of a line: its padding or separator, the text fitted to
/// `width` columns and sealed off from both, and its padding and border.
pub open spec fn part(t: Table, i: int, text: Seq<char>, width: int) -> Seq<char> {
    let g = glyph_spec(drawn_border(t));
    let lead = if g is Some {
        spaces(t.pad() as int)
    } else if i > 0 {
        seq![' ', ' ']
    } else {
        seq![]
    };
    let trail = if g is Some {
        spaces(t.pad() as int) + g->Some_0[1]
    } else {
        seq![]
    };
    lead + crate::fit::sealed(align_spec(t.measure(), text, width, t.aligns()[i])) + trail
}

/// A line of a wrapped cell is short enough to fit.
pub proof fn lemma_cell_line_ok(w: Width, cells: Seq<Seq<char>>, ws: Seq<int>, i: int, l: int)
    requires
        0 <= l,
        0 <= i < cells.len(),
        i < ws.len(),
        cell_ok(w, cells[i]),
    ensures
        width_of(w, cell_line(w, cells, ws, i, l)) <= usize::MAX,
        !crate::fit::has_tab(cell_line(w, cells, ws, i, l)),
{
    reveal(cell_ok);
    let lv = cell_lines(w, cells, ws, i);
    if 0 <= l < lv.len() {
        lemma_unbroken(lv[l]);
    }
    crate::wrap_fit::lemma_width_empty(w, Seq::<char>::empty());
    if 0 <= l < lv.len() {
        let k = if ws[i] > 1 {
            ws[i]
        } else {
            1
        };
        assert(lv == wrap_spec(w, cell_text_spec(w, cells[i]), k));
        assert(room(w, lv[l].len() as int + 5) <= usize::MAX);
        lemma_unbroken(lv[l]);
        lemma_room_mono(w, unbroken(lv[l]).len() as int, lv[l].len() as int + 5);
        crate::measure::lemma_width_bound(w, unbroken(lv[l]), 0);
    }
}

/// The columns of line `l` of a row, from column `i` on.
pub open spec fn parts_from(t: Table, cells: Seq<Seq<char>>, ws: Seq<int>, l: int, i: int) -> Seq<char>
    decreases ws.len() - i,
{
    if !(0 <= i < ws.len()) {
        seq![]
    } else {
        part(t, i, cell_line(t.measure(), cells, ws, i, l), ws[i]) + parts_from(t, cells, ws, l, i + 1)
    }
}

/// Line `l` of a row, with its newline.
pub open spec fn row_line(t: Table, cells: Seq<Seq<char>>, ws: Seq<int>, l: int) -> Seq<char> {
    let g = glyph_spec(drawn_border(t));
    (if g is Some {
        g->Some_0[1]
    } else {
        seq![]
    }) + parts_from(t, cells, ws, l, 0) + seq!['\n']
}

/// Lines `l` onwards of a row.
pub open spec fn row_from(t: Table, cells: Seq<Seq<char>>, ws: Seq<int>, l: int) -> Seq<char>
    decreases row_height(t.measure(), cells, ws) - l,
{
    if l < 0 || l >= row_height(t.measure(), cells, ws) {
        seq![]
    } else {
        row_line(t, cells, ws, l) + row_from(t, cells, ws, l + 1)
    }
}

/// One logical row, which may occupy several lines if any cell wraps.
#[verifier::opaque]
pub open spec fn row_spec(t: Table, cells: Seq<Seq<char>>, ws: Seq<int>) -> Seq<char> {
    row_from(t, cells, ws, 0)
}

/// The body rows from row `r` on.
pub open spec fn rows_from(t: Table, ws: Seq<int>, r: int) -> Seq<char>
    decreases t.cells().len() - r,
{
    if !(0 <= r < t.cells().len()) {
        seq![]
    } else {
        row_spec(t, t.cells()[r], ws) + rows_from(t, ws, r + 1)
    }
}

/// Where the trailing line feeds of the first `k` characters begin.
pub open spec fn newline_tail(cs: Seq<char>, k: int) -> int
    decreases k,
{
    if k > 0 && cs[k - 1] == '\n' {
        newline_tail(cs, k - 1)
    } else {
        k
    }
}

/// The rule drawn with glyphs `a`, `b` and `c` of `g`, with its newline.
pub open spec fn rule_line(t: Table, ws: Seq<int>, gl: Seq<Seq<char>>, a: int, b: int, c: int) -> Seq<char> {
    rule_spec(ws, t.pad() as int, gl[a], gl[b], gl[c], gl[0]) + seq!['\n']
}

/// What [`Table::render`] draws.
pub open spec fn render_spec(t: Table, max_width: Option<usize>) -> Seq<char> {
    if t.headers().len() == 0 {
        seq![]
    } else {
        let ws = resolve_spec(t, max_width);
        let g = glyph_spec(drawn_border(t));
        let framed = g is Some && drawn_border(t) != Border::Markdown;
        let top = if framed {
            rule_line(t, ws, g->Some_0, 2, 3, 4)
        } else {
            seq![]
        };
        let head = if t.shows_header() {
            row_spec(t, t.headers(), ws) + if g is Some {
                rule_line(t, ws, g->Some_0, 5, 6, 7)
            } else {
                seq![]
            }
        } else {
            seq![]
        };
        let bottom = if framed {
            rule_line(t, ws, g->Some_0, 8, 9, 10)
        } else {
            seq![]
        };
        let all = top + head + rows_from(t, ws, 0) + bottom;
        all.take(newline_tail(all, all.len() as int))
    }
}

/// A cell's text is short enough that measuring it, wrapping it and fitting
/// each of its lines stays within a `usize`.
#[verifier::opaque]
pub open spec fn cell_ok(w: Width, x: Seq<char>) -> bool {
    let c = cell_text_spec(w, x);
    &&& room(w, x.len() as int) <= usize::MAX
    &&& room(w, c.len() as int) <= usize::MAX
    &&& forall|k: int, l: int|
        k >= 1 && 0 <= l < wrap_spec(w, c, k).len() ==> room(w, #[trigger] wrap_spec(w, c, k)[l].len() as int + 5)
            <= usize::MAX
}

/// What [`Table::render`] needs: every row has a cell for each column, and the
/// arithmetic of the layout stays within a `usize`.
pub open spec fn layout_ok(t: Table) -> bool {
    let w = t.measure();
    let n = t.headers().len();
    &&& forall|r: int| 0 <= r < t.cells().len() ==> #[trigger] t.cells()[r].len() == n
    &&& forall|i: int| 0 <= i < n ==> cell_ok(w, #[trigger] t.headers()[i])
    &&& forall|r: int, i: int| 0 <= r < t.cells().len() && 0 <= i < n ==> cell_ok(w, #[trigger] t.cells()[r][i])
    &&& seq_sum(naturals(t)) + chrome(t) <= usize::MAX
    &&& forall|i: int| 0 <= i < n ==> #[trigger] naturals(t)[i] + 2 * t.pad() <= usize::MAX
}

/// The characters of some strings.
pub open spec fn strs_view(a: Seq<&str>) -> Seq<Seq<char>> {
    a.map_values(|x: &str| x@)
}

/// Some widths, as integers.
pub open spec fn ints(v: Seq<usize>) -> Seq<int> {
    v.map_values(|x: usize| x as int)
}

impl Border {
    /// (horizontal, vertical, corner set) as an 11-string alphabet:
    /// h v tl tm tr ml mm mr bl bm br
    fn glyphs(self) -> (r: Option<[&'static str; 11]>)
        ensures
            r is Some <==> glyph_spec(self) is Some,
            r matches Some(a) ==> strs_view(a@) == glyph_spec(self)->Some_0,
    {
        match self {
            Border::Light => {
                let a: [&'static str; 11] = ["─", "│", "┌", "┬", "┐", "├", "┼", "┤", "└", "┴", "┘"];
                proof {
                    reveal_strlit("─");
                    reveal_strlit("│");
                    reveal_strlit("┌");
                    reveal_strlit("┐");
                    reveal_strlit("└");
                    reveal_strlit("┘");
                    reveal_strlit("├");
                    reveal_strlit("┤");
                    reveal_strlit("┬");
                    reveal_strlit("┴");
                    reveal_strlit("┼");
                    assert(a@[0]@ == seq!['─']);
                    assert(a@[1]@ == seq!['│']);
                    assert(a@[2]@ == seq!['┌']);
                    assert(a@[3]@ == seq!['┬']);
                    assert(a@[4]@ == seq!['┐']);
                    assert(a@[5]@ == seq!['├']);
                    assert(a@[6]@ == seq!['┼']);
                    assert(a@[7]@ == seq!['┤']);
                    assert(a@[8]@ == seq!['└']);
                    assert(a@[9]@ == seq!['┴']);
                    assert(a@[10]@ == seq!['┘']);
                    assert(a@.map_values(|x: &str| x@) =~= glyph_spec(self)->Some_0);
                }
                Some(a)
            },
            Border::Heavy => {
                let a: [&'static str; 11] = ["━", "┃", "┏", "┳", "┓", "┣", "╋", "┫", "┗", "┻", "┛"];
                proof {
                    reveal_strlit("━");
                    reveal_strlit("┃");
                    reveal_strlit("┏");
                    reveal_strlit("┓");
                    reveal_strlit("┗");
                    reveal_strlit("┛");
                    reveal_strlit("┣");
                    reveal_strlit("┫");
                    reveal_strlit("┳");
                    reveal_strlit("┻");
                    reveal_strlit("╋");
                    assert(a@[0]@ == seq!['━']);
                    assert(a@[1]@ == seq!['┃']);
                    assert(a@[2]@ == seq!['┏']);
                    assert(a@[3]@ == seq!['┳']);
                    assert(a@[4]@ == seq!['┓']);
                    assert(a@[5]@ == seq!['┣']);
                    assert(a@[6]@ == seq!['╋']);
                    assert(a@[7]@ == seq!['┫']);
                    assert(a@[8]@ == seq!['┗']);
                    assert(a@[9]@ == seq!['┻']);
                    assert(a@[10]@ == seq!['┛']);
                    assert(a@.map_values(|x: &str| x@) =~= glyph_spec(self)->Some_0);
                }
                Some(a)
            },
            Border::Ascii => {
                let a: [&'static str; 11] = ["-", "|", "+", "+", "+", "+", "+", "+", "+", "+", "+"];
                proof {
                    reveal_strlit("+");
                    reveal_strlit("-");
                    reveal_strlit("|");
                    assert(a@[0]@ == seq!['-']);
                    assert(a@[1]@ == seq!['|']);
                    assert(a@[2]@ == seq!['+']);
                    assert(a@[3]@ == seq!['+']);
                    assert(a@[4]@ == seq!['+']);
                    assert(a@[5]@ == seq!['+']);
                    assert(a@[6]@ == seq!['+']);
                    assert(a@[7]@ == seq!['+']);
                    assert(a@[8]@ == seq!['+']);
                    assert(a@[9]@ == seq!['+']);
                    assert(a@[10]@ == seq!['+']);
                    assert(a@.map_values(|x: &str| x@) =~= glyph_spec(self)->Some_0);
                }
                Some(a)
            },
            Border::Markdown => {
                let a: [&'static str; 11] = ["-", "|", "", "", "", "|", "|", "|", "", "", ""];
                proof {
                    reveal_strlit("");
                    reveal_strlit("-");
                    reveal_strlit("|");
                    assert(a@[0]@ == seq!['-']);
                    assert(a@[1]@ == seq!['|']);
                    assert(a@[2]@ == Seq::<char>::empty());
                    assert(a@[3]@ == Seq::<char>::empty());
                    assert(a@[4]@ == Seq::<char>::empty());
                    assert(a@[5]@ == seq!['|']);
                    assert(a@[6]@ == seq!['|']);
                    assert(a@[7]@ == seq!['|']);
                    assert(a@[8]@ == Seq::<char>::empty());
                    assert(a@[9]@ == Seq::<char>::empty());
                    assert(a@[10]@ == Seq::<char>::empty());
                    assert(a@.map_values(|x: &str| x@) =~= glyph_spec(self)->Some_0);
                }
                Some(a)
            },
            Border::Spaces => None,
        }
    }
}

impl Table {
    /// A rule such as `+-----+-----+`, using the given corner glyphs.
    fn rule(&self, widths: &Vec<usize>, left: &str, mid: &str, right: &str, h: &str) -> (r: String)
        requires
            forall|i: int| 0 <= i < widths@.len() ==> #[trigger] widths@[i] + 2 * self.pad() <= usize::MAX,
        ensures
            r@ == rule_spec(ints(widths@), self.pad() as int, left@, mid@, right@, h@),
    {
        let ghost ws = ints(widths@);
        let ghost pad = self.pad() as int;
        let mut r = String::new();
        crate::text::push_str(&mut r, left);
        let n = widths.len();
        let mut i: usize = 0;
        while i < n
            invariant
                n == widths@.len(),
                ws == ints(widths@),
                pad == self.pad(),
                i <= n,
                forall|j: int| 0 <= j < widths@.len() ==> #[trigger] widths@[j] + 2 * self.pad() <= usize::MAX,
                rule_spec(ws, pad, left@, mid@, right@, h@) == r@ + rule_from(ws, pad, mid@, right@, h@, i as int),
            decreases n - i,
        {
            let count = widths[i] + self.padding * 2;
            let ghost base = r@;
            let mut c: usize = 0;
            while c < count
                invariant
                    c <= count,
                    r@ == base + repeat(h@, c as int),
                decreases count - c,
            {
                crate::text::push_str(&mut r, h);
                c = c + 1;
            }
            if i + 1 == n {
                crate::text::push_str(&mut r, right);
            } else {
                crate::text::push_str(&mut r, mid);
            }
            proof {
                assert(ws[i as int] == widths@[i as int] as int);
                assert(count == ws[i as int] + 2 * pad);
            }
            i = i + 1;
            proof {
                assert(rule_spec(ws, pad, left@, mid@, right@, h@) =~= r@ + rule_from(ws, pad, mid@, right@, h@, i as int));
            }
        }
        proof {
            assert(r@ + rule_from(ws, pad, mid@, right@, h@, n as int) =~= r@);
        }
        r
    }

    /// Fit one cell's line into exactly `w` columns.
    fn align_cell<'b>(&self, text: &'b str, w: usize, align: Align) -> (r: Cow<'b, str>)
        requires
            width_of(self.width, text@) <= usize::MAX,
            !crate::fit::has_tab(text@),
        ensures
            r@ == align_spec(self.width, text@, w as int, align),
    {
        proof {
            reveal(align_spec);
            crate::ansi::lemma_trim_prefix(text@);
            let t = crate::ansi::trim_spec(text@);
            assert forall|q: int| 0 <= q < t.len() implies t[q] != '\t' by {
                assert(t[q] == text@[q]);
            }
        }
        let fitted = self.width.cell(text, w);
        match align {
            Align::Left => fitted,
            Align::Right => {
                let have = self.width.of(text);
                if have >= w {
                    fitted
                } else {
                    self.width.pad_start(text, w)
                }
            },
            Align::Center => {
                let have = self.width.of(text);
                if have >= w {
                    fitted
                } else {
                    self.width.center(text, w)
                }
            },
        }
    }
}

/// The widest cell so far is never negative.
pub proof fn lemma_body_max(w: Width, rows: Seq<Seq<Seq<char>>>, i: int, r: int)
    ensures
        body_max(w, rows, i, r) >= 0,
    decreases r,
{
    if r > 0 {
        lemma_body_max(w, rows, i, r - 1);
    }
}

/// Natural widths are never negative.
pub proof fn lemma_naturals(t: Table)
    ensures
        forall|i: int| 0 <= i < naturals(t).len() ==> #[trigger] naturals(t)[i] >= 0,
{
    assert forall|i: int| 0 <= i < naturals(t).len() implies #[trigger] naturals(t)[i] >= 0 by {
        let w = t.measure();
        lemma_body_max(w, t.cells(), i, t.cells().len() as int);
        crate::measure::lemma_width_bound(w, cell_text_spec(w, t.headers()[i]), 0);
    }
}

/// Facts about sums of non-negative integers.
pub proof fn lemma_seq_sum(ws: Seq<int>, i: int)
    requires
        forall|j: int| 0 <= j < ws.len() ==> #[trigger] ws[j] >= 0,
        0 <= i < ws.len(),
    ensures
        seq_sum(ws) >= ws[i],
        seq_sum(ws.update(i, ws[i] - 1)) == seq_sum(ws) - 1,
    decreases ws.len(),
{
    let u = ws.update(i, ws[i] - 1);
    if i == ws.len() - 1 {
        assert(u.drop_last() =~= ws.drop_last());
        lemma_seq_sum_nonneg(ws.drop_last());
    } else {
        lemma_seq_sum(ws.drop_last(), i);
        assert(u.drop_last() =~= ws.drop_last().update(i, ws[i] - 1));
    }
}

/// A sum of non-negative integers is non-negative, and each prefix sum is no larger.
pub proof fn lemma_seq_sum_nonneg(ws: Seq<int>)
    requires
        forall|j: int| 0 <= j < ws.len() ==> #[trigger] ws[j] >= 0,
    ensures
        seq_sum(ws) >= 0,
        forall|k: int| 0 <= k <= ws.len() ==> 0 <= #[trigger] seq_sum(ws.take(k)) <= seq_sum(ws),
    decreases ws.len(),
{
    if ws.len() > 0 {
        lemma_seq_sum_nonneg(ws.drop_last());
        assert forall|k: int| 0 <= k <= ws.len() implies 0 <= #[trigger] seq_sum(ws.take(k)) <= seq_sum(ws) by {
            if k < ws.len() {
                assert(ws.take(k) =~= ws.drop_last().take(k));
            } else {
                assert(ws.take(k) =~= ws);
            }
        }
    } else {
        assert forall|k: int| 0 <= k <= ws.len() implies 0 <= #[trigger] seq_sum(ws.take(k)) <= seq_sum(ws) by {
            assert(ws.take(k) =~= ws);
        }
    }
}

/// What `pick_from` picks is a flexible column wider than one.
pub proof fn lemma_pick(ws: Seq<int>, flex: Seq<bool>, i: int, best: Option<int>)
    requires
        0 <= i,
        flex.len() == ws.len(),
        best matches Some(b) ==> 0 <= b < ws.len() && flex[b] && ws[b] > 1,
    ensures
        pick_from(ws, flex, i, best) matches Some(b) ==> 0 <= b < ws.len() && flex[b] && ws[b] > 1,
    decreases ws.len() - i,
{
    if i < ws.len() {
        if flex[i] && ws[i] > 1 && (best is None || ws[i] >= ws[best->Some_0]) {
            lemma_pick(ws, flex, i + 1, Some(i));
        } else {
            lemma_pick(ws, flex, i + 1, best);
        }
    }
}

impl Table {
    /// Columns the cell text of `x` occupies.
    fn text_width(&self, x: &str) -> (r: usize)
        requires
            cell_ok(self.width, x@),
        ensures
            r == text_cols(self.width, x@),
    {
        proof {
            reveal(cell_ok);
        }
        let ct = self.cell_text(x);
        proof {
            crate::measure::lemma_width_bound(self.width, ct@, 0);
        }
        self.width.of(crate::fit::cow_str(&ct))
    }

    /// Natural width of column `i`.
    fn natural_width(&self, i: usize) -> (r: usize)
        requires
            layout_ok(*self),
            i < self.headers().len(),
        ensures
            r == natural(*self, i as int),
    {
        let ghost w = self.width;
        let ghost t = *self;
        proof {
            assert(self.headers()[i as int] == self.columns@[i as int].header@);
        }
        let header = if self.header {
            self.text_width(self.columns[i].header.as_str())
        } else {
            0
        };
        let mut body: usize = 0;
        let mut r: usize = 0;
        while r < self.rows.len()
            invariant
                t == *self,
                w == self.width,
                layout_ok(t),
                i < t.headers().len(),
                r <= t.rows@.len(),
                body == body_max(w, t.cells(), i as int, r as int),
            decreases t.rows@.len() - r,
        {
            proof {
                assert(t.cells()[r as int] == t.rows@[r as int]@.map_values(|x: String| x@));
                assert(t.cells()[r as int].len() == t.headers().len());
                assert(t.cells()[r as int][i as int] == t.rows@[r as int]@[i as int]@);
                assert(cell_ok(w, t.cells()[r as int][i as int]));
            }
            let b = self.text_width(self.rows[r][i].as_str());
            if b > body {
                body = b;
            }
            r = r + 1;
        }
        proof {
            assert(t.cells().len() == t.rows@.len());
        }
        let m = if header >= body {
            header
        } else {
            body
        };
        match self.columns[i].sizing {
            Sizing::Fixed(x) => x,
            Sizing::Max(x) => if m <= x {
                m
            } else {
                x
            },
            Sizing::Auto => m,
        }
    }

    /// Decide how wide each column should be.
    fn resolve_widths(&self, max_width: Option<usize>) -> (r: Vec<usize>)
        requires
            layout_ok(*self),
            self.headers().len() >= 1,
        ensures
            ints(r@) == resolve_spec(*self, max_width),
            r@.len() == self.headers().len(),
    {
        let ghost t = *self;
        let n = self.columns.len();
        let ghost nat_ws = naturals(t);
        // Natural width: the widest thing that has to go in the column.
        let mut widths: Vec<usize> = Vec::new();
        let mut i: usize = 0;
        while i < n
            invariant
                t == *self,
                layout_ok(t),
                n == t.headers().len(),
                nat_ws == naturals(t),
                i <= n,
                ints(widths@) == nat_ws.take(i as int),
            decreases n - i,
        {
            let v = self.natural_width(i);
            proof {
                assert(nat_ws[i as int] == v as int);
            }
            let ghost prev = widths@;
            widths.push(v);
            proof {
                assert(ints(widths@) =~= ints(prev).push(v as int));
                assert(nat_ws.take(i + 1) =~= nat_ws.take(i as int).push(v as int));
            }
            i = i + 1;
        }
        proof {
            assert(nat_ws.take(n as int) =~= nat_ws);
        }
        let limit = match max_width {
            None => {
                return widths;
            },
            Some(l) => l,
        };
        proof {
            lemma_naturals(t);
            lemma_seq_sum_nonneg(nat_ws);
        }
        // Everything that is not a column: borders and padding.
        let chrome_w: usize = match self.drawn() {
            Border::Spaces => 2 * (n - 1),
            _ => {
                proof {
                    assert(2 * t.pad() <= 2 * t.pad() * n) by (nonlinear_arith)
                        requires
                            n >= 1,
                    ;
                }
                (n + 1) + 2 * self.padding * n
            },
        };
        let mut total: usize = 0;
        let mut j: usize = 0;
        while j < n
            invariant
                n == widths@.len(),
                ints(widths@) == nat_ws,
                forall|k: int| 0 <= k <= nat_ws.len() ==> 0 <= #[trigger] seq_sum(nat_ws.take(k)) <= seq_sum(nat_ws),
                seq_sum(nat_ws) + chrome_w <= usize::MAX,
                j <= n,
                total == seq_sum(nat_ws.take(j as int)),
            decreases n - j,
        {
            proof {
                assert(nat_ws.take(j + 1).drop_last() =~= nat_ws.take(j as int));
                assert(nat_ws[j as int] == widths@[j as int]);
                assert(seq_sum(nat_ws.take(j + 1)) <= seq_sum(nat_ws));
            }
            total = total + widths[j];
            j = j + 1;
        }
        proof {
            assert(nat_ws.take(n as int) =~= nat_ws);
        }
        total = total + chrome_w;
        if total <= limit {
            return widths;
        }
        // Narrow the widest flexible column, one column at a time, until it
        // fits or nothing can give any more. Fixed columns are never touched.
        let ghost flex = flexible(t);
        let ghost mut fuel: nat = seq_sum(nat_ws) as nat;
        loop
            invariant_except_break
                total > limit,
                resolve_spec(t, max_width) == shrink(ints(widths@), flex, total as int, limit as int, fuel),
            invariant
                t == *self,
                n == widths@.len(),
                n == t.headers().len(),
                flex == flexible(t),
                forall|k: int| 0 <= k < widths@.len() ==> #[trigger] ints(widths@)[k] >= 0,
                fuel == seq_sum(ints(widths@)),
            ensures
                resolve_spec(t, max_width) == ints(widths@),
            decreases fuel,
        {
            let ghost ws = ints(widths@);
            let mut best: Option<usize> = None;
            let mut k: usize = 0;
            while k < n
                invariant
                    t == *self,
                    n == widths@.len(),
                    n == t.headers().len(),
                    flex == flexible(t),
                    ws == ints(widths@),
                    k <= n,
                    pick_from(ws, flex, 0, None) == pick_from(ws, flex, k as int, match best {
                        Some(b) => Some(b as int),
                        None => None,
                    }),
                    best matches Some(b) ==> b < n,
                decreases n - k,
            {
                let fixed = match self.columns[k].sizing {
                    Sizing::Fixed(_) => true,
                    _ => false,
                };
                proof {
                    assert(flex[k as int] == !fixed);
                    assert(ws[k as int] == widths@[k as int]);
                }
                let better = match best {
                    None => true,
                    Some(b) => {
                        proof {
                            assert(ws[b as int] == widths@[b as int]);
                        }
                        widths[k] >= widths[b]
                    },
                };
                if !fixed && widths[k] > 1 && better {
                    best = Some(k);
                }
                k = k + 1;
            }
            match best {
                None => {
                    break;
                },
                Some(b) => {
                    proof {
                        lemma_pick(ws, flex, 0, None);
                        lemma_seq_sum(ws, b as int);
                        assert(ws[b as int] == widths@[b as int]);
                    }
                    let v = widths[b] - 1;
                    widths.set(b, v);
                    total = total - 1;
                    proof {
                        assert(ints(widths@) =~= ws.update(b as int, ws[b as int] - 1));
                        fuel = (fuel - 1) as nat;
                    }
                    if total <= limit {
                        break;
                    }
                },
            }
        }
        widths
    }
}

impl Table {
    /// Column `i` of a line, holding `text` fitted to `w` columns.
    fn push_part(&self, out: &mut String, text: &str, w: usize, i: usize, g: Option<[&'static str; 11]>)
        requires
            i < self.aligns().len(),
            width_of(self.width, text@) <= usize::MAX,
            !crate::fit::has_tab(text@),
            g is Some <==> glyph_spec(drawn_border(*self)) is Some,
            g matches Some(a) ==> strs_view(a@) == glyph_spec(drawn_border(*self))->Some_0,
        ensures
            final(out)@ == old(out)@ + part(*self, i as int, text@, w as int),
    {
        let ghost before = out@;
        if g.is_some() {
            crate::text::push_spaces(out, self.padding);
        } else if i > 0 {
            let two = "  ";
            proof {
                reveal_strlit("  ");
            }
            crate::text::push_str(out, two);
        }
        proof {
            assert(self.aligns()[i as int] == self.columns@[i as int].align);
        }
        let aligned = self.align_cell(text, w, self.columns[i].align);
        // A line that begins with a mark or ends with a Prepend character
        // would otherwise merge with the padding into one cluster.
        crate::fit::push_sealed(out, crate::fit::cow_str(&aligned));
        if let Some(gl) = g {
            crate::text::push_spaces(out, self.padding);
            crate::text::push_str(out, gl[1]);
        }
        proof {
            assert(out@ =~= before + part(*self, i as int, text@, w as int));
        }
    }
}

impl Table {
    /// Line `l` of a row whose cells wrapped into `wrapped`, appended to `out`.
    #[verifier::spinoff_prover]
    fn push_row_line(
        &self,
        out: &mut String,
        wrapped: &Vec<Vec<String>>,
        widths: &Vec<usize>,
        g: Option<[&'static str; 11]>,
        l: usize,
        Ghost(cells): Ghost<Seq<Seq<char>>>,
    )
        requires
            cells.len() == widths@.len(),
            widths@.len() == wrapped@.len(),
            widths@.len() == self.aligns().len(),
            forall|i: int| 0 <= i < cells.len() ==> cell_ok(self.width, #[trigger] cells[i]),
            forall|i: int|
                0 <= i < wrapped@.len() ==> lines_view(#[trigger] wrapped@[i]@) == cell_lines(
                    self.width,
                    cells,
                    ints(widths@),
                    i,
                ),
            g is Some <==> glyph_spec(drawn_border(*self)) is Some,
            g matches Some(a) ==> strs_view(a@) == glyph_spec(drawn_border(*self))->Some_0,
        ensures
            final(out)@ == old(out)@ + row_line(*self, cells, ints(widths@), l as int),
    {
        let ghost ws = ints(widths@);
        let ghost w = self.width;
        let ghost base = out@;
        if let Some(gl) = g {
            crate::text::push_str(out, gl[1]);
        }
        let ghost head = out@;
        let n = widths.len();
        let mut i: usize = 0;
        while i < n
            invariant
                n == widths@.len(),
                n == wrapped@.len(),
                n == cells.len(),
                n == self.aligns().len(),
                ws == ints(widths@),
                w == self.width,
                forall|j: int| 0 <= j < cells.len() ==> cell_ok(w, #[trigger] cells[j]),
                forall|j: int|
                    0 <= j < wrapped@.len() ==> lines_view(#[trigger] wrapped@[j]@) == cell_lines(w, cells, ws, j),
                g is Some <==> glyph_spec(drawn_border(*self)) is Some,
                g matches Some(a) ==> strs_view(a@) == glyph_spec(drawn_border(*self))->Some_0,
                i <= n,
                head + parts_from(*self, cells, ws, l as int, 0) == out@ + parts_from(*self, cells, ws, l as int, i as int),
            decreases n - i,
        {
            let lines = &wrapped[i];
            let kept = if l < lines.len() {
                unbroken_str(lines[l].as_str())
            } else {
                String::new()
            };
            let text = kept.as_str();
            proof {
                let lv = cell_lines(w, cells, ws, i as int);
                assert(lines_view(lines@) == lv);
                assert(lines@.len() == lv.len());
                if l < lines@.len() {
                    assert(lines@[l as int]@ == lv[l as int]);
                }
                assert(text@ == cell_line(w, cells, ws, i as int, l as int));
                lemma_cell_line_ok(w, cells, ws, i as int, l as int);
                assert(ws[i as int] == widths@[i as int]);
            }
            self.push_part(out, text, widths[i], i, g);
            i = i + 1;
            proof {
                assert(head + parts_from(*self, cells, ws, l as int, 0) =~= out@ + parts_from(*self, cells, ws, l as int, i as int));
            }
        }
        let nl = "\n";
        proof {
            reveal_strlit("\n");
        }
        crate::text::push_str(out, nl);
        proof {
            assert(out@ =~= base + row_line(*self, cells, ws, l as int));
        }
    }

    /// One logical row, which may occupy several lines if any cell wraps.
    fn push_row(&self, out: &mut String, cells: &Vec<&str>, widths: &Vec<usize>, g: Option<[&'static str; 11]>)
        requires
            cells@.len() == widths@.len(),
            widths@.len() == self.aligns().len(),
            forall|i: int| 0 <= i < cells@.len() ==> cell_ok(self.width, #[trigger] cells@[i]@),
            g is Some <==> glyph_spec(drawn_border(*self)) is Some,
            g matches Some(a) ==> strs_view(a@) == glyph_spec(drawn_border(*self))->Some_0,
        ensures
            final(out)@ == old(out)@ + row_spec(*self, strs_view(cells@), ints(widths@)),
    {
        proof {
            reveal(row_spec);
        }
        let ghost cv = strs_view(cells@);
        let ghost ws = ints(widths@);
        let ghost w = self.width;
        let n = widths.len();
        // Wrap every cell first; the row is as tall as the tallest one.
        let mut wrapped: Vec<Vec<String>> = Vec::new();
        let mut i: usize = 0;
        while i < n
            invariant
                n == widths@.len(),
                n == cells@.len(),
                cv == strs_view(cells@),
                ws == ints(widths@),
                w == self.width,
                forall|j: int| 0 <= j < cells@.len() ==> cell_ok(w, #[trigger] cells@[j]@),
                i <= n,
                wrapped@.len() == i,
                forall|j: int| 0 <= j < i ==> lines_view(#[trigger] wrapped@[j]@) == cell_lines(w, cv, ws, j),
            decreases n - i,
        {
            proof {
                assert(cv[i as int] == cells@[i as int]@);
                reveal(cell_ok);
            }
            let ct = self.cell_text(cells[i]);
            // `wrap` always yields at least one line for a width of one or
            // more, so a cell is never zero lines tall.
            let k = if widths[i] > 1 {
                widths[i]
            } else {
                1
            };
            proof {
                crate::units::lemma_cap_room(w, ct@);
            }
            let lines = self.width.wrap(crate::fit::cow_str(&ct), k);
            let ghost prev = wrapped@;
            wrapped.push(lines);
            proof {
                assert forall|j: int| 0 <= j < i + 1 implies lines_view(#[trigger] wrapped@[j]@) == cell_lines(w, cv, ws, j) by {
                    if j < i {
                        assert(wrapped@[j] == prev[j]);
                    }
                }
            }
            i = i + 1;
        }
        let mut height: usize = 1;
        if n > 0 {
            height = wrapped[0].len();
            let mut j: usize = 1;
            proof {
                assert(lines_view(wrapped@[0]@).len() == wrapped@[0]@.len());
            }
            while j < n
                invariant
                    n == wrapped@.len(),
                    n == cells@.len(),
                    n == widths@.len(),
                    n > 0,
                    cv == strs_view(cells@),
                    ws == ints(widths@),
                    w == self.width,
                    1 <= j <= n,
                    forall|q: int| 0 <= q < n ==> lines_view(#[trigger] wrapped@[q]@) == cell_lines(w, cv, ws, q),
                    height_from(w, cv, ws, 1, cell_lines(w, cv, ws, 0).len() as int) == height_from(w, cv, ws, j as int, height as int),
                decreases n - j,
            {
                proof {
                    assert(lines_view(wrapped@[j as int]@).len() == wrapped@[j as int]@.len());
                }
                if wrapped[j].len() > height {
                    height = wrapped[j].len();
                }
                j = j + 1;
            }
        }
        proof {
            assert(height == row_height(w, cv, ws));
        }
        let ghost base = out@;
        let mut line: usize = 0;
        while line < height
            invariant
                n == wrapped@.len(),
                n == cells@.len(),
                n == widths@.len(),
                n == self.aligns().len(),
                cv == strs_view(cells@),
                ws == ints(widths@),
                w == self.width,
                forall|q: int| 0 <= q < cells@.len() ==> cell_ok(w, #[trigger] cells@[q]@),
                forall|q: int| 0 <= q < n ==> lines_view(#[trigger] wrapped@[q]@) == cell_lines(w, cv, ws, q),
                g is Some <==> glyph_spec(drawn_border(*self)) is Some,
                g matches Some(a) ==> strs_view(a@) == glyph_spec(drawn_border(*self))->Some_0,
                height == row_height(w, cv, ws),
                line <= height,
                base + row_from(*self, cv, ws, 0) == out@ + row_from(*self, cv, ws, line as int),
            decreases height - line,
        {
            proof {
                assert forall|q: int| 0 <= q < cv.len() implies cell_ok(w, #[trigger] cv[q]) by {
                    assert(cv[q] == cells@[q]@);
                }
            }
            self.push_row_line(out, &wrapped, widths, g, line, Ghost(cv));
            line = line + 1;
            proof {
                assert(base + row_from(*self, cv, ws, 0) =~= out@ + row_from(*self, cv, ws, line as int));
            }
        }
        proof {
            assert(out@ + row_from(*self, cv, ws, line as int) =~= out@);
        }
    }
}

/// Resolved widths are no wider than natural ones, so the rules fit.
pub proof fn lemma_resolved_fit(t: Table, max_width: Option<usize>)
    requires
        layout_ok(t),
    ensures
        resolve_spec(t, max_width).len() == t.headers().len(),
        forall|i: int|
            0 <= i < t.headers().len() ==> 0 <= #[trigger] resolve_spec(t, max_width)[i] <= naturals(t)[i],
{
    lemma_naturals(t);
    let ws = naturals(t);
    match max_width {
        None => {},
        Some(limit) => {
            let total = seq_sum(ws) + chrome(t);
            if total > limit {
                lemma_shrink_le(ws, flexible(t), total, limit as int, seq_sum(ws) as nat);
            }
        },
    }
}

/// Narrowing only ever narrows, never below one.
pub proof fn lemma_shrink_le(ws: Seq<int>, flex: Seq<bool>, total: int, limit: int, fuel: nat)
    requires
        flex.len() == ws.len(),
        forall|i: int| 0 <= i < ws.len() ==> #[trigger] ws[i] >= 0,
    ensures
        shrink(ws, flex, total, limit, fuel).len() == ws.len(),
        forall|i: int|
            0 <= i < ws.len() ==> 0 <= #[trigger] shrink(ws, flex, total, limit, fuel)[i] <= ws[i],
    decreases fuel,
{
    if fuel > 0 {
        lemma_pick(ws, flex, 0, None);
        match pick_from(ws, flex, 0, None) {
            None => {},
            Some(b) => {
                let ws2 = ws.update(b, ws[b] - 1);
                if total - 1 > limit {
                    lemma_shrink_le(ws2, flex, total - 1, limit, (fuel - 1) as nat);
                    let r = shrink(ws2, flex, total - 1, limit, (fuel - 1) as nat);
                    assert forall|i: int| 0 <= i < ws.len() implies 0 <= #[trigger] shrink(ws, flex, total, limit, fuel)[i] <= ws[i] by {
                        assert(r[i] <= ws2[i]);
                    }
                }
            },
        }
    }
}

/// How narrow each column can be made: a flexible column down to one
/// column (or none if it is empty), a fixed one not at all.
pub open spec fn floors(t: Table) -> Seq<int> {
    Seq::new(
        t.headers().len(),
        |i: int| if flexible(t)[i] && naturals(t)[i] > 1 { 1 } else { naturals(t)[i] },
    )
}

/// Pointwise smaller sums are smaller.
pub proof fn lemma_seq_sum_le(a: Seq<int>, b: Seq<int>)
    requires
        a.len() == b.len(),
        forall|i: int| 0 <= i < a.len() ==> #[trigger] a[i] <= b[i],
    ensures
        seq_sum(a) <= seq_sum(b),
    decreases a.len(),
{
    if a.len() > 0 {
        lemma_seq_sum_le(a.drop_last(), b.drop_last());
    }
}

/// The column picked to give a column up is the widest of those that can.
pub proof fn lemma_pick_widest(ws: Seq<int>, flex: Seq<bool>, i: int, best: Option<int>)
    requires
        0 <= i <= ws.len(),
        flex.len() == ws.len(),
        best matches Some(b) ==> 0 <= b < ws.len() && flex[b] && ws[b] > 1 && forall|j: int|
            0 <= j < i && flex[j] && ws[j] > 1 ==> #[trigger] ws[j] <= ws[b],
        best is None ==> forall|j: int| 0 <= j < i && flex[j] ==> #[trigger] ws[j] <= 1,
    ensures
        pick_from(ws, flex, i, best) matches Some(p) ==> 0 <= p < ws.len() && flex[p] && ws[p] > 1 && forall|j: int|
            0 <= j < ws.len() && flex[j] && ws[j] > 1 ==> #[trigger] ws[j] <= ws[p],
    decreases ws.len() - i,
{
    if i < ws.len() {
        if flex[i] && ws[i] > 1 && (best is None || ws[i] >= ws[best->Some_0]) {
            lemma_pick_widest(ws, flex, i + 1, Some(i));
        } else {
            lemma_pick_widest(ws, flex, i + 1, best);
        }
    }
}

/// Every flexible column that was narrowed is within one column of the
/// widest flexible column: narrowing takes from the widest first.
pub open spec fn balanced(orig: Seq<int>, ws: Seq<int>, flex: Seq<bool>) -> bool {
    forall|i: int, j: int|
        0 <= i < ws.len() && 0 <= j < ws.len() && flex[i] && flex[j] && #[trigger] ws[i] < orig[i] ==> #[trigger] ws[j]
            <= ws[i] + 1
}

/// Narrowing keeps the columns balanced, and never widens one.
pub proof fn lemma_shrink_balanced(orig: Seq<int>, ws: Seq<int>, flex: Seq<bool>, total: int, limit: int, fuel: nat)
    requires
        orig.len() == ws.len(),
        flex.len() == ws.len(),
        balanced(orig, ws, flex),
        forall|i: int| 0 <= i < ws.len() ==> #[trigger] ws[i] <= orig[i],
    ensures
        shrink(ws, flex, total, limit, fuel).len() == ws.len(),
        balanced(orig, shrink(ws, flex, total, limit, fuel), flex),
        forall|i: int| 0 <= i < ws.len() ==> #[trigger] shrink(ws, flex, total, limit, fuel)[i] <= orig[i],
    decreases fuel,
{
    if fuel > 0 {
        lemma_pick_widest(ws, flex, 0, None);
        match pick_from(ws, flex, 0, None) {
            None => {},
            Some(p) => {
                let ws2 = ws.update(p, ws[p] - 1);
                assert forall|i: int, j: int|
                    0 <= i < ws2.len() && 0 <= j < ws2.len() && flex[i] && flex[j] && #[trigger] ws2[i] < orig[i]
                        implies #[trigger] ws2[j] <= ws2[i] + 1 by {
                    if i != p {
                        assert(ws[i] < orig[i]);
                        assert(ws[j] <= ws[i] + 1);
                    } else if j != p {
                        if ws[j] > 1 {
                            assert(ws[j] <= ws[p]);
                        }
                    }
                }
                if total - 1 > limit {
                    lemma_shrink_balanced(orig, ws2, flex, total - 1, limit, (fuel - 1) as nat);
                }
            },
        }
    }
}

/// The widths a table is drawn at are balanced: where a width limit forces
/// flexible columns narrower than their natural width, each of them is
/// within one column of every other flexible column, so the widest columns
/// gave way first.
pub proof fn lemma_resolve_balanced(t: Table, max_width: Option<usize>)
    ensures
        balanced(naturals(t), resolve_spec(t, max_width), flexible(t)),
        resolve_spec(t, max_width).len() == naturals(t).len(),
        forall|i: int| 0 <= i < naturals(t).len() ==> #[trigger] resolve_spec(t, max_width)[i] <= naturals(t)[i],
{
    let ws = naturals(t);
    lemma_naturals(t);
    if let Some(limit) = max_width {
        let total = seq_sum(ws) + chrome(t);
        if total > limit {
            lemma_shrink_balanced(ws, ws, flexible(t), total, limit as int, seq_sum(ws) as nat);
        }
    }
}

/// Narrowing stops once the total fits, or once no flexible column can give
/// any more; fixed columns are left alone.
pub proof fn lemma_shrink_fits(ws: Seq<int>, flex: Seq<bool>, total: int, c: int, limit: int, fuel: nat)
    requires
        flex.len() == ws.len(),
        forall|i: int| 0 <= i < ws.len() ==> #[trigger] ws[i] >= 0,
        total == seq_sum(ws) + c,
        total > limit,
        fuel >= seq_sum(ws),
    ensures
        ({
            let r = shrink(ws, flex, total, limit, fuel);
            &&& seq_sum(r) + c <= limit || forall|i: int| 0 <= i < r.len() && flex[i] ==> #[trigger] r[i] <= 1
            &&& forall|i: int| 0 <= i < r.len() && !flex[i] ==> #[trigger] r[i] == ws[i]
        }),
    decreases fuel,
{
    lemma_shrink_le(ws, flex, total, limit, fuel);
    lemma_pick(ws, flex, 0, None);
    lemma_pick_none(ws, flex, 0, None);
    if fuel > 0 {
        match pick_from(ws, flex, 0, None) {
            None => {},
            Some(b) => {
                let ws2 = ws.update(b, ws[b] - 1);
                lemma_seq_sum(ws, b);
                if total - 1 > limit {
                    lemma_shrink_fits(ws2, flex, total - 1, c, limit, (fuel - 1) as nat);
                }
            },
        }
    } else {
        lemma_seq_sum_nonneg(ws);
        assert forall|i: int| 0 <= i < ws.len() implies ws[i] == 0 by {
            lemma_seq_sum(ws, i);
        }
    }
}

/// When nothing is picked, no flexible column is wider than one.
pub proof fn lemma_pick_none(ws: Seq<int>, flex: Seq<bool>, i: int, best: Option<int>)
    requires
        0 <= i,
        flex.len() == ws.len(),
    ensures
        pick_from(ws, flex, i, best) is None ==> best is None && forall|j: int|
            i <= j < ws.len() && flex[j] ==> #[trigger] ws[j] <= 1,
    decreases ws.len() - i,
{
    if i < ws.len() {
        if flex[i] && ws[i] > 1 && (best is None || ws[i] >= ws[best->Some_0]) {
            lemma_pick_none(ws, flex, i + 1, Some(i));
            lemma_pick_some(ws, flex, i + 1, i);
        } else {
            lemma_pick_none(ws, flex, i + 1, best);
            if best is Some {
                lemma_pick_some(ws, flex, i + 1, best->Some_0);
            }
        }
    }
}

/// Once something is picked, something stays picked.
pub proof fn lemma_pick_some(ws: Seq<int>, flex: Seq<bool>, i: int, b: int)
    requires
        0 <= i,
    ensures
        pick_from(ws, flex, i, Some(b)) is Some,
    decreases ws.len() - i,
{
    if i < ws.len() {
        if flex[i] && ws[i] > 1 && ws[i] >= ws[b] {
            lemma_pick_some(ws, flex, i + 1, i);
        } else {
            lemma_pick_some(ws, flex, i + 1, b);
        }
    }
}

/// With a limit at least the borders and padding plus the narrowest each
/// column can be, the columns chosen fit in it, borders and padding
/// included.
pub proof fn lemma_resolved_within(t: Table, limit: usize)
    requires
        limit >= chrome(t) + seq_sum(floors(t)),
    ensures
        seq_sum(resolve_spec(t, Some(limit))) + chrome(t) <= limit,
        resolve_spec(t, Some(limit)).len() == t.headers().len(),
{
    lemma_naturals(t);
    let ws = naturals(t);
    let total = seq_sum(ws) + chrome(t);
    if total > limit {
        let flex = flexible(t);
        lemma_shrink_fits(ws, flex, total, chrome(t), limit as int, seq_sum(ws) as nat);
        lemma_shrink_le(ws, flex, total, limit as int, seq_sum(ws) as nat);
        let r = shrink(ws, flex, total, limit as int, seq_sum(ws) as nat);
        if !(seq_sum(r) + chrome(t) <= limit) {
            assert forall|i: int| 0 <= i < r.len() implies #[trigger] r[i] <= floors(t)[i] by {
                if flex[i] {
                    assert(r[i] <= 1);
                } else {
                    assert(r[i] == ws[i]);
                }
            }
            lemma_seq_sum_le(r, floors(t));
        }
    }
}

/// A table whose natural widths fit the limit is drawn as if there were
/// none.
pub proof fn lemma_natural_fits(t: Table, limit: usize)
    requires
        seq_sum(naturals(t)) + chrome(t) <= limit,
    ensures
        render_spec(t, Some(limit)) == render_spec(t, None),
{
    assert(resolve_spec(t, Some(limit)) == resolve_spec(t, None));
}

/// The characters from `k` on are line feeds, each one byte.
pub proof fn lemma_drop_newlines(cs: Seq<char>, k: int)
    requires
        0 <= k <= cs.len(),
        forall|j: int| k <= j < cs.len() ==> cs[j] == '\n',
    ensures
        crate::text::boff(cs, cs.len() as int) - crate::text::boff(cs, k) == cs.len() - k,
    decreases cs.len() - k,
{
    if k < cs.len() {
        lemma_drop_newlines(cs, k + 1);
        crate::text::lemma_boff_step(cs, k);
    }
}

impl Table {
    /// The headers, as string slices.
    fn header_cells(&self) -> (r: Vec<&str>)
        ensures
            strs_view(r@) == self.headers(),
    {
        let mut v: Vec<&str> = Vec::new();
        let mut i: usize = 0;
        while i < self.columns.len()
            invariant
                i <= self.columns@.len(),
                strs_view(v@) == self.headers().take(i as int),
            decreases self.columns@.len() - i,
        {
            let ghost prev = v@;
            v.push(self.columns[i].header.as_str());
            proof {
                assert(self.headers()[i as int] == self.columns@[i as int].header@);
                assert(strs_view(v@) =~= strs_view(prev).push(self.columns@[i as int].header@));
                assert(self.headers().take(i + 1) =~= self.headers().take(i as int).push(self.headers()[i as int]));
            }
            i = i + 1;
        }
        proof {
            assert(self.headers().take(i as int) =~= self.headers());
        }
        v
    }

    /// Row `r`, as string slices.
    fn row_cells(&self, r: usize) -> (v: Vec<&str>)
        requires
            r < self.cells().len(),
        ensures
            strs_view(v@) == self.cells()[r as int],
    {
        let row = &self.rows[r];
        proof {
            assert(self.cells()[r as int] == row@.map_values(|x: String| x@));
        }
        let mut v: Vec<&str> = Vec::new();
        let mut i: usize = 0;
        while i < row.len()
            invariant
                i <= row@.len(),
                strs_view(v@) == row@.map_values(|x: String| x@).take(i as int),
            decreases row@.len() - i,
        {
            let ghost prev = v@;
            v.push(row[i].as_str());
            proof {
                let rv = row@.map_values(|x: String| x@);
                assert(rv[i as int] == row@[i as int]@);
                assert(strs_view(v@) =~= strs_view(prev).push(row@[i as int]@));
                assert(rv.take(i + 1) =~= rv.take(i as int).push(rv[i as int]));
            }
            i = i + 1;
        }
        proof {
            assert(row@.map_values(|x: String| x@).take(i as int) =~= row@.map_values(|x: String| x@));
        }
        v
    }

    /// Render the table, fitting it into `max_width` columns if given.
    ///
    /// When the natural width does not fit, the widest columns are narrowed
    /// first and their cells wrapped, so nothing is thrown away until wrapping
    /// alone cannot save it.
    pub fn render(&self, max_width: Option<usize>) -> (r: String)
        requires
            layout_ok(*self),
        ensures
            r@ == render_spec(*self, max_width),
            ({
                let d = crate::table_width::drawn_lines(*self, max_width);
                let j = crate::table_width::join_lines(d);
                &&& r@ == j.take(newline_tail(j, j.len() as int))
                &&& forall|k: int|
                    0 <= k < d.len() ==> width_of(self.measure(), #[trigger] d[k]) == crate::table_width::line_width(
                        *self,
                        resolve_spec(*self, max_width),
                    )
                &&& forall|k: int, i: int| 0 <= k < d.len() && 0 <= i < d[k].len() ==> #[trigger] d[k][i] != '\n'
                &&& (match max_width {
                    Some(limit) => limit >= chrome(*self) + seq_sum(floors(*self)) ==> forall|k: int|
                        0 <= k < d.len() ==> width_of(self.measure(), #[trigger] d[k]) <= limit,
                    None => true,
                })
            }),
    {
        proof {
            crate::table_width::lemma_table_lines_agree(*self, max_width);
            if let Some(limit) = max_width {
                if limit >= chrome(*self) + seq_sum(floors(*self)) {
                    crate::table_width::lemma_table_within(*self, limit);
                }
            }
        }
        self.draw(max_width)
    }

    /// The table as text, line by line.
    #[verifier::spinoff_prover]
    #[verifier::rlimit(40)]
    fn draw(&self, max_width: Option<usize>) -> (r: String)
        requires
            layout_ok(*self),
        ensures
            r@ == render_spec(*self, max_width),
    {
        if self.columns.len() == 0 {
            return String::new();
        }
        let ghost t = *self;
        let widths = self.resolve_widths(max_width);
        let ghost ws = ints(widths@);
        let g = self.drawn().glyphs();
        let nl = "\n";
        proof {
            reveal_strlit("\n");
            lemma_resolved_fit(t, max_width);
            assert forall|i: int| 0 <= i < widths@.len() implies #[trigger] widths@[i] + 2 * self.pad() <= usize::MAX by {
                assert(ws[i] == widths@[i]);
                assert(naturals(t)[i] + 2 * t.pad() <= usize::MAX);
            }
        }
        let ghost gs = glyph_spec(drawn_border(t));
        let ghost pad = t.pad() as int;
        let mut out = String::new();
        let framed = g.is_some() && self.drawn() != Border::Markdown;
        if framed {
            if let Some(gl) = g {
                let line = self.rule(&widths, gl[2], gl[3], gl[4], gl[0]);
                crate::text::push_str(&mut out, line.as_str());
                crate::text::push_str(&mut out, nl);
                proof {
                    assert(strs_view(gl@)[2] == gl@[2]@);
                    assert(strs_view(gl@)[3] == gl@[3]@);
                    assert(strs_view(gl@)[4] == gl@[4]@);
                    assert(strs_view(gl@)[0] == gl@[0]@);
                    assert(out@ =~= rule_line(t, ws, gs->Some_0, 2, 3, 4));
                }
            }
        }
        let ghost top = out@;
        assert(top == if gs is Some && drawn_border(t) != Border::Markdown {
            rule_line(t, ws, gs->Some_0, 2, 3, 4)
        } else {
            seq![]
        });
        if self.header {
            let cells = self.header_cells();
            proof {
                reveal(cell_ok);
                assert forall|i: int| 0 <= i < cells@.len() implies cell_ok(self.width, #[trigger] cells@[i]@) by {
                    assert(cells@[i]@ == self.headers()[i]);
                }
            }
            self.push_row(&mut out, &cells, &widths, g);
            let ghost after_row = out@;
            if let Some(gl) = g {
                let line = self.rule(&widths, gl[5], gl[6], gl[7], gl[0]);
                crate::text::push_str(&mut out, line.as_str());
                crate::text::push_str(&mut out, nl);
                proof {
                    assert(strs_view(gl@)[5] == gl@[5]@);
                    assert(strs_view(gl@)[6] == gl@[6]@);
                    assert(strs_view(gl@)[7] == gl@[7]@);
                    assert(strs_view(gl@)[0] == gl@[0]@);
                    assert(out@ =~= after_row + rule_line(t, ws, gs->Some_0, 5, 6, 7));
                }
            }
            proof {
                assert(out@ =~= top + row_spec(t, t.headers(), ws) + if gs is Some {
                    rule_line(t, ws, gs->Some_0, 5, 6, 7)
                } else {
                    seq![]
                });
            }
        }
        let ghost upto_head = out@;
        let ghost head_spec = if t.shows_header() {
            row_spec(t, t.headers(), ws) + if gs is Some {
                rule_line(t, ws, gs->Some_0, 5, 6, 7)
            } else {
                seq![]
            }
        } else {
            seq![]
        };
        assert(upto_head =~= top + head_spec);
        let mut r: usize = 0;
        while r < self.rows.len()
            invariant
                t == *self,
                layout_ok(t),
                ws == ints(widths@),
                widths@.len() == t.headers().len(),
                g is Some <==> glyph_spec(drawn_border(t)) is Some,
                g matches Some(a) ==> strs_view(a@) == glyph_spec(drawn_border(t))->Some_0,
                r <= t.rows@.len(),
                t.cells().len() == t.rows@.len(),
                upto_head + rows_from(t, ws, 0) == out@ + rows_from(t, ws, r as int),
            decreases t.rows@.len() - r,
        {
            let cells = self.row_cells(r);
            proof {
                assert(t.cells()[r as int].len() == t.headers().len());
                assert forall|i: int| 0 <= i < cells@.len() implies cell_ok(self.width, #[trigger] cells@[i]@) by {
                    assert(cells@[i]@ == t.cells()[r as int][i]);
                }
            }
            self.push_row(&mut out, &cells, &widths, g);
            r = r + 1;
            proof {
                assert(upto_head + rows_from(t, ws, 0) =~= out@ + rows_from(t, ws, r as int));
            }
        }
        proof {
            assert(out@ + rows_from(t, ws, r as int) =~= out@);
        }
        let ghost after_rows = out@;
        if framed {
            if let Some(gl) = g {
                let line = self.rule(&widths, gl[8], gl[9], gl[10], gl[0]);
                crate::text::push_str(&mut out, line.as_str());
                crate::text::push_str(&mut out, nl);
                proof {
                    assert(strs_view(gl@)[8] == gl@[8]@);
                    assert(strs_view(gl@)[9] == gl@[9]@);
                    assert(strs_view(gl@)[10] == gl@[10]@);
                    assert(strs_view(gl@)[0] == gl@[0]@);
                    assert(out@ =~= after_rows + rule_line(t, ws, gs->Some_0, 8, 9, 10));
                }
            }
        }
        proof {
            let bottom = if gs is Some && drawn_border(t) != Border::Markdown {
                rule_line(t, ws, gs->Some_0, 8, 9, 10)
            } else {
                seq![]
            };
            assert(out@ =~= top + head_spec + rows_from(t, ws, 0) + bottom);
        }
        // Drop the trailing line feeds.
        let v = crate::text::to_chars(out.as_str());
        let mut k = v.len();
        while k > 0 && v[k - 1] == '\n'
            invariant
                k <= v@.len(),
                forall|j: int| k <= j < v@.len() ==> v@[j] == '\n',
                newline_tail(v@, v@.len() as int) == newline_tail(v@, k as int),
            decreases k,
        {
            k = k - 1;
        }
        let nb = crate::text::byte_len(out.as_str());
        proof {
            crate::text::lemma_boff_len(out@);
            // Every dropped character is a one-byte line feed.
            lemma_drop_newlines(out@, k as int);
        }
        let keep = nb - (v.len() - k);
        let head = crate::text::prefix(out.as_str(), keep, Ghost(k as int));
        head.to_owned()
    }
}

} // verus!
