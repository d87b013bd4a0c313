//! Column measurement.

use vstd::prelude::*;

use crate::ansi::{
    at, esc_end, escape_end, lemma_at, lemma_esc_bounds, lemma_piece_bounds, piece_end,
    piece_is_escape, Piece, Pieces,
};
use crate::grapheme::{cluster_end, first_cluster, lemma_cluster_bounds, Graphemes};
use crate::tables::{lookup, width_class};
use crate::text::{
    boff, byte_len, lemma_boff_mono, lemma_boff_skip, lemma_encode_subrange, prefix, suffix, to_chars,
};

verus! {

/// How to count East Asian Ambiguous characters.
///
/// These are characters like `±`, `£`, `°` and the box-drawing set, which
/// legacy CJK fonts render double-width and everything else renders
/// single-width. There is no correct answer available from the text alone: it
/// depends on the font the terminal is using.
#[derive(Clone, Copy, PartialEq, Eq, Debug, Default, Structural)]
#[non_exhaustive]
pub enum Ambiguous {
    /// One column. Correct for Western locales and the default.
    #[default]
    Narrow,
    /// Two columns. Match this to a terminal running a CJK font, typically by
    /// checking whether `LANG`/`LC_CTYPE` names a CJK locale.
    Wide,
}

/// How to count C0/C1 control characters.
#[derive(Clone, Copy, PartialEq, Eq, Debug, Default, Structural)]
#[non_exhaustive]
pub enum Control {
    /// Zero columns: the terminal consumes them without moving the cursor.
    /// This is the default and matches what actually happens on screen.
    #[default]
    Zero,
    /// Two columns, as caret notation (`^C`) renders them in pagers and
    /// `cat -v`-style output.
    Caret,
}

/// How much of a grapheme cluster counts towards the width.
///
/// Real terminals fall into camps here, and the difference is measurable.
/// This is the single biggest source of disagreement between terminals, so it
/// is a policy rather than a guess.
#[derive(Clone, Copy, PartialEq, Eq, Debug, Default, Structural)]
#[non_exhaustive]
pub enum Clusters {
    /// Every grapheme cluster is one glyph, sized by its base character, with
    /// presentation selectors and flag pairing honoured. The default.
    #[default]
    WholeGlyph,
    /// Every code point counts on its own, the way `wcwidth` does: no ZWJ
    /// collapsing, no presentation selectors, no flag pairing.
    CodePoints,
}

/// A measurement policy: how to turn text into a number of terminal columns.
///
/// The free functions in the crate root use [`Width::default`]. Build your own
/// when you need CJK ambiguous-width handling or a different tab stop.
#[derive(Clone, Copy, PartialEq, Eq, Debug, Structural)]
pub struct Width {
    ambiguous: Ambiguous,
    control: Control,
    clusters: Clusters,
    tab_stop: usize,
    ansi: bool,
}

impl Width {
    /// East Asian Ambiguous characters are two columns.
    pub closed spec fn amb_wide(self) -> bool {
        self.ambiguous == Ambiguous::Wide
    }

    /// Control characters are two columns, as caret notation.
    pub closed spec fn caret(self) -> bool {
        self.control == Control::Caret
    }

    /// Every code point counts on its own.
    pub closed spec fn codepoints(self) -> bool {
        self.clusters == Clusters::CodePoints
    }

    /// Distance between tab stops.
    pub closed spec fn tab(self) -> usize {
        self.tab_stop
    }

    /// Escape sequences are recognised and skipped.
    pub closed spec fn ansi_on(self) -> bool {
        self.ansi
    }

    /// The default policy, by its settings.
    pub open spec fn is_default(self) -> bool {
        !self.amb_wide() && !self.caret() && !self.codepoints() && self.tab() == 8 && self.ansi_on()
    }

    /// The default policy.
    pub closed spec fn standard() -> Width {
        Width {
            ambiguous: Ambiguous::Narrow,
            control: Control::Zero,
            clusters: Clusters::WholeGlyph,
            tab_stop: 8,
            ansi: true,
        }
    }

    /// The default policy with East Asian Ambiguous characters two columns wide.
    pub closed spec fn standard_cjk() -> Width {
        Width {
            ambiguous: Ambiguous::Wide,
            control: Control::Zero,
            clusters: Clusters::WholeGlyph,
            tab_stop: 8,
            ansi: true,
        }
    }

    /// The settings of the default policies.
    pub proof fn lemma_standard()
        ensures
            Width::standard().is_default(),
            Width::standard_cjk().amb_wide() && !Width::standard_cjk().caret()
                && !Width::standard_cjk().codepoints() && Width::standard_cjk().tab() == 8
                && Width::standard_cjk().ansi_on(),
    {
    }

    /// Sensible defaults: ambiguous characters are narrow, controls are zero
    /// columns, tab stops every 8 columns, escape sequences are skipped, and an
    /// emoji ZWJ sequence counts as the single glyph it is meant to render as.
    pub fn modern() -> (r: Width)
        ensures
            r.is_default(),
            r == Width::standard(),
    {
        Width {
            ambiguous: Ambiguous::Narrow,
            control: Control::Zero,
            clusters: Clusters::WholeGlyph,
            tab_stop: 8,
            ansi: true,
        }
    }

    /// Matches terminals that count each code point separately, as `wcwidth`
    /// does: the defaults, but with [`Clusters::CodePoints`].
    pub fn legacy() -> (r: Width)
        ensures
            !r.amb_wide() && !r.caret() && r.codepoints() && r.tab() == 8 && r.ansi_on(),
    {
        Width {
            ambiguous: Ambiguous::Narrow,
            control: Control::Zero,
            clusters: Clusters::CodePoints,
            tab_stop: 8,
            ansi: true,
        }
    }

    /// How much of a grapheme cluster counts towards the width.
    pub fn clusters(self, c: Clusters) -> (r: Self)
        ensures
            r.codepoints() == (c == Clusters::CodePoints),
            r.amb_wide() == self.amb_wide() && r.caret() == self.caret() && r.tab() == self.tab()
                && r.ansi_on() == self.ansi_on(),
    {
        Width { clusters: c, ..self }
    }

    /// How to count East Asian Ambiguous characters.
    pub fn ambiguous(self, a: Ambiguous) -> (r: Self)
        ensures
            r.amb_wide() == (a == Ambiguous::Wide),
            r.codepoints() == self.codepoints() && r.caret() == self.caret() && r.tab() == self.tab()
                && r.ansi_on() == self.ansi_on(),
            self == Width::standard() && a == Ambiguous::Wide ==> r == Width::standard_cjk(),
    {
        Width { ambiguous: a, ..self }
    }

    /// How to count control characters.
    pub fn control(self, c: Control) -> (r: Self)
        ensures
            r.caret() == (c == Control::Caret),
            r.codepoints() == self.codepoints() && r.amb_wide() == self.amb_wide() && r.tab()
                == self.tab() && r.ansi_on() == self.ansi_on(),
    {
        Width { control: c, ..self }
    }

    /// Distance between tab stops. `0` makes a tab occupy no columns.
    ///
    /// Because a tab's width depends on where it starts, measurements assume
    /// the text begins at column 0.
    pub fn tab_stop(self, n: usize) -> (r: Self)
        ensures
            r.tab() == n,
            r.codepoints() == self.codepoints() && r.amb_wide() == self.amb_wide() && r.caret()
                == self.caret() && r.ansi_on() == self.ansi_on(),
    {
        Width { tab_stop: n, ..self }
    }

    /// Whether to recognise and skip ANSI escape sequences (default `true`).
    ///
    /// Turn this off to measure escape sequences as the literal characters they
    /// are made of, which is what you want when displaying them for debugging.
    pub fn ansi(self, enabled: bool) -> (r: Self)
        ensures
            r.ansi_on() == enabled,
            r.codepoints() == self.codepoints() && r.amb_wide() == self.amb_wide() && r.caret()
                == self.caret() && r.tab() == self.tab(),
    {
        Width { ansi: enabled, ..self }
    }

    /// Whether this policy takes East Asian Ambiguous characters wide.
    pub fn ambiguous_wide(&self) -> (r: bool)
        ensures
            r == self.amb_wide(),
    {
        self.ambiguous == Ambiguous::Wide
    }

    /// Whether this policy is skipping escape sequences.
    pub fn ansi_enabled(&self) -> (r: bool)
        ensures
            r == self.ansi_on(),
    {
        self.ansi
    }

    /// Whether this policy counts code points one by one.
    pub fn counts_codepoints(&self) -> (r: bool)
        ensures
            r == self.codepoints(),
    {
        match self.clusters {
            Clusters::CodePoints => true,
            Clusters::WholeGlyph => false,
        }
    }
}

impl Default for Width {
    fn default() -> (r: Self)
        ensures
            r.is_default(),
            r == Width::standard(),
    {
        Width::modern()
    }
}

// ---------------------------------------------------------------------------
// The specification of a width.

/// Columns of a control character under the policy.
pub open spec fn control_w(w: Width) -> int {
    if w.caret() {
        2
    } else {
        0
    }
}

/// Columns of a single character, as [`Width::of_char`] counts them.
pub open spec fn char_w(w: Width, c: char) -> int {
    let cp = c as u32;
    if cp < 0x7F {
        if cp >= 0x20 {
            1
        } else if c == '\t' {
            w.tab() as int
        } else {
            control_w(w)
        }
    } else if cp <= 0x9F {
        control_w(w)
    } else if w.codepoints() && 0x1F3FB <= cp <= 0x1F3FF {
        2
    } else if w.codepoints() && 0x1F1E6 <= cp <= 0x1F1FF {
        1
    } else {
        let k = width_class(c);
        if k == 0 {
            0
        } else if k == 2 {
            2
        } else if k == 3 && w.amb_wide() {
            2
        } else {
            1
        }
    }
}

/// Columns a tab advances when it starts at column `col`.
pub open spec fn tab_adv(w: Width, col: int) -> int {
    if w.tab() == 0 {
        0
    } else {
        w.tab() - col % (w.tab() as int)
    }
}

/// The widest a single character can be under the policy.
pub open spec fn wmax(w: Width) -> int {
    if w.tab() > 2 {
        w.tab() as int
    } else {
        2
    }
}

/// An upper bound on the columns `n` characters can take.
pub open spec fn room(w: Width, n: int) -> int {
    n * wmax(w)
}

/// Sum of the character widths of `cl`.
pub open spec fn sum_w(w: Width, cl: Seq<char>) -> int
    decreases cl.len(),
{
    if cl.len() == 0 {
        0
    } else {
        sum_w(w, cl.drop_last()) + char_w(w, cl.last())
    }
}

/// Number of regional indicators in `cl`.
pub open spec fn count_ri(cl: Seq<char>) -> int
    decreases cl.len(),
{
    if cl.len() == 0 {
        0
    } else {
        count_ri(cl.drop_last()) + if is_ri(cl.last()) { 1int } else { 0int }
    }
}

/// A regional indicator.
pub open spec fn is_ri(c: char) -> bool {
    0x1F1E6 <= c as u32 <= 0x1F1FF
}

/// An emoji skin tone modifier.
pub open spec fn is_modifier(c: char) -> bool {
    0x1F3FB <= c as u32 <= 0x1F3FF
}

/// Whether `cl` holds `c`.
pub open spec fn holds(cl: Seq<char>, c: char) -> bool {
    exists|i: int| 0 <= i < cl.len() && cl[i] == c
}

/// Whether `cl` holds a skin tone modifier.
pub open spec fn holds_modifier(cl: Seq<char>) -> bool {
    exists|i: int| 0 <= i < cl.len() && is_modifier(#[trigger] cl[i])
}

/// Columns occupied by one grapheme cluster that starts at column `col`.
pub open spec fn adv(w: Width, cl: Seq<char>, col: int) -> int {
    if cl.len() == 1 && (cl[0] as u32) < 0x80 {
        let b = cl[0] as u32;
        if 0x20 <= b < 0x7F {
            1
        } else if cl[0] == '\t' {
            tab_adv(w, col)
        } else {
            control_w(w)
        }
    } else if w.codepoints() {
        sum_w(w, cl)
    } else if count_ri(cl) == 2 {
        2
    } else if holds(cl, '\u{FE0F}') || holds_modifier(cl) {
        2
    } else if holds(cl, '\u{FE0E}') {
        1
    } else if cl.len() > 0 && char_w(w, cl[0]) > 0 {
        char_w(w, cl[0])
    } else {
        sum_w(w, cl)
    }
}

/// Columns of `cs` from character `i` on, counted code point by code point,
/// starting at column `col`.
pub open spec fn cp_text_w(w: Width, cs: Seq<char>, i: int, col: int) -> int
    decreases cs.len() - i,
{
    if !(0 <= i < cs.len()) {
        0
    } else {
        let a = if cs[i] == '\t' {
            tab_adv(w, col)
        } else {
            char_w(w, cs[i])
        };
        a + cp_text_w(w, cs, i + 1, col + a)
    }
}

/// Columns of `cs` from the cluster starting at `k` on, starting at column `col`.
pub open spec fn cl_text_w(w: Width, cs: Seq<char>, k: int, col: int) -> int
    decreases cs.len() - k,
{
    if !(0 <= k < cs.len()) {
        0
    } else {
        let e = cluster_end(false, cs, k);
        if e <= k || e > cs.len() {
            0
        } else {
            let a = adv(w, cs.subrange(k, e), col);
            a + cl_text_w(w, cs, e, col + a)
        }
    }
}

/// Columns of text holding no escape sequences, starting at column `col`.
pub open spec fn text_w(w: Width, cs: Seq<char>, col: int) -> int {
    if w.codepoints() {
        cp_text_w(w, cs, 0, col)
    } else {
        cl_text_w(w, cs, 0, col)
    }
}

/// Columns of the pieces of `cs` from `k` on, starting at column `col`:
/// escape sequences count nothing, text runs are measured where they sit.
pub open spec fn pieces_w(w: Width, cs: Seq<char>, k: int, col: int) -> int
    decreases cs.len() - k,
{
    if !(0 <= k < cs.len()) {
        0
    } else {
        let e = piece_end(cs, k);
        if e <= k || e > cs.len() {
            0
        } else if piece_is_escape(cs, k) {
            pieces_w(w, cs, e, col)
        } else {
            let a = text_w(w, cs.subrange(k, e), col);
            a + pieces_w(w, cs, e, col + a)
        }
    }
}

/// Columns `cs` occupies when it starts at column `start`.
pub open spec fn width_at(w: Width, cs: Seq<char>, start: int) -> int {
    if w.ansi_on() {
        pieces_w(w, cs, 0, start)
    } else {
        text_w(w, cs, start)
    }
}

/// Columns `cs` occupies from column 0.
pub open spec fn width_of(w: Width, cs: Seq<char>) -> int {
    width_at(w, cs, 0)
}

// ---------------------------------------------------------------------------
// Bounds, so that column arithmetic cannot overflow.

proof fn lemma_mul_succ(n: int, m: int)
    by (nonlinear_arith)
    ensures
        (n - 1) * m + m == n * m,
{
}

proof fn lemma_mul_steps(a: int, b: int, m: int)
    by (nonlinear_arith)
    requires
        0 <= a <= b,
        0 <= m,
    ensures
        a * m <= b * m,
        (b - a) * m + a * m == b * m,
{
}

/// A character is at most `wmax` columns.
pub proof fn lemma_char_w_bound(w: Width, c: char)
    ensures
        0 <= char_w(w, c) <= wmax(w),
{
}

/// A tab advances at most `wmax` columns.
pub proof fn lemma_tab_adv_bound(w: Width, col: int)
    requires
        col >= 0,
    ensures
        0 <= tab_adv(w, col) <= wmax(w),
{
    if w.tab() > 0 {
        assert(0 <= col % (w.tab() as int) < w.tab());
    }
}

/// The sum of character widths is bounded by `room`.
pub proof fn lemma_sum_w_bound(w: Width, cl: Seq<char>)
    ensures
        0 <= sum_w(w, cl) <= room(w, cl.len() as int),
    decreases cl.len(),
{
    if cl.len() > 0 {
        lemma_sum_w_bound(w, cl.drop_last());
        lemma_char_w_bound(w, cl.last());
        lemma_mul_succ(cl.len() as int, wmax(w));
    }
}

/// Regional indicators are counted among the characters.
pub proof fn lemma_count_ri_bound(cl: Seq<char>)
    ensures
        0 <= count_ri(cl) <= cl.len(),
    decreases cl.len(),
{
    if cl.len() > 0 {
        lemma_count_ri_bound(cl.drop_last());
    }
}

/// A cluster is at most `room` columns.
pub proof fn lemma_adv_bound(w: Width, cl: Seq<char>, col: int)
    requires
        col >= 0,
    ensures
        0 <= adv(w, cl, col) <= room(w, cl.len() as int),
        cl.len() == 0 ==> adv(w, cl, col) == 0,
{
    lemma_sum_w_bound(w, cl);
    lemma_tab_adv_bound(w, col);
    if cl.len() > 0 {
        lemma_char_w_bound(w, cl[0]);
        lemma_mul_steps(1, cl.len() as int, wmax(w));
    }
}

// ---------------------------------------------------------------------------
// Measuring, in code.

impl Width {
    /// Columns occupied by a single `char`.
    ///
    /// Beware that a `char` is not a user-perceived character: the width of
    /// `'\u{301}'` (combining acute) is 0, and the width of a flag is only
    /// defined for the pair. Prefer [`Width::of`] for real text.
    pub fn of_char(&self, c: char) -> (r: usize)
        ensures
            r == char_w(*self, c),
    {
        let cp = c as u32;
        if cp < 0x7F {
            return if cp >= 0x20 {
                1
            } else if c == '\t' {
                self.tab_stop
            } else {
                self.control_width()
            };
        }
        if cp <= 0x9F {
            return self.control_width();
        }
        if self.counts_codepoints() {
            if 0x1F3FB <= cp && cp <= 0x1F3FF {
                return 2;
            }
            if 0x1F1E6 <= cp && cp <= 0x1F1FF {
                return 1;
            }
        }
        let k = lookup(c).0;
        if k == 0 {
            0
        } else if k == 2 {
            2
        } else if k == 3 && self.ambiguous == Ambiguous::Wide {
            2
        } else {
            1
        }
    }

    fn control_width(&self) -> (r: usize)
        ensures
            r == control_w(*self),
    {
        match self.control {
            Control::Zero => 0,
            Control::Caret => 2,
        }
    }

    fn tab_advance(&self, col: usize) -> (r: usize)
        ensures
            r == tab_adv(*self, col as int),
    {
        if self.tab_stop == 0 {
            0
        } else {
            self.tab_stop - (col % self.tab_stop)
        }
    }

    /// Columns occupied by one grapheme cluster, starting at column `col`.
    ///
    /// `col` only matters for tabs. Escape sequences are not expected here;
    /// [`Width::of`] strips them before splitting into clusters.
    pub fn advance(&self, cluster: &str, col: usize) -> (r: usize)
        requires
            adv(*self, cluster@, col as int) <= usize::MAX,
        ensures
            r == adv(*self, cluster@, col as int),
    {
        let r = self.cluster_adv(cluster, col);
        r.unwrap()
    }

    /// The advance of one cluster, or `None` where it does not fit in a `usize`.
    fn cluster_adv(&self, cluster: &str, col: usize) -> (r: Option<usize>)
        ensures
            r is Some <==> adv(*self, cluster@, col as int) <= usize::MAX,
            r matches Some(v) ==> v == adv(*self, cluster@, col as int),
    {
        let cs = to_chars(cluster);
        let ghost cl = cluster@;
        // Fast path: a lone ASCII character, which is the overwhelming majority.
        if cs.len() == 1 && (cs[0] as u32) < 0x80 {
            let b = cs[0] as u32;
            if 0x20 <= b && b < 0x7F {
                return Some(1);
            }
            if cs[0] == '\t' {
                return Some(self.tab_advance(col));
            }
            return Some(self.control_width());
        }
        proof {
            lemma_count_ri_bound(cl);
        }
        let mut sum: usize = 0;
        let mut over = false;
        let mut first: usize = 0;
        let mut ri: usize = 0;
        let mut modifier = false;
        let mut vs16 = false;
        let mut vs15 = false;
        let mut i: usize = 0;
        while i < cs.len()
            invariant
                cs@ == cl,
                i <= cs.len(),
                over == (sum_w(*self, cl.take(i as int)) > usize::MAX),
                !over ==> sum == sum_w(*self, cl.take(i as int)),
                ri == count_ri(cl.take(i as int)),
                i > 0 ==> first == char_w(*self, cl[0]),
                modifier == (exists|j: int| 0 <= j < i && is_modifier(#[trigger] cl[j])),
                vs16 == (exists|j: int| 0 <= j < i && cl[j] == '\u{FE0F}'),
                vs15 == (exists|j: int| 0 <= j < i && cl[j] == '\u{FE0E}'),
            decreases cs.len() - i,
        {
            let c = cs[i];
            let cp = c as u32;
            if c == '\u{FE0F}' {
                vs16 = true;
            }
            if c == '\u{FE0E}' {
                vs15 = true;
            }
            proof {
                assert(cl.take(i + 1).drop_last() =~= cl.take(i as int));
                lemma_sum_w_bound(*self, cl.take(i as int));
                lemma_count_ri_bound(cl.take(i + 1));
                lemma_char_w_bound(*self, c);
            }
            if 0x1F1E6 <= cp && cp <= 0x1F1FF {
                ri = ri + 1;
            }
            if 0x1F3FB <= cp && cp <= 0x1F3FF {
                modifier = true;
            }
            let w = self.of_char(c);
            if !over {
                match sum.checked_add(w) {
                    Some(v) => {
                        sum = v;
                    },
                    None => {
                        over = true;
                    },
                }
            }
            if i == 0 {
                first = w;
            }
            i = i + 1;
        }
        proof {
            assert(cl.take(cs.len() as int) =~= cl);
        }
        // Only the code-point model and clusters led by a zero-width character
        // answer with the sum.
        if self.counts_codepoints() {
            return if over {
                None
            } else {
                Some(sum)
            };
        }
        if ri == 2 {
            return Some(2);
        }
        if vs16 || modifier {
            return Some(2);
        }
        if vs15 {
            return Some(1);
        }
        if cs.len() > 0 && first > 0 {
            Some(first)
        } else if over {
            None
        } else {
            Some(sum)
        }
    }

    /// Columns occupied by one grapheme cluster, as if printed at column 0.
    pub fn of_grapheme(&self, cluster: &str) -> (r: usize)
        requires
            adv(*self, cluster@, 0) <= usize::MAX,
        ensures
            r == adv(*self, cluster@, 0),
    {
        self.advance(cluster, 0)
    }
}

// ---------------------------------------------------------------------------
// Bounds on whole texts.

/// Counting code points, the text from `i` fits in `room`.
pub proof fn lemma_cp_text_bound(w: Width, cs: Seq<char>, i: int, col: int)
    requires
        0 <= i <= cs.len(),
        col >= 0,
    ensures
        0 <= cp_text_w(w, cs, i, col) <= room(w, cs.len() - i),
    decreases cs.len() - i,
{
    if i < cs.len() {
        lemma_tab_adv_bound(w, col);
        lemma_char_w_bound(w, cs[i]);
        let a = if cs[i] == '\t' {
            tab_adv(w, col)
        } else {
            char_w(w, cs[i])
        };
        lemma_cp_text_bound(w, cs, i + 1, col + a);
        lemma_mul_succ(cs.len() - i, wmax(w));
    }
}

/// Counting clusters, the text from `k` fits in `room`.
pub proof fn lemma_cl_text_bound(w: Width, cs: Seq<char>, k: int, col: int)
    requires
        0 <= k <= cs.len(),
        col >= 0,
    ensures
        0 <= cl_text_w(w, cs, k, col) <= room(w, cs.len() - k),
    decreases cs.len() - k,
{
    if k < cs.len() {
        lemma_cluster_bounds(false, cs, k);
        let e = cluster_end(false, cs, k);
        lemma_adv_bound(w, cs.subrange(k, e), col);
        let a = adv(w, cs.subrange(k, e), col);
        lemma_cl_text_bound(w, cs, e, col + a);
        lemma_mul_steps(e - k, cs.len() - k, wmax(w));
        lemma_mul_steps(cs.len() - e, cs.len() - k, wmax(w));
        assert((cs.len() - k) - (e - k) == cs.len() - e);
    }
}

/// Text without escapes fits in `room`.
pub proof fn lemma_text_bound(w: Width, cs: Seq<char>, col: int)
    requires
        col >= 0,
    ensures
        0 <= text_w(w, cs, col) <= room(w, cs.len() as int),
{
    lemma_cp_text_bound(w, cs, 0, col);
    lemma_cl_text_bound(w, cs, 0, col);
}

/// The pieces from `k` fit in `room`.
pub proof fn lemma_pieces_bound(w: Width, cs: Seq<char>, k: int, col: int)
    requires
        0 <= k <= cs.len(),
        col >= 0,
    ensures
        0 <= pieces_w(w, cs, k, col) <= room(w, cs.len() - k),
    decreases cs.len() - k,
{
    if k < cs.len() {
        lemma_piece_bounds(cs, k);
        let e = piece_end(cs, k);
        lemma_text_bound(w, cs.subrange(k, e), col);
        let a = text_w(w, cs.subrange(k, e), col);
        if piece_is_escape(cs, k) {
            lemma_pieces_bound(w, cs, e, col);
        } else {
            lemma_pieces_bound(w, cs, e, col + a);
        }
        lemma_mul_steps(e - k, cs.len() - k, wmax(w));
        lemma_mul_steps(cs.len() - e, cs.len() - k, wmax(w));
        assert((cs.len() - k) - (e - k) == cs.len() - e);
    }
}

/// Any text fits in `room`.
pub proof fn lemma_width_bound(w: Width, cs: Seq<char>, start: int)
    requires
        start >= 0,
    ensures
        0 <= width_at(w, cs, start) <= room(w, cs.len() as int),
{
    lemma_text_bound(w, cs, start);
    lemma_pieces_bound(w, cs, 0, start);
}

/// `room` grows with the number of characters.
pub proof fn lemma_room_mono(w: Width, a: int, b: int)
    requires
        0 <= a <= b,
    ensures
        0 <= room(w, a) <= room(w, b),
        room(w, b - a) + room(w, a) == room(w, b),
{
    lemma_mul_steps(a, b, wmax(w));
    lemma_mul_steps(0, a, wmax(w));
}

/// Printable ASCII, which needs no segmentation: one column per character.
pub open spec fn printable_ascii(cs: Seq<char>) -> bool {
    forall|i: int| 0 <= i < cs.len() ==> 0x20 <= (#[trigger] cs[i]) as u32 && (cs[i] as u32) < 0x7F
}

/// Every printable ASCII character is a cluster of its own.
pub proof fn lemma_ascii_break(cs: Seq<char>, j: int)
    requires
        printable_ascii(cs),
        0 < j < cs.len(),
    ensures
        crate::grapheme::is_break(false, cs, j),
{
    crate::tables::lemma_ascii_props(cs[j] as u32);
    crate::tables::lemma_ascii_props(cs[j - 1] as u32);
    assert(crate::grapheme::gcb_of(cs[j]) == crate::grapheme::Gcb::Other);
    assert(crate::grapheme::gcb_of(cs[j - 1]) == crate::grapheme::Gcb::Other);
    assert(crate::grapheme::run_state(false, cs, j).prev == Some(crate::grapheme::gcb_of(cs[j - 1])));
}

/// Printable ASCII is as wide as it is long, however it is counted.
pub proof fn lemma_ascii_width(w: Width, cs: Seq<char>, k: int, col: int)
    requires
        printable_ascii(cs),
        0 <= k <= cs.len(),
    ensures
        cl_text_w(w, cs, k, col) == cs.len() - k,
        cp_text_w(w, cs, k, col) == cs.len() - k,
    decreases cs.len() - k,
{
    if k < cs.len() {
        if k + 1 < cs.len() {
            lemma_ascii_break(cs, k + 1);
        }
        assert(cluster_end(false, cs, k) == k + 1);
        let one = cs.subrange(k, k + 1);
        assert(one.len() == 1 && one[0] == cs[k]);
        lemma_ascii_width(w, cs, k + 1, col + 1);
    }
}

impl Width {
    /// Width of a run known to contain no escape sequences.
    fn of_text(&self, s: &str, start_col: usize) -> (r: usize)
        requires
            start_col + text_w(*self, s@, start_col as int) <= usize::MAX,
        ensures
            r == text_w(*self, s@, start_col as int),
    {
        let cs = to_chars(s);
        let ghost cl = s@;
        let ghost w = *self;
        // Pure-ASCII printable runs need no segmentation at all.
        let mut i: usize = 0;
        let mut printable = true;
        while i < cs.len()
            invariant
                cs@ == cl,
                i <= cs.len(),
                printable == (forall|j: int| 0 <= j < i ==> 0x20 <= (#[trigger] cl[j]) as u32 && (cl[j] as u32) < 0x7F),
            decreases cs.len() - i,
        {
            let u = cs[i] as u32;
            if !(0x20 <= u && u < 0x7F) {
                printable = false;
            }
            i = i + 1;
        }
        if printable {
            proof {
                lemma_ascii_width(w, cl, 0, start_col as int);
            }
            return cs.len();
        }
        let mut col = start_col;
        // The per-code-point model needs no segmentation: every cluster's
        // advance is the sum of its characters', and a tab is always a cluster
        // of its own, so the running column is the same either way.
        if self.counts_codepoints() {
            let mut i: usize = 0;
            while i < cs.len()
                invariant
                    w == *self,
                    w.codepoints(),
                    cs@ == cl,
                    i <= cs.len(),
                    start_col + cp_text_w(w, cl, 0, start_col as int) <= usize::MAX,
                    start_col <= col,
                    (col - start_col) + cp_text_w(w, cl, i as int, col as int) == cp_text_w(w, cl, 0, start_col as int),
                decreases cs.len() - i,
            {
                let c = cs[i];
                proof {
                    lemma_tab_adv_bound(w, col as int);
                    lemma_char_w_bound(w, c);
                    let a = if c == '\t' {
                        tab_adv(w, col as int)
                    } else {
                        char_w(w, c)
                    };
                    lemma_cp_text_bound(w, cl, i + 1, col + a);
                }
                let a = if c == '\t' {
                    self.tab_advance(col)
                } else {
                    self.of_char(c)
                };
                col = col + a;
                i = i + 1;
            }
            return col - start_col;
        }
        let mut g = Graphemes::new(s);
        loop
            invariant
                w == *self,
                !w.codepoints(),
                g.text() == cl,
                !g.is_legacy(),
                0 <= g.index() <= cl.len(),
                start_col + cl_text_w(w, cl, 0, start_col as int) <= usize::MAX,
                start_col <= col,
                (col - start_col) + cl_text_w(w, cl, g.index(), col as int) == cl_text_w(w, cl, 0, start_col as int),
            ensures
                col - start_col == cl_text_w(w, cl, 0, start_col as int),
            decreases cl.len() - g.index(),
        {
            let ghost k = g.index();
            proof {
                if k < cl.len() {
                    lemma_cluster_bounds(false, cl, k);
                    let e = cluster_end(false, cl, k);
                    lemma_adv_bound(w, cl.subrange(k, e), col as int);
                    let a = adv(w, cl.subrange(k, e), col as int);
                    lemma_cl_text_bound(w, cl, e, col + a);
                }
            }
            match g.next() {
                None => {
                    break;
                },
                Some(cluster) => {
                    let a = self.advance(cluster, col);
                    col = col + a;
                },
            }
        }
        col - start_col
    }

    /// Columns occupied by a string.
    ///
    /// Assumes a single line starting at column 0; split on newlines yourself
    /// if you have more than one. Escape sequences count as zero unless
    /// [`Width::ansi`] is off.
    pub fn of(&self, s: &str) -> (r: usize)
        requires
            width_of(*self, s@) <= usize::MAX,
        ensures
            r == width_of(*self, s@),
    {
        self.of_at(s, 0)
    }

    /// Columns `s` occupies when it starts at column `start`.
    ///
    /// Only tabs make this differ from [`Width::of`], but when they do it
    /// matters: a tab after four characters advances four columns, and the same
    /// tab after eight advances eight.
    pub fn of_at(&self, s: &str, start: usize) -> (r: usize)
        requires
            start + width_at(*self, s@, start as int) <= usize::MAX,
        ensures
            r == width_at(*self, s@, start as int),
    {
        if !self.ansi {
            return self.of_text(s, start);
        }
        let ghost cl = s@;
        let ghost w = *self;
        let mut col = start;
        let mut it = Pieces::new(s);
        loop
            invariant
                w == *self,
                w.ansi_on(),
                it.text() == cl,
                0 <= it.index() <= cl.len(),
                start + pieces_w(w, cl, 0, start as int) <= usize::MAX,
                start <= col,
                (col - start) + pieces_w(w, cl, it.index(), col as int) == pieces_w(w, cl, 0, start as int),
            ensures
                col - start == pieces_w(w, cl, 0, start as int),
            decreases cl.len() - it.index(),
        {
            let ghost k = it.index();
            proof {
                if k < cl.len() {
                    lemma_piece_bounds(cl, k);
                    let e = piece_end(cl, k);
                    lemma_text_bound(w, cl.subrange(k, e), col as int);
                    let a = text_w(w, cl.subrange(k, e), col as int);
                    lemma_pieces_bound(w, cl, e, col as int);
                    lemma_pieces_bound(w, cl, e, col + a);
                }
            }
            match it.next() {
                None => {
                    break;
                },
                Some(p) => {
                    if let Piece::Text(t) = p {
                        let a = self.of_text(t, col);
                        col = col + a;
                    }
                },
            }
        }
        col - start
    }
}


// ---------------------------------------------------------------------------
// Cutting to a budget.

/// Where a cut to `max` columns lands, scanning from character `i` at column
/// `col`: escape sequences (when recognised) are stepped over whole, and each
/// grapheme cluster, segmented afresh from where it starts, is taken only if
/// it still fits.
pub open spec fn trunc_end(w: Width, cs: Seq<char>, i: int, col: int, max: int) -> int
    decreases cs.len() - i,
{
    if !(0 <= i < cs.len()) {
        i
    } else if w.ansi_on() && esc_end(cs, i) is Some {
        let e = esc_end(cs, i)->Some_0;
        if e <= i || e > cs.len() {
            i
        } else {
            trunc_end(w, cs, e, col, max)
        }
    } else {
        let e = i + cluster_end(false, cs.subrange(i, cs.len() as int), 0);
        if e <= i || e > cs.len() {
            i
        } else {
            let a = adv(w, cs.subrange(i, e), col);
            if col + a > max {
                i
            } else {
                trunc_end(w, cs, e, col + a, max)
            }
        }
    }
}

/// The cluster starting at character `i`, segmented from there, stays in the text.
pub proof fn lemma_fresh_cluster(cs: Seq<char>, i: int)
    requires
        0 <= i < cs.len(),
    ensures
        i < i + cluster_end(false, cs.subrange(i, cs.len() as int), 0) <= cs.len(),
        cs.subrange(i, cs.len() as int).subrange(0, cluster_end(false, cs.subrange(i, cs.len() as int), 0))
            == cs.subrange(i, i + cluster_end(false, cs.subrange(i, cs.len() as int), 0)),
{
    let t = cs.subrange(i, cs.len() as int);
    lemma_cluster_bounds(false, t, 0);
    let m = cluster_end(false, t, 0);
    assert(t.subrange(0, m) =~= cs.subrange(i, i + m));
}

/// A cut lands between where the scan starts and the end of the text.
pub proof fn lemma_trunc_bounds(w: Width, cs: Seq<char>, i: int, col: int, max: int)
    requires
        0 <= i <= cs.len(),
    ensures
        i <= trunc_end(w, cs, i, col, max) <= cs.len(),
    decreases cs.len() - i,
{
    if i < cs.len() {
        lemma_esc_bounds(cs, i);
        lemma_fresh_cluster(cs, i);
        if w.ansi_on() && esc_end(cs, i) is Some {
            lemma_trunc_bounds(w, cs, esc_end(cs, i)->Some_0, col, max);
        } else {
            let e = i + cluster_end(false, cs.subrange(i, cs.len() as int), 0);
            let a = adv(w, cs.subrange(i, e), col);
            lemma_trunc_bounds(w, cs, e, col + a, max);
        }
    }
}

impl Width {
    /// The bound `room` on the columns `n` characters can take, if it fits in a `usize`.
    pub fn room_of(&self, n: usize) -> (r: Option<usize>)
        ensures
            r is Some <==> room(*self, n as int) <= usize::MAX,
            r matches Some(v) ==> v == room(*self, n as int),
    {
        let m: usize = if self.tab_stop > 2 {
            self.tab_stop
        } else {
            2
        };
        n.checked_mul(m)
    }
}

impl Width {
    /// Byte offset where an escape sequence at character `k` ends, or `None`
    /// if escapes are not being recognised or none starts there.
    fn escape_at(&self, s: &str, n: usize, pos: usize, Ghost(k): Ghost<int>) -> (r: Option<usize>)
        requires
            at(s, n, pos, k),
            k < s@.len(),
        ensures
            r is Some <==> (self.ansi_on() && esc_end(s@, k) is Some),
            r matches Some(p) ==> at(s, n, p, esc_end(s@, k)->Some_0),
    {
        if self.ansi {
            escape_end(s, n, pos, Ghost(k))
        } else {
            None
        }
    }

    /// Longest prefix of `s` that fits in `max` columns.
    ///
    /// Borrows: no allocation, ever. Cuts only at cluster boundaries and never
    /// inside an escape sequence. Escape sequences already passed are kept,
    /// which means the result can leave styling switched on -- use
    /// [`Width::truncate_ellipsis`] or [`Width::cell`] if you need the reset
    /// handled for you.
    pub fn truncate<'a>(&self, s: &'a str, max: usize) -> (r: &'a str)
        ensures
            r@ == s@.take(trunc_end(*self, s@, 0, 0, max as int)),
            width_of(*self, r@) <= max,
            width_of(*self, s@) <= max ==> r@ == s@,
            r@.len() < s@.len() ==> width_of(
                *self,
                s@.take(r@.len() + cluster_end(false, s@.subrange(r@.len() as int, s@.len() as int), 0)),
            ) > max,
            crate::units::reach(*self, s@, 0, r@.len() as int),
            forall|i: int|
                0 <= i < r@.len() && crate::units::reach(*self, s@, 0, i) ==> #[trigger] crate::units::unit_end(
                    *self,
                    s@,
                    i,
                ) <= r@.len(),
            self.ansi_on() ==> forall|o: int|
                0 <= o < r@.len() && crate::append::piece_reach(s@, 0, o) && crate::ansi::piece_is_escape(s@, o)
                    ==> #[trigger] crate::ansi::piece_end(s@, o) <= r@.len(),
    {
        proof {
            crate::units::lemma_truncate_fits(*self, s@, max as int);
            crate::units::lemma_trunc_units(*self, s@, 0, 0, max as int);
            crate::units::lemma_reach_whole_units(*self, s@, trunc_end(*self, s@, 0, 0, max as int));
            lemma_trunc_bounds(*self, s@, 0, 0, max as int);
            if self.ansi_on() {
                let k = trunc_end(*self, s@, 0, 0, max as int);
                assert forall|o: int|
                    0 <= o < k && crate::append::piece_reach(s@, 0, o) && crate::ansi::piece_is_escape(
                        s@,
                        o,
                    ) implies #[trigger] crate::ansi::piece_end(s@, o) <= k by {
                    crate::units::lemma_pieces_reach(*self, s@, 0, o);
                    assert(crate::units::unit_end(*self, s@, o) == crate::ansi::piece_end(s@, o));
                }
            }
            if width_of(*self, s@) <= max {
                crate::units::lemma_truncate_whole(*self, s@, max as int);
                assert(s@.take(s@.len() as int) =~= s@);
            }
        }
        let ghost cs = s@;
        let ghost w = *self;
        let n = byte_len(s);
        let mut i: usize = 0;
        let mut col: usize = 0;
        let ghost mut k: int = 0;
        proof {
            lemma_boff_mono(cs, 0, cs.len() as int);
        }
        loop
            invariant
                w == *self,
                cs == s@,
                at(s, n, i, k),
                col <= max,
                trunc_end(w, cs, k, col as int, max as int) == trunc_end(w, cs, 0, 0, max as int),
            ensures
                at(s, n, i, k),
                k == trunc_end(w, cs, 0, 0, max as int),
            decreases cs.len() - k,
        {
            proof {
                lemma_at(s, n, i, k);
            }
            if i >= n {
                break;
            }
            proof {
                lemma_esc_bounds(cs, k);
            }
            match self.escape_at(s, n, i, Ghost(k)) {
                Some(p) => {
                    i = p;
                    proof {
                        k = esc_end(cs, k)->Some_0;
                    }
                },
                None => {
                    let rest = suffix(s, i, Ghost(k));
                    // Non-empty by the loop condition, so this always advances.
                    let cluster = first_cluster(rest);
                    let ghost t = rest@;
                    let ghost m = cluster_end(false, t, 0);
                    proof {
                        lemma_fresh_cluster(cs, k);
                        lemma_adv_bound(w, cluster@, col as int);
                    }
                    // A cluster too wide to count cannot fit either.
                    let counted = self.cluster_adv(cluster, col);
                    if counted.is_none() {
                        break;
                    }
                    let a = counted.unwrap();
                    if a > max - col {
                        break;
                    }
                    let l = byte_len(cluster);
                    proof {
                        lemma_boff_skip(cs, k, m);
                        assert(cluster@ =~= t.take(m));
                        assert(cluster@.take(m) =~= cluster@);
                        lemma_boff_mono(cs, k + m, cs.len() as int);
                    }
                    col = col + a;
                    i = i + l;
                    proof {
                        k = k + m;
                    }
                },
            }
        }
        prefix(s, i, Ghost(k))
    }
}

} // verus!
