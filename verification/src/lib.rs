//! Terminal display width that gets emoji, CJK and ANSI colour right.
//!
//! `"👨‍👩‍👧‍👦".len()` is 25. `"👨‍👩‍👧‍👦".chars().count()` is 7. A terminal draws it in **2**
//! columns. Every CLI table, progress bar, box border and status line needs
//! that third number, and getting it wrong is why so much terminal output is
//! subtly ragged.
//!
//! * Widths come from the East Asian Width property of the Unicode Character
//!   Database, version [`UNICODE_VERSION`], in plain sorted tables.
//! * Text is segmented into extended grapheme clusters per UAX #29 -- including
//!   emoji ZWJ sequences, regional indicator flags, skin tone modifiers and
//!   Indic conjuncts -- so a "character" means what a user thinks it means.
//! * Variation selectors are honoured: `❤` is 1 column, `❤️` is 2.
//! * ANSI escape sequences are parsed properly (CSI, OSC, DCS and the 8-bit C1
//!   forms), counted as zero columns, and never cut in half.
//!
//! The free functions use the default [`Width`] policy. Where the answer
//! genuinely depends on the terminal -- East Asian Ambiguous characters, tab
//! stops, how old the emoji font is -- build a [`Width`] instead.
//!
//! Every function here carries its contract: what it returns is stated over
//! the characters of its input (`s@`), and proved.

use vstd::prelude::*;

use std::borrow::Cow;

pub mod ansi;
pub mod append;
pub mod concat;
pub mod compat;
pub mod fit;
pub mod grapheme;
pub mod linebreak;
pub mod measure;
pub mod probe;
pub mod report;
pub mod shift;
pub mod table;
pub mod table_width;
pub mod tables;
pub mod tables_data;
pub mod text;
pub mod units;
pub mod wrap_fit;
pub mod wrap_keep;

pub use crate::ansi::{strip_ansi, Piece, Pieces};
pub use crate::fit::ELLIPSIS;
pub use crate::grapheme::Graphemes;
pub use crate::linebreak::{Break, LineBreaks};
pub use crate::measure::{Ambiguous, Clusters, Control, Width};
pub use crate::table::{Align, Border, Sizing, Table};
pub use crate::tables::UNICODE_VERSION;

verus! {

use crate::ansi::trim_spec;
use crate::fit::{cell_spec, lines_view, pad_spec, pads_left_cleanly, wrap_spec};
use crate::measure::{char_w, trunc_end, width_of};

/// Columns a string occupies in a terminal, under the default policy.
pub fn width(s: &str) -> (r: usize)
    requires
        width_of(Width::standard(), s@) <= usize::MAX,
    ensures
        r == width_of(Width::standard(), s@),
{
    Width::modern().of(s)
}

/// Columns a single `char` occupies, under the default policy.
///
/// Remember that a `char` is not a user-perceived character; prefer [`width`]
/// for real text.
pub fn char_width(c: char) -> (r: usize)
    ensures
        r == char_w(Width::standard(), c),
{
    Width::modern().of_char(c)
}

/// Iterate the extended grapheme clusters of a string (UAX #29).
pub fn graphemes(s: &str) -> (r: Graphemes<'_>)
    ensures
        r.text() == s@,
        r.index() == 0,
        !r.is_legacy(),
{
    Graphemes::new(s)
}

/// Iterate the places a line may be broken (UAX #14).
///
/// Yields byte offsets, so `&s[..offset]` is a complete line. The final offset
/// is always `s.len()`.
pub fn line_breaks(s: &str) -> (r: LineBreaks<'_>)
    ensures
        r.text() == s@,
        r.index() == 0,
        !r.is_done(),
{
    LineBreaks::new(s)
}

/// Split a string into printable text runs and escape sequences.
pub fn pieces(s: &str) -> (r: Pieces<'_>)
    ensures
        r.text() == s@,
        r.index() == 0,
{
    Pieces::new(s)
}

/// Longest prefix of `s` fitting in `max` columns, under the default policy.
///
/// Never allocates and never cuts inside a character or an escape sequence.
pub fn truncate(s: &str, max: usize) -> (r: &str)
    ensures
        r@ == s@.take(trunc_end(Width::standard(), s@, 0, 0, max as int)),
        width_of(Width::standard(), r@) <= max,
        width_of(Width::standard(), s@) <= max ==> r@ == s@,
        crate::units::reach(Width::standard(), s@, 0, r@.len() as int),
        forall|i: int|
            0 <= i < r@.len() && crate::units::reach(Width::standard(), s@, 0, i) ==> #[trigger] crate::units::unit_end(
                Width::standard(),
                s@,
                i,
            ) <= r@.len(),
        forall|o: int|
            0 <= o < r@.len() && crate::append::piece_reach(s@, 0, o) && crate::ansi::piece_is_escape(s@, o)
                ==> #[trigger] crate::ansi::piece_end(s@, o) <= r@.len(),
{
    proof {
        Width::lemma_standard();
    }
    Width::modern().truncate(s, max)
}

/// Fit `s` into exactly `width` columns, truncating with `…` or padding with
/// spaces. The table-cell workhorse.
pub fn cell(s: &str, width: usize) -> (r: Cow<'_, str>)
    requires
        width_of(Width::standard(), s@) <= usize::MAX,
    ensures
        r@ == cell_spec(Width::standard(), s@, width as int),
        width_of(Width::standard(), r@) == width,
{
    Width::modern().cell(s, width)
}

/// Pad `s` with spaces on the right to at least `width` columns.
pub fn pad_end(s: &str, width: usize) -> (r: Cow<'_, str>)
    requires
        width_of(Width::standard(), s@) <= usize::MAX,
    ensures
        r@ == pad_spec(Width::standard(), s@, width as int, crate::fit::Align::Start),
        width_of(Width::standard(), s@) >= width ==> r@ == s@,
        width_of(Width::standard(), r@) >= width,
        width_of(Width::standard(), s@) < width ==> width_of(Width::standard(), r@) == if width_of(
            Width::standard(),
            trim_spec(s@),
        ) >= width {
            width_of(Width::standard(), trim_spec(s@))
        } else {
            width as int
        },
{
    Width::modern().pad_end(s, width)
}

/// Pad `s` with spaces on the left to at least `width` columns.
pub fn pad_start(s: &str, width: usize) -> (r: Cow<'_, str>)
    requires
        width_of(Width::standard(), s@) <= usize::MAX,
        crate::fit::has_tab(trim_spec(s@)) ==> width + crate::units::cap(Width::standard(), trim_spec(s@))
            <= usize::MAX,
    ensures
        r@ == pad_spec(Width::standard(), s@, width as int, crate::fit::Align::End),
        width_of(Width::standard(), s@) >= width ==> r@ == s@,
        width_of(Width::standard(), r@) >= width,
        pads_left_cleanly(Width::standard(), trim_spec(s@), width as int) ==> width_of(
            Width::standard(),
            r@,
        ) == if width_of(Width::standard(), s@) >= width {
            width_of(Width::standard(), s@)
        } else if width_of(Width::standard(), trim_spec(s@)) >= width {
            width_of(Width::standard(), trim_spec(s@))
        } else {
            width as int
        },
{
    Width::modern().pad_start(s, width)
}

/// Break `s` into lines of at most `width` columns, breaking at whitespace.
pub fn wrap(s: &str, width: usize) -> (r: Vec<String>)
    requires
        crate::units::cap(Width::standard(), s@) <= usize::MAX,
    ensures
        lines_view(r@) == wrap_spec(Width::standard(), s@, width as int),
        !crate::ansi::has_esc(s@) && width >= 1 ==> crate::wrap_keep::visible(
            crate::wrap_keep::concat_lines(lines_view(r@)),
        ) == crate::wrap_keep::visible(s@),
        crate::wrap_fit::wrap_clean(s@) ==> forall|i: int|
            0 <= i < r@.len() ==> crate::wrap_fit::line_fits(Width::standard(), #[trigger] lines_view(r@)[i], width as int),
        width >= 1 ==> r@.len() >= 1,
        width >= 1 && crate::wrap_fit::blank(s@) ==> lines_view(r@) == seq![Seq::<char>::empty()],
{
    Width::modern().wrap(s, width)
}

} // verus!
