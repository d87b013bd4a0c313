//! Drop-in replacements for the traits of `unicode-width` and
//! `unicode-segmentation`.
//!
//! Both crates expose their functionality as extension traits on `str` and
//! `char`. The traits here have the same names and the same method signatures,
//! so a crate that uses either can switch by changing an import. The method
//! names are the same; the answers are this crate's: [`UnicodeWidthStr::width`]
//! counts ANSI escape sequences as zero columns, measures whole grapheme
//! clusters, and expands tabs.
//!
//! [`UnicodeWidthChar`] keeps `unicode-width`'s convention of returning `None`
//! for a control character. [`UnicodeSegmentation`] provides the grapheme
//! cluster methods only.

use vstd::prelude::*;

use crate::grapheme::Graphemes;
use crate::measure::{char_w, width_of, Width};
use crate::table::is_cc;
use crate::text::boff;

pub mod private;

verus! {

/// Display width of a string, with the interface of `unicode_width::UnicodeWidthStr`.
pub trait UnicodeWidthStr: private::Sealed {
    /// The characters of the string.
    spec fn text(&self) -> Seq<char>;

    /// Columns the string occupies under the default policy: East Asian
    /// Ambiguous characters are one column wide.
    fn width(&self) -> (r: usize)
        requires
            width_of(Width::standard(), self.text()) <= usize::MAX,
    ;

    /// Columns the string occupies with East Asian Ambiguous characters two
    /// columns wide, as CJK locales expect.
    fn width_cjk(&self) -> (r: usize)
        requires
            width_of(Width::standard_cjk(), self.text()) <= usize::MAX,
    ;
}

impl UnicodeWidthStr for str {
    open spec fn text(&self) -> Seq<char> {
        self@
    }

    fn width(&self) -> (r: usize)
        ensures
            r == width_of(Width::standard(), self@),
    {
        Width::modern().of(self)
    }

    fn width_cjk(&self) -> (r: usize)
        ensures
            r == width_of(Width::standard_cjk(), self@),
    {
        let cjk = Width::modern().ambiguous(crate::measure::Ambiguous::Wide);
        cjk.of(self)
    }
}

/// Display width of a `char`, with the interface of `unicode_width::UnicodeWidthChar`.
///
/// A `char` is not a user-perceived character; prefer [`UnicodeWidthStr`] for
/// real text.
pub trait UnicodeWidthChar: private::Sealed {
    /// Columns the character occupies, or `None` if it is a control character.
    /// East Asian Ambiguous characters are one column wide.
    fn width(self) -> Option<usize>;

    /// Columns the character occupies, or `None` if it is a control character.
    /// East Asian Ambiguous characters are two columns wide.
    fn width_cjk(self) -> Option<usize>;
}

impl UnicodeWidthChar for char {
    fn width(self) -> (r: Option<usize>)
        ensures
            r == (if is_cc(self) {
                None
            } else {
                Some(char_w(Width::standard(), self) as usize)
            }),
    {
        let u = self as u32;
        if u <= 0x1F || (0x7F <= u && u <= 0x9F) {
            None
        } else {
            Some(Width::modern().of_char(self))
        }
    }

    fn width_cjk(self) -> (r: Option<usize>)
        ensures
            r == (if is_cc(self) {
                None
            } else {
                Some(char_w(Width::standard_cjk(), self) as usize)
            }),
    {
        let u = self as u32;
        if u <= 0x1F || (0x7F <= u && u <= 0x9F) {
            None
        } else {
            let cjk = Width::modern().ambiguous(crate::measure::Ambiguous::Wide);
            Some(cjk.of_char(self))
        }
    }
}

/// Grapheme cluster iteration, with the interface of
/// `unicode_segmentation::UnicodeSegmentation`.
pub trait UnicodeSegmentation: private::Sealed {
    /// Iterate the grapheme clusters of the string (UAX #29).
    ///
    /// `is_extended` selects extended clusters, which is what every other
    /// function in this crate uses and what a user perceives as a character.
    /// `false` selects legacy clusters, which do not apply rules GB9a, GB9b
    /// and GB9c: spacing marks, prepended characters and Indic conjuncts each
    /// stand alone.
    fn graphemes(&self, is_extended: bool) -> Graphemes<'_>;

    /// Like [`graphemes`](Self::graphemes), yielding each cluster with its
    /// byte offset.
    fn grapheme_indices(&self, is_extended: bool) -> GraphemeIndices<'_>;
}

impl UnicodeSegmentation for str {
    fn graphemes(&self, is_extended: bool) -> (r: Graphemes<'_>)
        ensures
            r.text() == self@,
            r.index() == 0,
            r.is_legacy() == !is_extended,
    {
        if is_extended {
            Graphemes::new(self)
        } else {
            Graphemes::new_legacy(self)
        }
    }

    fn grapheme_indices(&self, is_extended: bool) -> (r: GraphemeIndices<'_>)
        ensures
            r.text() == self@,
            r.index() == 0,
            r.is_legacy() == !is_extended,
    {
        let inner = self.graphemes(is_extended);
        proof {
            crate::text::lemma_boff_mono(self@, 0, 0);
        }
        let n = crate::text::byte_len(self);
        GraphemeIndices { inner, pos: 0, n }
    }
}

/// Iterator over `(byte offset, cluster)` pairs.
///
/// Created by [`UnicodeSegmentation::grapheme_indices`].
pub struct GraphemeIndices<'a> {
    inner: Graphemes<'a>,
    pos: usize,
    /// Byte length of the whole text.
    n: usize,
}

impl<'a> GraphemeIndices<'a> {
    #[verifier::type_invariant]
    spec fn wf(self) -> bool {
        &&& 0 <= self.inner.index() <= self.inner.text().len()
        &&& self.pos == boff(self.inner.text(), self.inner.index())
        &&& self.n == boff(self.inner.text(), self.inner.text().len() as int)
    }

    /// The text being segmented.
    pub closed spec fn text(self) -> Seq<char> {
        self.inner.text()
    }

    /// Index of the character the next cluster starts at.
    pub closed spec fn index(self) -> int {
        self.inner.index()
    }

    /// Whether these are legacy clusters.
    pub closed spec fn is_legacy(self) -> bool {
        self.inner.is_legacy()
    }

    /// A copy of this iterator, at the same position.
    pub fn clone(&self) -> (r: Self)
        ensures
            r.text() == self.text(),
            r.index() == self.index(),
            r.is_legacy() == self.is_legacy(),
    {
        proof {
            use_type_invariant(self);
        }
        GraphemeIndices { inner: self.inner.clone(), pos: self.pos, n: self.n }
    }

    /// The next cluster and the byte offset it starts at.
    pub fn next(&mut self) -> (r: Option<(usize, &'a str)>)
        ensures
            final(self).text() == old(self).text(),
            final(self).is_legacy() == old(self).is_legacy(),
            0 <= old(self).index() <= old(self).text().len(),
            old(self).index() == old(self).text().len() ==> r is None && final(self).index()
                == old(self).index(),
            old(self).index() < old(self).text().len() ==> ({
                let cs = old(self).text();
                let k = old(self).index();
                let e = crate::grapheme::cluster_end(old(self).is_legacy(), cs, k);
                &&& r matches Some((at, g)) && at == boff(cs, k) && g@ == cs.subrange(k, e)
                &&& final(self).index() == e
            }),
    {
        proof {
            use_type_invariant(&*self);
        }
        let ghost cs = self.inner.text();
        let ghost k = self.inner.index();
        let ghost legacy = self.inner.is_legacy();
        let mut inner = self.inner.clone();
        let cluster = inner.next();
        match cluster {
            None => None,
            Some(c) => {
                let at = self.pos;
                let ghost e = inner.index();
                proof {
                    crate::grapheme::lemma_cluster_bounds(legacy, cs, k);
                    crate::text::lemma_encode_subrange(cs, k, e);
                    crate::text::lemma_boff_mono(cs, e, cs.len() as int);
                    assert(c@.take(c@.len() as int) =~= c@);
                }
                let l = crate::text::byte_len(c);
                proof {
                    assert(c@ == cs.subrange(k, e));
                    crate::text::lemma_boff_len(cs);
                    crate::text::lemma_boff_len(c@);
                }
                let pos = at + l;
                *self = GraphemeIndices { inner, pos, n: self.n };
                Some((at, c))
            },
        }
    }

    /// Bounds on the number of clusters left.
    pub fn size_hint(&self) -> (r: (usize, Option<usize>))
        ensures
            0 <= self.index() <= self.text().len(),
            r.0 == (if self.index() < self.text().len() { 1usize } else { 0usize }),
            r.1 == Some((boff(self.text(), self.text().len() as int) - boff(self.text(), self.index())) as usize),
    {
        proof {
            use_type_invariant(self);
        }
        self.inner.size_hint()
    }
}

} // verus!
