//! Grapheme cluster segmentation (UAX #29, extended grapheme clusters).
//!
//! A "character" as a user thinks of it is a grapheme cluster, not a `char`.
//! `é` may be two `char`s, a flag is two, and a family emoji is seven. Width,
//! truncation and cursor movement all have to work in clusters or they produce
//! mojibake.

use vstd::prelude::*;

use crate::ansi::at;
use crate::ansi::lemma_at;
use crate::tables::{gcb_code, lookup};
use crate::text::{boff, byte_len, char_at, lemma_boff_mono, slice};

verus! {

/// Grapheme_Cluster_Break property values, plus the refinements UAX #29 needs
/// for emoji (`ExtPict`) and Indic conjuncts (`InCB*`).
#[derive(Clone, Copy, PartialEq, Eq, Debug, Structural)]
pub enum Gcb {
    Other,
    Cr,
    Lf,
    Control,
    Extend,
    Zwj,
    RegionalIndicator,
    Prepend,
    SpacingMark,
    L,
    V,
    T,
    Lv,
    Lvt,
    ExtPict,
    InCBLinker,
    InCBConsonant,
    InCBExtend,
}

/// The value a table code stands for; codes past the end mean `Other`.
pub open spec fn gcb_from(code: u8) -> Gcb {
    if code == 1 { Gcb::Cr }
    else if code == 2 { Gcb::Lf }
    else if code == 3 { Gcb::Control }
    else if code == 4 { Gcb::Extend }
    else if code == 5 { Gcb::Zwj }
    else if code == 6 { Gcb::RegionalIndicator }
    else if code == 7 { Gcb::Prepend }
    else if code == 8 { Gcb::SpacingMark }
    else if code == 9 { Gcb::L }
    else if code == 10 { Gcb::V }
    else if code == 11 { Gcb::T }
    else if code == 12 { Gcb::Lv }
    else if code == 13 { Gcb::Lvt }
    else if code == 14 { Gcb::ExtPict }
    else if code == 15 { Gcb::InCBLinker }
    else if code == 16 { Gcb::InCBConsonant }
    else if code == 17 { Gcb::InCBExtend }
    else { Gcb::Other }
}

/// Grapheme_Cluster_Break value of a character.
pub open spec fn gcb_of(c: char) -> Gcb {
    gcb_from(gcb_code(c))
}

/// GB9: characters that glue themselves to whatever came before.
pub open spec fn extend_like(g: Gcb) -> bool {
    g == Gcb::Extend || g == Gcb::InCBExtend || g == Gcb::InCBLinker || g == Gcb::Zwj
}

/// InCB=Extend for GB9c. ZWJ carries InCB=Extend even though its
/// Grapheme_Cluster_Break value is ZWJ.
pub open spec fn incb_extend(g: Gcb) -> bool {
    g == Gcb::InCBExtend || g == Gcb::InCBLinker || g == Gcb::Zwj
}

impl Gcb {
    /// GB9: characters that glue themselves to whatever came before.
    pub fn is_extend_like(self) -> (r: bool)
        ensures
            r == extend_like(self),
    {
        matches!(self, Gcb::Extend | Gcb::InCBExtend | Gcb::InCBLinker | Gcb::Zwj)
    }

    /// InCB=Extend for GB9c.
    pub fn is_incb_extend(self) -> (r: bool)
        ensures
            r == incb_extend(self),
    {
        matches!(self, Gcb::InCBExtend | Gcb::InCBLinker | Gcb::Zwj)
    }
}

/// The Grapheme_Cluster_Break value of a character.
pub fn gcb(c: char) -> (r: Gcb)
    ensures
        r == gcb_of(c),
{
    let code = lookup(c).1;
    if code == 1 { Gcb::Cr }
    else if code == 2 { Gcb::Lf }
    else if code == 3 { Gcb::Control }
    else if code == 4 { Gcb::Extend }
    else if code == 5 { Gcb::Zwj }
    else if code == 6 { Gcb::RegionalIndicator }
    else if code == 7 { Gcb::Prepend }
    else if code == 8 { Gcb::SpacingMark }
    else if code == 9 { Gcb::L }
    else if code == 10 { Gcb::V }
    else if code == 11 { Gcb::T }
    else if code == 12 { Gcb::Lv }
    else if code == 13 { Gcb::Lvt }
    else if code == 14 { Gcb::ExtPict }
    else if code == 15 { Gcb::InCBLinker }
    else if code == 16 { Gcb::InCBConsonant }
    else if code == 17 { Gcb::InCBExtend }
    else { Gcb::Other }
}

/// Incremental UAX #29 boundary detection.
///
/// Rules GB1-GB999. The three rules that need memory rather than just the
/// adjacent pair are tracked as flags: GB11 (emoji ZWJ sequences), GB12/13
/// (regional indicator pairs) and GB9c (Indic conjuncts). Only the parity of
/// the run of regional indicators matters, so that is what is kept.
#[derive(Clone, Copy, PartialEq, Eq, Debug)]
pub struct Breaker {
    pub prev: Option<Gcb>,
    /// An odd number of unbroken regional indicators sits immediately behind us.
    pub ri_odd: bool,
    /// We are inside `ExtPict Extend*`, so a following ZWJ can join (GB11).
    pub pict_seq: bool,
    /// Seen InCB=Consonant, then only InCB=Extend/Linker since (GB9c).
    pub incb_consonant: bool,
    /// ...and at least one of them was a Linker.
    pub incb_linker: bool,
    /// Legacy grapheme clusters: GB9a, GB9b and GB9c do not apply.
    pub legacy: bool,
}

/// A breaker that has seen nothing yet.
pub open spec fn breaker_init(legacy: bool) -> Breaker {
    Breaker {
        prev: None,
        ri_odd: false,
        pict_seq: false,
        incb_consonant: false,
        incb_linker: false,
        legacy,
    }
}

/// Whether there is a boundary between a character of class `l` and one of
/// class `r`, given what came before.
pub open spec fn decide_spec(b: Breaker, l: Gcb, r: Gcb) -> bool {
    if l == Gcb::Cr && r == Gcb::Lf {
        false
    } else if l == Gcb::Cr || l == Gcb::Lf || l == Gcb::Control || r == Gcb::Cr || r == Gcb::Lf
        || r == Gcb::Control {
        true
    } else if l == Gcb::L && (r == Gcb::L || r == Gcb::V || r == Gcb::Lv || r == Gcb::Lvt) {
        false
    } else if (l == Gcb::Lv || l == Gcb::V) && (r == Gcb::V || r == Gcb::T) {
        false
    } else if (l == Gcb::Lvt || l == Gcb::T) && r == Gcb::T {
        false
    } else if extend_like(r) {
        false
    } else if !b.legacy && (r == Gcb::SpacingMark || l == Gcb::Prepend) {
        false
    } else if !b.legacy && r == Gcb::InCBConsonant && b.incb_consonant && b.incb_linker {
        false
    } else if l == Gcb::Zwj && b.pict_seq && r == Gcb::ExtPict {
        false
    } else if l == Gcb::RegionalIndicator && r == Gcb::RegionalIndicator && b.ri_odd {
        false
    } else {
        true
    }
}

/// The state after a character of class `r`, with `brk` saying whether a
/// boundary fell before it.
pub open spec fn advance_spec(b: Breaker, r: Gcb, brk: bool) -> Breaker {
    let ri_odd = if r == Gcb::RegionalIndicator {
        if brk {
            true
        } else {
            !b.ri_odd
        }
    } else {
        false
    };
    let pict_seq = if r == Gcb::ExtPict {
        true
    } else if !extend_like(r) {
        false
    } else {
        b.pict_seq
    };
    let (incb_consonant, incb_linker) = if r == Gcb::InCBConsonant {
        (true, false)
    } else if r == Gcb::InCBLinker {
        (b.incb_consonant, if b.incb_consonant { true } else { b.incb_linker })
    } else if !incb_extend(r) {
        (false, false)
    } else {
        (b.incb_consonant, b.incb_linker)
    };
    Breaker { prev: Some(r), ri_odd, pict_seq, incb_consonant, incb_linker, legacy: b.legacy }
}

/// Feed one character of class `r`: the new state, and whether a boundary
/// falls before the character.
pub open spec fn step(b: Breaker, r: Gcb) -> (Breaker, bool) {
    let brk = match b.prev {
        None => true,
        Some(l) => decide_spec(b, l, r),
    };
    (advance_spec(b, r, brk), brk)
}

impl Breaker {
    /// A breaker for extended grapheme clusters.
    pub fn new() -> (r: Self)
        ensures
            r == breaker_init(false),
    {
        Breaker {
            prev: None,
            ri_odd: false,
            pict_seq: false,
            incb_consonant: false,
            incb_linker: false,
            legacy: false,
        }
    }

    /// A breaker for legacy (non-extended) grapheme clusters.
    pub fn legacy() -> (r: Self)
        ensures
            r == breaker_init(true),
    {
        Breaker {
            prev: None,
            ri_odd: false,
            pict_seq: false,
            incb_consonant: false,
            incb_linker: false,
            legacy: true,
        }
    }

    /// Feed the next character; returns `true` if a cluster boundary falls
    /// *before* it.
    pub fn is_boundary(&mut self, c: char) -> (r: bool)
        ensures
            (*final(self), r) == step(*old(self), gcb_of(c)),
    {
        let right = gcb(c);
        let brk = match self.prev {
            None => true,
            Some(left) => self.decide(left, right),
        };
        self.advance(right, brk);
        brk
    }

    fn decide(&self, l: Gcb, r: Gcb) -> (res: bool)
        ensures
            res == decide_spec(*self, l, r),
    {
        // GB3, GB4, GB5: control characters stand alone, but CR LF is one.
        if l == Gcb::Cr && r == Gcb::Lf {
            return false;
        }
        if matches!(l, Gcb::Cr | Gcb::Lf | Gcb::Control) || matches!(r, Gcb::Cr | Gcb::Lf | Gcb::Control) {
            return true;
        }
        // GB6, GB7, GB8: Hangul syllable composition.
        if l == Gcb::L && matches!(r, Gcb::L | Gcb::V | Gcb::Lv | Gcb::Lvt) {
            return false;
        }
        if matches!(l, Gcb::Lv | Gcb::V) && matches!(r, Gcb::V | Gcb::T) {
            return false;
        }
        if matches!(l, Gcb::Lvt | Gcb::T) && r == Gcb::T {
            return false;
        }
        // GB9: extenders and ZWJ never start a cluster.
        if r.is_extend_like() {
            return false;
        }
        // GB9a, GB9b and GB9c only apply to extended clusters.
        if !self.legacy {
            if r == Gcb::SpacingMark || l == Gcb::Prepend {
                return false;
            }
            // GB9c: consonant + linker + consonant is one Indic conjunct.
            if r == Gcb::InCBConsonant && self.incb_consonant && self.incb_linker {
                return false;
            }
        }
        // GB11: emoji ZWJ sequence, e.g. the family emoji.
        if l == Gcb::Zwj && self.pict_seq && r == Gcb::ExtPict {
            return false;
        }
        // GB12, GB13: regional indicators pair up into flags.
        if l == Gcb::RegionalIndicator && r == Gcb::RegionalIndicator && self.ri_odd {
            return false;
        }
        true  // GB999
    }

    fn advance(&mut self, r: Gcb, brk: bool)
        ensures
            *final(self) == advance_spec(*old(self), r, brk),
    {
        self.ri_odd = if r == Gcb::RegionalIndicator {
            if brk {
                true
            } else {
                !self.ri_odd
            }
        } else {
            false
        };
        if r == Gcb::ExtPict {
            self.pict_seq = true;
        } else if !r.is_extend_like() {
            self.pict_seq = false;
        }
        if r == Gcb::InCBConsonant {
            self.incb_consonant = true;
            self.incb_linker = false;
        } else if r == Gcb::InCBLinker {
            if self.incb_consonant {
                self.incb_linker = true;
            }
        } else if !r.is_incb_extend() {
            self.incb_consonant = false;
            self.incb_linker = false;
        }
        self.prev = Some(r);
    }
}

// ---------------------------------------------------------------------------
// Segmentation of a whole text.

/// The breaker's state after the first `n` characters of `cs`.
pub open spec fn run_state(legacy: bool, cs: Seq<char>, n: int) -> Breaker
    decreases n,
{
    if n <= 0 {
        breaker_init(legacy)
    } else {
        step(run_state(legacy, cs, n - 1), gcb_of(cs[n - 1])).0
    }
}

/// Whether a cluster boundary falls before character `j`.
pub open spec fn is_break(legacy: bool, cs: Seq<char>, j: int) -> bool {
    step(run_state(legacy, cs, j), gcb_of(cs[j])).1
}

/// The first boundary at or after `j`, or the end.
pub open spec fn next_break(legacy: bool, cs: Seq<char>, j: int) -> int
    decreases cs.len() - j,
{
    if !(0 <= j < cs.len()) {
        cs.len() as int
    } else if is_break(legacy, cs, j) {
        j
    } else {
        next_break(legacy, cs, j + 1)
    }
}

/// Where the cluster starting at `k` ends.
pub open spec fn cluster_end(legacy: bool, cs: Seq<char>, k: int) -> int {
    next_break(legacy, cs, k + 1)
}

/// The clusters from `k` on, as (start, end).
pub open spec fn clusters_from(legacy: bool, cs: Seq<char>, k: int) -> Seq<(int, int)>
    decreases cs.len() - k,
{
    if !(0 <= k < cs.len()) {
        seq![]
    } else {
        let e = cluster_end(legacy, cs, k);
        if e <= k || e > cs.len() {
            seq![]
        } else {
            seq![(k, e)] + clusters_from(legacy, cs, e)
        }
    }
}

/// The text of the stretches `rs` of `cs`, one after another.
pub open spec fn ranges_text(cs: Seq<char>, rs: Seq<(int, int)>) -> Seq<char>
    decreases rs.len(),
{
    if rs.len() == 0 {
        seq![]
    } else {
        cs.subrange(rs[0].0, rs[0].1) + ranges_text(cs, rs.drop_first())
    }
}

/// The clusters from `k` on, put back together, are the text from `k` on:
/// segmenting loses nothing and repeats nothing.
pub proof fn lemma_clusters_cover(legacy: bool, cs: Seq<char>, k: int)
    requires
        0 <= k <= cs.len(),
    ensures
        ranges_text(cs, clusters_from(legacy, cs, k)) == cs.subrange(k, cs.len() as int),
    decreases cs.len() - k,
{
    if k < cs.len() {
        lemma_cluster_bounds(legacy, cs, k);
        let e = cluster_end(legacy, cs, k);
        lemma_clusters_cover(legacy, cs, e);
        let rs = clusters_from(legacy, cs, k);
        assert(rs.drop_first() =~= clusters_from(legacy, cs, e));
        assert(cs.subrange(k, e) + cs.subrange(e, cs.len() as int) =~= cs.subrange(k, cs.len() as int));
    } else {
        assert(cs.subrange(k, cs.len() as int) =~= Seq::<char>::empty());
    }
}

/// Bounds of `next_break`, and the fact that nothing before it breaks.
pub proof fn lemma_next_break(legacy: bool, cs: Seq<char>, j: int)
    requires
        0 <= j <= cs.len(),
    ensures
        j <= next_break(legacy, cs, j) <= cs.len(),
        forall|m: int| j <= m < next_break(legacy, cs, j) ==> !is_break(legacy, cs, m),
        next_break(legacy, cs, j) < cs.len() ==> is_break(legacy, cs, next_break(legacy, cs, j)),
    decreases cs.len() - j,
{
    if j < cs.len() && !is_break(legacy, cs, j) {
        lemma_next_break(legacy, cs, j + 1);
    }
}

/// A cluster holds at least one character and stays in the text.
pub proof fn lemma_cluster_bounds(legacy: bool, cs: Seq<char>, k: int)
    requires
        0 <= k < cs.len(),
    ensures
        k < cluster_end(legacy, cs, k) <= cs.len(),
{
    lemma_next_break(legacy, cs, k + 1);
}

/// Joining clusters gives back the text.
pub open spec fn join_clusters(cs: Seq<char>, ps: Seq<(int, int)>) -> Seq<char>
    decreases ps.len(),
{
    if ps.len() == 0 {
        seq![]
    } else {
        cs.subrange(ps[0].0, ps[0].1) + join_clusters(cs, ps.drop_first())
    }
}

/// Segmentation loses nothing and makes no empty cluster: the clusters,
/// joined, are the input, and each holds at least one character.
pub proof fn lemma_clusters_lossless(legacy: bool, cs: Seq<char>, k: int)
    requires
        0 <= k <= cs.len(),
    ensures
        join_clusters(cs, clusters_from(legacy, cs, k)) == cs.subrange(k, cs.len() as int),
        forall|i: int|
            0 <= i < clusters_from(legacy, cs, k).len() ==> #[trigger] clusters_from(legacy, cs, k)[i].0
                < clusters_from(legacy, cs, k)[i].1,
    decreases cs.len() - k,
{
    if k == cs.len() {
        assert(cs.subrange(k, cs.len() as int) =~= Seq::<char>::empty());
    } else {
        lemma_cluster_bounds(legacy, cs, k);
        let e = cluster_end(legacy, cs, k);
        lemma_clusters_lossless(legacy, cs, e);
        let ps = clusters_from(legacy, cs, k);
        assert(ps.drop_first() =~= clusters_from(legacy, cs, e));
        assert(cs.subrange(k, cs.len() as int) =~= cs.subrange(k, e) + cs.subrange(e, cs.len() as int));
        assert forall|i: int| 0 <= i < ps.len() implies #[trigger] ps[i].0 < ps[i].1 by {
            if i > 0 {
                assert(ps[i] == clusters_from(legacy, cs, e)[i - 1]);
            }
        }
    }
}

/// Iterator over the grapheme clusters of a string, yielded as subslices.
///
/// Created by [`graphemes`](crate::graphemes).
pub struct Graphemes<'a> {
    s: &'a str,
    n: usize,
    /// Byte offset of the start of the cluster being accumulated.
    start: usize,
    /// Byte offset of the next character to inspect.
    pos: usize,
    breaker: Breaker,
    ks: Ghost<int>,
    kp: Ghost<int>,
}

impl<'a> Graphemes<'a> {
    #[verifier::type_invariant]
    spec fn wf(self) -> bool {
        &&& at(self.s, self.n, self.start, self.ks@)
        &&& at(self.s, self.n, self.pos, self.kp@)
        &&& self.ks@ <= self.kp@
        &&& self.breaker == run_state(self.breaker.legacy, self.s@, self.kp@)
        &&& forall|j: int| self.ks@ < j < self.kp@ ==> !is_break(self.breaker.legacy, self.s@, j)
    }

    /// The text being segmented.
    pub closed spec fn text(self) -> Seq<char> {
        self.s@
    }

    /// Index of the character the next cluster starts at.
    pub closed spec fn index(self) -> int {
        self.ks@
    }

    /// Whether these are legacy clusters.
    pub closed spec fn is_legacy(self) -> bool {
        self.breaker.legacy
    }

    fn with(s: &'a str, breaker: Breaker) -> (r: Self)
        requires
            breaker.prev is None && !breaker.ri_odd && !breaker.pict_seq && !breaker.incb_consonant
                && !breaker.incb_linker,
        ensures
            r.text() == s@,
            r.index() == 0,
            r.is_legacy() == breaker.legacy,
    {
        let n = byte_len(s);
        proof {
            lemma_boff_mono(s@, 0, s@.len() as int);
        }
        Graphemes { s, n, start: 0, pos: 0, breaker, ks: Ghost(0), kp: Ghost(0) }
    }

    /// Extended grapheme clusters of `s`.
    pub fn new(s: &'a str) -> (r: Self)
        ensures
            r.text() == s@,
            r.index() == 0,
            !r.is_legacy(),
    {
        Self::with(s, Breaker::new())
    }

    /// Legacy (non-extended) grapheme clusters, for the compatibility shim.
    pub fn new_legacy(s: &'a str) -> (r: Self)
        ensures
            r.text() == s@,
            r.index() == 0,
            r.is_legacy(),
    {
        Self::with(s, Breaker::legacy())
    }

    /// A copy of this iterator, at the same position.
    pub fn clone(&self) -> (r: Self)
        ensures
            r.text() == self.text(),
            r.index() == self.index(),
            r.is_legacy() == self.is_legacy(),
    {
        proof {
            use_type_invariant(self);
        }
        Graphemes {
            s: self.s,
            n: self.n,
            start: self.start,
            pos: self.pos,
            breaker: self.breaker,
            ks: self.ks,
            kp: self.kp,
        }
    }

    /// The part of the input not yet returned, including any partially
    /// accumulated cluster.
    pub fn remainder(&self) -> (r: &'a str)
        ensures
            0 <= self.index() <= self.text().len(),
            r@ == self.text().subrange(self.index(), self.text().len() as int),
    {
        proof {
            use_type_invariant(self);
        }
        crate::text::suffix(self.s, self.start, Ghost(self.ks@))
    }

    /// Bounds on the number of clusters left: at least one if any text is
    /// left, at most one per byte.
    pub fn size_hint(&self) -> (r: (usize, Option<usize>))
        ensures
            0 <= self.index() <= self.text().len(),
            r.0 == (if self.index() < self.text().len() { 1usize } else { 0usize }),
            r.1 == Some((boff(self.text(), self.text().len() as int) - boff(self.text(), self.index())) as usize),
    {
        proof {
            use_type_invariant(self);
            lemma_at(self.s, self.n, self.start, self.ks@);
        }
        let bytes = self.n - self.start;
        (if bytes != 0 { 1 } else { 0 }, Some(bytes))
    }

    /// The next cluster.
    pub fn next(&mut self) -> (r: Option<&'a str>)
        ensures
            final(self).text() == old(self).text(),
            final(self).is_legacy() == old(self).is_legacy(),
            0 <= old(self).index() <= old(self).text().len(),
            old(self).index() == old(self).text().len() ==> r is None && final(self).index()
                == old(self).index(),
            old(self).index() < old(self).text().len() ==> ({
                let cs = old(self).text();
                let k = old(self).index();
                &&& r matches Some(g) && g@ == cs.subrange(k, cluster_end(old(self).is_legacy(), cs, k))
                &&& final(self).index() == cluster_end(old(self).is_legacy(), cs, k)
            }),
            0 <= final(self).index() <= final(self).text().len(),
    {
        proof {
            use_type_invariant(&*self);
            lemma_at(self.s, self.n, self.start, self.ks@);
        }
        let s = self.s;
        let n = self.n;
        let start = self.start;
        let ghost ks = self.ks@;
        let ghost legacy = self.breaker.legacy;
        let ghost cs = s@;
        if start >= n {
            return None;
        }
        let mut pos = self.pos;
        let ghost mut kp = self.kp@;
        let mut breaker = self.breaker;
        let mut end = n;
        let mut next_pos = n;
        let ghost mut ke = cs.len() as int;
        loop
            invariant_except_break
                at(s, n, pos, kp),
                forall|j: int| ks < j < kp ==> !is_break(legacy, cs, j),
            invariant
                cs == s@,
                at(s, n, start, ks),
                ks <= kp,
                ks < cs.len(),
                breaker.legacy == legacy,
                breaker == run_state(legacy, cs, kp),
            ensures
                ks < ke <= cs.len(),
                at(s, n, end, ke),
                ke == next_break(legacy, cs, ks + 1),
                ke < cs.len() ==> kp == ke + 1 && at(s, n, next_pos, kp) && breaker == run_state(legacy, cs, kp),
                ke == cs.len() ==> next_pos == n && kp == cs.len() && breaker == run_state(legacy, cs, kp),
                breaker.legacy == legacy,
            decreases cs.len() - kp,
        {
            proof {
                lemma_at(s, n, pos, kp);
            }
            if pos >= n {
                proof {
                    lemma_next_break_at(legacy, cs, ks + 1, cs.len() as int);
                }
                end = n;
                next_pos = n;
                proof {
                    ke = cs.len() as int;
                }
                break;
            }
            proof {
                lemma_boff_mono(cs, kp + 1, cs.len() as int);
            }
            let at = pos;
            let (c, l) = char_at(s, pos, Ghost(kp));
            let brk = breaker.is_boundary(c);
            if brk && at > start {
                proof {
                    if kp == ks {
                        assert(false);
                    }
                    lemma_next_break_at(legacy, cs, ks + 1, kp);
                }
                end = at;
                next_pos = at + l;
                proof {
                    ke = kp;
                    kp = kp + 1;
                }
                break;
            }
            proof {
                if kp > ks {
                    lemma_boff_mono(cs, ks, kp);
                }
                if kp > ks && brk {
                    assert(false);
                }
            }
            pos = at + l;
            proof {
                kp = kp + 1;
            }
        }
        let cluster = slice(s, start, end, Ghost(ks), Ghost(ke));
        proof {
            lemma_next_break(legacy, cs, ks + 1);
        }
        *self = Graphemes { s, n, start: end, pos: next_pos, breaker, ks: Ghost(ke), kp: Ghost(kp) };
        Some(cluster)
    }
}

/// If nothing from `j` up to `m` breaks, and `m` is a break or the end, then
/// the next break from `j` is `m`.
pub proof fn lemma_next_break_at(legacy: bool, cs: Seq<char>, j: int, m: int)
    requires
        0 <= j <= m <= cs.len(),
        forall|i: int| j <= i < m ==> !is_break(legacy, cs, i),
        m == cs.len() || is_break(legacy, cs, m),
    ensures
        next_break(legacy, cs, j) == m,
    decreases m - j,
{
    if j < m {
        lemma_next_break_at(legacy, cs, j + 1, m);
    }
}

/// First grapheme cluster of a string, or `""` if it is empty.
pub fn first_cluster(s: &str) -> (r: &str)
    ensures
        s@.len() == 0 ==> r@.len() == 0,
        s@.len() > 0 ==> r@ == s@.subrange(0, cluster_end(false, s@, 0)),
{
    let mut g = Graphemes::new(s);
    match g.next() {
        Some(c) => c,
        None => {
            let e = "";
            proof {
                reveal_strlit("");
            }
            e
        },
    }
}

/// Whether a character of this class attaches itself to whatever precedes it.
pub open spec fn attaches(g: Gcb) -> bool {
    g == Gcb::Extend || g == Gcb::SpacingMark || g == Gcb::Zwj || g == Gcb::InCBExtend || g
        == Gcb::InCBLinker || g == Gcb::V || g == Gcb::T
}

/// Whether this character would attach itself to whatever precedes it.
///
/// A cell or field beginning with one of these is not self-contained: it will
/// merge into the border or padding drawn before it and quietly cost a column.
pub fn attaches_to_previous(c: char) -> (r: bool)
    ensures
        r == attaches(gcb_of(c)),
{
    matches!(gcb(c), Gcb::Extend | Gcb::SpacingMark | Gcb::Zwj | Gcb::InCBExtend | Gcb::InCBLinker | Gcb::V | Gcb::T)
}

// ---------------------------------------------------------------------------
// Segmenting a prefix, and segmenting afresh from a boundary.

/// The state after `n` characters depends only on those characters.
pub proof fn lemma_run_state_prefix(legacy: bool, cs: Seq<char>, k: int, n: int)
    requires
        0 <= n <= k <= cs.len(),
    ensures
        run_state(legacy, cs.take(k), n) == run_state(legacy, cs, n),
    decreases n,
{
    if n > 0 {
        lemma_run_state_prefix(legacy, cs, k, n - 1);
    }
}

/// Boundaries before the cut are the same in a prefix as in the whole.
pub proof fn lemma_is_break_prefix(legacy: bool, cs: Seq<char>, k: int, j: int)
    requires
        0 <= j < k <= cs.len(),
    ensures
        is_break(legacy, cs.take(k), j) == is_break(legacy, cs, j),
{
    lemma_run_state_prefix(legacy, cs, k, j);
}

/// In a prefix, the next boundary is the whole text's, or the cut.
pub proof fn lemma_next_break_prefix(legacy: bool, cs: Seq<char>, k: int, j: int)
    requires
        0 <= j <= k <= cs.len(),
    ensures
        next_break(legacy, cs.take(k), j) == if next_break(legacy, cs, j) < k {
            next_break(legacy, cs, j)
        } else {
            k
        },
    decreases k - j,
{
    lemma_next_break(legacy, cs, j);
    if j < k {
        lemma_is_break_prefix(legacy, cs, k, j);
        if !is_break(legacy, cs, j) {
            lemma_next_break_prefix(legacy, cs, k, j + 1);
        }
    }
}

/// After a boundary, the state depends only on the character at it.
pub proof fn lemma_state_after_break(cs: Seq<char>, i: int)
    requires
        0 <= i < cs.len(),
        i == 0 || is_break(false, cs, i),
    ensures
        run_state(false, cs, i + 1) == step(breaker_init(false), gcb_of(cs[i])).0,
{
    let r = gcb_of(cs[i]);
    assert(run_state(false, cs, 0) == breaker_init(false));
    if i > 0 {
        lemma_run_state_prev(false, cs, i);
        let b = run_state(false, cs, i);
        let l = gcb_of(cs[i - 1]);
        assert(b.prev == Some(l));
        assert(b == step(run_state(false, cs, i - 1), l).0);
        assert(step(b, r).1);
        if extend_like(r) {
            // A boundary before a joining character only follows a control.
            assert(l == Gcb::Cr || l == Gcb::Lf || l == Gcb::Control);
            assert(!b.pict_seq && !b.incb_consonant && !b.incb_linker);
        }
        assert(run_state(false, cs, i + 1) == advance_spec(b, r, true));
        assert(advance_spec(b, r, true) == advance_spec(breaker_init(false), r, true));
    }
}

/// Segmenting afresh from a boundary gives the same later states.
pub proof fn lemma_restart_state(cs: Seq<char>, i: int, j: int)
    requires
        0 <= i < cs.len(),
        i == 0 || is_break(false, cs, i),
        1 <= j <= cs.len() - i,
    ensures
        run_state(false, cs.subrange(i, cs.len() as int), j) == run_state(false, cs, i + j),
    decreases j,
{
    let t = cs.subrange(i, cs.len() as int);
    if j == 1 {
        lemma_state_after_break(cs, i);
        assert(t[0] == cs[i]);
    } else {
        lemma_restart_state(cs, i, j - 1);
        assert(t[j - 1] == cs[i + j - 1]);
    }
}

/// Segmenting afresh from a boundary finds the same boundaries.
pub proof fn lemma_restart_next_break(cs: Seq<char>, i: int, j: int)
    requires
        0 <= i < cs.len(),
        i == 0 || is_break(false, cs, i),
        1 <= j <= cs.len() - i,
    ensures
        i + next_break(false, cs.subrange(i, cs.len() as int), j) == next_break(false, cs, i + j),
    decreases cs.len() - i - j,
{
    let t = cs.subrange(i, cs.len() as int);
    if j < t.len() {
        lemma_restart_state(cs, i, j);
        assert(t[j] == cs[i + j]);
        assert(is_break(false, t, j) == is_break(false, cs, i + j));
        if !is_break(false, t, j) {
            lemma_restart_next_break(cs, i, j + 1);
        }
    }
}

/// The cluster starting at a boundary is the same whether the text is
/// segmented from its start or afresh from the boundary.
pub proof fn lemma_restart(cs: Seq<char>, i: int)
    requires
        0 <= i < cs.len(),
        i == 0 || is_break(false, cs, i),
    ensures
        i + cluster_end(false, cs.subrange(i, cs.len() as int), 0) == cluster_end(false, cs, i),
{
    lemma_restart_next_break(cs, i, 1);
}

/// A control character always stands at a boundary, unless it is a line feed after a carriage return.
pub proof fn lemma_break_before_control(legacy: bool, cs: Seq<char>, j: int)
    requires
        0 < j < cs.len(),
        gcb_of(cs[j]) == Gcb::Control,
    ensures
        is_break(legacy, cs, j),
{
    lemma_run_state_prev(legacy, cs, j);
}

/// The state remembers the class of the last character.
pub proof fn lemma_run_state_prev(legacy: bool, cs: Seq<char>, n: int)
    requires
        0 < n <= cs.len(),
    ensures
        run_state(legacy, cs, n).prev == Some(gcb_of(cs[n - 1])),
        run_state(legacy, cs, n).legacy == legacy,
    decreases n,
{
    assert(run_state(legacy, cs, 0) == breaker_init(legacy));
    if n > 1 {
        lemma_run_state_prev(legacy, cs, n - 1);
    }
}

/// Every character of a cluster longer than one is no control character.
pub proof fn lemma_no_control_inside(legacy: bool, cs: Seq<char>, k: int, j: int)
    requires
        0 <= k <= j < cluster_end(legacy, cs, k) <= cs.len(),
        cluster_end(legacy, cs, k) > k + 1,
    ensures
        gcb_of(cs[j]) != Gcb::Control,
{
    lemma_next_break(legacy, cs, k + 1);
    let e = cluster_end(legacy, cs, k);
    if gcb_of(cs[j]) == Gcb::Control {
        if j > k {
            lemma_break_before_control(legacy, cs, j);
        } else {
            // A boundary follows a control character.
            lemma_run_state_prev(legacy, cs, k + 1);
            assert(is_break(legacy, cs, k + 1));
        }
    }
}

} // verus!
