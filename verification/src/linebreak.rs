//! Line break opportunities (UAX #14).
//!
//! Where may a line be broken? Not simply "at spaces": CJK breaks between
//! ideographs, a number like `1,000` must not be split at the comma, `(a)`
//! keeps its brackets, and a hyphen behaves differently depending on what sits
//! either side of it.
//!
//! The rules are written twice: once as `decide_spec`, the specification, and
//! once as code that is proved to agree with it.

use vstd::prelude::*;

use crate::ansi::{at, lemma_at};
use crate::tables::{flag_bits, lb_code, lookup, EAST_ASIAN, EXTPICT_UNASSIGNED};
use crate::text::{boff, byte_len, char_at, lemma_boff_mono};

verus! {

/// Line_Break property values, after the LB1 resolution.
#[derive(Clone, Copy, PartialEq, Eq, Debug, Structural)]
pub enum Lb {
    XX,
    AK,
    AL,
    AP,
    AS,
    B2,
    BA,
    BB,
    BK,
    CB,
    CL,
    CM,
    CP,
    CR,
    EB,
    EM,
    EX,
    GL,
    H2,
    H3,
    HH,
    HL,
    HY,
    ID,
    IN,
    IS,
    JL,
    JT,
    JV,
    LF,
    NL,
    NS,
    NU,
    OP,
    PO,
    PR,
    QU,
    QUPi,
    QUPf,
    RI,
    SP,
    SY,
    VF,
    VI,
    WJ,
    ZW,
    ZWJ,
}

/// The class a table code stands for; codes past the end mean `XX`.
pub open spec fn lb_from(code: u8) -> Lb {
    if code == 1 { Lb::AK }
    else if code == 2 { Lb::AL }
    else if code == 3 { Lb::AP }
    else if code == 4 { Lb::AS }
    else if code == 5 { Lb::B2 }
    else if code == 6 { Lb::BA }
    else if code == 7 { Lb::BB }
    else if code == 8 { Lb::BK }
    else if code == 9 { Lb::CB }
    else if code == 10 { Lb::CL }
    else if code == 11 { Lb::CM }
    else if code == 12 { Lb::CP }
    else if code == 13 { Lb::CR }
    else if code == 14 { Lb::EB }
    else if code == 15 { Lb::EM }
    else if code == 16 { Lb::EX }
    else if code == 17 { Lb::GL }
    else if code == 18 { Lb::H2 }
    else if code == 19 { Lb::H3 }
    else if code == 20 { Lb::HH }
    else if code == 21 { Lb::HL }
    else if code == 22 { Lb::HY }
    else if code == 23 { Lb::ID }
    else if code == 24 { Lb::IN }
    else if code == 25 { Lb::IS }
    else if code == 26 { Lb::JL }
    else if code == 27 { Lb::JT }
    else if code == 28 { Lb::JV }
    else if code == 29 { Lb::LF }
    else if code == 30 { Lb::NL }
    else if code == 31 { Lb::NS }
    else if code == 32 { Lb::NU }
    else if code == 33 { Lb::OP }
    else if code == 34 { Lb::PO }
    else if code == 35 { Lb::PR }
    else if code == 36 { Lb::QU }
    else if code == 37 { Lb::QUPi }
    else if code == 38 { Lb::QUPf }
    else if code == 39 { Lb::RI }
    else if code == 40 { Lb::SP }
    else if code == 41 { Lb::SY }
    else if code == 42 { Lb::VF }
    else if code == 43 { Lb::VI }
    else if code == 44 { Lb::WJ }
    else if code == 45 { Lb::ZW }
    else if code == 46 { Lb::ZWJ }
    else { Lb::XX }
}

/// Line_Break class of a character.
pub open spec fn lb_of(c: char) -> Lb {
    lb_from(lb_code(c))
}

/// Any of the three QU flavours.
pub open spec fn qu(l: Lb) -> bool {
    l == Lb::QU || l == Lb::QUPi || l == Lb::QUPf
}

/// A mandatory break class.
pub open spec fn hard(l: Lb) -> bool {
    l == Lb::BK || l == Lb::CR || l == Lb::LF || l == Lb::NL
}

/// East Asian Fullwidth, Wide or Halfwidth. Several rules are conditioned on
/// this, and it is a different test from the width table's notion of "wide".
pub open spec fn east_asian(c: char) -> bool {
    flag_bits(c) & EAST_ASIAN != 0
}

/// Extended_Pictographic and unassigned, which LB30b treats as an emoji base.
pub open spec fn extpict_unassigned(c: char) -> bool {
    flag_bits(c) & EXTPICT_UNASSIGNED != 0
}

impl Lb {
    /// The class a table code stands for.
    fn from_code(code: u8) -> (r: Lb)
        ensures
            r == lb_from(code),
    {
        if code == 1 { Lb::AK }
        else if code == 2 { Lb::AL }
        else if code == 3 { Lb::AP }
        else if code == 4 { Lb::AS }
        else if code == 5 { Lb::B2 }
        else if code == 6 { Lb::BA }
        else if code == 7 { Lb::BB }
        else if code == 8 { Lb::BK }
        else if code == 9 { Lb::CB }
        else if code == 10 { Lb::CL }
        else if code == 11 { Lb::CM }
        else if code == 12 { Lb::CP }
        else if code == 13 { Lb::CR }
        else if code == 14 { Lb::EB }
        else if code == 15 { Lb::EM }
        else if code == 16 { Lb::EX }
        else if code == 17 { Lb::GL }
        else if code == 18 { Lb::H2 }
        else if code == 19 { Lb::H3 }
        else if code == 20 { Lb::HH }
        else if code == 21 { Lb::HL }
        else if code == 22 { Lb::HY }
        else if code == 23 { Lb::ID }
        else if code == 24 { Lb::IN }
        else if code == 25 { Lb::IS }
        else if code == 26 { Lb::JL }
        else if code == 27 { Lb::JT }
        else if code == 28 { Lb::JV }
        else if code == 29 { Lb::LF }
        else if code == 30 { Lb::NL }
        else if code == 31 { Lb::NS }
        else if code == 32 { Lb::NU }
        else if code == 33 { Lb::OP }
        else if code == 34 { Lb::PO }
        else if code == 35 { Lb::PR }
        else if code == 36 { Lb::QU }
        else if code == 37 { Lb::QUPi }
        else if code == 38 { Lb::QUPf }
        else if code == 39 { Lb::RI }
        else if code == 40 { Lb::SP }
        else if code == 41 { Lb::SY }
        else if code == 42 { Lb::VF }
        else if code == 43 { Lb::VI }
        else if code == 44 { Lb::WJ }
        else if code == 45 { Lb::ZW }
        else if code == 46 { Lb::ZWJ }
        else { Lb::XX }
    }

    /// The Line_Break class of a character.
    pub fn of(c: char) -> (r: Lb)
        ensures
            r == lb_of(c),
    {
        Lb::from_code(lookup(c).2)
    }

    /// Any of the three QU flavours.
    pub fn is_qu(self) -> (r: bool)
        ensures
            r == qu(self),
    {
        matches!(self, Lb::QU | Lb::QUPi | Lb::QUPf)
    }

    /// A mandatory break class.
    pub fn is_hard(self) -> (r: bool)
        ensures
            r == hard(self),
    {
        matches!(self, Lb::BK | Lb::CR | Lb::LF | Lb::NL)
    }
}

/// Whether a character is East Asian Fullwidth, Wide or Halfwidth.
fn east_asian_exec(c: char) -> (r: bool)
    ensures
        r == east_asian(c),
{
    lookup(c).3 & EAST_ASIAN != 0
}

/// Whether a character is Extended_Pictographic and unassigned.
fn extpict_unassigned_exec(c: char) -> (r: bool)
    ensures
        r == extpict_unassigned(c),
{
    lookup(c).3 & EXTPICT_UNASSIGNED != 0
}

/// What kind of break opportunity this is.
#[derive(Clone, Copy, PartialEq, Eq, Debug, Structural)]
pub enum Break {
    /// A line *must* end here: the text contains an explicit line separator.
    Mandatory,
    /// A line *may* end here.
    Allowed,
}

/// One character's worth of the properties the rules ask about.
#[derive(Clone, Copy, PartialEq, Eq, Debug, Structural)]
pub struct Ch {
    pub class: Lb,
    /// East Asian Fullwidth, Wide or Halfwidth.
    pub ea: bool,
    /// U+25CC DOTTED CIRCLE, which LB28a treats as a Brahmic placeholder.
    pub dotted: bool,
    /// Extended_Pictographic and unassigned, for LB30b.
    pub pict: bool,
}

/// The properties of `c`, with its class resolved to `class`.
pub open spec fn ch_of(c: char, class: Lb) -> Ch {
    Ch { class, ea: east_asian(c), dotted: c == '\u{25CC}', pict: extpict_unassigned(c) }
}

/// No character at all.
pub open spec fn ch_none() -> Ch {
    Ch { class: Lb::XX, ea: false, dotted: false, pict: false }
}

/// Brahmic "consonant or placeholder", used throughout LB28a.
pub open spec fn ak(c: Ch) -> bool {
    c.class == Lb::AK || c.class == Lb::AS || c.dotted
}

impl Ch {
    fn none() -> (r: Ch)
        ensures
            r == ch_none(),
    {
        Ch { class: Lb::XX, ea: false, dotted: false, pict: false }
    }

    fn new(c: char, class: Lb) -> (r: Ch)
        ensures
            r == ch_of(c, class),
    {
        Ch { class, ea: east_asian_exec(c), dotted: c == '\u{25CC}', pict: extpict_unassigned_exec(c) }
    }

    fn is_ak(self) -> (r: bool)
        ensures
            r == ak(self),
    {
        matches!(self.class, Lb::AK | Lb::AS) || self.dotted
    }
}

/// Tracks `NU (NU | SY | IS)* (CL | CP)?` for rule LB25.
#[derive(Clone, Copy, PartialEq, Eq, Debug, Structural)]
pub enum Num {
    No,
    /// Inside the digits, or the symbols and separators that may follow them.
    In,
    /// Past the closing bracket that may follow the digits.
    Closed,
}

/// Everything the rules remember about the text already passed.
#[derive(Clone, Copy, PartialEq, Eq, Debug, Structural)]
pub struct LbState {
    /// Whether any character has been consumed, so `sot` can be recognised.
    pub seen: bool,
    /// The previous character, with LB9 already applied.
    pub prev: Ch,
    /// The one before that, which LB19a needs.
    pub prev2: Option<Ch>,
    /// The last character that was not a space, for the `X SP* ×` rules.
    pub nonsp: Ch,
    /// Whatever came immediately before `nonsp`, space or not. `None` at the
    /// start of text. LB15a, LB20a, LB21a and LB28a are all conditioned on it.
    pub ctx: Option<Ch>,
    /// Whether the run of regional indicators behind us is odd, for LB30a.
    pub ri_odd: bool,
    /// Tracks the numeric run for LB25.
    pub num: Num,
    /// The previous character was a zero width joiner, for LB8a.
    pub prev_zwj: bool,
}

/// The state at the start of text.
pub open spec fn lb_init() -> LbState {
    LbState {
        seen: false,
        prev: ch_none(),
        prev2: None,
        nonsp: ch_none(),
        ctx: None,
        ri_odd: false,
        num: Num::No,
        prev_zwj: false,
    }
}

/// The state after consuming `ch`.
pub open spec fn consume_spec(st: LbState, ch: Ch, was_zwj: bool) -> LbState {
    let (ctx, nonsp) = if ch.class != Lb::SP {
        (if !st.seen { None } else { Some(st.prev) }, ch)
    } else {
        (st.ctx, st.nonsp)
    };
    let num = if ch.class == Lb::NU {
        Num::In
    } else if st.num == Num::In && (ch.class == Lb::SY || ch.class == Lb::IS) {
        Num::In
    } else if st.num == Num::In && (ch.class == Lb::CL || ch.class == Lb::CP) {
        Num::Closed
    } else {
        Num::No
    };
    LbState {
        seen: true,
        prev: ch,
        prev2: if !st.seen { None } else { Some(st.prev) },
        nonsp,
        ctx,
        ri_odd: if ch.class == Lb::RI { !st.ri_odd } else { false },
        num,
        prev_zwj: was_zwj,
    }
}

/// Whether `x`, the character before the last non-space, can precede an opening quote (LB15a).
pub open spec fn opens_quote_after(ctx: Option<Ch>) -> bool {
    match ctx {
        None => true,
        Some(x) => hard(x.class) || x.class == Lb::OP || x.class == Lb::GL || x.class == Lb::SP
            || x.class == Lb::ZW || qu(x.class),
    }
}

/// Whether `n`, the class after a closing quote, can follow one (LB15b).
pub open spec fn closes_quote_before(n: Option<Lb>) -> bool {
    match n {
        None => true,
        Some(n) => qu(n) || hard(n) || n == Lb::SP || n == Lb::GL || n == Lb::WJ || n == Lb::CL
            || n == Lb::CP || n == Lb::EX || n == Lb::IS || n == Lb::SY || n == Lb::ZW,
    }
}

/// Whether a hyphen after `ctx` starts a word (LB20a).
pub open spec fn word_start_after(ctx: Option<Ch>) -> bool {
    match ctx {
        None => true,
        Some(x) => hard(x.class) || x.class == Lb::SP || x.class == Lb::ZW || x.class == Lb::CB
            || x.class == Lb::GL,
    }
}

/// The class of an optional character.
pub open spec fn class_of(c: Option<char>) -> Option<Lb> {
    match c {
        Some(c) => Some(lb_of(c)),
        None => None,
    }
}

/// The rules LB4 to LB31, in the order UAX #14 lists them, deciding whether a
/// line may break before `cur`; `next` is the character after `cur`. The first
/// rule that matches decides; `None` means no break.
pub open spec fn decide_spec(st: LbState, cur: Ch, next: Option<char>) -> Option<Break> {
    let b = st.prev.class;
    let a = cur.class;
    let nsp = st.nonsp.class;
    let n = class_of(next);
    let brk = Some(Break::Allowed);
    if b == Lb::BK {
        Some(Break::Mandatory)
    } else if b == Lb::CR && a == Lb::LF {
        None
    } else if b == Lb::CR || b == Lb::LF || b == Lb::NL {
        Some(Break::Mandatory)
    } else if hard(a) || a == Lb::SP || a == Lb::ZW {
        None
    } else if nsp == Lb::ZW {
        brk
    } else if st.prev_zwj {
        None
    } else if a == Lb::WJ || b == Lb::WJ {
        None
    } else if b == Lb::GL {
        None
    } else if a == Lb::GL && !(b == Lb::SP || b == Lb::BA || b == Lb::HY || b == Lb::HH) {
        None
    } else if a == Lb::CL || a == Lb::CP || a == Lb::EX || a == Lb::SY {
        None
    } else if nsp == Lb::OP {
        None
    } else if nsp == Lb::QUPi && opens_quote_after(st.ctx) {
        None
    } else if a == Lb::QUPf && closes_quote_before(n) {
        None
    } else if b == Lb::SP && a == Lb::IS && n == Some(Lb::NU) {
        brk
    } else if a == Lb::IS {
        None
    } else if (nsp == Lb::CL || nsp == Lb::CP) && a == Lb::NS {
        None
    } else if nsp == Lb::B2 && a == Lb::B2 {
        None
    } else if b == Lb::SP {
        brk
    } else if (a == Lb::QU || a == Lb::QUPf) && !cur.ea {
        None
    } else if (b == Lb::QU || b == Lb::QUPi) && !st.prev.ea {
        None
    } else if qu(a) && (!st.prev.ea || !(next is Some && east_asian(next->Some_0))) {
        None
    } else if qu(b) && (!cur.ea || !(st.prev2 is Some && st.prev2->Some_0.ea)) {
        None
    } else if a == Lb::CB || b == Lb::CB {
        brk
    } else if (a == Lb::AL || a == Lb::HL) && (b == Lb::HY || b == Lb::HH) && word_start_after(st.ctx) {
        None
    } else if a == Lb::BA || a == Lb::HH || a == Lb::HY || a == Lb::NS {
        None
    } else if b == Lb::BB {
        None
    } else if b == Lb::HY && (st.ctx is Some && st.ctx->Some_0.class == Lb::HL) && a != Lb::HL {
        None
    } else if b == Lb::SY && a == Lb::HL {
        None
    } else if a == Lb::IN {
        None
    } else if (b == Lb::AL || b == Lb::HL) && a == Lb::NU {
        None
    } else if b == Lb::NU && (a == Lb::AL || a == Lb::HL) {
        None
    } else if b == Lb::PR && (a == Lb::ID || a == Lb::EB || a == Lb::EM) {
        None
    } else if (b == Lb::ID || b == Lb::EB || b == Lb::EM) && a == Lb::PO {
        None
    } else if (b == Lb::PR || b == Lb::PO) && (a == Lb::AL || a == Lb::HL) {
        None
    } else if (b == Lb::AL || b == Lb::HL) && (a == Lb::PR || a == Lb::PO) {
        None
    } else if (b == Lb::PR || b == Lb::PO) && a == Lb::NU {
        None
    } else if (b == Lb::PR || b == Lb::PO) && (a == Lb::OP || a == Lb::HY) && n == Some(Lb::NU) {
        None
    } else if (b == Lb::OP || b == Lb::HY || b == Lb::IS) && a == Lb::NU {
        None
    } else if st.num == Num::In && (a == Lb::NU || a == Lb::SY || a == Lb::IS || a == Lb::CL || a
        == Lb::CP) {
        None
    } else if (st.num == Num::In || st.num == Num::Closed) && (a == Lb::PO || a == Lb::PR) {
        None
    } else if b == Lb::JL && (a == Lb::JL || a == Lb::JV || a == Lb::H2 || a == Lb::H3) {
        None
    } else if (b == Lb::JV || b == Lb::H2) && (a == Lb::JV || a == Lb::JT) {
        None
    } else if (b == Lb::JT || b == Lb::H3) && a == Lb::JT {
        None
    } else if (b == Lb::JL || b == Lb::JV || b == Lb::JT || b == Lb::H2 || b == Lb::H3) && a
        == Lb::PO {
        None
    } else if b == Lb::PR && (a == Lb::JL || a == Lb::JV || a == Lb::JT || a == Lb::H2 || a
        == Lb::H3) {
        None
    } else if (b == Lb::AL || b == Lb::HL) && (a == Lb::AL || a == Lb::HL) {
        None
    } else if b == Lb::AP && (ak(cur) || a == Lb::AS) {
        None
    } else if ak(st.prev) && (a == Lb::VF || a == Lb::VI) {
        None
    } else if b == Lb::VI && ak(cur) && (st.ctx is Some && ak(st.ctx->Some_0)) {
        None
    } else if ak(st.prev) && ak(cur) && n == Some(Lb::VF) {
        None
    } else if b == Lb::IS && (a == Lb::AL || a == Lb::HL) {
        None
    } else if (b == Lb::AL || b == Lb::HL || b == Lb::NU) && a == Lb::OP && !cur.ea {
        None
    } else if b == Lb::CP && !st.prev.ea && (a == Lb::AL || a == Lb::HL || a == Lb::NU) {
        None
    } else if b == Lb::RI && a == Lb::RI && st.ri_odd {
        None
    } else if b == Lb::EB && a == Lb::EM {
        None
    } else if st.prev.pict && a == Lb::EM {
        None
    } else {
        brk
    }
}

impl LbState {
    /// The state at the start of text.
    pub fn new() -> (r: LbState)
        ensures
            r == lb_init(),
    {
        LbState {
            seen: false,
            prev: Ch::none(),
            prev2: None,
            nonsp: Ch::none(),
            ctx: None,
            ri_odd: false,
            num: Num::No,
            prev_zwj: false,
        }
    }

    /// Advance the state past one character.
    pub fn consume(&mut self, ch: Ch, was_zwj: bool)
        ensures
            *final(self) == consume_spec(*old(self), ch, was_zwj),
    {
        if ch.class != Lb::SP {
            self.ctx = if !self.seen {
                None
            } else {
                Some(self.prev)
            };
            self.nonsp = ch;
        }
        self.ri_odd = if ch.class == Lb::RI {
            !self.ri_odd
        } else {
            false
        };
        self.num = if ch.class == Lb::NU {
            Num::In
        } else if self.num == Num::In && (ch.class == Lb::SY || ch.class == Lb::IS) {
            Num::In
        } else if self.num == Num::In && (ch.class == Lb::CL || ch.class == Lb::CP) {
            Num::Closed
        } else {
            Num::No
        };
        self.prev2 = if !self.seen {
            None
        } else {
            Some(self.prev)
        };
        self.prev = ch;
        self.prev_zwj = was_zwj;
        self.seen = true;
    }

    /// Should a line break be allowed before the character `cur`, which is
    /// followed by `next`? Rules are checked in the order UAX #14 lists them;
    /// the first that matches decides.
    #[verifier::rlimit(40)]
    pub fn decide(&self, cur: Ch, next: Option<char>) -> (r: Option<Break>)
        ensures
            r == decide_spec(*self, cur, next),
    {
        let b = self.prev.class;
        let a = cur.class;
        let nsp = self.nonsp.class;
        let n: Option<Lb> = match next {
            Some(c) => Some(Lb::of(c)),
            None => None,
        };
        let brk = Some(Break::Allowed);
        // LB4, LB5: mandatory breaks.
        if b == Lb::BK {
            return Some(Break::Mandatory);
        }
        if b == Lb::CR && a == Lb::LF {
            return None;
        }
        if b == Lb::CR || b == Lb::LF || b == Lb::NL {
            return Some(Break::Mandatory);
        }
        // LB6, LB7.
        if a.is_hard() || a == Lb::SP || a == Lb::ZW {
            return None;
        }
        // LB8: break after a zero width space, and after any spaces past it.
        if nsp == Lb::ZW {
            return brk;
        }
        // LB8a.
        if self.prev_zwj {
            return None;
        }
        // LB11.
        if a == Lb::WJ || b == Lb::WJ {
            return None;
        }
        // LB12, LB12a. An unambiguous hyphen does not bind to what follows.
        if b == Lb::GL {
            return None;
        }
        if a == Lb::GL && !(b == Lb::SP || b == Lb::BA || b == Lb::HY || b == Lb::HH) {
            return None;
        }
        // LB13.
        if a == Lb::CL || a == Lb::CP || a == Lb::EX || a == Lb::SY {
            return None;
        }
        // LB14.
        if nsp == Lb::OP {
            return None;
        }
        // LB15a: an opening quote, after something that can precede one.
        if nsp == Lb::QUPi {
            let opens = match self.ctx {
                None => true,
                Some(x) => x.class.is_hard() || x.class == Lb::OP || x.class == Lb::GL || x.class
                    == Lb::SP || x.class == Lb::ZW || x.class.is_qu(),
            };
            if opens {
                return None;
            }
        }
        // LB15b: a closing quote, before something that can follow one.
        if a == Lb::QUPf {
            let closes = match n {
                None => true,
                Some(m) => m.is_qu() || m.is_hard() || m == Lb::SP || m == Lb::GL || m == Lb::WJ
                    || m == Lb::CL || m == Lb::CP || m == Lb::EX || m == Lb::IS || m == Lb::SY
                    || m == Lb::ZW,
            };
            if closes {
                return None;
            }
        }
        // LB15c, LB15d.
        if b == Lb::SP && a == Lb::IS && n == Some(Lb::NU) {
            return brk;
        }
        if a == Lb::IS {
            return None;
        }
        // LB16, LB17.
        if (nsp == Lb::CL || nsp == Lb::CP) && a == Lb::NS {
            return None;
        }
        if nsp == Lb::B2 && a == Lb::B2 {
            return None;
        }
        // LB18: break after a space.
        if b == Lb::SP {
            return brk;
        }
        // LB19, LB19a: quotation marks, unless walled in by East Asian text.
        // An initial quote does not bind to what precedes it, and a final quote
        // does not bind to what follows, so each half of LB19 excludes one.
        if (a == Lb::QU || a == Lb::QUPf) && !cur.ea {
            return None;
        }
        if (b == Lb::QU || b == Lb::QUPi) && !self.prev.ea {
            return None;
        }
        if a.is_qu() {
            let next_ea = match next {
                Some(c) => east_asian_exec(c),
                None => false,
            };
            if !self.prev.ea || !next_ea {
                return None;
            }
        }
        if b.is_qu() {
            let before_ea = match self.prev2 {
                Some(p) => p.ea,
                None => false,
            };
            if !cur.ea || !before_ea {
                return None;
            }
        }
        // LB20.
        if a == Lb::CB || b == Lb::CB {
            return brk;
        }
        // LB20a: a hyphen that starts a word keeps the word with it.
        if (a == Lb::AL || a == Lb::HL) && (b == Lb::HY || b == Lb::HH) {
            let starts = match self.ctx {
                None => true,
                Some(x) => x.class.is_hard() || x.class == Lb::SP || x.class == Lb::ZW || x.class
                    == Lb::CB || x.class == Lb::GL,
            };
            if starts {
                return None;
            }
        }
        // LB21.
        if a == Lb::BA || a == Lb::HH || a == Lb::HY || a == Lb::NS {
            return None;
        }
        if b == Lb::BB {
            return None;
        }
        // LB21a: Hebrew keeps its hyphen and whatever follows it. Only a
        // hyphen: `HL BA` does break.
        if b == Lb::HY && a != Lb::HL {
            if let Some(x) = self.ctx {
                if x.class == Lb::HL {
                    return None;
                }
            }
        }
        // LB21b.
        if b == Lb::SY && a == Lb::HL {
            return None;
        }
        // LB22.
        if a == Lb::IN {
            return None;
        }
        // LB23, LB23a.
        if (b == Lb::AL || b == Lb::HL) && a == Lb::NU {
            return None;
        }
        if b == Lb::NU && (a == Lb::AL || a == Lb::HL) {
            return None;
        }
        if b == Lb::PR && (a == Lb::ID || a == Lb::EB || a == Lb::EM) {
            return None;
        }
        if (b == Lb::ID || b == Lb::EB || b == Lb::EM) && a == Lb::PO {
            return None;
        }
        // LB24.
        if (b == Lb::PR || b == Lb::PO) && (a == Lb::AL || a == Lb::HL) {
            return None;
        }
        if (b == Lb::AL || b == Lb::HL) && (a == Lb::PR || a == Lb::PO) {
            return None;
        }
        // LB25: do not break numbers.
        if b == Lb::PR || b == Lb::PO {
            if a == Lb::NU {
                return None;
            }
            if (a == Lb::OP || a == Lb::HY) && n == Some(Lb::NU) {
                return None;
            }
        }
        if (b == Lb::OP || b == Lb::HY || b == Lb::IS) && a == Lb::NU {
            return None;
        }
        if self.num == Num::In && (a == Lb::NU || a == Lb::SY || a == Lb::IS || a == Lb::CL || a
            == Lb::CP) {
            return None;
        }
        if (self.num == Num::In || self.num == Num::Closed) && (a == Lb::PO || a == Lb::PR) {
            return None;
        }
        // LB26, LB27: Hangul syllable blocks.
        if b == Lb::JL && (a == Lb::JL || a == Lb::JV || a == Lb::H2 || a == Lb::H3) {
            return None;
        }
        if (b == Lb::JV || b == Lb::H2) && (a == Lb::JV || a == Lb::JT) {
            return None;
        }
        if (b == Lb::JT || b == Lb::H3) && a == Lb::JT {
            return None;
        }
        if (b == Lb::JL || b == Lb::JV || b == Lb::JT || b == Lb::H2 || b == Lb::H3) && a
            == Lb::PO {
            return None;
        }
        if b == Lb::PR && (a == Lb::JL || a == Lb::JV || a == Lb::JT || a == Lb::H2 || a
            == Lb::H3) {
            return None;
        }
        // LB28.
        if (b == Lb::AL || b == Lb::HL) && (a == Lb::AL || a == Lb::HL) {
            return None;
        }
        // LB28a: the orthographic syllables of Brahmic scripts.
        if b == Lb::AP && (cur.is_ak() || a == Lb::AS) {
            return None;
        }
        if self.prev.is_ak() && (a == Lb::VF || a == Lb::VI) {
            return None;
        }
        if b == Lb::VI && cur.is_ak() {
            if let Some(x) = self.ctx {
                if x.is_ak() {
                    return None;
                }
            }
        }
        if self.prev.is_ak() && cur.is_ak() && n == Some(Lb::VF) {
            return None;
        }
        // LB29.
        if b == Lb::IS && (a == Lb::AL || a == Lb::HL) {
            return None;
        }
        // LB30.
        if (b == Lb::AL || b == Lb::HL || b == Lb::NU) && a == Lb::OP && !cur.ea {
            return None;
        }
        if b == Lb::CP && !self.prev.ea && (a == Lb::AL || a == Lb::HL || a == Lb::NU) {
            return None;
        }
        // LB30a: flags pair up.
        if b == Lb::RI && a == Lb::RI && self.ri_odd {
            return None;
        }
        // LB30b.
        if b == Lb::EB && a == Lb::EM {
            return None;
        }
        if self.prev.pict && a == Lb::EM {
            return None;
        }
        // LB31: break everywhere else.
        brk
    }
}

// ---------------------------------------------------------------------------
// A whole text.

/// The character at `j`, if there is one.
pub open spec fn char_of(cs: Seq<char>, j: int) -> Option<char> {
    if 0 <= j < cs.len() {
        Some(cs[j])
    } else {
        None
    }
}

/// LB9: a combining mark or joiner is part of what precedes it, unless there
/// is nothing to attach to (the start of text, a mandatory break, a space or
/// a zero width space).
pub open spec fn absorbed(st: LbState, c: char) -> bool {
    &&& (lb_of(c) == Lb::CM || lb_of(c) == Lb::ZWJ)
    &&& st.seen
    &&& !(hard(st.prev.class) || st.prev.class == Lb::SP || st.prev.class == Lb::ZW)
}

/// LB10: a mark with nothing to attach to is an ordinary alphabetic.
pub open spec fn resolve(l: Lb) -> Lb {
    if l == Lb::CM || l == Lb::ZWJ {
        Lb::AL
    } else {
        l
    }
}

/// One step over character `j`: the state after it, and the verdict on a
/// break before it (never one before the first character, LB2).
pub open spec fn lb_step(st: LbState, cs: Seq<char>, j: int) -> (LbState, Option<Break>) {
    let c = cs[j];
    if absorbed(st, c) {
        (LbState { prev_zwj: lb_of(c) == Lb::ZWJ, ..st }, None)
    } else {
        let ch = ch_of(c, resolve(lb_of(c)));
        let v = if !st.seen {
            None
        } else {
            decide_spec(st, ch, char_of(cs, j + 1))
        };
        (consume_spec(st, ch, lb_of(c) == Lb::ZWJ), v)
    }
}

/// The state after the first `n` characters.
pub open spec fn lb_state(cs: Seq<char>, n: int) -> LbState
    decreases n,
{
    if n <= 0 {
        lb_init()
    } else {
        lb_step(lb_state(cs, n - 1), cs, n - 1).0
    }
}

/// The break opportunity before character `j`, if any.
pub open spec fn verdict(cs: Seq<char>, j: int) -> Option<Break> {
    lb_step(lb_state(cs, j), cs, j).1
}

/// The first character at or after `j` with a break opportunity before it, or the end.
pub open spec fn next_opportunity(cs: Seq<char>, j: int) -> int
    decreases cs.len() - j,
{
    if !(0 <= j < cs.len()) {
        cs.len() as int
    } else if verdict(cs, j) is Some {
        j
    } else {
        next_opportunity(cs, j + 1)
    }
}

/// The break opportunities from character `j` on, as (character index, kind),
/// ending with the mandatory break at the end of text (LB3).
pub open spec fn breaks_from(cs: Seq<char>, j: int) -> Seq<(int, Break)>
    decreases cs.len() - j,
{
    if !(0 <= j < cs.len()) {
        seq![(cs.len() as int, Break::Mandatory)]
    } else if verdict(cs, j) is Some {
        seq![(j, verdict(cs, j)->Some_0)] + breaks_from(cs, j + 1)
    } else {
        breaks_from(cs, j + 1)
    }
}

/// Bounds of `next_opportunity`, and the fact that nothing before it is one.
pub proof fn lemma_next_opportunity(cs: Seq<char>, j: int)
    requires
        0 <= j <= cs.len(),
    ensures
        j <= next_opportunity(cs, j) <= cs.len(),
        forall|m: int| j <= m < next_opportunity(cs, j) ==> verdict(cs, m) is None,
        next_opportunity(cs, j) < cs.len() ==> verdict(cs, next_opportunity(cs, j)) is Some,
    decreases cs.len() - j,
{
    if j < cs.len() && verdict(cs, j) is None {
        lemma_next_opportunity(cs, j + 1);
    }
}

/// Iterator over line break opportunities, as byte offsets into the string.
///
/// Created by [`line_breaks`](crate::line_breaks). Offsets point *after* the
/// character that ends the line, so `&s[..offset]` is a complete line. The last
/// offset is always `s.len()`, per rule LB3.
pub struct LineBreaks<'a> {
    s: &'a str,
    n: usize,
    /// Byte offset of the character being considered.
    pos: usize,
    st: LbState,
    /// Emitted the final LB3 break.
    done: bool,
    k: Ghost<int>,
}

impl<'a> LineBreaks<'a> {
    #[verifier::type_invariant]
    spec fn wf(self) -> bool {
        &&& at(self.s, self.n, self.pos, self.k@)
        &&& self.st == lb_state(self.s@, self.k@)
        &&& self.done ==> self.k@ == self.s@.len()
    }

    /// The text being analysed.
    pub closed spec fn text(self) -> Seq<char> {
        self.s@
    }

    /// How many characters have been consumed.
    pub closed spec fn index(self) -> int {
        self.k@
    }

    /// Whether the final break has been emitted.
    pub closed spec fn is_done(self) -> bool {
        self.done
    }

    /// Break opportunities of `s`, from its start.
    pub fn new(s: &'a str) -> (r: Self)
        ensures
            r.text() == s@,
            r.index() == 0,
            !r.is_done(),
    {
        let n = byte_len(s);
        proof {
            lemma_boff_mono(s@, 0, s@.len() as int);
        }
        LineBreaks { s, n, pos: 0, st: LbState::new(), done: false, k: Ghost(0) }
    }

    /// A copy of this iterator, at the same position.
    pub fn clone(&self) -> (r: Self)
        ensures
            r.text() == self.text(),
            r.index() == self.index(),
            r.is_done() == self.is_done(),
    {
        proof {
            use_type_invariant(self);
        }
        LineBreaks { s: self.s, n: self.n, pos: self.pos, st: self.st, done: self.done, k: self.k }
    }

    /// The next break opportunity: its byte offset and its kind.
    pub fn next(&mut self) -> (r: Option<(usize, Break)>)
        ensures
            final(self).text() == old(self).text(),
            0 <= old(self).index() <= old(self).text().len(),
            0 <= final(self).index() <= final(self).text().len(),
            old(self).is_done() ==> r is None && final(self).is_done(),
            final(self).is_done() ==> final(self).index() == final(self).text().len(),
            !old(self).is_done() ==> ({
                let cs = old(self).text();
                let j = next_opportunity(cs, old(self).index());
                &&& j < cs.len() ==> r == Some((boff(cs, j) as usize, verdict(cs, j)->Some_0))
                    && final(self).index() == j + 1 && !final(self).is_done()
                &&& j == cs.len() ==> r == Some((boff(cs, j) as usize, Break::Mandatory))
                    && final(self).is_done()
            }),
    {
        proof {
            use_type_invariant(&*self);
        }
        if self.done {
            return None;
        }
        let s = self.s;
        let n = self.n;
        let ghost cs = s@;
        let ghost k0 = self.k@;
        let mut pos = self.pos;
        let mut st = self.st;
        let ghost mut k = self.k@;
        proof {
            lemma_next_opportunity(cs, k0);
        }
        loop
            invariant
                cs == s@,
                n == self.n,
                s == self.s,
                !self.done,
                at(s, n, pos, k),
                st == lb_state(cs, k),
                k0 <= k <= next_opportunity(cs, k0),
                0 <= k0 <= cs.len(),
                next_opportunity(cs, k0) <= cs.len(),
                forall|m: int| k0 <= m < next_opportunity(cs, k0) ==> verdict(cs, m) is None,
                next_opportunity(cs, k0) < cs.len() ==> verdict(cs, next_opportunity(cs, k0)) is Some,
                old(self).text() == cs,
                old(self).index() == k0,
                !old(self).is_done(),
            decreases cs.len() - k,
        {
            proof {
                lemma_at(s, n, pos, k);
            }
            if pos >= n {
                // LB3: always break at the end of text.
                *self = LineBreaks { s, n, pos, st, done: true, k: Ghost(k) };
                return Some((n, Break::Mandatory));
            }
            proof {
                lemma_boff_mono(cs, k + 1, cs.len() as int);
            }
            let at = pos;
            let (c, l) = char_at(s, pos, Ghost(k));
            pos = pos + l;
            let raw = Lb::of(c);
            let attaches = st.seen && !(st.prev.class.is_hard() || st.prev.class == Lb::SP
                || st.prev.class == Lb::ZW);
            if (raw == Lb::CM || raw == Lb::ZWJ) && attaches {
                // LB8a still applies to a joiner absorbed this way.
                st.prev_zwj = raw == Lb::ZWJ;
                proof {
                    k = k + 1;
                }
                continue;
            }
            let resolved = if raw == Lb::CM || raw == Lb::ZWJ {
                Lb::AL
            } else {
                raw
            };
            let ch = Ch::new(c, resolved);
            proof {
                lemma_at(s, n, pos, k + 1);
            }
            let next = if pos < n {
                proof {
                    lemma_boff_mono(cs, k + 2, cs.len() as int);
                }
                Some(char_at(s, pos, Ghost(k + 1)).0)
            } else {
                None
            };
            // LB2: never break at the start of text.
            let v = if !st.seen {
                None
            } else {
                st.decide(ch, next)
            };
            let ghost kk = k;
            assert(v == verdict(cs, kk));
            st.consume(ch, raw == Lb::ZWJ);
            proof {
                k = k + 1;
            }
            if let Some(kind) = v {
                assert(kk == next_opportunity(cs, k0));
                *self = LineBreaks { s, n, pos, st, done: false, k: Ghost(k) };
                return Some((at, kind));
            }
        }
    }
}

// ---------------------------------------------------------------------------
// What always holds of the opportunities.

/// The opportunities of a text end with a mandatory break at its very end
/// (LB3), lie within the text, and come in strictly increasing order.
pub proof fn lemma_breaks_ordered(cs: Seq<char>, j: int)
    requires
        0 <= j <= cs.len(),
    ensures
        breaks_from(cs, j).len() >= 1,
        breaks_from(cs, j).last() == (cs.len() as int, Break::Mandatory),
        forall|i: int| 0 <= i < breaks_from(cs, j).len() ==> j <= #[trigger] breaks_from(cs, j)[i].0 <= cs.len(),
        forall|i: int, m: int|
            0 <= i < m < breaks_from(cs, j).len() ==> #[trigger] breaks_from(cs, j)[i].0
                < #[trigger] breaks_from(cs, j)[m].0,
    decreases cs.len() - j,
{
    if j < cs.len() {
        lemma_breaks_ordered(cs, j + 1);
        let t = breaks_from(cs, j + 1);
        if verdict(cs, j) is Some {
            let b = breaks_from(cs, j);
            assert(b == seq![(j, verdict(cs, j)->Some_0)] + t);
            assert forall|i: int| 0 <= i < b.len() implies j <= #[trigger] b[i].0 <= cs.len() by {
                if i > 0 {
                    assert(b[i] == t[i - 1]);
                }
            }
            assert forall|i: int, m: int| 0 <= i < m < b.len() implies #[trigger] b[i].0 < #[trigger] b[m].0 by {
                assert(b[m] == t[m - 1]);
                if i > 0 {
                    assert(b[i] == t[i - 1]);
                }
            }
        }
    }
}

/// LB2: a line never breaks before the first character.
pub proof fn lemma_no_break_at_start(cs: Seq<char>)
    requires
        cs.len() > 0,
    ensures
        verdict(cs, 0) is None,
{
}

/// The state remembers the last character unless that character was absorbed
/// into the one before it; and an absorbed character never follows a line
/// separator.
pub proof fn lemma_prev_hard(cs: Seq<char>, j: int)
    requires
        0 < j <= cs.len(),
        hard(lb_state(cs, j).prev.class),
    ensures
        lb_of(cs[j - 1]) == lb_state(cs, j).prev.class,
        lb_state(cs, j).seen,
{
}

/// A mandatory break is exactly a break after an explicit line separator:
/// after BK, LF or NL, or after a CR that is not followed by LF (LB4, LB5).
/// Everywhere else an opportunity is only ever `Allowed`.
pub proof fn lemma_mandatory_exactly_after_separators(cs: Seq<char>, j: int)
    requires
        0 <= j < cs.len(),
    ensures
        (verdict(cs, j) == Some(Break::Mandatory)) <==> (j > 0 && (lb_of(cs[j - 1]) == Lb::BK
            || lb_of(cs[j - 1]) == Lb::LF || lb_of(cs[j - 1]) == Lb::NL || (lb_of(cs[j - 1])
            == Lb::CR && lb_of(cs[j]) != Lb::LF))),
{
    if j > 0 {
        let st = lb_state(cs, j);
        let prev = lb_state(cs, j - 1);
        let l = lb_of(cs[j - 1]);
        if hard(l) {
            assert(!absorbed(prev, cs[j - 1]));
            assert(st.prev.class == l);
            assert(st.seen);
            assert(!absorbed(st, cs[j]));
        }
        if verdict(cs, j) == Some(Break::Mandatory) {
            if !absorbed(st, cs[j]) && st.seen {
                assert(hard(st.prev.class));
                lemma_prev_hard(cs, j);
            }
        }
    }
}


/// The last non-space character the scan remembers is one of the characters
/// before it, with LB10 applied, or none at all.
proof fn lemma_nonsp_from(cs: Seq<char>, n: int)
    requires
        0 <= n <= cs.len(),
    ensures
        lb_state(cs, n).nonsp.class == Lb::XX || exists|k: int|
            0 <= k < n && lb_state(cs, n).nonsp.class == #[trigger] resolve(lb_of(cs[k])),
    decreases n,
{
    if n > 0 {
        lemma_nonsp_from(cs, n - 1);
        let st = lb_state(cs, n - 1);
        if st.nonsp.class != Lb::XX {
            let k = choose|k: int| 0 <= k < n - 1 && st.nonsp.class == #[trigger] resolve(lb_of(cs[k]));
            assert(0 <= k < n && st.nonsp.class == resolve(lb_of(cs[k])));
        }
        if !absorbed(st, cs[n - 1]) {
            let c = cs[n - 1];
            assert(ch_of(c, resolve(lb_of(c))).class == resolve(lb_of(cs[n - 1])));
        }
    }
}

/// No line may break before a closing punctuation mark, a closing
/// parenthesis, an exclamation or question mark, or a slash (UAX #14, LB13),
/// nor before a word joiner (LB11): before a character of class CL, CP, EX,
/// SY or WJ there is never an optional break. Only the mandatory break after a line separator (LB4, LB5) or the
/// break after a zero width space (LB8), which the rules place first, can
/// fall there.
pub proof fn lemma_no_break_before_closers(cs: Seq<char>, j: int)
    requires
        0 <= j < cs.len(),
        lb_of(cs[j]) == Lb::CL || lb_of(cs[j]) == Lb::CP || lb_of(cs[j]) == Lb::EX || lb_of(cs[j]) == Lb::SY
            || lb_of(cs[j]) == Lb::WJ,
        forall|k: int| 0 <= k < j ==> lb_of(#[trigger] cs[k]) != Lb::ZW,
    ensures
        verdict(cs, j) != Some(Break::Allowed),
{
    lemma_nonsp_from(cs, j);
    let st = lb_state(cs, j);
    if st.nonsp.class != Lb::XX {
        let k = choose|k: int| 0 <= k < j && st.nonsp.class == #[trigger] resolve(lb_of(cs[k]));
        assert(lb_of(cs[k]) != Lb::ZW);
    }
    assert(st.nonsp.class != Lb::ZW);
    assert(!absorbed(st, cs[j]));
}


/// No line breaks before a space or a zero width space (UAX #14, LB7): a
/// line ends after its spaces, never before them, unless a line separator
/// forces the break (LB4, LB5).
pub proof fn lemma_no_break_before_spaces(cs: Seq<char>, j: int)
    requires
        0 <= j < cs.len(),
        lb_of(cs[j]) == Lb::SP || lb_of(cs[j]) == Lb::ZW,
    ensures
        verdict(cs, j) != Some(Break::Allowed),
{
    assert(!absorbed(lb_state(cs, j), cs[j]));
}


/// No line breaks right after a word joiner (LB11), a non-breaking glue
/// character such as NO-BREAK SPACE (LB12), or an opening punctuation mark
/// (LB14): what follows stays on the same line, unless a line separator
/// forces the break.
pub proof fn lemma_no_break_after_glue(cs: Seq<char>, j: int)
    requires
        0 < j < cs.len(),
        lb_of(cs[j - 1]) == Lb::WJ || lb_of(cs[j - 1]) == Lb::GL || lb_of(cs[j - 1]) == Lb::OP,
    ensures
        verdict(cs, j) != Some(Break::Allowed),
{
    let before = lb_state(cs, j - 1);
    assert(!absorbed(before, cs[j - 1]));
    let st = lb_state(cs, j);
    assert(st.prev.class == lb_of(cs[j - 1]));
    assert(st.nonsp.class == lb_of(cs[j - 1]));
}

} // verus!
