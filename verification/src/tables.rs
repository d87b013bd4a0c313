//! Per-character Unicode properties: the width class, the grapheme cluster break
//! value and the line break class of a code point, plus two flags.
//!
//! ASCII is spelled out here; everything from U+0080 up comes from the runs in
//! `tables_data`, found by binary search.

use vstd::prelude::*;

use crate::tables_data::{run, run_at, RUN_COUNT};

verus! {

/// The version of the Unicode Character Database the properties come from.
/// The East Asian Width of the few symbol blocks made Wide in Unicode 16 is
/// applied on top.
pub const UNICODE_VERSION: &'static str = "14.0.0";

/// Flag bit: East Asian Fullwidth, Wide or Halfwidth.
pub const EAST_ASIAN: u8 = 1;

/// Flag bit: unassigned and Extended_Pictographic.
pub const EXTPICT_UNASSIGNED: u8 = 2;

/// The properties of one code point: (width class, grapheme break, line break, flags).
pub type Props = (u8, u8, u8, u8);

/// Line break class of an ASCII code point, as its index in `Lb`.
pub open spec fn ascii_lb(cp: u32) -> u8 {
    if cp == 0x09 { 6 }            // BA
    else if cp == 0x0A { 29 }      // LF
    else if cp == 0x0B || cp == 0x0C { 8 } // BK
    else if cp == 0x0D { 13 }      // CR
    else if cp < 0x20 || cp == 0x7F { 11 } // CM
    else if cp == 0x20 { 40 }      // SP
    else if cp == 0x21 || cp == 0x3F { 16 } // EX
    else if cp == 0x22 || cp == 0x27 { 36 } // QU
    else if cp == 0x24 || cp == 0x2B || cp == 0x5C { 35 } // PR
    else if cp == 0x25 { 34 }      // PO
    else if cp == 0x28 || cp == 0x5B || cp == 0x7B { 33 } // OP
    else if cp == 0x29 || cp == 0x5D { 12 } // CP
    else if cp == 0x7D { 10 }      // CL
    else if cp == 0x2C || cp == 0x2E || cp == 0x3A || cp == 0x3B { 25 } // IS
    else if cp == 0x2D { 22 }      // HY
    else if cp == 0x2F { 41 }      // SY
    else if 0x30 <= cp <= 0x39 { 32 } // NU
    else if cp == 0x7C { 6 }       // BA
    else { 2 }                     // AL
}

/// Properties of an ASCII code point.
pub open spec fn ascii_props(cp: u32) -> Props {
    let gcb: u8 = if cp == 0x0D { 1 } else if cp == 0x0A { 2 } else if cp < 0x20 || cp == 0x7F { 3 } else { 0 };
    (1u8, gcb, ascii_lb(cp), 0u8)
}

/// Index of the run holding `cp`, found by halving `[lo, hi)`.
pub open spec fn run_search(cp: u32, lo: int, hi: int) -> int
    decreases hi - lo,
{
    if hi - lo <= 1 {
        lo
    } else {
        let mid = lo + (hi - lo) / 2;
        if run(mid).0 <= cp {
            run_search(cp, mid, hi)
        } else {
            run_search(cp, lo, mid)
        }
    }
}

/// The properties of a code point.
pub closed spec fn props(cp: u32) -> Props {
    if cp < 0x80 {
        ascii_props(cp)
    } else {
        let r = run(run_search(cp, 0, RUN_COUNT as int));
        (r.1, r.2, r.3, r.4)
    }
}

/// ASCII properties are spelled out.
pub proof fn lemma_ascii_props(cp: u32)
    requires
        cp < 0x80,
    ensures
        props(cp) == ascii_props(cp),
{
}

/// Width class of a character: 0, 1 or 2 columns, or 3 for East Asian Ambiguous.
pub open spec fn width_class(c: char) -> u8 {
    props(c as u32).0
}

/// Grapheme_Cluster_Break code of a character.
pub open spec fn gcb_code(c: char) -> u8 {
    props(c as u32).1
}

/// Line_Break code of a character.
pub open spec fn lb_code(c: char) -> u8 {
    props(c as u32).2
}

/// Flag bits of a character.
pub open spec fn flag_bits(c: char) -> u8 {
    props(c as u32).3
}

/// Look up the properties of a character.
pub fn lookup(c: char) -> (r: Props)
    ensures
        r == props(c as u32),
{
    let cp = c as u32;
    if cp < 0x80 {
        let gcb: u8 = if cp == 0x0D { 1 } else if cp == 0x0A { 2 } else if cp < 0x20 || cp == 0x7F { 3 } else { 0 };
        return (1u8, gcb, ascii_lb_exec(cp), 0u8);
    }
    let mut lo: usize = 0;
    let mut hi: usize = RUN_COUNT;
    while hi - lo > 1
        invariant
            lo < hi <= RUN_COUNT,
            run_search(cp, lo as int, hi as int) == run_search(cp, 0, RUN_COUNT as int),
        decreases hi - lo,
    {
        let mid = lo + (hi - lo) / 2;
        if run_at(mid).0 <= cp {
            lo = mid;
        } else {
            hi = mid;
        }
    }
    let r = run_at(lo);
    (r.1, r.2, r.3, r.4)
}

fn ascii_lb_exec(cp: u32) -> (r: u8)
    requires
        cp < 0x80,
    ensures
        r == ascii_lb(cp),
{
    if cp == 0x09 { 6 }
    else if cp == 0x0A { 29 }
    else if cp == 0x0B || cp == 0x0C { 8 }
    else if cp == 0x0D { 13 }
    else if cp < 0x20 || cp == 0x7F { 11 }
    else if cp == 0x20 { 40 }
    else if cp == 0x21 || cp == 0x3F { 16 }
    else if cp == 0x22 || cp == 0x27 { 36 }
    else if cp == 0x24 || cp == 0x2B || cp == 0x5C { 35 }
    else if cp == 0x25 { 34 }
    else if cp == 0x28 || cp == 0x5B || cp == 0x7B { 33 }
    else if cp == 0x29 || cp == 0x5D { 12 }
    else if cp == 0x7D { 10 }
    else if cp == 0x2C || cp == 0x2E || cp == 0x3A || cp == 0x3B { 25 }
    else if cp == 0x2D { 22 }
    else if cp == 0x2F { 41 }
    else if 0x30 <= cp && cp <= 0x39 { 32 }
    else if cp == 0x7C { 6 }
    else { 2 }
}

/// The C1 controls are controls to grapheme segmentation too.
pub proof fn lemma_c1_control(cp: u32)
    requires
        0x86 <= cp <= 0x9F,
    ensures
        props(cp).1 == 3,
{
    assert(run(1646).0 > 0x9F);
    assert(run_search(cp, 0, 3292) == run_search(cp, 0, 1646));
    assert(run(823).0 > 0x9F);
    assert(run_search(cp, 0, 1646) == run_search(cp, 0, 823));
    assert(run(411).0 > 0x9F);
    assert(run_search(cp, 0, 823) == run_search(cp, 0, 411));
    assert(run(205).0 > 0x9F);
    assert(run_search(cp, 0, 411) == run_search(cp, 0, 205));
    assert(run(102).0 > 0x9F);
    assert(run_search(cp, 0, 205) == run_search(cp, 0, 102));
    assert(run(51).0 > 0x9F);
    assert(run_search(cp, 0, 102) == run_search(cp, 0, 51));
    assert(run(25).0 > 0x9F);
    assert(run_search(cp, 0, 51) == run_search(cp, 0, 25));
    assert(run(12).0 > 0x9F);
    assert(run_search(cp, 0, 25) == run_search(cp, 0, 12));
    assert(run(6).0 > 0x9F);
    assert(run_search(cp, 0, 12) == run_search(cp, 0, 6));
    assert(run(3).0 > 0x9F);
    assert(run_search(cp, 0, 6) == run_search(cp, 0, 3));
    assert(run(1).0 <= 0x86 && run(2).0 == 0x86);
    assert(run_search(cp, 0, 3) == run_search(cp, 1, 3));
    assert(run_search(cp, 1, 3) == run_search(cp, 2, 3));
    assert(run(2).2 == 3);
}

/// U+0085 NEXT LINE: a control to grapheme segmentation, and a line break
/// of class NL.
pub proof fn lemma_next_line_props()
    ensures
        props(0x85) == (1u8, 3u8, 30u8, 0u8),
{
    let cp: u32 = 0x85;
    assert(run(1646).0 > cp);
    assert(run_search(cp, 0, 3292) == run_search(cp, 0, 1646));
    assert(run(823).0 > cp);
    assert(run_search(cp, 0, 1646) == run_search(cp, 0, 823));
    assert(run(411).0 > cp);
    assert(run_search(cp, 0, 823) == run_search(cp, 0, 411));
    assert(run(205).0 > cp);
    assert(run_search(cp, 0, 411) == run_search(cp, 0, 205));
    assert(run(102).0 > cp);
    assert(run_search(cp, 0, 205) == run_search(cp, 0, 102));
    assert(run(51).0 > cp);
    assert(run_search(cp, 0, 102) == run_search(cp, 0, 51));
    assert(run(25).0 > cp);
    assert(run_search(cp, 0, 51) == run_search(cp, 0, 25));
    assert(run(12).0 > cp);
    assert(run_search(cp, 0, 25) == run_search(cp, 0, 12));
    assert(run(6).0 > cp);
    assert(run_search(cp, 0, 12) == run_search(cp, 0, 6));
    assert(run(3).0 > cp);
    assert(run_search(cp, 0, 6) == run_search(cp, 0, 3));
    assert(run(1).0 <= cp);
    assert(run_search(cp, 0, 3) == run_search(cp, 1, 3));
    assert(run(2).0 > cp);
    assert(run_search(cp, 1, 3) == run_search(cp, 1, 2));
    assert(run(1) == (0x85u32, 1u8, 3u8, 30u8, 0u8));
}

/// U+2028 LINE SEPARATOR and U+2029 PARAGRAPH SEPARATOR: controls to
/// grapheme segmentation, and mandatory line breaks of class BK.
pub proof fn lemma_separator_props(cp: u32)
    requires
        cp == 0x2028 || cp == 0x2029,
    ensures
        props(cp) == (1u8, 3u8, 8u8, 0u8),
{
    assert(run(1646).0 > cp);
    assert(run_search(cp, 0, 3292) == run_search(cp, 0, 1646));
    assert(run(823).0 > cp);
    assert(run_search(cp, 0, 1646) == run_search(cp, 0, 823));
    assert(run(411).0 <= cp);
    assert(run_search(cp, 0, 823) == run_search(cp, 411, 823));
    assert(run(617).0 <= cp);
    assert(run_search(cp, 411, 823) == run_search(cp, 617, 823));
    assert(run(720).0 <= cp);
    assert(run_search(cp, 617, 823) == run_search(cp, 720, 823));
    assert(run(771).0 <= cp);
    assert(run_search(cp, 720, 823) == run_search(cp, 771, 823));
    assert(run(797).0 <= cp);
    assert(run_search(cp, 771, 823) == run_search(cp, 797, 823));
    assert(run(810).0 <= cp);
    assert(run_search(cp, 797, 823) == run_search(cp, 810, 823));
    assert(run(816).0 > cp);
    assert(run_search(cp, 810, 823) == run_search(cp, 810, 816));
    assert(run(813).0 <= cp);
    assert(run_search(cp, 810, 816) == run_search(cp, 813, 816));
    assert(run(814).0 <= cp);
    assert(run_search(cp, 813, 816) == run_search(cp, 814, 816));
    assert(run(815).0 <= cp);
    assert(run_search(cp, 814, 816) == run_search(cp, 815, 816));
    assert(run(815) == (0x2028u32, 1u8, 3u8, 8u8, 0u8));
}

/// U+200B ZERO WIDTH SPACE: no columns, and a control to grapheme
/// segmentation, so nothing joins across it.
pub proof fn lemma_zero_width_space_props()
    ensures
        props(0x200B) == (0u8, 3u8, 45u8, 0u8),
{
    let cp: u32 = 0x200B;
    assert(run(1646).0 > cp);
    assert(run_search(cp, 0, 3292) == run_search(cp, 0, 1646));
    assert(run(823).0 > cp);
    assert(run_search(cp, 0, 1646) == run_search(cp, 0, 823));
    assert(run(411).0 <= cp);
    assert(run_search(cp, 0, 823) == run_search(cp, 411, 823));
    assert(run(617).0 <= cp);
    assert(run_search(cp, 411, 823) == run_search(cp, 617, 823));
    assert(run(720).0 <= cp);
    assert(run_search(cp, 617, 823) == run_search(cp, 720, 823));
    assert(run(771).0 <= cp);
    assert(run_search(cp, 720, 823) == run_search(cp, 771, 823));
    assert(run(797).0 > cp);
    assert(run_search(cp, 771, 823) == run_search(cp, 771, 797));
    assert(run(784).0 <= cp);
    assert(run_search(cp, 771, 797) == run_search(cp, 784, 797));
    assert(run(790).0 <= cp);
    assert(run_search(cp, 784, 797) == run_search(cp, 790, 797));
    assert(run(793).0 > cp);
    assert(run_search(cp, 790, 797) == run_search(cp, 790, 793));
    assert(run(791).0 <= cp);
    assert(run_search(cp, 790, 793) == run_search(cp, 791, 793));
    assert(run(792).0 <= cp);
    assert(run_search(cp, 791, 793) == run_search(cp, 792, 793));
    assert(run(792) == (0x200bu32, 0u8, 3u8, 45u8, 0u8));
}

/// U+2026 HORIZONTAL ELLIPSIS: East Asian Ambiguous, and an ordinary
/// character to grapheme segmentation.
pub proof fn lemma_ellipsis_props()
    ensures
        props(0x2026) == (3u8, 0u8, 24u8, 0u8),
{
    let cp: u32 = 0x2026;
    assert(run(1646).0 > cp);
    assert(run_search(cp, 0, 3292) == run_search(cp, 0, 1646));
    assert(run(823).0 > cp);
    assert(run_search(cp, 0, 1646) == run_search(cp, 0, 823));
    assert(run(411).0 <= cp);
    assert(run_search(cp, 0, 823) == run_search(cp, 411, 823));
    assert(run(617).0 <= cp);
    assert(run_search(cp, 411, 823) == run_search(cp, 617, 823));
    assert(run(720).0 <= cp);
    assert(run_search(cp, 617, 823) == run_search(cp, 720, 823));
    assert(run(771).0 <= cp);
    assert(run_search(cp, 720, 823) == run_search(cp, 771, 823));
    assert(run(797).0 <= cp);
    assert(run_search(cp, 771, 823) == run_search(cp, 797, 823));
    assert(run(810).0 <= cp);
    assert(run_search(cp, 797, 823) == run_search(cp, 810, 823));
    assert(run(816).0 > cp);
    assert(run_search(cp, 810, 823) == run_search(cp, 810, 816));
    assert(run(813).0 <= cp);
    assert(run_search(cp, 810, 816) == run_search(cp, 813, 816));
    assert(run(814).0 > cp);
    assert(run_search(cp, 813, 816) == run_search(cp, 813, 814));
    assert(run(813) == (0x2024u32, 3u8, 0u8, 24u8, 0u8));
}

/// The box drawing characters the table borders use, U+24EB to U+254B:
/// East Asian Ambiguous, and ordinary characters to grapheme segmentation.
pub proof fn lemma_box_props(cp: u32)
    requires
        0x24EB <= cp < 0x254C,
    ensures
        props(cp) == (3u8, 0u8, 2u8, 0u8),
{
    assert(run(1646).0 >= 0x254C);
    assert(run_search(cp, 0, 3292) == run_search(cp, 0, 1646));
    assert(run(823).0 <= 0x24EB);
    assert(run_search(cp, 0, 1646) == run_search(cp, 823, 1646));
    assert(run(1234).0 >= 0x254C);
    assert(run_search(cp, 823, 1646) == run_search(cp, 823, 1234));
    assert(run(1028).0 >= 0x254C);
    assert(run_search(cp, 823, 1234) == run_search(cp, 823, 1028));
    assert(run(925).0 <= 0x24EB);
    assert(run_search(cp, 823, 1028) == run_search(cp, 925, 1028));
    assert(run(976).0 <= 0x24EB);
    assert(run_search(cp, 925, 1028) == run_search(cp, 976, 1028));
    assert(run(1002).0 <= 0x24EB);
    assert(run_search(cp, 976, 1028) == run_search(cp, 1002, 1028));
    assert(run(1015).0 >= 0x254C);
    assert(run_search(cp, 1002, 1028) == run_search(cp, 1002, 1015));
    assert(run(1008).0 <= 0x24EB);
    assert(run_search(cp, 1002, 1015) == run_search(cp, 1008, 1015));
    assert(run(1011).0 >= 0x254C);
    assert(run_search(cp, 1008, 1015) == run_search(cp, 1008, 1011));
    assert(run(1009).0 <= 0x24EB);
    assert(run_search(cp, 1008, 1011) == run_search(cp, 1009, 1011));
    assert(run(1010).0 <= 0x24EB);
    assert(run_search(cp, 1009, 1011) == run_search(cp, 1010, 1011));
    assert(run(1010) == (0x24EBu32, 3u8, 0u8, 2u8, 0u8));
}

} // verus!
