//! Reading what a terminal reports back, and the recordings made from it.
//!
//! The probing tools draw a string, ask the terminal where the cursor ended
//! up, and write what it said to a tab-separated file. The tools do the
//! talking; what they read is taken apart here: a cursor position report
//! (`ESC [ row ; col R`), the name a terminal gives itself, and the lines of a
//! recording.

use vstd::prelude::*;

use crate::text::{boff, offsets, slice, to_chars};

verus! {

// ---------------------------------------------------------------------------
// White space and numbers.

/// White space, as `char::is_whitespace` decides: the Unicode White_Space property.
pub open spec fn is_space(c: char) -> bool {
    let u = c as u32;
    ||| 0x09 <= u <= 0x0D
    ||| u == 0x20
    ||| u == 0x85
    ||| u == 0xA0
    ||| u == 0x1680
    ||| 0x2000 <= u <= 0x200A
    ||| u == 0x2028
    ||| u == 0x2029
    ||| u == 0x202F
    ||| u == 0x205F
    ||| u == 0x3000
}

/// The first index from `i` that holds no white space.
pub open spec fn lead_space(cs: Seq<char>, i: int) -> int
    decreases cs.len() - i,
{
    if 0 <= i < cs.len() && is_space(cs[i]) {
        lead_space(cs, i + 1)
    } else {
        i
    }
}

/// Where the text before `j` ends once trailing white space is dropped, going
/// no further back than `lo`.
pub open spec fn tail_space(cs: Seq<char>, lo: int, j: int) -> int
    decreases j - lo,
{
    if lo < j && j <= cs.len() && is_space(cs[j - 1]) {
        tail_space(cs, lo, j - 1)
    } else {
        j
    }
}

/// The text with leading and trailing white space removed, as `str::trim` does.
pub open spec fn trimmed(cs: Seq<char>) -> Seq<char> {
    let a = lead_space(cs, 0);
    cs.subrange(a, tail_space(cs, a, cs.len() as int))
}

/// An ASCII digit.
pub open spec fn is_digit(c: char) -> bool {
    '0' <= c && c <= '9'
}

/// Every character of `s` is an ASCII digit.
pub open spec fn all_digits(s: Seq<char>) -> bool {
    forall|i: int| 0 <= i < s.len() ==> is_digit(#[trigger] s[i])
}

/// The number the decimal digits `ds` write.
pub open spec fn dec_value(ds: Seq<char>) -> nat
    decreases ds.len(),
{
    if ds.len() == 0 {
        0
    } else {
        dec_value(ds.drop_last()) * 10 + ((ds.last() as u32) - 0x30) as nat
    }
}

/// The number `cs` writes, as `str::parse` reads an unsigned integer: an
/// optional `+`, then one or more ASCII digits and nothing else.
pub open spec fn parse_nat(cs: Seq<char>) -> Option<nat> {
    let body = if cs.len() > 0 && cs[0] == '+' {
        cs.drop_first()
    } else {
        cs
    };
    if body.len() > 0 && all_digits(body) {
        Some(dec_value(body))
    } else {
        None
    }
}

/// What `str::parse::<usize>` gives for `cs`: the number, if it fits.
pub open spec fn parse_usize(cs: Seq<char>) -> Option<usize> {
    match parse_nat(cs) {
        Some(v) => if v <= usize::MAX {
            Some(v as usize)
        } else {
            None
        },
        None => None,
    }
}

/// More digits never make a number smaller.
pub proof fn lemma_dec_grows(ds: Seq<char>, k: int)
    requires
        0 <= k <= ds.len(),
        all_digits(ds),
    ensures
        dec_value(ds.take(k)) <= dec_value(ds),
    decreases ds.len() - k,
{
    if k < ds.len() {
        lemma_dec_grows(ds, k + 1);
        assert(ds.take(k + 1).drop_last() =~= ds.take(k));
    } else {
        assert(ds.take(k) =~= ds);
    }
}

/// Where the white space at either end of `cs[a..b]` ends.
fn trim_bounds(cs: &Vec<char>, a: usize, b: usize) -> (r: (usize, usize))
    requires
        a <= b <= cs@.len(),
    ensures
        a <= r.0 <= r.1 <= b,
        cs@.subrange(r.0 as int, r.1 as int) == trimmed(cs@.subrange(a as int, b as int)),
{
    let ghost t = cs@.subrange(a as int, b as int);
    let mut i = a;
    while i < b && is_space_exec(cs[i])
        invariant
            a <= i <= b <= cs@.len(),
            t == cs@.subrange(a as int, b as int),
            lead_space(t, (i - a) as int) == lead_space(t, 0),
        decreases b - i,
    {
        assert(t[(i - a) as int] == cs@[i as int]);
        i = i + 1;
    }
    proof {
        if i < b {
            assert(t[(i - a) as int] == cs@[i as int]);
        }
        assert(lead_space(t, 0) == i - a);
    }
    let mut j = b;
    while j > i && is_space_exec(cs[j - 1])
        invariant
            a <= i <= j <= b <= cs@.len(),
            t == cs@.subrange(a as int, b as int),
            lead_space(t, 0) == i - a,
            tail_space(t, (i - a) as int, (j - a) as int) == tail_space(t, (i - a) as int, t.len() as int),
        decreases j - i,
    {
        assert(t[(j - 1 - a) as int] == cs@[j - 1]);
        j = j - 1;
    }
    proof {
        if j > i {
            assert(t[(j - 1 - a) as int] == cs@[j - 1]);
        }
        assert(tail_space(t, (i - a) as int, (j - a) as int) == j - a);
        assert(cs@.subrange(i as int, j as int) =~= t.subrange((i - a) as int, (j - a) as int));
    }
    (i, j)
}

/// White space, as `char::is_whitespace` decides.
fn is_space_exec(c: char) -> (r: bool)
    ensures
        r == is_space(c),
{
    let u = c as u32;
    (0x09 <= u && u <= 0x0D) || u == 0x20 || u == 0x85 || u == 0xA0 || u == 0x1680 || (0x2000 <= u && u
        <= 0x200A) || u == 0x2028 || u == 0x2029 || u == 0x202F || u == 0x205F || u == 0x3000
}

/// The number `cs[a..b]` writes, as `str::parse::<usize>` reads it.
fn parse_range(cs: &Vec<char>, a: usize, b: usize) -> (r: Option<usize>)
    requires
        a <= b <= cs@.len(),
    ensures
        r == parse_usize(cs@.subrange(a as int, b as int)),
{
    let ghost t = cs@.subrange(a as int, b as int);
    let mut i = a;
    if i < b && cs[i] == '+' {
        i = i + 1;
    }
    let ghost body = cs@.subrange(i as int, b as int);
    proof {
        if t.len() > 0 && t[0] == '+' {
            assert(body =~= t.drop_first());
        } else {
            assert(body =~= t);
        }
    }
    if i == b {
        return None;
    }
    let start = i;
    let mut v: usize = 0;
    while i < b
        invariant
            a <= start <= i <= b <= cs@.len(),
            start < b,
            body == cs@.subrange(start as int, b as int),
            t == cs@.subrange(a as int, b as int),
            body == (if t.len() > 0 && t[0] == '+' {
                t.drop_first()
            } else {
                t
            }),
            forall|q: int| start <= q < i ==> is_digit(#[trigger] cs@[q]),
            v == dec_value(cs@.subrange(start as int, i as int)),
        decreases b - i,
    {
        let c = cs[i];
        if !('0' <= c && c <= '9') {
            proof {
                assert(body[(i - start) as int] == c);
                assert(!is_digit(body[(i - start) as int]));
                assert(!all_digits(body));
            }
            return None;
        }
        let d = (c as u32 - 0x30) as usize;
        let ghost next = cs@.subrange(start as int, i + 1);
        proof {
            assert(next.drop_last() =~= cs@.subrange(start as int, i as int));
            assert(next.last() == c);
        }
        match v.checked_mul(10) {
            Some(m) => match m.checked_add(d) {
                Some(x) => {
                    v = x;
                },
                None => {
                    proof {
                        lemma_overflow(cs@, start as int, i as int, b as int);
                    }
                    return None;
                },
            },
            None => {
                proof {
                    lemma_overflow(cs@, start as int, i as int, b as int);
                }
                return None;
            },
        }
        i = i + 1;
    }
    proof {
        assert(cs@.subrange(start as int, i as int) =~= body);
    }
    Some(v)
}

/// A number whose leading digits already overflow does not fit.
proof fn lemma_overflow(cs: Seq<char>, start: int, i: int, b: int)
    requires
        0 <= start <= i < b <= cs.len(),
        dec_value(cs.subrange(start, i + 1)) > usize::MAX,
    ensures
        all_digits(cs.subrange(start, b)) ==> dec_value(cs.subrange(start, b)) > usize::MAX,
{
    let body = cs.subrange(start, b);
    if all_digits(body) {
        lemma_dec_grows(body, i + 1 - start);
        assert(body.take(i + 1 - start) =~= cs.subrange(start, i + 1));
    }
}

/// The number `s` writes, as `str::parse::<usize>` reads it: an optional
/// `+` and decimal digits, with no white space, that fit in a `usize`.
pub fn parse_count(s: &str) -> (r: Option<usize>)
    ensures
        r == parse_usize(s@),
{
    let cs = to_chars(s);
    proof {
        assert(cs@.subrange(0, cs@.len() as int) =~= s@);
    }
    parse_range(&cs, 0, cs.len())
}

// ---------------------------------------------------------------------------
// Scanning helpers.

/// The first index from `i` before `e` that holds `c`, or `e`.
pub open spec fn first_of(cs: Seq<char>, c: char, i: int, e: int) -> int
    decreases e - i,
{
    if 0 <= i < e && i < cs.len() && cs[i] != c {
        first_of(cs, c, i + 1, e)
    } else {
        i
    }
}

/// Find `c` in `cs[i..e]`.
fn find_char(cs: &Vec<char>, c: char, i: usize, e: usize) -> (r: usize)
    requires
        i <= e <= cs@.len(),
    ensures
        r == first_of(cs@, c, i as int, e as int),
        i <= r <= e,
{
    let mut k = i;
    while k < e && cs[k] != c
        invariant
            i <= k <= e <= cs@.len(),
            first_of(cs@, c, k as int, e as int) == first_of(cs@, c, i as int, e as int),
        decreases e - k,
    {
        k = k + 1;
    }
    k
}

// ---------------------------------------------------------------------------
// Cursor position reports.

/// Characters the start of a report is stripped of: ESC and `[`.
pub open spec fn report_intro(c: char) -> bool {
    c == '\x1b' || c == '['
}

/// The first index from `i` that is no introducer character.
pub open spec fn report_lead(cs: Seq<char>, i: int) -> int
    decreases cs.len() - i,
{
    if 0 <= i < cs.len() && report_intro(cs[i]) {
        report_lead(cs, i + 1)
    } else {
        i
    }
}

/// Where the report before `j` ends once trailing `R`s are dropped, going no
/// further back than `lo`.
pub open spec fn report_tail(cs: Seq<char>, lo: int, j: int) -> int
    decreases j - lo,
{
    if lo < j && j <= cs.len() && cs[j - 1] == 'R' {
        report_tail(cs, lo, j - 1)
    } else {
        j
    }
}

/// The two halves of a report: where its body starts and ends, and where the
/// `;` between row and column stands (the end, if there is none).
pub open spec fn report_parts(cs: Seq<char>) -> (int, int, int) {
    let a = report_lead(cs, 0);
    let b = report_tail(cs, a, cs.len() as int);
    (a, b, first_of(cs, ';', a, b))
}

/// A cursor position report `ESC [ row ; col R` read back: introducers and
/// the final `R` stripped, split at the first `;`, each half trimmed and read
/// as a number.
pub open spec fn report_spec(cs: Seq<char>) -> Option<(usize, usize)> {
    let (a, b, p) = report_parts(cs);
    if p >= b {
        None
    } else {
        match (parse_usize(trimmed(cs.subrange(a, p))), parse_usize(trimmed(cs.subrange(p + 1, b)))) {
            (Some(row), Some(col)) => Some((row, col)),
            _ => None,
        }
    }
}

/// The column of a report, less one (and never below zero): how many columns
/// were drawn when the text started in the first. The row is not read.
pub open spec fn column_spec(cs: Seq<char>) -> Option<usize> {
    let (a, b, p) = report_parts(cs);
    if p >= b {
        None
    } else {
        match parse_usize(trimmed(cs.subrange(p + 1, b))) {
            Some(col) => Some(if col > 0 {
                (col - 1) as usize
            } else {
                0
            }),
            None => None,
        }
    }
}

/// Find the body of a report and its `;`.
fn report_bounds(cs: &Vec<char>) -> (r: (usize, usize, usize))
    ensures
        r.0 <= r.2 <= r.1 <= cs@.len(),
        (r.0 as int, r.1 as int, r.2 as int) == report_parts(cs@),
{
    let n = cs.len();
    let mut a: usize = 0;
    while a < n && (cs[a] == '\x1b' || cs[a] == '[')
        invariant
            a <= n == cs@.len(),
            report_lead(cs@, a as int) == report_lead(cs@, 0),
        decreases n - a,
    {
        a = a + 1;
    }
    let mut b: usize = n;
    while b > a && cs[b - 1] == 'R'
        invariant
            a <= b <= n == cs@.len(),
            a == report_lead(cs@, 0),
            report_tail(cs@, a as int, b as int) == report_tail(cs@, a as int, n as int),
        decreases b - a,
    {
        b = b - 1;
    }
    let p = find_char(cs, ';', a, b);
    (a, b, p)
}

/// Read a cursor position report back as (row, column), if it is one.
pub fn parse_cursor_report(reply: &str) -> (r: Option<(usize, usize)>)
    ensures
        r == report_spec(reply@),
{
    let cs = to_chars(reply);
    let (a, b, p) = report_bounds(&cs);
    if p >= b {
        return None;
    }
    let (r0, r1) = trim_bounds(&cs, a, p);
    let (c0, c1) = trim_bounds(&cs, p + 1, b);
    let row = parse_range(&cs, r0, r1);
    let col = parse_range(&cs, c0, c1);
    match (row, col) {
        (Some(x), Some(y)) => Some((x, y)),
        _ => None,
    }
}

/// Read the column of a cursor position report, less one: the columns drawn.
pub fn report_column(reply: &str) -> (r: Option<usize>)
    ensures
        r == column_spec(reply@),
{
    let cs = to_chars(reply);
    let (a, b, p) = report_bounds(&cs);
    if p >= b {
        return None;
    }
    let (c0, c1) = trim_bounds(&cs, p + 1, b);
    match parse_range(&cs, c0, c1) {
        Some(c) => Some(c.saturating_sub(1)),
        None => None,
    }
}

/// The columns a case drew, from the report read after it: the column less
/// one, since columns count from one.
pub fn drawn_columns(report: Option<(usize, usize)>) -> (r: Option<usize>)
    ensures
        r == (match report {
            Some((_, col)) => if col >= 1 {
                Some((col - 1) as usize)
            } else {
                None
            },
            None => None,
        }),
{
    match report {
        Some((_, col)) if col >= 1 => Some(col - 1),
        _ => None,
    }
}

// ---------------------------------------------------------------------------
// The name a terminal gives itself.

/// Characters the start of a name reply is stripped of: ESC, `P`, `>` and `|`.
pub open spec fn name_intro(c: char) -> bool {
    c == '\x1b' || c == 'P' || c == '>' || c == '|'
}

/// Characters the end of a name reply is stripped of: ESC and `\`.
pub open spec fn name_outro(c: char) -> bool {
    c == '\x1b' || c == '\\'
}

/// The first index from `i` that is no introducer character.
pub open spec fn name_lead(cs: Seq<char>, i: int) -> int
    decreases cs.len() - i,
{
    if 0 <= i < cs.len() && name_intro(cs[i]) {
        name_lead(cs, i + 1)
    } else {
        i
    }
}

/// Where the reply before `j` ends once its terminator is dropped, going no
/// further back than `lo`.
pub open spec fn name_tail(cs: Seq<char>, lo: int, j: int) -> int
    decreases j - lo,
{
    if lo < j && j <= cs.len() && name_outro(cs[j - 1]) {
        name_tail(cs, lo, j - 1)
    } else {
        j
    }
}

/// The characters of `s` that are no control characters.
pub open spec fn printing(s: Seq<char>) -> Seq<char>
    decreases s.len(),
{
    if s.len() == 0 {
        seq![]
    } else {
        printing(s.drop_last()) + if crate::table::is_cc(s.last()) {
            Seq::<char>::empty()
        } else {
            seq![s.last()]
        }
    }
}

/// The name in a reply to a request for the terminal's version: the reply
/// with its introducer and terminator stripped and its control characters
/// dropped.
pub open spec fn name_spec(cs: Seq<char>) -> Seq<char> {
    let a = name_lead(cs, 0);
    printing(cs.subrange(a, name_tail(cs, a, cs.len() as int)))
}

/// The name a terminal gives itself, from its reply. Empty when it gave none.
pub fn clean_name(reply: &str) -> (r: String)
    ensures
        r@ == name_spec(reply@),
{
    let cs = to_chars(reply);
    let offs = offsets(reply);
    let n = cs.len();
    let mut a: usize = 0;
    while a < n && (cs[a] == '\x1b' || cs[a] == 'P' || cs[a] == '>' || cs[a] == '|')
        invariant
            a <= n == cs@.len(),
            cs@ == reply@,
            name_lead(cs@, a as int) == name_lead(cs@, 0),
        decreases n - a,
    {
        a = a + 1;
    }
    let mut b: usize = n;
    while b > a && (cs[b - 1] == '\x1b' || cs[b - 1] == '\\')
        invariant
            a <= b <= n == cs@.len(),
            cs@ == reply@,
            a == name_lead(cs@, 0),
            name_tail(cs@, a as int, b as int) == name_tail(cs@, a as int, n as int),
        decreases b - a,
    {
        b = b - 1;
    }
    let mut out = String::new();
    let mut k = a;
    while k < b
        invariant
            a <= k <= b <= n == cs@.len(),
            cs@ == reply@,
            offs@.len() == n + 1,
            forall|q: int| 0 <= q <= n ==> #[trigger] offs@[q] == boff(reply@, q),
            out@ == printing(cs@.subrange(a as int, k as int)),
        decreases b - k,
    {
        let c = cs[k];
        let u = c as u32;
        let control = u <= 0x1F || (0x7F <= u && u <= 0x9F);
        if !control {
            let one = slice(reply, offs[k], offs[k + 1], Ghost(k as int), Ghost(k + 1));
            crate::text::push_str(&mut out, one);
            assert(one@ =~= seq![c]);
        }
        proof {
            let t = cs@.subrange(a as int, k + 1);
            assert(t.drop_last() =~= cs@.subrange(a as int, k as int));
            assert(t.last() == c);
        }
        k = k + 1;
    }
    out
}

// ---------------------------------------------------------------------------
// Recordings.

/// The lines of `cs` from `i` on, as `str::lines` gives them: split at each
/// line feed, a carriage return just before it dropped, and no empty line
/// after a final line feed.
pub open spec fn lines_from(cs: Seq<char>, i: int) -> Seq<Seq<char>>
    decreases cs.len() - i,
{
    if !(0 <= i < cs.len()) {
        seq![]
    } else {
        let e = first_of(cs, '\n', i, cs.len() as int);
        if e < i {
            seq![]
        } else {
            let seg = cs.subrange(i, e);
            let line = if e < cs.len() && seg.len() > 0 && seg.last() == '\r' {
                seg.drop_last()
            } else {
                seg
            };
            if e < cs.len() {
                seq![line] + lines_from(cs, e + 1)
            } else {
                seq![line]
            }
        }
    }
}

/// `first_of` stays in its range.
pub proof fn lemma_first_of(cs: Seq<char>, c: char, i: int, e: int)
    requires
        0 <= i <= e <= cs.len(),
    ensures
        i <= first_of(cs, c, i, e) <= e,
        first_of(cs, c, i, e) < e ==> cs[first_of(cs, c, i, e)] == c,
    decreases e - i,
{
    if i < e && cs[i] != c {
        lemma_first_of(cs, c, i + 1, e);
    }
}

/// The lines of a text, as `str::lines` gives them.
pub fn split_lines(text: &str) -> (r: Vec<String>)
    ensures
        crate::fit::lines_view(r@) == lines_from(text@, 0),
{
    let cs = to_chars(text);
    let offs = offsets(text);
    let n = cs.len();
    let mut out: Vec<String> = Vec::new();
    let mut i: usize = 0;
    while i < n
        invariant
            i <= n == cs@.len(),
            cs@ == text@,
            offs@.len() == n + 1,
            forall|q: int| 0 <= q <= n ==> #[trigger] offs@[q] == boff(text@, q),
            lines_from(text@, 0) == crate::fit::lines_view(out@) + lines_from(text@, i as int),
        decreases n - i,
    {
        let e = find_char(&cs, '\n', i, n);
        proof {
            lemma_first_of(cs@, '\n', i as int, n as int);
        }
        let mut stop = e;
        if e < n && e > i && cs[e - 1] == '\r' {
            stop = e - 1;
        }
        let line = slice(text, offs[i], offs[stop], Ghost(i as int), Ghost(stop as int));
        let ghost before = out@;
        out.push(String::from_str(line));
        proof {
            let seg = cs@.subrange(i as int, e as int);
            if e < n && e > i && cs@[e - 1] == '\r' {
                assert(seg.drop_last() =~= cs@.subrange(i as int, stop as int));
            } else {
                assert(seg =~= cs@.subrange(i as int, stop as int));
            }
            assert(crate::fit::lines_view(out@) =~= crate::fit::lines_view(before).push(line@));
            assert(lines_from(text@, i as int) =~= seq![line@] + lines_from(text@, e + 1));
            assert(crate::fit::lines_view(before) + lines_from(text@, i as int) =~= crate::fit::lines_view(
                out@,
            ) + lines_from(text@, e + 1));
        }
        if e < n {
            i = e + 1;
        } else {
            i = n;
            proof {
                assert(lines_from(text@, e + 1) =~= Seq::<Seq<char>>::empty());
            }
        }
    }
    proof {
        assert(lines_from(text@, i as int) =~= Seq::<Seq<char>>::empty());
        assert(crate::fit::lines_view(out@) + Seq::<Seq<char>>::empty() =~= crate::fit::lines_view(out@));
    }
    out
}

/// What a line of a recording starts with when it names the terminal.
pub open spec fn name_prefix() -> Seq<char> {
    seq!['#', ' ', 't', 'e', 'r', 'm', 'i', 'n', 'a', 'l', '\t']
}

/// Whether `cs` starts with `p`.
pub open spec fn starts_with(cs: Seq<char>, p: Seq<char>) -> bool {
    p.len() <= cs.len() && cs.take(p.len() as int) == p
}

/// What a line of a recording says, as text.
pub ghost enum LineView {
    Name(Seq<char>),
    Entry(Seq<char>, Seq<char>),
    Other,
}

/// What a line of a recording says: the terminal's name, a measurement (the
/// case's id and the recorded value), or nothing to keep.
pub enum Line {
    Name(String),
    Entry(String, String),
    Other,
}

impl View for Line {
    type V = LineView;

    open spec fn view(&self) -> LineView {
        match self {
            Line::Name(n) => LineView::Name(n@),
            Line::Entry(id, v) => LineView::Entry(id@, v@),
            Line::Other => LineView::Other,
        }
    }
}

/// How a line of a recording reads: `# terminal<TAB>name` names the terminal
/// (trimmed); other comments and the `id<TAB>...` header say nothing; and a
/// line of at least three tab-separated fields records its third field for
/// the case named by its first.
pub open spec fn line_view(cs: Seq<char>) -> LineView {
    let n = cs.len() as int;
    if starts_with(cs, name_prefix()) {
        LineView::Name(trimmed(cs.subrange(11, n)))
    } else if starts_with(cs, seq!['#']) || starts_with(cs, seq!['i', 'd', '\t']) {
        LineView::Other
    } else {
        let t1 = first_of(cs, '\t', 0, n);
        let t2 = first_of(cs, '\t', t1 + 1, n);
        if t1 < n && t2 < n {
            LineView::Entry(cs.subrange(0, t1), cs.subrange(t2 + 1, first_of(cs, '\t', t2 + 1, n)))
        } else {
            LineView::Other
        }
    }
}

/// Whether the characters of `cs` from 0 match those of `p`.
fn starts_with_exec(cs: &Vec<char>, p: &Vec<char>) -> (r: bool)
    ensures
        r == starts_with(cs@, p@),
{
    if p.len() > cs.len() {
        return false;
    }
    let mut i: usize = 0;
    while i < p.len()
        invariant
            i <= p@.len() <= cs@.len(),
            forall|q: int| 0 <= q < i ==> cs@[q] == p@[q],
        decreases p.len() - i,
    {
        if cs[i] != p[i] {
            proof {
                assert(cs@.take(p@.len() as int)[i as int] != p@[i as int]);
            }
            return false;
        }
        i = i + 1;
    }
    assert(cs@.take(p@.len() as int) =~= p@);
    true
}

/// Read one line of a recording.
pub fn classify_line(line: &str) -> (r: Line)
    ensures
        r@ == line_view(line@),
{
    let cs = to_chars(line);
    let offs = offsets(line);
    let n = cs.len();
    let name = vec!['#', ' ', 't', 'e', 'r', 'm', 'i', 'n', 'a', 'l', '\t'];
    assert(name@ =~= name_prefix());
    if starts_with_exec(&cs, &name) {
        let (a, b) = trim_bounds(&cs, 11, n);
        let t = slice(line, offs[a], offs[b], Ghost(a as int), Ghost(b as int));
        return Line::Name(String::from_str(t));
    }
    let hash = vec!['#'];
    let header = vec!['i', 'd', '\t'];
    assert(hash@ =~= seq!['#']);
    assert(header@ =~= seq!['i', 'd', '\t']);
    if starts_with_exec(&cs, &hash) || starts_with_exec(&cs, &header) {
        return Line::Other;
    }
    let t1 = find_char(&cs, '\t', 0, n);
    if t1 >= n {
        return Line::Other;
    }
    let t2 = find_char(&cs, '\t', t1 + 1, n);
    if t2 >= n {
        return Line::Other;
    }
    let t3 = find_char(&cs, '\t', t2 + 1, n);
    let id = slice(line, offs[0], offs[t1], Ghost(0), Ghost(t1 as int));
    let v = slice(line, offs[t2 + 1], offs[t3], Ghost(t2 + 1), Ghost(t3 as int));
    Line::Entry(String::from_str(id), String::from_str(v))
}

// ---------------------------------------------------------------------------
// Short forms for the reports.

/// `s` cut to `n` characters, the last of them `…` when anything was cut.
pub open spec fn abbreviate_spec(cs: Seq<char>, n: int) -> Seq<char> {
    if cs.len() <= n {
        cs
    } else {
        cs.take(n - 1) + seq!['\u{2026}']
    }
}

/// Shorten `s` to at most `n` characters for a column of a report, marking a
/// cut with `…`.
pub fn abbreviate(s: &str, n: usize) -> (r: String)
    requires
        n >= 1 || s@.len() <= n,
    ensures
        r@ == abbreviate_spec(s@, n as int),
{
    let cs = to_chars(s);
    if cs.len() <= n {
        return String::from_str(s);
    }
    let offs = offsets(s);
    let head = slice(s, offs[0], offs[n - 1], Ghost(0), Ghost(n - 1));
    let mut out = String::from_str(head);
    let dots = crate::fit::ELLIPSIS;
    proof {
        crate::fit::lemma_ellipsis();
    }
    crate::text::push_str(&mut out, dots);
    assert(s@.subrange(0, n - 1) =~= s@.take(n - 1));
    out
}

/// The first fifteen characters of a name, for a column header.
pub fn short_name(s: &str) -> (r: String)
    ensures
        r@ == s@.take(if s@.len() < 15 {
            s@.len() as int
        } else {
            15
        }),
{
    let cs = to_chars(s);
    let offs = offsets(s);
    let k = if cs.len() < 15 {
        cs.len()
    } else {
        15
    };
    let head = slice(s, offs[0], offs[k], Ghost(0), Ghost(k as int));
    assert(s@.subrange(0, k as int) =~= s@.take(k as int));
    String::from_str(head)
}

// ---------------------------------------------------------------------------
// Which preset a terminal wants.

/// What the width a terminal gave a ZWJ family emoji says about it.
pub enum Advice {
    /// Two columns: grapheme clusters are drawn as one glyph.
    Clustered,
    /// More: every code point counts on its own.
    PerCodePoint,
    /// No answer, or too few columns to tell.
    Unknown,
}

/// Which width model a terminal follows, from the columns it drew for a ZWJ
/// family emoji.
pub fn advise(family: Option<usize>) -> (r: Advice)
    ensures
        family == Some(2usize) ==> r is Clustered,
        (family matches Some(n) && n > 2) ==> r is PerCodePoint,
        !(family == Some(2usize)) && !(family matches Some(n) && n > 2) ==> r is Unknown,
{
    match family {
        Some(2) => Advice::Clustered,
        Some(n) if n > 2 => Advice::PerCodePoint,
        _ => Advice::Unknown,
    }
}

/// Whether a terminal draws emoji clusters as one glyph but not Indic ones:
/// a family emoji and a Bengali consonant with a vowel sign both came out two
/// columns wide.
pub fn indic_apart(family: Option<usize>, bengali: Option<usize>) -> (r: bool)
    ensures
        r == (family == Some(2usize) && bengali == Some(2usize)),
{
    family == Some(2) && bengali == Some(2)
}

} // verus!
