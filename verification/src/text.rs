//! Moving between a string's characters and its UTF-8 bytes.
//!
//! Contracts in this crate speak of a string as its sequence of characters
//! (`s@`). Slicing, though, happens at byte offsets. `boff(cs, k)` is the byte
//! offset at which character `k` begins, and the functions here decode the
//! character at such an offset and cut a string between two of them.

use vstd::prelude::*;
use vstd::string::StringSliceAdditionalSpecFns;
use vstd::utf8::*;

verus! {

broadcast use vstd::string::group_string_axioms;

/// Byte offset at which character `k` of `cs` begins (or the byte length, for `k == cs.len()`).
pub open spec fn boff(cs: Seq<char>, k: int) -> int {
    encode_utf8(cs.take(k)).len() as int
}

/// Length in bytes of the UTF-8 encoding of a character.
pub open spec fn clen(c: char) -> int {
    encode_scalar(c as u32).len() as int
}

/// Encoding distributes over concatenation.
pub proof fn lemma_encode_append(a: Seq<char>, b: Seq<char>)
    ensures
        encode_utf8(a + b) == encode_utf8(a) + encode_utf8(b),
    decreases a.len(),
{
    if a.len() == 0 {
        assert(a + b =~= b);
        assert(encode_utf8(a) =~= Seq::<u8>::empty());
        assert(encode_utf8(a) + encode_utf8(b) =~= encode_utf8(b));
    } else {
        let t = a.drop_first();
        assert((a + b).drop_first() =~= t + b);
        assert((a + b)[0] == a[0]);
        lemma_encode_append(t, b);
        assert(encode_utf8(a + b) == encode_scalar(a[0] as u32) + encode_utf8(t + b));
        assert(encode_utf8(a) == encode_scalar(a[0] as u32) + encode_utf8(t));
        assert(encode_utf8(a + b) =~= encode_utf8(a) + encode_utf8(b));
    }
}

/// The encoding of a single character.
pub proof fn lemma_encode_single(c: char)
    ensures
        encode_utf8(seq![c]) == encode_scalar(c as u32),
{
    assert(seq![c].drop_first() =~= Seq::<char>::empty());
    assert(encode_utf8(Seq::<char>::empty()) =~= Seq::<u8>::empty());
    assert(encode_utf8(seq![c]) =~= encode_scalar(c as u32));
}

/// A character's encoding is one to four bytes long.
pub proof fn lemma_clen_range(c: char)
    ensures
        1 <= clen(c) <= 4,
{
}

/// Stepping over one character advances the byte offset by its encoded length.
pub proof fn lemma_boff_step(cs: Seq<char>, k: int)
    requires
        0 <= k < cs.len(),
    ensures
        boff(cs, k + 1) == boff(cs, k) + clen(cs[k]),
{
    assert(cs.take(k + 1) =~= cs.take(k) + seq![cs[k]]);
    lemma_encode_append(cs.take(k), seq![cs[k]]);
    lemma_encode_single(cs[k]);
}

/// Offsets grow with the character index, starting at zero.
pub proof fn lemma_boff_mono(cs: Seq<char>, j: int, k: int)
    requires
        0 <= j <= k <= cs.len(),
    ensures
        boff(cs, j) <= boff(cs, k),
        boff(cs, 0) == 0,
        j < k ==> boff(cs, j) < boff(cs, k),
    decreases k - j,
{
    assert(cs.take(0) =~= Seq::<char>::empty());
    if j < k {
        lemma_boff_step(cs, k - 1);
        lemma_clen_range(cs[k - 1]);
        lemma_boff_mono(cs, j, k - 1);
    }
}

/// The last offset is the byte length of the whole encoding.
pub proof fn lemma_boff_len(cs: Seq<char>)
    ensures
        boff(cs, cs.len() as int) == encode_utf8(cs).len(),
{
    assert(cs.take(cs.len() as int) =~= cs);
}

/// The bytes between two character offsets encode the characters between them.
pub proof fn lemma_encode_subrange(cs: Seq<char>, j: int, k: int)
    requires
        0 <= j <= k <= cs.len(),
    ensures
        encode_utf8(cs).subrange(boff(cs, j), boff(cs, k)) == encode_utf8(cs.subrange(j, k)),
        boff(cs, k) - boff(cs, j) == encode_utf8(cs.subrange(j, k)).len(),
{
    let a = cs.take(j);
    let m = cs.subrange(j, k);
    let z = cs.subrange(k, cs.len() as int);
    assert(cs =~= a + m + z);
    assert(cs.take(k) =~= a + m);
    lemma_encode_append(a, m);
    lemma_encode_append(a + m, z);
    assert(encode_utf8(cs).subrange(boff(cs, j), boff(cs, k)) =~= encode_utf8(m));
}

/// Offset `k` of the characters from `j` on is offset `j + k` of the whole, less offset `j`.
pub proof fn lemma_boff_skip(cs: Seq<char>, j: int, k: int)
    requires
        0 <= j <= cs.len(),
        0 <= k <= cs.len() - j,
    ensures
        boff(cs.subrange(j, cs.len() as int), k) == boff(cs, j + k) - boff(cs, j),
{
    assert(cs.subrange(j, cs.len() as int).take(k) =~= cs.subrange(j, j + k));
    lemma_encode_subrange(cs, j, j + k);
}

/// Offset `t` of the characters from `j` to `k` is offset `j + t` of the whole, less offset `j`.
pub proof fn lemma_boff_sub(cs: Seq<char>, j: int, k: int, t: int)
    requires
        0 <= j <= k <= cs.len(),
        0 <= t <= k - j,
    ensures
        boff(cs.subrange(j, k), t) == boff(cs, j + t) - boff(cs, j),
{
    assert(cs.subrange(j, k).take(t) =~= cs.subrange(j, j + t));
    lemma_encode_subrange(cs, j, j + t);
}

/// Every character offset is a character boundary of the encoding.
pub proof fn lemma_boff_boundary(cs: Seq<char>, k: int)
    requires
        0 <= k <= cs.len(),
    ensures
        is_char_boundary(encode_utf8(cs), boff(cs, k)),
    decreases cs.len(),
{
    broadcast use encode_utf8_valid_utf8;

    let bytes = encode_utf8(cs);
    if k == 0 {
        assert(cs.take(0) =~= Seq::<char>::empty());
    } else {
        encode_utf8_first_scalar(cs);
        let t = cs.drop_first();
        assert(pop_first_scalar(bytes) =~= encode_utf8(t));
        assert(cs.take(k) =~= seq![cs[0]] + t.take(k - 1));
        lemma_encode_append(seq![cs[0]], t.take(k - 1));
        lemma_encode_single(cs[0]);
        lemma_boff_boundary(t, k - 1);
        lemma_boff_mono(cs, k, cs.len() as int);
        lemma_boff_len(cs);
        assert(boff(cs, k) - length_of_first_scalar(bytes) == boff(t, k - 1));
    }
}

/// Two strings with equal encodings hold equal characters.
pub proof fn lemma_encode_injective(a: Seq<char>, b: Seq<char>)
    requires
        encode_utf8(a) == encode_utf8(b),
    ensures
        a == b,
{
    encode_utf8_decode_utf8(a);
    encode_utf8_decode_utf8(b);
}

/// Byte length of a character's UTF-8 encoding.
pub fn char_len(c: char) -> (r: usize)
    ensures
        r == clen(c),
        1 <= r <= 4,
{
    let u = c as u32;
    if u < 0x80 {
        1
    } else if u < 0x800 {
        2
    } else if u < 0x10000 {
        3
    } else {
        4
    }
}

/// Byte length of a string: the offset past its last character.
pub fn byte_len(s: &str) -> (r: usize)
    ensures
        r == boff(s@, s@.len() as int),
{
    proof {
        lemma_boff_len(s@);
    }
    s.as_bytes().len()
}

/// The characters of `s` from character `j` to character `k`, given their byte offsets.
pub fn slice<'a>(s: &'a str, a: usize, b: usize, Ghost(j): Ghost<int>, Ghost(k): Ghost<int>) -> (r: &'a str)
    requires
        0 <= j <= k <= s@.len(),
        a == boff(s@, j),
        b == boff(s@, k),
    ensures
        r@ == s@.subrange(j, k),
{
    let ghost cs = s@;
    let ghost n = cs.len() as int;
    proof {
        lemma_boff_boundary(cs, j);
        lemma_boff_mono(cs, j, k);
        lemma_boff_mono(cs, k, n);
        lemma_boff_len(cs);
    }
    let (_, rest) = s.split_at(a);
    proof {
        let t = cs.subrange(j, n);
        lemma_encode_subrange(cs, j, n);
        assert(rest.spec_bytes() == encode_utf8(t));
        lemma_encode_injective(rest@, t);
        lemma_boff_skip(cs, j, k - j);
        lemma_boff_boundary(t, k - j);
    }
    let (mid, _) = rest.split_at(b - a);
    proof {
        let t = cs.subrange(j, n);
        lemma_encode_subrange(t, 0, k - j);
        lemma_boff_mono(t, 0, k - j);
        assert(t.subrange(0, k - j) =~= cs.subrange(j, k));
        lemma_encode_injective(mid@, cs.subrange(j, k));
    }
    mid
}

/// The prefix of `s` ending before character `k`.
pub fn prefix<'a>(s: &'a str, b: usize, Ghost(k): Ghost<int>) -> (r: &'a str)
    requires
        0 <= k <= s@.len(),
        b == boff(s@, k),
    ensures
        r@ == s@.take(k),
{
    proof {
        lemma_boff_mono(s@, 0, k);
    }
    let r = slice(s, 0, b, Ghost(0), Ghost(k));
    assert(r@ =~= s@.take(k));
    r
}

/// The suffix of `s` starting at character `k`.
pub fn suffix<'a>(s: &'a str, a: usize, Ghost(k): Ghost<int>) -> (r: &'a str)
    requires
        0 <= k <= s@.len(),
        a == boff(s@, k),
    ensures
        r@ == s@.subrange(k, s@.len() as int),
{
    let n = byte_len(s);
    slice(s, a, n, Ghost(k), Ghost(s@.len() as int))
}

/// The character beginning at byte offset `pos`, which is character `k`, and its byte length.
pub fn char_at(s: &str, pos: usize, Ghost(k): Ghost<int>) -> (r: (char, usize))
    requires
        0 <= k < s@.len(),
        pos == boff(s@, k),
    ensures
        r.0 == s@[k],
        r.1 == clen(s@[k]),
        pos + r.1 == boff(s@, k + 1),
{
    let rest = suffix(s, pos, Ghost(k));
    let mut it = rest.chars();
    let c = it.next();
    match c {
        Some(ch) => {
            proof {
                lemma_boff_step(s@, k);
            }
            (ch, char_len(ch))
        },
        None => {
            assert(false);
            (' ', 1)
        },
    }
}

/// The characters of a string, in a vector.
pub fn to_chars(s: &str) -> (v: Vec<char>)
    ensures
        v@ == s@,
{
    let n = byte_len(s);
    let mut v: Vec<char> = Vec::new();
    let mut p: usize = 0;
    let ghost mut k: int = 0;
    proof {
        lemma_boff_mono(s@, 0, s@.len() as int);
    }
    while p < n
        invariant
            n == boff(s@, s@.len() as int),
            0 <= k <= s@.len(),
            p == boff(s@, k),
            v@ == s@.take(k),
        decreases s@.len() - k,
    {
        proof {
            if k == s@.len() {
                assert(false);
            }
        }
        let (c, l) = char_at(s, p, Ghost(k));
        v.push(c);
        proof {
            lemma_boff_mono(s@, k + 1, s@.len() as int);
            assert(v@ =~= s@.take(k + 1));
        }
        p = p + l;
        proof {
            k = k + 1;
        }
    }
    proof {
        if k < s@.len() {
            lemma_boff_mono(s@, k, s@.len() as int);
        }
        assert(s@.take(k) =~= s@);
    }
    v
}

/// Append `t` to `out`.
pub fn push_str(out: &mut String, t: &str)
    ensures
        final(out)@ == old(out)@ + t@,
{
    out.append(t);
}

/// Append `n` spaces to `out`.
pub fn push_spaces(out: &mut String, n: usize)
    ensures
        final(out)@ == old(out)@ + Seq::new(n as nat, |i: int| ' '),
{
    let sp = " ";
    proof {
        reveal_strlit(" ");
    }
    let mut i: usize = 0;
    while i < n
        invariant
            i <= n,
            sp@ == seq![' '],
            out@ == old(out)@ + Seq::new(i as nat, |j: int| ' '),
        decreases n - i,
    {
        out.append(sp);
        i = i + 1;
        assert(out@ =~= old(out)@ + Seq::new(i as nat, |j: int| ' '));
    }
}

/// The byte offset at which each character of `s` begins, and the byte
/// length at the end.
pub fn offsets(s: &str) -> (v: Vec<usize>)
    ensures
        v@.len() == s@.len() + 1,
        forall|k: int| 0 <= k <= s@.len() ==> #[trigger] v@[k] == boff(s@, k),
{
    let n = byte_len(s);
    let mut v: Vec<usize> = Vec::new();
    v.push(0);
    let mut p: usize = 0;
    let ghost mut k: int = 0;
    proof {
        lemma_boff_mono(s@, 0, s@.len() as int);
        assert(s@.take(0) =~= Seq::<char>::empty());
        assert(encode_utf8(Seq::<char>::empty()) =~= Seq::<u8>::empty());
    }
    while p < n
        invariant
            n == boff(s@, s@.len() as int),
            0 <= k <= s@.len(),
            p == boff(s@, k),
            v@.len() == k + 1,
            forall|i: int| 0 <= i <= k ==> #[trigger] v@[i] == boff(s@, i),
        decreases s@.len() - k,
    {
        proof {
            if k == s@.len() {
                assert(false);
            }
        }
        let (_, l) = char_at(s, p, Ghost(k));
        proof {
            lemma_boff_mono(s@, k + 1, s@.len() as int);
        }
        p = p + l;
        v.push(p);
        proof {
            k = k + 1;
        }
    }
    proof {
        if k < s@.len() {
            lemma_boff_mono(s@, k, s@.len() as int);
            lemma_boff_step(s@, k);
            lemma_clen_range(s@[k]);
        }
    }
    v
}

} // verus!
