//! Strings whose width real terminals are known, or suspected, to disagree
//! about, and a way of writing them down by code point.

use vstd::prelude::*;

verus! {

/// One probe case: a stable id, the text to draw, and why it is interesting.
pub struct Case {
    pub id: &'static str,
    pub text: &'static str,
    pub note: &'static str,
}

/// The uppercase hexadecimal digit for `d`.
pub open spec fn hex_digit(d: int) -> char {
    if d < 10 {
        (('0' as int) + d) as char
    } else {
        (('A' as int) + d - 10) as char
    }
}

/// The hexadecimal digits of `u`, most significant first, without leading zeros.
pub open spec fn hex_digits(u: nat) -> Seq<char>
    decreases u,
{
    if u < 16 {
        seq![hex_digit(u as int)]
    } else {
        hex_digits(u / 16) + seq![hex_digit((u % 16) as int)]
    }
}

/// The code point of `c` in hexadecimal, zero-padded to at least four digits.
pub open spec fn hex4(c: char) -> Seq<char> {
    let d = hex_digits(c as nat);
    if d.len() < 4 {
        Seq::new((4 - d.len()) as nat, |i: int| '0') + d
    } else {
        d
    }
}

/// The code points of `cs` in hexadecimal, separated by single spaces.
pub open spec fn codepoints_spec(cs: Seq<char>) -> Seq<char>
    decreases cs.len(),
{
    if cs.len() == 0 {
        seq![]
    } else if cs.len() == 1 {
        hex4(cs[0])
    } else {
        codepoints_spec(cs.drop_last()) + seq![' '] + hex4(cs.last())
    }
}

/// The uppercase hexadecimal digit for `d`, as a string.
fn digit(d: u32) -> (r: &'static str)
    requires
        d < 16,
    ensures
        r@ == seq![hex_digit(d as int)],
{
    if d == 0 {
        proof {
            reveal_strlit("0");
        }
        "0"
    } else if d == 1 {
        proof {
            reveal_strlit("1");
        }
        "1"
    } else if d == 2 {
        proof {
            reveal_strlit("2");
        }
        "2"
    } else if d == 3 {
        proof {
            reveal_strlit("3");
        }
        "3"
    } else if d == 4 {
        proof {
            reveal_strlit("4");
        }
        "4"
    } else if d == 5 {
        proof {
            reveal_strlit("5");
        }
        "5"
    } else if d == 6 {
        proof {
            reveal_strlit("6");
        }
        "6"
    } else if d == 7 {
        proof {
            reveal_strlit("7");
        }
        "7"
    } else if d == 8 {
        proof {
            reveal_strlit("8");
        }
        "8"
    } else if d == 9 {
        proof {
            reveal_strlit("9");
        }
        "9"
    } else if d == 10 {
        proof {
            reveal_strlit("A");
        }
        "A"
    } else if d == 11 {
        proof {
            reveal_strlit("B");
        }
        "B"
    } else if d == 12 {
        proof {
            reveal_strlit("C");
        }
        "C"
    } else if d == 13 {
        proof {
            reveal_strlit("D");
        }
        "D"
    } else if d == 14 {
        proof {
            reveal_strlit("E");
        }
        "E"
    } else {
        proof {
            reveal_strlit("F");
        }
        "F"
    }
}

/// The digits `vals` stand for, least significant first, as characters.
pub open spec fn digit_chars(vals: Seq<u32>) -> Seq<char> {
    vals.map_values(|d: u32| hex_digit(d as int))
}

/// Append the code point of `c` in hexadecimal, zero-padded to four digits.
fn push_hex4(out: &mut String, c: char)
    ensures
        final(out)@ == old(out)@ + hex4(c),
{
    let mut vals: Vec<u32> = Vec::new();
    let mut u = c as u32;
    let ghost u0 = u as nat;
    // Collect the digits least significant first.
    loop
        invariant_except_break
            hex_digits(u0) == (if vals@.len() == 0 {
                hex_digits(u as nat)
            } else {
                hex_digits(u as nat) + digit_chars(vals@).reverse()
            }),
        invariant
            forall|i: int| 0 <= i < vals@.len() ==> #[trigger] vals@[i] < 16,
        ensures
            hex_digits(u0) == digit_chars(vals@).reverse(),
            forall|i: int| 0 <= i < vals@.len() ==> #[trigger] vals@[i] < 16,
        decreases u,
    {
        let d = u % 16;
        let ghost old_vals = vals@;
        vals.push(d);
        proof {
            assert(digit_chars(vals@) =~= digit_chars(old_vals).push(hex_digit(d as int)));
            assert(digit_chars(vals@).reverse() =~= seq![hex_digit(d as int)] + digit_chars(old_vals).reverse());
        }
        if u < 16 {
            proof {
                if old_vals.len() == 0 {
                    assert(hex_digits(u0) =~= digit_chars(vals@).reverse());
                } else {
                    assert(hex_digits(u0) =~= digit_chars(vals@).reverse());
                }
            }
            break;
        }
        proof {
            assert(hex_digits(u as nat) == hex_digits((u / 16) as nat) + seq![hex_digit((u % 16) as int)]);
            assert(hex_digits(u0) =~= hex_digits((u / 16) as nat) + digit_chars(vals@).reverse());
        }
        u = u / 16;
    }
    let ghost ds = digit_chars(vals@).reverse();
    let pad: usize = if vals.len() < 4 {
        4 - vals.len()
    } else {
        0
    };
    let zero = "0";
    proof {
        reveal_strlit("0");
    }
    let ghost base = out@;
    let mut k: usize = 0;
    while k < pad
        invariant
            k <= pad,
            zero@ == seq!['0'],
            out@ == base + Seq::new(k as nat, |i: int| '0'),
        decreases pad - k,
    {
        crate::text::push_str(out, zero);
        k = k + 1;
        assert(out@ =~= base + Seq::new(k as nat, |i: int| '0'));
    }
    let ghost mid = out@;
    let mut j = vals.len();
    while j > 0
        invariant
            j <= vals@.len(),
            forall|i: int| 0 <= i < vals@.len() ==> #[trigger] vals@[i] < 16,
            ds == digit_chars(vals@).reverse(),
            out@ == mid + ds.take(vals@.len() - j),
        decreases j,
    {
        j = j - 1;
        let d = digit(vals[j]);
        crate::text::push_str(out, d);
        proof {
            assert(ds[vals@.len() - 1 - j] == hex_digit(vals@[j as int] as int));
            assert(out@ =~= mid + ds.take(vals@.len() - j));
        }
    }
    proof {
        assert(ds.take(vals@.len() as int) =~= ds);
        assert(out@ =~= base + hex4(c));
    }
}

/// Render a string as space-separated code points, for the report.
pub fn codepoints(s: &str) -> (r: String)
    ensures
        r@ == codepoints_spec(s@),
{
    let cs = crate::text::to_chars(s);
    let mut out = String::new();
    let mut i: usize = 0;
    while i < cs.len()
        invariant
            cs@ == s@,
            i <= cs.len(),
            out@ == codepoints_spec(s@.take(i as int)),
        decreases cs.len() - i,
    {
        if i > 0 {
            let space = " ";
            proof {
                reveal_strlit(" ");
            }
            crate::text::push_str(&mut out, space);
        }
        push_hex4(&mut out, cs[i]);
        i = i + 1;
        proof {
            let t = s@.take(i as int);
            assert(t.drop_last() =~= s@.take(i - 1));
            assert(out@ =~= codepoints_spec(t));
        }
    }
    proof {
        assert(s@.take(i as int) =~= s@);
    }
    out
}

} // verus!
