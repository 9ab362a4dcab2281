//! Verified text helpers: decimal rendering, the percent text of a
//! basis-point ratio, ASCII case-insensitive comparison, and a trusted
//! wrapper around substring replacement.

use vstd::prelude::*;
use vstd::string::StrSliceExecFns;

verus! {

/// The result of replacing every occurrence of `from` in `s` by `to`,
/// left to right; a function of its arguments alone.
pub uninterp spec fn replaced(s: Seq<char>, from: Seq<char>, to: Seq<char>) -> Seq<char>;

/// Relies on `str::replace`: replaces every match of the pattern, left to
/// right; the result depends on the three strings alone.
#[verifier::external_body]
pub fn replace_all(s: &str, from: &str, to: &str) -> (r: String)
    ensures
        r@ == replaced(s@, from@, to@),
{
    s.replace(from, to)
}

/// The decimal digit character for one value below ten.
pub open spec fn spec_digit_char(d: nat) -> char {
    ((48 + d) as u32) as char
}

/// The decimal text of a number, most significant digit first.
pub open spec fn spec_digits(n: nat) -> Seq<char>
    decreases n,
{
    if n < 10 {
        seq![spec_digit_char(n)]
    } else {
        spec_digits(n / 10).push(spec_digit_char(n % 10))
    }
}

/// One decimal digit as a string.
fn digit_str(d: u64) -> (s: String)
    requires
        d < 10,
    ensures
        s@ == seq![spec_digit_char(d as nat)],
{
    let s = match d {
        0 => "0",
        1 => "1",
        2 => "2",
        3 => "3",
        4 => "4",
        5 => "5",
        6 => "6",
        7 => "7",
        8 => "8",
        _ => "9",
    };
    proof {
        reveal_strlit("0");
        reveal_strlit("1");
        reveal_strlit("2");
        reveal_strlit("3");
        reveal_strlit("4");
        reveal_strlit("5");
        reveal_strlit("6");
        reveal_strlit("7");
        reveal_strlit("8");
        reveal_strlit("9");
        assert(s@ =~= seq![spec_digit_char(d as nat)]);
    }
    s.to_owned()
}

/// The decimal text of `n`.
pub fn u64_to_string(n: u64) -> (s: String)
    ensures
        s@ == spec_digits(n as nat),
    decreases n,
{
    if n < 10 {
        digit_str(n)
    } else {
        let mut s = u64_to_string(n / 10);
        let tail = digit_str(n % 10);
        s.append(tail.as_str());
        proof {
            assert(s@ =~= spec_digits((n / 10) as nat).push(spec_digit_char((n % 10) as nat)));
        }
        s
    }
}

/// The display text of a ratio given in basis points, as a percentage with
/// up to two decimal places and no trailing zeros: 3457 renders as
/// `34.57%`, 3450 as `34.5%`, 3400 as `34%`, 3405 as `34.05%`.
pub open spec fn spec_percent_text(bp: nat) -> Seq<char> {
    let whole = spec_digits(bp / 100);
    let frac = bp % 100;
    if frac == 0 {
        whole + seq!['%']
    } else if frac % 10 == 0 {
        whole + seq!['.'] + spec_digits(frac / 10) + seq!['%']
    } else if frac < 10 {
        whole + seq!['.', '0'] + spec_digits(frac) + seq!['%']
    } else {
        whole + seq!['.'] + spec_digits(frac) + seq!['%']
    }
}

pub fn percent_text(bp: u32) -> (s: String)
    ensures
        s@ == spec_percent_text(bp as nat),
{
    proof {
        reveal_strlit("%");
        reveal_strlit(".");
        reveal_strlit(".0");
    }
    let mut s = u64_to_string((bp / 100) as u64);
    let frac: u32 = bp % 100;
    if frac == 0 {
        s.append("%");
        proof {
            assert(s@ =~= spec_percent_text(bp as nat));
        }
    } else if frac % 10 == 0 {
        s.append(".");
        let d = u64_to_string((frac / 10) as u64);
        s.append(d.as_str());
        s.append("%");
        proof {
            assert(s@ =~= spec_percent_text(bp as nat));
        }
    } else if frac < 10 {
        s.append(".0");
        let d = u64_to_string(frac as u64);
        s.append(d.as_str());
        s.append("%");
        proof {
            assert(s@ =~= spec_percent_text(bp as nat));
        }
    } else {
        s.append(".");
        let d = u64_to_string(frac as u64);
        s.append(d.as_str());
        s.append("%");
        proof {
            assert(s@ =~= spec_percent_text(bp as nat));
        }
    }
    s
}

/// ASCII lowercase folding of one character; other characters unchanged.
pub open spec fn spec_lower_char(c: char) -> char {
    if 'A' <= c && c <= 'Z' {
        ((c as u32) + 32) as char
    } else {
        c
    }
}

/// Case-insensitive equality under ASCII folding.
pub open spec fn spec_eq_ignore_case(a: Seq<char>, b: Seq<char>) -> bool {
    a.map_values(|c: char| spec_lower_char(c)) == b.map_values(|c: char| spec_lower_char(c))
}

fn lower_char(c: char) -> (r: char)
    ensures
        r == spec_lower_char(c),
{
    if 'A' <= c && c <= 'Z' {
        ((c as u8) + 32) as char
    } else {
        c
    }
}

/// Compare two strings, folding ASCII letters to lower case.
pub fn eq_ignore_ascii_case(a: &str, b: &str) -> (r: bool)
    ensures
        r == spec_eq_ignore_case(a@, b@),
{
    let la = a.unicode_len();
    let lb = b.unicode_len();
    if la != lb {
        proof {
            assert(a@.map_values(|c: char| spec_lower_char(c)).len() == a@.len());
            assert(b@.map_values(|c: char| spec_lower_char(c)).len() == b@.len());
        }
        return false;
    }
    let mut i: usize = 0;
    while i < la
        invariant
            i <= la,
            la == a@.len(),
            lb == b@.len(),
            la == lb,
            forall|j: int| 0 <= j < i ==> spec_lower_char(a@[j]) == spec_lower_char(b@[j]),
        decreases la - i,
    {
        let ca = a.get_char(i);
        let cb = b.get_char(i);
        if lower_char(ca) != lower_char(cb) {
            proof {
                assert(a@.map_values(|c: char| spec_lower_char(c))[i as int] != b@.map_values(
                    |c: char| spec_lower_char(c),
                )[i as int]);
            }
            return false;
        }
        i = i + 1;
    }
    proof {
        assert(a@.map_values(|c: char| spec_lower_char(c)) =~= b@.map_values(
            |c: char| spec_lower_char(c),
        ));
    }
    true
}

} // verus!

