//! Synthesis of package file names: the only place the `PAD{id:05}.paz`
//! pattern is written, zero-padded decimal included.

use vstd::prelude::*;
use vstd::string::{StrSliceExecFns, StringExecFns};

verus! {

/// The character for one decimal digit value.
pub open spec fn digit_char(d: int) -> char {
    ((48 + d) as u8) as char
}

/// The decimal digits of `n`, most significant first, empty for zero.
pub open spec fn spec_digits0(n: int) -> Seq<char>
    decreases n,
{
    if n <= 0 {
        Seq::empty()
    } else {
        spec_digits0(n / 10).push(digit_char(n % 10))
    }
}

/// The usual decimal writing of `n`: `"0"` for zero, no leading zeros
/// otherwise.
pub open spec fn spec_decimal(n: int) -> Seq<char> {
    if n == 0 {
        seq!['0']
    } else {
        spec_digits0(n)
    }
}

/// `k` zero characters (none when `k` is not positive).
pub open spec fn spec_zeros(k: int) -> Seq<char> {
    if k > 0 {
        Seq::new(k as nat, |i: int| '0')
    } else {
        Seq::empty()
    }
}

/// The decimal writing of `n`, left-padded with zeros to at least five
/// characters.
pub open spec fn spec_pad5(n: int) -> Seq<char> {
    spec_zeros(5 - spec_decimal(n).len()) + spec_decimal(n)
}

/// The one-character text for a digit value.
fn digit_str(d: u32) -> (r: &'static str)
    requires
        d < 10,
    ensures
        r@ == seq![digit_char(d as int)],
{
    proof {
        reveal_strlit("0");
        reveal_strlit("1");
        reveal_strlit("2");
        reveal_strlit("3");
        reveal_strlit("4");
        reveal_strlit("5");
        reveal_strlit("6");
        reveal_strlit("7");
        reveal_strlit("8");
        reveal_strlit("9");
    }
    let r = match d {
        0 => "0",
        1 => "1",
        2 => "2",
        3 => "3",
        4 => "4",
        5 => "5",
        6 => "6",
        7 => "7",
        8 => "8",
        _ => "9",
    };
    proof {
        assert(r@ =~= seq![digit_char(d as int)]);
    }
    r
}

/// Writes `n` in decimal, left-padded with zeros to at least five
/// characters, as `PAD{n:05}` package numbering wants it.
pub fn pad5(n: u32) -> (r: String)
    ensures
        r@ == spec_pad5(n as int),
{
    let mut digits = String::new();
    if n == 0 {
        digits.append(digit_str(0));
        proof {
            assert(digits@ =~= spec_decimal(0));
        }
    } else {
        let mut m = n;
        proof {
            assert(spec_digits0(n as int) + digits@ =~= spec_digits0(n as int));
        }
        while m > 0
            invariant
                spec_digits0(m as int) + digits@ == spec_digits0(n as int),
            decreases m,
        {
            let d = m % 10;
            let prefix = String::from_str(digit_str(d));
            let joined = prefix.concat(digits.as_str());
            proof {
                assert(spec_digits0(m as int) =~= spec_digits0(m as int / 10) + seq![
                    digit_char(m as int % 10),
                ]);
                assert(spec_digits0(m as int / 10) + joined@ =~= spec_digits0(m as int)
                    + digits@);
            }
            digits = joined;
            m = m / 10;
        }
        proof {
            assert(Seq::<char>::empty() + digits@ =~= digits@);
            assert(digits@ == spec_decimal(n as int));
        }
    }
    let ghost dec = spec_decimal(n as int);
    let mut out = digits;
    let mut l: usize = out.as_str().unicode_len();
    proof {
        assert(spec_zeros(0) + dec =~= dec);
    }
    while l < 5
        invariant
            dec == spec_decimal(n as int),
            l == out@.len(),
            l >= dec.len(),
            l == dec.len() || l <= 5,
            out@ == spec_zeros(l - dec.len()) + dec,
        decreases 5 - l,
    {
        let prefix = String::from_str(digit_str(0));
        let joined = prefix.concat(out.as_str());
        proof {
            assert(joined@ =~= spec_zeros(l + 1 - dec.len()) + dec);
        }
        out = joined;
        l = l + 1;
    }
    proof {
        assert(out@ =~= spec_pad5(n as int));
    }
    out
}

/// The name of the package file a record lives in: `PAD`, the zero-padded
/// package id, `.paz`.
pub open spec fn spec_package_name(package_id: int) -> Seq<char> {
    seq!['P', 'A', 'D'] + spec_pad5(package_id) + seq!['.', 'p', 'a', 'z']
}

/// Builds the `PAD{id:05}.paz` package file name.
pub fn package_file_name(package_id: u32) -> (r: String)
    ensures
        r@ == spec_package_name(package_id as int),
{
    proof {
        reveal_strlit("PAD");
        reveal_strlit(".paz");
    }
    let head = String::from_str("PAD");
    let mid = head.concat(pad5(package_id).as_str());
    let r = mid.concat(".paz");
    proof {
        assert(r@ =~= spec_package_name(package_id as int));
    }
    r
}

} // verus!
