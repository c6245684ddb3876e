//! Decimal rendering of sample-rate reciprocals.
//!
//! A sampled distribution line carries `@1/rate`. The reciprocal is rendered
//! as an exact decimal truncated to seventeen fractional digits, with
//! trailing zeros stripped: rate 2 becomes `0.5`, rate 8 becomes `0.125`.

use vstd::prelude::*;
use vstd::string::*;

verus! {

/// The character for one decimal digit.
pub open spec fn digit_seq(d: int) -> Seq<char> {
    if d == 0 {
        "0"@
    } else if d == 1 {
        "1"@
    } else if d == 2 {
        "2"@
    } else if d == 3 {
        "3"@
    } else if d == 4 {
        "4"@
    } else if d == 5 {
        "5"@
    } else if d == 6 {
        "6"@
    } else if d == 7 {
        "7"@
    } else if d == 8 {
        "8"@
    } else {
        "9"@
    }
}

/// The decimal digits of `n`, most significant first.
pub open spec fn dec_chars(n: int) -> Seq<char>
    decreases n,
{
    if n < 10 {
        digit_seq(n)
    } else {
        dec_chars(n / 10) + digit_seq(n % 10)
    }
}

/// `k` zero characters.
pub open spec fn zero_chars(k: int) -> Seq<char>
    decreases k,
{
    if k <= 0 {
        Seq::empty()
    } else {
        zero_chars(k - 1) + "0"@
    }
}

/// Ten to the `k`.
pub open spec fn pow10(k: int) -> int
    decreases k,
{
    if k <= 0 {
        1
    } else {
        10 * pow10(k - 1)
    }
}

/// `(d, k)` with common factors of ten stripped while more than one
/// fractional digit remains.
pub open spec fn strip_zeros(d: int, k: int) -> (int, int)
    decreases k,
{
    if k > 1 && d % 10 == 0 {
        strip_zeros(d / 10, k - 1)
    } else {
        (d, k)
    }
}

/// The reciprocal of `rate` as `0.` followed by `k` fractional digits, the
/// digits being the first seventeen of the exact expansion with trailing
/// zeros stripped.
pub open spec fn inv_rate_chars(rate: u32) -> Seq<char> {
    let d0 = 100000000000000000int / (rate as int);
    let dk = strip_zeros(d0, 17);
    "0."@ + zero_chars(dk.1 - dec_chars(dk.0).len()) + dec_chars(dk.0)
}

proof fn lemma_dec_chars_len(n: int, k: int)
    requires
        0 <= n,
        1 <= k,
        n < pow10(k),
    ensures
        dec_chars(n).len() <= k,
    decreases n,
{
    reveal_strlit("0");
    reveal_strlit("1");
    reveal_strlit("2");
    reveal_strlit("3");
    reveal_strlit("4");
    reveal_strlit("5");
    reveal_strlit("6");
    reveal_strlit("7");
    reveal_strlit("8");
    reveal_strlit("9");
    if n < 10 {
    } else {
        assert(pow10(k) == 10 * pow10(k - 1));
        lemma_dec_chars_len(n / 10, k - 1);
    }
}

/// One digit as text.
fn digit_str(d: u64) -> (r: &'static str)
    requires
        d < 10,
    ensures
        r@ == digit_seq(d as int),
{
    match d {
        0 => "0",
        1 => "1",
        2 => "2",
        3 => "3",
        4 => "4",
        5 => "5",
        6 => "6",
        7 => "7",
        8 => "8",
        _ => "9",
    }
}

/// The decimal digits of `n`.
pub fn u64_to_dec(n: u64) -> (r: String)
    ensures
        r@ == dec_chars(n as int),
    decreases n,
{
    if n < 10 {
        String::from_str(digit_str(n))
    } else {
        let mut s = u64_to_dec(n / 10);
        s.append(digit_str(n % 10));
        s
    }
}

/// Renders `1/rate` as a decimal, exact to seventeen fractional digits.
pub fn inv_rate_text(rate: u32) -> (r: String)
    requires
        rate >= 2,
    ensures
        r@ == inv_rate_chars(rate),
{
    let ghost d0 = 100000000000000000int / (rate as int);
    let mut d: u64 = 100000000000000000u64 / (rate as u64);
    let mut k: u64 = 17;
    proof {
        reveal_with_fuel(pow10, 18);
        assert(pow10(17) == 100000000000000000);
        vstd::arithmetic::div_mod::lemma_div_is_ordered_by_denominator(
            100000000000000000,
            2,
            rate as int,
        );
        assert(d0 <= 100000000000000000int / 2);
    }
    while k > 1 && d % 10 == 0
        invariant
            1 <= k <= 17,
            strip_zeros(d as int, k as int) == strip_zeros(d0, 17),
            d < pow10(k as int),
        decreases k,
    {
        proof {
            assert(pow10(k as int) == 10 * pow10(k as int - 1));
        }
        d = d / 10;
        k = k - 1;
    }
    proof {
        lemma_dec_chars_len(d as int, k as int);
    }
    let digits = u64_to_dec(d);
    let len = digits.as_str().unicode_len();
    let mut out = String::from_str("0.");
    let mut z: u64 = len as u64;
    while z < k
        invariant
            len == dec_chars(d as int).len(),
            len as u64 <= z <= k,
            out@ == "0."@ + zero_chars(z - len),
        decreases k - z,
    {
        out.append("0");
        z = z + 1;
    }
    out.append(digits.as_str());
    proof {
        assert(out@ =~= inv_rate_chars(rate));
    }
    out
}

} // verus!
