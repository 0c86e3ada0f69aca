//! Decimal rendering of token counts.
//!
//! Counts below one thousand are shown in full; larger counts are shown
//! with one decimal place and a `K` or `M` suffix, rounding half up.

use vstd::prelude::*;

verus! {

/// The decimal digit character for a value in `0..10`.
pub open spec fn digit_char(d: int) -> char {
    if d == 0 {
        '0'
    } else if d == 1 {
        '1'
    } else if d == 2 {
        '2'
    } else if d == 3 {
        '3'
    } else if d == 4 {
        '4'
    } else if d == 5 {
        '5'
    } else if d == 6 {
        '6'
    } else if d == 7 {
        '7'
    } else if d == 8 {
        '8'
    } else {
        '9'
    }
}

/// The usual decimal rendering of a non-negative integer.
pub open spec fn spec_decimal(n: int) -> Seq<char>
    decreases n,
{
    if n < 10 {
        seq![digit_char(n)]
    } else {
        spec_decimal(n / 10).push(digit_char(n % 10))
    }
}

/// `n` rounded to the nearest multiple of `unit` (half up), in units.
pub open spec fn spec_rounded_tenths(n: int, unit: int) -> int {
    n / unit + if n % unit >= unit / 2 {
        1int
    } else {
        0int
    }
}

/// The display form of a token count: counts below 1000 in full, larger
/// counts as tenths of thousands (`K`) or millions (`M`), half up.
pub open spec fn spec_format_token_count(c: int) -> Seq<char> {
    if c < 1000 {
        spec_decimal(c)
    } else if c < 1000000 {
        let t = spec_rounded_tenths(c, 100);
        spec_decimal(t / 10) + seq!['.', digit_char(t % 10), 'K']
    } else {
        let t = spec_rounded_tenths(c, 100000);
        spec_decimal(t / 10) + seq!['.', digit_char(t % 10), 'M']
    }
}

/// A one-character string slice for a single decimal digit.
fn digit_str(d: u64) -> (r: &'static str)
    requires
        d < 10,
    ensures
        r@ =~= seq![digit_char(d as int)],
{
    proof {
        reveal_strlit("0");
        reveal_strlit("1");
        reveal_strlit("2");
        reveal_strlit("3");
        reveal_strlit("4");
        reveal_strlit("5");
        reveal_strlit("6");
        reveal_strlit("7");
        reveal_strlit("8");
        reveal_strlit("9");
    }
    match d {
        0 => "0",
        1 => "1",
        2 => "2",
        3 => "3",
        4 => "4",
        5 => "5",
        6 => "6",
        7 => "7",
        8 => "8",
        _ => "9",
    }
}

/// The digit characters of `s`, last digit first.
spec fn rev_digit_chars(s: Seq<u64>) -> Seq<char> {
    Seq::new(s.len(), |i: int| digit_char(s[s.len() - 1 - i] as int))
}

/// Renders a non-negative integer in decimal.
pub fn u64_to_string(n: u64) -> (r: String)
    ensures
        r@ == spec_decimal(n as int),
{
    if n == 0 {
        let r = String::from_str("0");
        proof {
            reveal_strlit("0");
            assert(r@ =~= spec_decimal(0));
        }
        return r;
    }
    let mut digits: Vec<u64> = Vec::new();
    let mut m: u64 = n;
    while m > 0
        invariant
            m > 0 ==> spec_decimal(n as int) =~= spec_decimal(m as int) + rev_digit_chars(
                digits@,
            ),
            m == 0 ==> spec_decimal(n as int) =~= rev_digit_chars(digits@),
            forall|i: int| 0 <= i < digits@.len() ==> digits@[i] < 10,
        decreases m,
    {
        let d = m % 10;
        let ghost old_digits = digits@;
        let ghost old_m = m as int;
        digits.push(d);
        m = m / 10;
        proof {
            assert(rev_digit_chars(digits@) =~= seq![digit_char(d as int)] + rev_digit_chars(
                old_digits,
            ));
            if old_m < 10 {
                assert(spec_decimal(old_m) =~= seq![digit_char(d as int)]);
                assert(spec_decimal(n as int) =~= rev_digit_chars(digits@));
            } else {
                assert(spec_decimal(old_m) =~= spec_decimal(old_m / 10) + seq![
                    digit_char(old_m % 10),
                ]);
                assert(spec_decimal(n as int) =~= spec_decimal(m as int) + rev_digit_chars(
                    digits@,
                ));
            }
        }
    }
    let mut r = String::new();
    let len = digits.len();
    let mut j: usize = 0;
    while j < len
        invariant
            len == digits@.len(),
            j <= len,
            spec_decimal(n as int) =~= rev_digit_chars(digits@),
            forall|i: int| 0 <= i < len ==> digits@[i] < 10,
            r@ =~= rev_digit_chars(digits@).take(j as int),
        decreases len - j,
    {
        let c = digit_str(digits[len - 1 - j]);
        r.append(c);
        j = j + 1;
        proof {
            assert(r@ =~= rev_digit_chars(digits@).take(j as int));
        }
    }
    proof {
        assert(r@ =~= rev_digit_chars(digits@));
    }
    r
}

/// Formats a token count for display: full decimal below one thousand,
/// otherwise one decimal place with a `K` or `M` suffix, rounding half up.
pub fn format_token_count(count: u64) -> (r: String)
    ensures
        r@ == spec_format_token_count(count as int),
{
    proof {
        reveal_strlit(".");
        reveal_strlit("K");
        reveal_strlit("M");
    }
    if count < 1000 {
        u64_to_string(count)
    } else if count < 1000000 {
        let t = count / 100 + if count % 100 >= 50 {
            1
        } else {
            0
        };
        let mut r = u64_to_string(t / 10);
        r.append(".");
        r.append(digit_str(t % 10));
        r.append("K");
        proof {
            assert(r@ =~= spec_format_token_count(count as int));
        }
        r
    } else {
        let t = count / 100000 + if count % 100000 >= 50000 {
            1
        } else {
            0
        };
        let mut r = u64_to_string(t / 10);
        r.append(".");
        r.append(digit_str(t % 10));
        r.append("M");
        proof {
            assert(r@ =~= spec_format_token_count(count as int));
        }
        r
    }
}

} // verus!
