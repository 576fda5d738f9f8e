//! Decimal text of integers, as `Display` writes it.
use vstd::prelude::*;
use crate::utils::text::string_push;

verus! {

/// The decimal digit for `d < 10`.
pub open spec fn digit(d: nat) -> char {
    if d == 0 { '0' } else if d == 1 { '1' } else if d == 2 { '2' } else if d == 3 { '3' }
    else if d == 4 { '4' } else if d == 5 { '5' } else if d == 6 { '6' } else if d == 7 { '7' }
    else if d == 8 { '8' } else { '9' }
}

/// The decimal text of `n`, without leading zeros.
pub open spec fn decimal(n: nat) -> Seq<char>
    decreases n,
{
    if n < 10 {
        seq![digit(n)]
    } else {
        decimal(n / 10).push(digit(n % 10))
    }
}

/// The decimal text of `v`, with a leading `-` when it is negative.
pub open spec fn signed_decimal(v: int) -> Seq<char> {
    if v < 0 {
        seq!['-'] + decimal((-v) as nat)
    } else {
        decimal(v as nat)
    }
}

fn digit_char(d: u64) -> (c: char)
    requires
        d < 10,
    ensures
        c == digit(d as nat),
{
    if d == 0 { '0' } else if d == 1 { '1' } else if d == 2 { '2' } else if d == 3 { '3' }
    else if d == 4 { '4' } else if d == 5 { '5' } else if d == 6 { '6' } else if d == 7 { '7' }
    else if d == 8 { '8' } else { '9' }
}

/// Writes `n` in decimal.
fn decimal_text(n: u64) -> (res: String)
    ensures
        res@ == decimal(n as nat),
    decreases n,
{
    if n < 10 {
        let mut s = String::new();
        string_push(&mut s, digit_char(n));
        assert(s@ =~= seq![digit(n as nat)]);
        s
    } else {
        let mut s = decimal_text(n / 10);
        string_push(&mut s, digit_char(n % 10));
        s
    }
}

/// The decimal text of a `u32`, as `to_string` writes it.
pub(crate) fn u32_text(v: u32) -> (res: String)
    ensures
        res@ == decimal(v as nat),
{
    decimal_text(v as u64)
}

/// The decimal text of an `i64`, as `to_string` writes it: a `-` first when it is
/// negative.
pub(crate) fn i64_text(v: i64) -> (res: String)
    ensures
        res@ == signed_decimal(v as int),
{
    if v < 0 {
        let m: u64 = (-(v as i128)) as u64;
        let digits = decimal_text(m);
        let res = "-".to_string().concat(digits.as_str());
        proof {
            reveal_strlit("-");
        }
        assert(res@ =~= seq!['-'] + decimal((-v) as nat));
        res
    } else {
        decimal_text(v as u64)
    }
}

} // verus!
