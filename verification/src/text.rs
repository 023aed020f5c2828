//! Small text helpers.

use vstd::prelude::*;

verus! {

/// The digit of a number below ten.
pub open spec fn digit(n: nat) -> char {
    ('0' as u32 + n) as char
}

/// The decimal spelling of a number.
pub open spec fn decimal(n: nat) -> Seq<char>
    decreases n,
{
    if n < 10 {
        seq![digit(n)]
    } else {
        decimal(n / 10).push(digit(n % 10))
    }
}

/// The decimal spelling of a number, with its sign where it is negative.
pub open spec fn signed_decimal(v: int) -> Seq<char> {
    if v < 0 {
        "-"@ + decimal((-v) as nat)
    } else {
        decimal(v as nat)
    }
}

/// The decimal spelling of a number, with its sign where it is negative.
pub fn signed_decimal_text(v: i128) -> (r: String)
    ensures
        r@ == signed_decimal(v as int),
{
    if v >= 0 {
        decimal_text(v as u128)
    } else {
        let mut out: String = "-".to_owned();
        out.append(&decimal_text((-(v + 1)) as u128 + 1));
        out
    }
}

/// The decimal spelling of a number.
pub fn decimal_text(n: u128) -> (r: String)
    ensures
        r@ == decimal(n as nat),
    decreases n,
{
    let mut out: String = if n < 10 {
        String::new()
    } else {
        decimal_text(n / 10)
    };
    out.push((48u8 + (n % 10) as u8) as char);
    out
}

/// Three texts in a row.
pub fn concat3(a: &str, b: &str, c: &str) -> (r: String)
    ensures
        r@ == a@ + b@ + c@,
{
    let mut out: String = a.to_owned();
    out.append(b);
    out.append(c);
    out
}

/// `before`, a name, and the closing quote.
pub open spec fn quoted(before: Seq<char>, name: Seq<char>) -> Seq<char> {
    before + name + "'"@
}

/// `before`, a name, and the closing quote.
pub fn quote(before: &str, name: &str) -> (r: String)
    ensures
        r@ == quoted(before@, name@),
{
    concat3(before, name, "'")
}

} // verus!
