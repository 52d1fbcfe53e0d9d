//! Fixed-point numbers and their decimal text.
//!
//! A value `v` stands for the number `v / 10000`. A whole number is written
//! with a trailing point and no fractional digits (`12.`), any other number
//! with exactly four fractional digits (`-0.5000`).

use vstd::prelude::*;
use vstd::string::*;

verus! {

/// How many counts make one unit.
pub const SCALE: i64 = 10_000;

/// The character of one decimal digit.
pub open spec fn digit(d: int) -> char {
    if d == 0 {
        '0'
    } else if d == 1 {
        '1'
    } else if d == 2 {
        '2'
    } else if d == 3 {
        '3'
    } else if d == 4 {
        '4'
    } else if d == 5 {
        '5'
    } else if d == 6 {
        '6'
    } else if d == 7 {
        '7'
    } else if d == 8 {
        '8'
    } else {
        '9'
    }
}

/// The decimal digits of `n`, most significant first, without leading zeros.
pub open spec fn decimal(n: nat) -> Seq<char>
    decreases n,
{
    if n < 10 {
        seq![digit(n as int)]
    } else {
        decimal(n / 10).push(digit((n % 10) as int))
    }
}

/// The four digits of a fraction `f` of a unit, `0 <= f < 10000`.
pub open spec fn fraction(f: nat) -> Seq<char> {
    seq![
        digit((f / 1000) as int),
        digit((f / 100 % 10) as int),
        digit((f / 10 % 10) as int),
        digit((f % 10) as int),
    ]
}

/// The magnitude of `v`.
pub open spec fn magnitude(v: int) -> nat {
    if v < 0 {
        (-v) as nat
    } else {
        v as nat
    }
}

/// The text of the fixed-point number `v`.
pub open spec fn number_text(v: int) -> Seq<char> {
    let m = magnitude(v);
    let sign = if v < 0 {
        seq!['-']
    } else {
        Seq::<char>::empty()
    };
    let whole = decimal(m / (SCALE as nat));
    if m % (SCALE as nat) == 0 {
        sign + whole + seq!['.']
    } else {
        sign + whole + seq!['.'] + fraction(m % (SCALE as nat))
    }
}

/// One decimal digit as a string slice.
fn digit_str(d: u64) -> (s: &'static str)
    requires
        d < 10,
    ensures
        s@ == seq![digit(d as int)],
{
    proof {
        reveal_strlit("0");
        reveal_strlit("1");
        reveal_strlit("2");
        reveal_strlit("3");
        reveal_strlit("4");
        reveal_strlit("5");
        reveal_strlit("6");
        reveal_strlit("7");
        reveal_strlit("8");
        reveal_strlit("9");
    }
    let s = if d == 0 {
        "0"
    } else if d == 1 {
        "1"
    } else if d == 2 {
        "2"
    } else if d == 3 {
        "3"
    } else if d == 4 {
        "4"
    } else if d == 5 {
        "5"
    } else if d == 6 {
        "6"
    } else if d == 7 {
        "7"
    } else if d == 8 {
        "8"
    } else {
        "9"
    };
    assert(s@ =~= seq![digit(d as int)]);
    s
}

/// Appends the decimal digits of `n` to `out`.
pub fn push_decimal(out: &mut String, n: u64)
    ensures
        final(out)@ == old(out)@ + decimal(n as nat),
    decreases n,
{
    if n >= 10 {
        push_decimal(out, n / 10);
    }
    out.append(digit_str(n % 10));
    assert(final(out)@ =~= old(out)@ + decimal(n as nat));
}

/// Appends the text of the fixed-point number `v` to `out`.
pub fn push_number(out: &mut String, v: i64)
    ensures
        final(out)@ == old(out)@ + number_text(v as int),
{
    let m: u64 = if v < 0 {
        out.append("-");
        ((-(v + 1)) as u64) + 1
    } else {
        v as u64
    };
    proof {
        reveal_strlit("-");
        reveal_strlit(".");
    }
    assert(m as nat == magnitude(v as int));
    push_decimal(out, m / (SCALE as u64));
    out.append(".");
    let f: u64 = m % (SCALE as u64);
    if f != 0 {
        out.append(digit_str(f / 1000));
        out.append(digit_str(f / 100 % 10));
        out.append(digit_str(f / 10 % 10));
        out.append(digit_str(f % 10));
    }
    assert(final(out)@ =~= old(out)@ + number_text(v as int));
}

/// The text of the fixed-point number `v`.
pub fn number_string(v: i64) -> (s: String)
    ensures
        s@ == number_text(v as int),
{
    let mut s = String::new();
    push_number(&mut s, v);
    s
}

} // verus!
