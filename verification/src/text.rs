//! Texts, and numbers as text.

use vstd::prelude::*;

verus! {

/// The decimal digit of a number below 10.
pub open spec fn digit_char(n: int) -> char {
    if n == 0 {
        '0'
    } else if n == 1 {
        '1'
    } else if n == 2 {
        '2'
    } else if n == 3 {
        '3'
    } else if n == 4 {
        '4'
    } else if n == 5 {
        '5'
    } else if n == 6 {
        '6'
    } else if n == 7 {
        '7'
    } else if n == 8 {
        '8'
    } else {
        '9'
    }
}

/// A natural number in decimal digits without leading zeros.
pub open spec fn natural_text(n: nat) -> Seq<char>
    decreases n,
{
    if n < 10 {
        seq![digit_char(n as int)]
    } else {
        natural_text(n / 10).push(digit_char((n % 10) as int))
    }
}

/// An integer in decimal digits, with a minus sign if it is negative.
pub open spec fn integer_text(n: int) -> Seq<char> {
    if n < 0 {
        seq!['-'] + natural_text((-n) as nat)
    } else {
        natural_text(n as nat)
    }
}

fn digit_text(n: u128) -> (r: &'static str)
    requires
        n < 10,
    ensures
        r@ == seq![digit_char(n as int)],
{
    proof {
        reveal_strlit("0");
        reveal_strlit("1");
        reveal_strlit("2");
        reveal_strlit("3");
        reveal_strlit("4");
        reveal_strlit("5");
        reveal_strlit("6");
        reveal_strlit("7");
        reveal_strlit("8");
        reveal_strlit("9");
    }
    let r: &'static str = match n {
        0 => "0",
        1 => "1",
        2 => "2",
        3 => "3",
        4 => "4",
        5 => "5",
        6 => "6",
        7 => "7",
        8 => "8",
        _ => "9",
    };
    assert(r@ =~= seq![digit_char(n as int)]);
    r
}

fn append_natural(out: &mut String, n: u128)
    ensures
        final(out)@ == old(out)@ + natural_text(n as nat),
    decreases n,
{
    let ghost before = out@;
    if n >= 10 {
        append_natural(out, n / 10);
    }
    out.append(digit_text(n % 10));
    assert(out@ =~= before + natural_text(n as nat));
}

/// Appends an integer in decimal digits.
pub fn append_integer(out: &mut String, n: i128)
    ensures
        final(out)@ == old(out)@ + integer_text(n as int),
{
    let ghost before = out@;
    if n < 0 {
        proof {
            reveal_strlit("-");
        }
        out.append("-");
        // the absolute value of the smallest number does not fit its type
        let rest: u128 = (-(n + 1)) as u128 + 1;
        append_natural(out, rest);
        assert(out@ =~= before + integer_text(n as int));
    } else {
        append_natural(out, n as u128);
    }
}

/// Whether two texts are the same.
pub fn same_text(a: &str, b: &str) -> (r: bool)
    ensures
        r == (a@ == b@),
{
    let first: String = a.to_owned();
    let second: String = b.to_owned();
    first == second
}

} // verus!
