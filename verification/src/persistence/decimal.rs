//! Quantities in decimal digits, as they stand in stored texts.

use crate::bytes::append;
use crate::quantity::{clamped, pow10, Quantity};
use vstd::prelude::*;
use vstd::slice::slice_subrange;

verus! {

/// Numbers with more digits than this are not read.
pub const MAX_DIGITS: usize = 30;

/// Exponents with more digits than this are not read.
pub const MAX_EXPONENT_DIGITS: usize = 4;

pub open spec fn is_digit(b: u8) -> bool {
    48 <= b <= 57
}

pub open spec fn all_digits(s: Seq<u8>) -> bool {
    forall|i: int| 0 <= i < s.len() ==> is_digit(#[trigger] s[i])
}

/// The number that decimal digits stand for.
pub open spec fn digits_value(s: Seq<u8>) -> nat
    decreases s.len(),
{
    if s.len() == 0 {
        0
    } else {
        digits_value(s.drop_last()) * 10 + (s.last() - 48) as nat
    }
}

/// How many digits a text begins with.
pub open spec fn leading_digits(s: Seq<u8>) -> nat
    decreases s.len(),
{
    if s.len() == 0 || !is_digit(s[0]) {
        0
    } else {
        1 + leading_digits(s.drop_first())
    }
}

/// `m` times 10 to the power `k`, to the nearest whole number, a half upwards.
pub open spec fn shifted(m: nat, k: int) -> int {
    if k >= 0 {
        m * pow10(k as nat)
    } else {
        (2 * m + pow10((-k) as nat)) / (2 * pow10((-k) as nat))
    }
}

/// The exponent that follows a number: nothing, or `e` and an integer with or without a sign.
pub open spec fn exponent_value(s: Seq<u8>) -> Option<int> {
    if s.len() == 0 {
        Some(0)
    } else if s[0] != 101 && s[0] != 69 {
        None
    } else {
        let signed = s.len() > 1 && (s[1] == 43 || s[1] == 45);
        let digits = if signed {
            s.skip(2)
        } else {
            s.skip(1)
        };
        if digits.len() == 0 || digits.len() > 4 || leading_digits(digits) != digits.len() {
            None
        } else if signed && s[1] == 45 {
            Some(-digits_value(digits))
        } else {
            Some(digits_value(digits) as int)
        }
    }
}

/// The quantity that a number stands for: digits, perhaps with a sign before them, a point and
/// more digits behind them, and an exponent. It is rounded to billionths and held in range.
#[verifier::opaque]
pub open spec fn quantity_value(s: Seq<u8>) -> Option<Quantity> {
    let negative = s.len() > 0 && s[0] == 45;
    let s1 = if negative {
        s.skip(1)
    } else {
        s
    };
    let n1 = leading_digits(s1);
    let s2 = s1.skip(n1 as int);
    let pointed = s2.len() > 0 && s2[0] == 46;
    let n2 = if pointed {
        leading_digits(s2.skip(1))
    } else {
        0
    };
    let s3 = if pointed {
        s2.skip((1 + n2) as int)
    } else {
        s2
    };
    if n1 == 0 || (pointed && n2 == 0) || n1 + n2 > 30 {
        None
    } else {
        match exponent_value(s3) {
            None => None,
            Some(e) => {
                let m = digits_value(s1.take(n1 as int) + s2.subrange(
                    if pointed {
                        1
                    } else {
                        0
                    },
                    if pointed {
                        (1 + n2) as int
                    } else {
                        0
                    },
                ));
                let v = shifted(m, e - n2 + 9);
                Some(
                    clamped(
                        if negative {
                            -v
                        } else {
                            v
                        },
                    ),
                )
            },
        }
    }
}

proof fn lemma_leading(s: Seq<u8>)
    ensures
        leading_digits(s) <= s.len(),
        all_digits(s.take(leading_digits(s) as int)),
        leading_digits(s) < s.len() ==> !is_digit(s[leading_digits(s) as int]),
    decreases s.len(),
{
    if s.len() > 0 && is_digit(s[0]) {
        let rest = s.drop_first();
        lemma_leading(rest);
        let n = leading_digits(s);
        assert forall|i: int| 0 <= i < n implies is_digit(#[trigger] s.take(n as int)[i]) by {
            if i > 0 {
                assert(rest.take(leading_digits(rest) as int)[i - 1] == s[i]);
            }
        }
    }
}

/// Digits up to the end or to something that is no digit are the leading ones.
/// Digits up to the first byte that is none are counted.
pub proof fn lemma_leading_is(s: Seq<u8>, n: int)
    requires
        0 <= n <= s.len(),
        all_digits(s.take(n)),
        n < s.len() ==> !is_digit(s[n]),
    ensures
        leading_digits(s) == n,
    decreases n,
{
    if n > 0 {
        assert(s.take(n)[0] == s[0]);
        let rest = s.drop_first();
        assert forall|i: int| 0 <= i < n - 1 implies is_digit(#[trigger] rest.take(n - 1)[i]) by {
            assert(s.take(n)[i + 1] == rest.take(n - 1)[i]);
        }
        lemma_leading_is(rest, n - 1);
    }
}

pub proof fn lemma_pow10_positive(n: nat)
    ensures
        pow10(n) >= 1,
    decreases n,
{
    if n > 0 {
        lemma_pow10_positive((n - 1) as nat);
    }
}

proof fn lemma_pow10_grows(a: nat, b: nat)
    requires
        a <= b,
    ensures
        pow10(a) <= pow10(b),
    decreases b,
{
    if a < b {
        lemma_pow10_grows(a, (b - 1) as nat);
        lemma_pow10_positive((b - 1) as nat);
    }
}

proof fn lemma_digits_bound(s: Seq<u8>)
    requires
        all_digits(s),
    ensures
        digits_value(s) < pow10(s.len()),
    decreases s.len(),
{
    if s.len() > 0 {
        assert(all_digits(s.drop_last()));
        lemma_digits_bound(s.drop_last());
        assert(is_digit(s[s.len() - 1]));
    }
}

proof fn lemma_pow10_30()
    ensures
        pow10(30) == 1_000_000_000_000_000_000_000_000_000_000,
{
    assert(pow10(10) == 10_000_000_000) by {
        reveal_with_fuel(pow10, 11);
    }
    assert(pow10(20) == 100_000_000_000_000_000_000) by {
        reveal_with_fuel(pow10, 11);
    }
    reveal_with_fuel(pow10, 11);
}

/// How many digits a text begins with.
fn count_digits(s: &[u8]) -> (r: usize)
    ensures
        r == leading_digits(s@),
        r <= s@.len(),
        all_digits(s@.take(r as int)),
{
    let mut n: usize = 0;
    while n < s.len() && 48 <= s[n] && s[n] <= 57
        invariant
            n <= s@.len(),
            all_digits(s@.take(n as int)),
        decreases s@.len() - n,
    {
        assert forall|i: int| 0 <= i < n + 1 implies is_digit(#[trigger] s@.take(n + 1)[i]) by {
            if i < n {
                assert(s@.take(n as int)[i] == s@[i]);
            }
        }
        n = n + 1;
    }
    proof {
        lemma_leading_is(s@, n as int);
    }
    n
}

/// The number that up to 30 digits stand for.
fn value_of_digits(s: &[u8]) -> (r: u128)
    requires
        s@.len() <= 30,
        all_digits(s@),
    ensures
        r == digits_value(s@),
        r < pow10(s@.len()),
        r < 1_000_000_000_000_000_000_000_000_000_000,
{
    let mut v: u128 = 0;
    for i in 0..s.len()
        invariant
            s@.len() <= 30,
            all_digits(s@),
            v == digits_value(s@.take(i as int)),
    {
        proof {
            let prefix = s@.take(i as int);
            assert(all_digits(prefix)) by {
                assert forall|j: int| 0 <= j < prefix.len() implies is_digit(
                    #[trigger] prefix[j],
                ) by {
                    assert(s@[j] == prefix[j]);
                }
            }
            lemma_digits_bound(prefix);
            lemma_pow10_grows(prefix.len(), 30);
            lemma_pow10_30();
            assert(is_digit(s@[i as int]));
            assert(s@.take(i + 1).drop_last() =~= prefix);
        }
        v = v * 10 + (s[i] - 48) as u128;
    }
    proof {
        assert(s@.take(s@.len() as int) =~= s@);
        lemma_digits_bound(s@);
        lemma_pow10_grows(s@.len(), 30);
        lemma_pow10_30();
    }
    v
}

fn exponent_of(s: &[u8]) -> (r: Option<i64>)
    ensures
        r is Some <==> exponent_value(s@) is Some,
        r matches Some(e) ==> exponent_value(s@) == Some(e as int) && -10_000 < e < 10_000,
{
    if s.len() == 0 {
        return Some(0);
    }
    if s[0] != 101 && s[0] != 69 {
        return None;
    }
    let signed: bool = s.len() > 1 && (s[1] == 43 || s[1] == 45);
    let digits: &[u8] = if signed {
        slice_subrange(s, 2, s.len())
    } else {
        slice_subrange(s, 1, s.len())
    };
    assert(digits@ =~= (if signed {
        s@.skip(2)
    } else {
        s@.skip(1)
    }));
    let n: usize = count_digits(digits);
    if digits.len() == 0 || digits.len() > MAX_EXPONENT_DIGITS || n != digits.len() {
        return None;
    }
    assert(digits@.take(n as int) =~= digits@);
    let v: u128 = value_of_digits(digits);
    proof {
        lemma_pow10_grows(digits@.len(), 4);
        assert(pow10(4) == 10_000) by {
            reveal_with_fuel(pow10, 5);
        }
    }
    let e: i64 = v as i64;
    if signed && s[1] == 45 {
        Some(-e)
    } else {
        Some(e)
    }
}

/// A number above the range of quantities.
const BEYOND: u128 = 10_000_000_000_000_000_000;

/// `m` times 10 to the power `k`, where large results only have to be known as such.
fn shift(m: u128, k: i64) -> (r: u128)
    requires
        m < 1_000_000_000_000_000_000_000_000_000_000,
        -20_000 < k < 20_000,
    ensures
        r == shifted(m as nat, k as int) || (r >= BEYOND && shifted(m as nat, k as int) >= BEYOND),
        r < 0x8000_0000_0000_0000_0000_0000_0000_0000,
{
    if k >= 0 {
        let mut v: u128 = m;
        let mut left: i64 = k;
        assert(pow10(0) == 1);
        assert(m * pow10(k as nat) == v * pow10(left as nat));
        while left > 0 && v < BEYOND
            invariant
                0 <= left <= k,
                v < 1_000_000_000_000_000_000_000_000_000_000,
                m * pow10(k as nat) == v * pow10(left as nat),
            decreases left,
        {
            proof {
                let p = pow10((left - 1) as nat);
                assert(pow10(left as nat) == 10 * p);
                assert(v * (10 * p) == (v * 10) * p) by (nonlinear_arith);
            }
            v = v * 10;
            left = left - 1;
        }
        proof {
            lemma_pow10_positive(left as nat);
            let p = pow10(left as nat);
            if left > 0 {
                assert(v * p >= v) by (nonlinear_arith)
                    requires
                        p >= 1,
                        v >= 0,
                ;
            } else {
                assert(p == 1);
            }
        }
        v
    } else if k < -30 {
        proof {
            let p = pow10((-k) as nat);
            lemma_pow10_grows(31, (-k) as nat);
            lemma_pow10_30();
            assert(pow10(31) == 10 * pow10(30));
            assert(0 <= 2 * m + p < 2 * p);
            assert((2 * m + p) / (2 * p) == 0) by (nonlinear_arith)
                requires
                    0 <= 2 * m + p < 2 * p,
            ;
        }
        0
    } else {
        let mut p: u128 = 1;
        let mut done: i64 = 0;
        assert(pow10(0) == 1);
        while done < -k
            invariant
                0 <= done <= -k <= 30,
                p == pow10(done as nat),
                p <= 1_000_000_000_000_000_000_000_000_000_000,
            decreases -k - done,
        {
            proof {
                lemma_pow10_grows((done + 1) as nat, 30);
                lemma_pow10_30();
            }
            p = p * 10;
            done = done + 1;
        }
        proof {
            lemma_pow10_positive(done as nat);
            assert((2 * m + p) / (2 * p) <= 2 * m + p) by (nonlinear_arith)
                requires
                    p >= 1,
                    m >= 0,
            ;
        }
        (2 * m + p) / (2 * p)
    }
}

/// Reads a number. Numbers of more than 30 digits or with exponents of more than four are not
/// read.
pub fn parse_quantity(s: &[u8]) -> (r: Option<Quantity>)
    ensures
        r == quantity_value(s@),
{
    proof {
        reveal(quantity_value);
    }
    let negative: bool = s.len() > 0 && s[0] == 45;
    let s1: &[u8] = if negative {
        slice_subrange(s, 1, s.len())
    } else {
        s
    };
    assert(s1@ =~= (if negative {
        s@.skip(1)
    } else {
        s@
    }));
    let n1: usize = count_digits(s1);
    if n1 == 0 || n1 > MAX_DIGITS {
        return None;
    }
    let s2: &[u8] = slice_subrange(s1, n1, s1.len());
    assert(s2@ =~= s1@.skip(n1 as int));
    let pointed: bool = s2.len() > 0 && s2[0] == 46;
    let mut n2: usize = 0;
    let mut s3: &[u8] = s2;
    let mut all: Vec<u8> = Vec::new();
    append(&mut all, slice_subrange(s1, 0, n1));
    if pointed {
        let behind: &[u8] = slice_subrange(s2, 1, s2.len());
        assert(behind@ =~= s2@.skip(1));
        n2 = count_digits(behind);
        if n2 == 0 || n2 > MAX_DIGITS {
            return None;
        }
        s3 = slice_subrange(behind, n2, behind.len());
        assert(s3@ =~= s2@.skip(1 + n2));
        append(&mut all, slice_subrange(behind, 0, n2));
    }
    proof {
        let fraction = s2@.subrange(
            if pointed {
                1
            } else {
                0
            },
            if pointed {
                1 + n2
            } else {
                0
            },
        );
        assert(all@ =~= s1@.take(n1 as int) + fraction);
        assert forall|i: int| 0 <= i < all@.len() implies is_digit(#[trigger] all@[i]) by {
            if i < n1 {
                assert(all@[i] == s1@.take(n1 as int)[i]);
            } else {
                assert(all@[i] == s2@.skip(1).take(n2 as int)[i - n1]);
            }
        }
    }
    if n1 + n2 > MAX_DIGITS {
        return None;
    }
    let e: i64 = match exponent_of(s3) {
        Some(e) => e,
        None => {
            return None;
        },
    };
    let m: u128 = value_of_digits(all.as_slice());
    let v: u128 = shift(m, e - n2 as i64 + 9);
    let signed: i128 = if negative {
        -(v as i128)
    } else {
        v as i128
    };
    if signed > i64::MAX as i128 {
        Some(i64::MAX)
    } else if signed < i64::MIN as i128 {
        Some(i64::MIN)
    } else {
        Some(signed as i64)
    }
}

/// A number in decimal digits without leading zeros.
pub open spec fn natural_digits(n: nat) -> Seq<u8>
    decreases n,
{
    if n < 10 {
        seq![(48 + n) as u8]
    } else {
        natural_digits(n / 10).push((48 + n % 10) as u8)
    }
}

/// The last `width` decimal digits of a number.
pub open spec fn padded_digits(n: nat, width: nat) -> Seq<u8>
    decreases width,
{
    if width == 0 {
        seq![]
    } else {
        padded_digits(n / 10, (width - 1) as nat).push((48 + n % 10) as u8)
    }
}

/// A quantity in digits: whole units, a point and nine digits behind it.
#[verifier::opaque]
pub open spec fn quantity_digits(q: Quantity) -> Seq<u8> {
    let size = (if q < 0 {
        -q
    } else {
        q as int
    }) as nat;
    let sign = if q < 0 {
        seq![45u8]
    } else {
        seq![]
    };
    sign + natural_digits(size / 1_000_000_000) + seq![46u8] + padded_digits(
        size % 1_000_000_000,
        9,
    )
}

fn push_natural(out: &mut Vec<u8>, n: u64)
    ensures
        final(out)@ == old(out)@ + natural_digits(n as nat),
    decreases n,
{
    let ghost before = out@;
    if n >= 10 {
        push_natural(out, n / 10);
    }
    out.push((48 + n % 10) as u8);
    assert(out@ =~= before + natural_digits(n as nat));
}

fn push_padded(out: &mut Vec<u8>, n: u64, width: u8)
    ensures
        final(out)@ == old(out)@ + padded_digits(n as nat, width as nat),
    decreases width,
{
    let ghost before = out@;
    if width > 0 {
        push_padded(out, n / 10, width - 1);
        out.push((48 + n % 10) as u8);
    }
    assert(out@ =~= before + padded_digits(n as nat, width as nat));
}

/// Writes a number in decimal digits.
pub fn format_natural(n: u64) -> (r: Vec<u8>)
    ensures
        r@ == natural_digits(n as nat),
{
    let mut out: Vec<u8> = Vec::new();
    push_natural(&mut out, n);
    assert(out@ =~= natural_digits(n as nat));
    out
}

/// Writes a quantity in decimal digits.
pub fn format_quantity(q: Quantity) -> (r: Vec<u8>)
    ensures
        r@ == quantity_digits(q),
{
    proof {
        reveal(quantity_digits);
    }
    let mut out: Vec<u8> = Vec::new();
    let size: u64 = if q < 0 {
        (-(q as i128)) as u64
    } else {
        q as u64
    };
    if q < 0 {
        out.push(45);
    }
    push_natural(&mut out, size / 1_000_000_000);
    out.push(46);
    push_padded(&mut out, size % 1_000_000_000, 9);
    assert(out@ =~= quantity_digits(q));
    out
}

proof fn lemma_natural_digits(n: nat, width: nat)
    requires
        n < pow10(width),
        width >= 1,
    ensures
        all_digits(natural_digits(n)),
        1 <= natural_digits(n).len() <= width,
        digits_value(natural_digits(n)) == n,
    decreases n,
{
    let s = natural_digits(n);
    if n < 10 {
        assert(s.drop_last() =~= Seq::<u8>::empty());
        assert(digits_value(s.drop_last()) == 0);
    } else {
        if width == 1 {
            assert(pow10(1) == 10) by {
                reveal_with_fuel(pow10, 2);
            }
        }
        assert(n / 10 < pow10((width - 1) as nat));
        lemma_natural_digits(n / 10, (width - 1) as nat);
        assert(s.drop_last() =~= natural_digits(n / 10));
        assert forall|i: int| 0 <= i < s.len() implies is_digit(#[trigger] s[i]) by {
            if i < s.len() - 1 {
                assert(s[i] == natural_digits(n / 10)[i]);
            }
        }
    }
}

proof fn lemma_padded_digits(head: Seq<u8>, n: nat, width: nat)
    requires
        n < pow10(width),
    ensures
        padded_digits(n, width).len() == width,
        all_digits(padded_digits(n, width)),
        digits_value(head + padded_digits(n, width)) == digits_value(head) * pow10(width) + n,
    decreases width,
{
    let s = padded_digits(n, width);
    if width == 0 {
        assert(head + s =~= head);
    } else {
        let w = (width - 1) as nat;
        assert(n / 10 < pow10(w));
        lemma_padded_digits(head, n / 10, w);
        let before = padded_digits(n / 10, w);
        assert((head + s).drop_last() =~= head + before);
        assert((head + s).last() == 48 + n % 10);
        let h = digits_value(head);
        let p = pow10(w);
        assert((h * p) * 10 == h * (10 * p)) by (nonlinear_arith);
        assert forall|i: int| 0 <= i < s.len() implies is_digit(#[trigger] s[i]) by {
            if i < w {
                assert(s[i] == before[i]);
            }
        }
    }
}

/// A quantity that was written in digits is read back as it was.
pub proof fn law_quantity_digits_roundtrip(q: Quantity)
    ensures
        quantity_value(quantity_digits(q)) == Some(q),
{
    reveal(quantity_value);
    reveal(quantity_digits);
    let text = quantity_digits(q);
    let size = (if q < 0 {
        -q
    } else {
        q as int
    }) as nat;
    let whole = natural_digits(size / 1_000_000_000);
    let fraction = padded_digits(size % 1_000_000_000, 9);
    assert(pow10(9) == 1_000_000_000) by {
        reveal_with_fuel(pow10, 10);
    }
    assert(pow10(10) == 10_000_000_000) by {
        reveal_with_fuel(pow10, 11);
    }
    lemma_natural_digits(size / 1_000_000_000, 10);
    lemma_padded_digits(whole, size % 1_000_000_000, 9);
    let rest = whole + seq![46u8] + fraction;
    let negative = q < 0;
    if negative {
        assert(text.skip(1) =~= rest);
        assert(text[0] == 45);
    } else {
        assert(text =~= rest);
        assert(is_digit(whole[0]));
        assert(text[0] == whole[0]);
    }
    let s1 = if negative {
        text.skip(1)
    } else {
        text
    };
    assert(s1 == rest);
    assert(rest.take(whole.len() as int) =~= whole);
    lemma_leading_is(rest, whole.len() as int);
    let s2 = rest.skip(whole.len() as int);
    assert(s2 =~= seq![46u8] + fraction);
    assert(s2.skip(1) =~= fraction);
    assert(fraction.take(9) =~= fraction);
    lemma_leading_is(fraction, 9);
    assert(s2.skip(10) =~= Seq::<u8>::empty());
    assert(s2.subrange(1, 10) =~= fraction);
    assert(pow10(0) == 1);
    assert(shifted(size, 0) == size);
}

} // verus!
