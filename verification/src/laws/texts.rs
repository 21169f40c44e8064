//! Numbers, addresses and codes as they are written.

use crate::persistence::decimal::{
    all_digits, digits_value, is_digit, lemma_leading_is, lemma_pow10_positive, quantity_value,
};
use crate::laws::digits::two_digits;
use crate::protocol::control_code::{ControlCode, ErrorCode};
use crate::protocol::format::{
    address_byte, address_text, bcd_byte, datetime_bytes, hex_char, hex_pair,
};
use crate::quantity::{clamped, pow10, Quantity};
use crate::text::{integer_text, natural_text};
use crate::time::{days_in_month, Calendar};
use vstd::prelude::*;

verus! {

/// The value of a hexadecimal digit, capital or small.
pub open spec fn hex_digit(code: int) -> int {
    if 0x30 <= code <= 0x39 {
        code - 0x30
    } else if 0x41 <= code <= 0x46 {
        code - 0x41 + 10
    } else if 0x61 <= code <= 0x66 {
        code - 0x61 + 10
    } else {
        -1
    }
}

/// An address is written in twelve hexadecimal digits, its last byte first, in capitals.
pub proof fn law_address_is_written(addr: Seq<u8>, i: int)
    requires
        addr.len() == 6,
        0 <= i < 6,
    ensures
        ({
            let text = address_text(addr);
            let (high, low) = (text[2 * i], text[2 * i + 1]);
            &&& text.len() == 12
            &&& hex_digit(high as int) >= 0
            &&& hex_digit(low as int) >= 0
            &&& (high as int) < 0x61
            &&& (low as int) < 0x61
            &&& 16 * hex_digit(high as int) + hex_digit(low as int) == addr[5 - i]
        }),
{
    reveal(hex_pair);
    let b = addr[5 - i];
    lemma_hex_char(b as int / 16);
    lemma_hex_char(b as int % 16);
    let text = address_text(addr);
    assert(text[2 * i] == hex_pair(b)[0]);
    assert(text[2 * i + 1] == hex_pair(b)[1]);
}

proof fn lemma_hex_char(n: int)
    requires
        0 <= n < 16,
    ensures
        hex_digit(hex_char(n) as int) == n,
        (hex_char(n) as int) < 0x61,
{
}

/// Each pair of hexadecimal digits of an address text, in either case, is the byte that it
/// writes, the last byte of the address first. Other characters are not an address, but for a
/// plus sign in place of the first digit of a pair.
pub proof fn law_address_is_understood(text: Seq<u8>, i: int)
    requires
        text.len() == 12,
        0 <= i < 6,
    ensures
        ({
            let (high, low) = (text[10 - 2 * i] as int, text[11 - 2 * i] as int);
            &&& hex_digit(high) >= 0 && hex_digit(low) >= 0 ==> address_byte(text, i) == Some(
                16 * hex_digit(high) + hex_digit(low),
            )
            &&& hex_digit(low) < 0 ==> address_byte(text, i) is None
            &&& hex_digit(high) < 0 && high != 0x2B ==> address_byte(text, i) is None
        }),
{
}

/// The number that characters of digits write, the highest first.
pub open spec fn number_of(text: Seq<char>) -> int
    decreases text.len(),
{
    if text.len() == 0 {
        0
    } else {
        10 * number_of(text.drop_last()) + (text.last() as int - 0x30)
    }
}

/// A whole number is written in digits that stand for it, without a zero at the front.
pub proof fn law_natural_is_written(n: nat, i: int)
    ensures
        number_of(natural_text(n)) == n,
        natural_text(n).len() > 0,
        0 <= i < natural_text(n).len() ==> 0x30 <= natural_text(n)[i] as int <= 0x39,
        n > 0 ==> natural_text(n)[0] as int > 0x30,
        n < 10 ==> natural_text(n).len() == 1,
    decreases n,
{
    if n < 10 {
        let t = natural_text(n);
        assert(t.drop_last() =~= Seq::<char>::empty());
        assert(number_of(t.drop_last()) == 0);
    } else {
        let t = natural_text(n);
        law_natural_is_written(n / 10, i);
        assert(t.drop_last() =~= natural_text(n / 10));
    }
}

/// A negative number has a minus sign before the digits of its size.
pub proof fn law_integer_is_written(n: int)
    ensures
        n >= 0 ==> number_of(integer_text(n)) == n,
        n < 0 ==> integer_text(n)[0] == '-' && number_of(integer_text(n).skip(1)) == -n,
{
    if n < 0 {
        law_natural_is_written((-n) as nat, 0);
        assert(integer_text(n).skip(1) =~= natural_text((-n) as nat));
    } else {
        law_natural_is_written(n as nat, 0);
    }
}

/// The number that bytes of digits write: each digit weighs ten times the one behind it.
pub open spec fn figure(d: Seq<u8>) -> int
    decreases d.len(),
{
    if d.len() == 0 {
        0
    } else {
        (d[0] as int - 0x30) * pow10((d.len() - 1) as nat) + figure(d.skip(1))
    }
}

proof fn lemma_figure(d: Seq<u8>)
    requires
        all_digits(d),
    ensures
        digits_value(d) == figure(d),
        0 <= figure(d) < pow10(d.len()),
    decreases d.len(),
{
    if d.len() == 0 {
        assert(pow10(0) == 1);
    } else {
        let front = d.drop_last();
        assert forall|i: int| 0 <= i < front.len() implies is_digit(#[trigger] front[i]) by {
            assert(front[i] == d[i]);
        }
        lemma_figure(front);
        lemma_figure_last(d);
        assert(is_digit(d[d.len() - 1]));
        assert(pow10(d.len()) == 10 * pow10((d.len() - 1) as nat));
    }
}

proof fn lemma_figure_last(d: Seq<u8>)
    requires
        d.len() > 0,
    ensures
        figure(d) == 10 * figure(d.drop_last()) + (d.last() as int - 0x30),
    decreases d.len(),
{
    if d.len() == 1 {
        assert(d.skip(1) =~= Seq::<u8>::empty());
        assert(d.drop_last() =~= Seq::<u8>::empty());
        assert(pow10(0) == 1);
    } else {
        let rest = d.skip(1);
        lemma_figure_last(rest);
        assert(rest.drop_last() =~= d.drop_last().skip(1));
        let p = pow10((d.len() - 2) as nat);
        assert(pow10((d.len() - 1) as nat) == 10 * p);
        let a = d[0] as int - 0x30;
        assert(a * (10 * p) == 10 * (a * p)) by (nonlinear_arith);
        assert(figure(d.drop_last()) == a * p + figure(d.drop_last().skip(1)));
    }
}

/// A number of up to nine digits without a point stands for itself, and with a minus sign before
/// it for its opposite.
pub proof fn law_whole_number_is_understood(whole: Seq<u8>)
    requires
        all_digits(whole),
        1 <= whole.len() <= 9,
    ensures
        quantity_value(whole) == Some((figure(whole) * 1_000_000_000) as Quantity),
        quantity_value(seq![0x2Du8] + whole) == Some((-figure(whole) * 1_000_000_000) as Quantity),
{
    reveal(quantity_value);
    reveal_with_fuel(pow10, 11);
    lemma_figure(whole);
    lemma_small_power(whole.len());
    assert(whole.take(whole.len() as int) =~= whole);
    lemma_leading_is(whole, whole.len() as int);
    let n = whole.len() as int;
    assert(whole.skip(n) =~= Seq::<u8>::empty());
    let none = Seq::<u8>::empty();
    assert(whole + none.subrange(0, 0) =~= whole);
    assert(is_digit(whole[0]));
    assert((seq![0x2Du8] + whole).skip(1) =~= whole);
}

proof fn lemma_small_power(n: nat)
    requires
        n <= 9,
    ensures
        pow10(n) <= 1_000_000_000,
        pow10(9) == 1_000_000_000,
        n == 9 || pow10(n) <= 100_000_000,
{
    reveal_with_fuel(pow10, 11);
}

/// A number with a point stands for its whole units and, behind the point, for tenths,
/// hundredths and so on, down to billionths.
pub proof fn law_fraction_is_understood(whole: Seq<u8>, fraction: Seq<u8>)
    requires
        all_digits(whole),
        all_digits(fraction),
        1 <= whole.len() <= 9,
        1 <= fraction.len() <= 9,
    ensures
        quantity_value(whole + seq![0x2Eu8] + fraction) == Some(
            (figure(whole) * 1_000_000_000 + figure(fraction) * pow10(
                (9 - fraction.len()) as nat,
            )) as Quantity,
        ),
{
    reveal(quantity_value);
    lemma_figure(whole);
    lemma_figure(fraction);
    lemma_small_power(whole.len());
    lemma_small_power(fraction.len());
    let (n, k) = (whole.len() as int, fraction.len() as int);
    let text = whole + seq![0x2Eu8] + fraction;
    assert(is_digit(whole[0]) && text[0] == whole[0]);
    assert(text.take(n) =~= whole);
    lemma_leading_is(text, n);
    let s2 = text.skip(n);
    assert(s2 =~= seq![0x2Eu8] + fraction);
    assert(s2.skip(1) =~= fraction);
    assert(fraction.take(k) =~= fraction);
    lemma_leading_is(fraction, k);
    assert(s2.skip(1 + k) =~= Seq::<u8>::empty());
    assert(s2.subrange(1, 1 + k) =~= fraction);
    let m = whole + fraction;
    assert forall|i: int| 0 <= i < m.len() implies is_digit(#[trigger] m[i]) by {
        if i < n {
            assert(m[i] == whole[i]);
        } else {
            assert(m[i] == fraction[i - n]);
        }
    }
    lemma_figure(m);
    lemma_figure_joined(whole, fraction);
    let p = pow10((9 - k) as nat);
    let q = pow10(k as nat);
    assert(q * p == 1_000_000_000) by {
        lemma_powers_multiply(k as nat, (9 - k) as nat);
    }
    let (a, b) = (figure(whole), figure(fraction));
    assert((a * q + b) * p == a * (q * p) + b * p) by (nonlinear_arith);
    lemma_pow10_positive((9 - k) as nat);
    assert(0 <= b * p) by (nonlinear_arith)
        requires
            0 <= b,
            1 <= p,
    ;
    assert(b * p < q * p) by (nonlinear_arith)
        requires
            b < q,
            1 <= p,
    ;
    let v = a * 1_000_000_000 + b * p;
    assert(clamped(v) == v);
}

proof fn lemma_powers_multiply(a: nat, b: nat)
    ensures
        pow10(a) * pow10(b) == pow10(a + b),
    decreases a,
{
    if a > 0 {
        lemma_powers_multiply((a - 1) as nat, b);
        let (x, y) = (pow10((a - 1) as nat), pow10(b));
        assert((10 * x) * y == 10 * (x * y)) by (nonlinear_arith);
        assert(pow10(a + b) == 10 * pow10((a + b - 1) as nat));
    } else {
        assert(pow10(0) == 1);
    }
}

proof fn lemma_figure_joined(a: Seq<u8>, b: Seq<u8>)
    ensures
        figure(a + b) == figure(a) * pow10(b.len()) + figure(b),
    decreases b.len(),
{
    if b.len() == 0 {
        assert(a + b =~= a);
        assert(pow10(0) == 1);
    } else {
        lemma_figure_last(a + b);
        lemma_figure_last(b);
        assert((a + b).drop_last() =~= a + b.drop_last());
        lemma_figure_joined(a, b.drop_last());
        let p = pow10((b.len() - 1) as nat);
        assert(pow10(b.len()) == 10 * p);
        let x = figure(a);
        assert(x * (10 * p) == 10 * (x * p)) by (nonlinear_arith);
    }
}

/// Seven bytes of a time are second, minute, hour, day, month, year within the century and
/// century, two decimal digits each.
pub proof fn law_time_is_written(c: Calendar)
    requires
        c.valid(),
        0 <= c.year <= 9999,
    ensures
        ({
            let b = datetime_bytes(c);
            &&& b.len() == 7
            &&& two_digits(b[0]) == c.second
            &&& two_digits(b[1]) == c.minute
            &&& two_digits(b[2]) == c.hour
            &&& two_digits(b[3]) == c.day
            &&& two_digits(b[4]) == c.month
            &&& 100 * two_digits(b[6]) + two_digits(b[5]) == c.year
        }),
{
    reveal(days_in_month);
    lemma_digit_byte(c.second as int);
    lemma_digit_byte(c.minute as int);
    lemma_digit_byte(c.hour as int);
    lemma_digit_byte(c.day as int);
    lemma_digit_byte(c.month as int);
    lemma_digit_byte(c.year as int % 100);
    lemma_digit_byte(c.year as int / 100);
}

proof fn lemma_digit_byte(n: int)
    requires
        0 <= n <= 99,
    ensures
        two_digits(bcd_byte(n)) == n,
{
    reveal(bcd_byte);
}

/// A response is its command with the top bit set.
pub proof fn law_responses_answer_commands()
    ensures
        ControlCode::ReadResponse.code() == ControlCode::Read.code() + 0x80,
        ControlCode::WriteResponse.code() == ControlCode::Write.code() + 0x80,
        ControlCode::FreezeResponse.code() == ControlCode::Freeze.code() + 0x80,
        ControlCode::ChangeBaudResponse.code() == ControlCode::ChangeBaud.code() + 0x80,
        ControlCode::ChangePasswordResponse.code() == ControlCode::ChangePassword.code() + 0x80,
        ControlCode::ClearDemandResponse.code() == ControlCode::ClearDemand.code() + 0x80,
        ControlCode::ClearEnergyResponse.code() == ControlCode::ClearEnergy.code() + 0x80,
        ControlCode::ClearEventResponse.code() == ControlCode::ClearEvent.code() + 0x80,
        ControlCode::Error.code() == ControlCode::Read.code() + 0xC0,
{
}

/// Each error has a bit of its own.
pub proof fn law_errors_have_bits(a: ErrorCode, b: ErrorCode)
    ensures
        crate::laws::commands::is_power_of_two(a.code() as int, 7),
        a.code() == b.code() ==> a == b,
{
    reveal_with_fuel(crate::laws::commands::is_power_of_two, 9);
}

} // verus!
