//! What decimal digits in a data field show.

use crate::protocol::format::{
    all_bcd, bcd_byte_value, bcd_digits, bcd_value, is_bcd, law_bcd_write_read, pow100,
};
use crate::quantity::{pow10, scaled, Quantity};
use crate::simulation::di_handler::encoding::{
    bcd_of, clock_bytes, digits, minute_bytes, year_byte,
};
use crate::time::{days_in_month, lemma_calendar_of, Calendar, DateTime};
use vstd::prelude::*;

verus! {

/// The number that half bytes show, two digits to a byte, the lowest byte first.
pub open spec fn shown(data: Seq<u8>) -> int
    decreases data.len(),
{
    if data.len() == 0 {
        0
    } else {
        (data[0] as int / 16) * 10 + data[0] as int % 16 + 100 * shown(data.skip(1))
    }
}

/// The number that the two half bytes of a byte name.
pub open spec fn two_digits(b: u8) -> int {
    (b as int / 16) * 10 + b as int % 16
}

/// Every half byte is a decimal digit.
pub open spec fn all_decimal(data: Seq<u8>) -> bool {
    forall|i: int|
        0 <= i < data.len() ==> (#[trigger] data[i]) as int / 16 < 10 && data[i] as int % 16 < 10
}

/// `bytes` bytes of decimal digits show a quantity to the nearest `unit`; what is below zero
/// shows as zero. `unit` is in billionths.
pub open spec fn shows(data: Seq<u8>, v: Quantity, bytes: nat, unit: int) -> bool {
    &&& data.len() == bytes
    &&& all_decimal(data)
    &&& v >= 0 ==> -unit <= 2 * (shown(data) * unit - v) <= unit
    &&& v <= 0 ==> shown(data) == 0
}

/// The part of a data field from byte `at` on.
pub open spec fn piece(data: Seq<u8>, at: int, bytes: int) -> Seq<u8> {
    data.subrange(at, at + bytes)
}

/// The two ways to read decimal digits agree.
pub proof fn lemma_shown(data: Seq<u8>)
    ensures
        shown(data) == bcd_value(data),
        all_decimal(data) == all_bcd(data),
    decreases data.len(),
{
    reveal(is_bcd);
    reveal(bcd_byte_value);
    if data.len() > 0 {
        lemma_shown(data.skip(1));
    }
    assert(all_bcd(data) ==> all_decimal(data)) by {
        if all_bcd(data) {
            assert forall|i: int| 0 <= i < data.len() implies (#[trigger] data[i]) as int / 16 < 10
                && data[i] as int % 16 < 10 by {
                assert(is_bcd(data[i]));
            }
        }
    }
    assert(all_decimal(data) ==> all_bcd(data)) by {
        if all_decimal(data) {
            assert forall|i: int| 0 <= i < data.len() implies is_bcd(#[trigger] data[i]) by {}
        }
    }
}

/// Digits of a whole number show it, as far as they reach.
pub proof fn lemma_number_shows(n: int, bytes: nat)
    requires
        0 <= n < pow100(bytes),
    ensures
        bcd_digits(n, bytes).len() == bytes,
        all_decimal(bcd_digits(n, bytes)),
        shown(bcd_digits(n, bytes)) == n,
{
    law_bcd_write_read(n, bytes);
    lemma_shown(bcd_digits(n, bytes));
    vstd::arithmetic::div_mod::lemma_small_mod(n as nat, pow100(bytes) as nat);
}

pub proof fn lemma_powers()
    ensures
        pow10(1) == 10,
        pow10(2) == 100,
        pow10(3) == 1_000,
        pow10(4) == 10_000,
        pow100(2) == 10_000,
        pow100(3) == 1_000_000,
        pow100(4) == 100_000_000,
{
    reveal_with_fuel(pow10, 5);
    reveal_with_fuel(pow100, 5);
}

/// One decimal in two bytes: up to 999.9.
pub proof fn lemma_tenths_show(v: Quantity)
    requires
        v < 999_900_000_000,
    ensures
        shows(digits(v, 2, 1), v, 2, 100_000_000),
{
    reveal(scaled);
    lemma_powers();
    lemma_number_shows(scaled(v, 1), 2);
}

/// Two decimals in two bytes: up to 99.99.
pub proof fn lemma_hundredths_show(v: Quantity)
    requires
        v < 99_990_000_000,
    ensures
        shows(digits(v, 2, 2), v, 2, 10_000_000),
{
    reveal(scaled);
    lemma_powers();
    lemma_number_shows(scaled(v, 2), 2);
}

/// Three decimals in two bytes: up to 9.999.
pub proof fn lemma_short_thousandths_show(v: Quantity)
    requires
        v < 9_999_000_000,
    ensures
        shows(digits(v, 2, 3), v, 2, 1_000_000),
{
    reveal(scaled);
    lemma_powers();
    lemma_number_shows(scaled(v, 3), 2);
}

/// Three decimals in three bytes: up to 999.999.
pub proof fn lemma_thousandths_show(v: Quantity)
    requires
        v < 999_999_000_000,
    ensures
        shows(digits(v, 3, 3), v, 3, 1_000_000),
{
    reveal(scaled);
    lemma_powers();
    lemma_number_shows(scaled(v, 3), 3);
}

/// Four decimals in three bytes: up to 99.9999.
pub proof fn lemma_ten_thousandths_show(v: Quantity)
    requires
        v < 99_999_900_000,
    ensures
        shows(digits(v, 3, 4), v, 3, 100_000),
{
    reveal(scaled);
    lemma_powers();
    lemma_number_shows(scaled(v, 4), 3);
}

/// Two decimals in four bytes: up to 999999.99.
pub proof fn lemma_energy_shows(v: Quantity)
    requires
        v < 999_999_990_000_000,
    ensures
        shows(digits(v, 4, 2), v, 4, 10_000_000),
{
    reveal(scaled);
    lemma_powers();
    lemma_number_shows(scaled(v, 2), 4);
}

/// Digits tell numbers apart: bytes of decimal digits that show the same number are the same.
pub proof fn lemma_shown_unique(a: Seq<u8>, b: Seq<u8>)
    requires
        a.len() == b.len(),
        all_decimal(a),
        all_decimal(b),
        shown(a) == shown(b),
    ensures
        a == b,
    decreases a.len(),
{
    if a.len() > 0 {
        assert(a[0] as int / 16 < 10 && a[0] as int % 16 < 10);
        assert(b[0] as int / 16 < 10 && b[0] as int % 16 < 10);
        let (x, y) = (
            (a[0] as int / 16) * 10 + a[0] as int % 16,
            (b[0] as int / 16) * 10 + b[0] as int % 16,
        );
        assert(0 <= x < 100 && 0 <= y < 100);
        assert(x == y && shown(a.skip(1)) == shown(b.skip(1)));
        assert forall|i: int| 0 <= i < a.skip(1).len() implies (#[trigger] a.skip(1)[i]) as int / 16
            < 10 && a.skip(1)[i] as int % 16 < 10 by {
            assert(a.skip(1)[i] == a[i + 1]);
        }
        assert forall|i: int| 0 <= i < b.skip(1).len() implies (#[trigger] b.skip(1)[i]) as int / 16
            < 10 && b.skip(1)[i] as int % 16 < 10 by {
            assert(b.skip(1)[i] == b[i + 1]);
        }
        lemma_shown_unique(a.skip(1), b.skip(1));
        assert(a[0] == b[0]);
        assert(seq![a[0]] + a.skip(1) =~= a);
        assert(seq![b[0]] + b.skip(1) =~= b);
    } else {
        assert(a =~= b);
    }
}

/// The moment that ss mm hh DD MM YY name, in the years 2000 to 2099.
pub open spec fn second_named(data: Seq<u8>) -> Calendar {
    Calendar {
        year: (2000 + two_digits(data[5])) as i32,
        month: two_digits(data[4]) as u32,
        day: two_digits(data[3]) as u32,
        hour: two_digits(data[2]) as u32,
        minute: two_digits(data[1]) as u32,
        second: two_digits(data[0]) as u32,
    }
}

/// The moment that mm hh DD MM YY name, in the years 2000 to 2099.
pub open spec fn minute_named(data: Seq<u8>) -> Calendar {
    second_named(seq![0u8] + data)
}

/// Six bytes name the second in which an instant lies.
pub open spec fn tells_second(data: Seq<u8>, t: DateTime) -> bool {
    &&& data.len() == 6
    &&& all_decimal(data)
    &&& second_named(data).valid()
    &&& second_named(data).seconds() == t.secs()
}

/// Five bytes name the minute in which an instant lies.
pub open spec fn tells_minute(data: Seq<u8>, t: DateTime) -> bool {
    &&& data.len() == 5
    &&& all_decimal(data)
    &&& minute_named(data).valid()
    &&& minute_named(data).seconds() <= t.secs() < minute_named(data).seconds() + 60
}

/// The instant lies in the years 2000 to 2099.
pub open spec fn in_century(t: DateTime) -> bool {
    t.valid() && 2000 <= t.cal().year <= 2099
}

/// A byte of two digits names its number.
pub proof fn lemma_byte_digits(v: u8)
    requires
        v <= 99,
    ensures
        two_digits(bcd_of(v)) == v,
        bcd_of(v) as int / 16 < 10,
        bcd_of(v) as int % 16 < 10,
{
    reveal(bcd_of);
}

/// Times are written so that the bytes name them.
pub proof fn lemma_times_tell(t: DateTime)
    requires
        in_century(t),
    ensures
        tells_second(clock_bytes(t.cal()), t),
        tells_minute(minute_bytes(t.cal()), t),
{
    let c = t.cal();
    t.lemma_valid();
    lemma_calendar_of(t.secs());
    reveal(days_in_month);
    reveal(year_byte);
    lemma_byte_digits(c.second as u8);
    lemma_byte_digits(c.minute as u8);
    lemma_byte_digits(c.hour as u8);
    lemma_byte_digits(c.day as u8);
    lemma_byte_digits(c.month as u8);
    lemma_byte_digits(year_byte(c.year as int));
    let data = clock_bytes(c);
    assert(second_named(data) == c);
    let short = minute_bytes(c);
    let m = minute_named(short);
    assert(m == (Calendar { second: 0, ..c }));
    reveal(Calendar::seconds);
}

} // verus!
