//! How values are written into data items.

use crate::protocol::format::{bcd_digits, quantity_to_bcd};
use crate::quantity::{scaled, Quantity};
use crate::time::{Calendar, DateTime};
use vstd::prelude::*;

verus! {

/// A quantity as pairs of decimal digits, the lowest pair first, with the given number of
/// decimal places.
pub open spec fn digits(v: Quantity, bytes: nat, decimals: nat) -> Seq<u8> {
    bcd_digits(scaled(v, decimals), bytes)
}

/// XXX.X V
pub open spec fn voltage_bytes(v: Quantity) -> Seq<u8> {
    digits(v, 2, 1)
}

/// XXX.XXX A
pub open spec fn current_bytes(v: Quantity) -> Seq<u8> {
    digits(v, 3, 3)
}

/// XX.XXXX kW
pub open spec fn power_bytes(v: Quantity) -> Seq<u8> {
    digits(v, 3, 4)
}

/// X.XXX
pub open spec fn power_factor_bytes(v: Quantity) -> Seq<u8> {
    digits(v, 2, 3)
}

/// XXXXXX.XX kWh
pub open spec fn energy_bytes(v: Quantity) -> Seq<u8> {
    digits(v, 4, 2)
}

/// XX.XX Hz
pub open spec fn frequency_bytes(v: Quantity) -> Seq<u8> {
    digits(v, 2, 2)
}

/// Writes a quantity as pairs of decimal digits.
pub fn encode_bcd(value: Quantity, bytes: usize, decimals: u8) -> (r: Vec<u8>)
    requires
        decimals <= 9,
    ensures
        r@ == digits(value, bytes as nat, decimals as nat),
{
    quantity_to_bcd(value, decimals, bytes)
}

pub fn encode_bcd_voltage(voltage: Quantity) -> (r: Vec<u8>)
    ensures
        r@ == voltage_bytes(voltage),
{
    encode_bcd(voltage, 2, 1)
}

pub fn encode_bcd_current(current: Quantity) -> (r: Vec<u8>)
    ensures
        r@ == current_bytes(current),
{
    encode_bcd(current, 3, 3)
}

pub fn encode_bcd_power(power: Quantity) -> (r: Vec<u8>)
    ensures
        r@ == power_bytes(power),
{
    encode_bcd(power, 3, 4)
}

pub fn encode_bcd_power_factor(pf: Quantity) -> (r: Vec<u8>)
    ensures
        r@ == power_factor_bytes(pf),
{
    encode_bcd(pf, 2, 3)
}

pub fn encode_bcd_energy(energy: Quantity) -> (r: Vec<u8>)
    ensures
        r@ == energy_bytes(energy),
{
    encode_bcd(energy, 4, 2)
}

pub fn encode_bcd_frequency(freq: Quantity) -> (r: Vec<u8>)
    ensures
        r@ == frequency_bytes(freq),
{
    encode_bcd(freq, 2, 2)
}

/// One byte of two digits. Numbers above 99 lose what does not fit in the upper half.
#[verifier::opaque]
pub open spec fn bcd_of(v: u8) -> u8 {
    ((v / 10 % 16) * 16 + v % 10) as u8
}

pub fn to_bcd(value: u8) -> (r: u8)
    ensures
        r == bcd_of(value),
{
    proof {
        reveal(bcd_of);
    }
    value / 10 % 16 * 16 + value % 10
}

/// The number of a byte of two digits; halves above 9 count as they are.
#[verifier::opaque]
pub open spec fn decimal_of(b: u8) -> u8 {
    ((b / 16) * 10 + b % 16) as u8
}

pub fn bcd_to_decimal(bcd: u8) -> (r: u8)
    ensures
        r == decimal_of(bcd),
        r <= 165,
{
    proof {
        reveal(decimal_of);
    }
    bcd / 16 * 10 + bcd % 16
}

/// Two digits survive being written and read.
pub proof fn law_byte_roundtrip(v: u8)
    requires
        v <= 99,
    ensures
        decimal_of(bcd_of(v)) == v,
{
    reveal(bcd_of);
    reveal(decimal_of);
}

/// The year within its century as a byte. Before the year 0 it wraps round.
#[verifier::opaque]
pub open spec fn year_byte(y: int) -> u8 {
    if y >= 0 {
        (y % 100) as u8
    } else {
        ((256 - (-y) % 100) % 256) as u8
    }
}

pub fn short_year(year: i32) -> (r: u8)
    ensures
        r == year_byte(year as int),
{
    proof {
        reveal(year_byte);
    }
    if year >= 0 {
        (year % 100) as u8
    } else {
        let n: i64 = -(year as i64);
        ((256 - n % 100) % 256) as u8
    }
}

/// ss mm hh DD MM YY
pub open spec fn clock_bytes(c: Calendar) -> Seq<u8> {
    seq![
        bcd_of(c.second as u8),
        bcd_of(c.minute as u8),
        bcd_of(c.hour as u8),
        bcd_of(c.day as u8),
        bcd_of(c.month as u8),
        bcd_of(year_byte(c.year as int)),
    ]
}

/// mm hh DD MM YY
pub open spec fn minute_bytes(c: Calendar) -> Seq<u8> {
    seq![
        bcd_of(c.minute as u8),
        bcd_of(c.hour as u8),
        bcd_of(c.day as u8),
        bcd_of(c.month as u8),
        bcd_of(year_byte(c.year as int)),
    ]
}

/// YY MM DD hh mm
pub open spec fn year_first_bytes(c: Calendar) -> Seq<u8> {
    seq![
        bcd_of(year_byte(c.year as int)),
        bcd_of(c.month as u8),
        bcd_of(c.day as u8),
        bcd_of(c.hour as u8),
        bcd_of(c.minute as u8),
    ]
}

/// Writes a time as ss mm hh DD MM YY.
pub fn encode_datetime(dt: &DateTime) -> (r: Vec<u8>)
    ensures
        r@ == clock_bytes(dt.cal()),
{
    let c = dt.calendar();
    let r: Vec<u8> = vec![
        to_bcd(c.second as u8),
        to_bcd(c.minute as u8),
        to_bcd(c.hour as u8),
        to_bcd(c.day as u8),
        to_bcd(c.month as u8),
        to_bcd(short_year(c.year)),
    ];
    assert(r@ =~= clock_bytes(c));
    r
}

/// Writes a time as mm hh DD MM YY.
pub fn encode_datetime_minutes(dt: &DateTime) -> (r: Vec<u8>)
    ensures
        r@ == minute_bytes(dt.cal()),
{
    let c = dt.calendar();
    let r: Vec<u8> = vec![
        to_bcd(c.minute as u8),
        to_bcd(c.hour as u8),
        to_bcd(c.day as u8),
        to_bcd(c.month as u8),
        to_bcd(short_year(c.year)),
    ];
    assert(r@ =~= minute_bytes(c));
    r
}

/// Writes a time as YY MM DD hh mm.
pub fn encode_datetime_ymd_hm(dt: &DateTime) -> (r: Vec<u8>)
    ensures
        r@ == year_first_bytes(dt.cal()),
{
    let c = dt.calendar();
    let r: Vec<u8> = vec![
        to_bcd(short_year(c.year)),
        to_bcd(c.month as u8),
        to_bcd(c.day as u8),
        to_bcd(c.hour as u8),
        to_bcd(c.minute as u8),
    ];
    assert(r@ =~= year_first_bytes(c));
    r
}

/// The time that YY MM DD hh mm names, in the years 2000 to 2165.
pub open spec fn year_first_fields(b: Seq<u8>) -> Calendar {
    Calendar {
        year: (2000 + decimal_of(b[0])) as i32,
        month: decimal_of(b[1]) as u32,
        day: decimal_of(b[2]) as u32,
        hour: decimal_of(b[3]) as u32,
        minute: decimal_of(b[4]) as u32,
        second: 0,
    }
}

/// A time to the minute from the years 2000 to 2099, written and read back, is the same.
pub proof fn law_year_first_roundtrip(c: Calendar)
    requires
        c.valid(),
        2000 <= c.year <= 2099,
        c.second == 0,
    ensures
        year_first_fields(year_first_bytes(c)) == c,
{
    reveal(year_byte);
    law_byte_roundtrip(year_byte(c.year as int));
    law_byte_roundtrip(c.month as u8);
    law_byte_roundtrip(c.day as u8);
    law_byte_roundtrip(c.hour as u8);
    law_byte_roundtrip(c.minute as u8);
}

} // verus!
