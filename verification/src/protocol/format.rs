//! Number, time and address formats of the data field.

use crate::error::{MeterError, ParseFault};
use crate::quantity::{clamped, pow10, scale, scaled, Quantity};
use crate::time::{Calendar, DateTime};
use vstd::prelude::*;
use vstd::utf8::encode_utf8;

verus! {

/// Both half bytes are decimal digits.
#[verifier::opaque]
pub open spec fn is_bcd(b: u8) -> bool {
    b / 16 <= 9 && b % 16 <= 9
}

/// The number from 0 to 99 that a byte of two decimal digits stands for.
#[verifier::opaque]
pub open spec fn bcd_byte_value(b: u8) -> int {
    (b / 16) * 10 + b % 16
}

/// The byte of two decimal digits for a number from 0 to 99.
#[verifier::opaque]
pub open spec fn bcd_byte(n: int) -> u8 {
    (n / 10 * 16 + n % 10) as u8
}

pub open spec fn all_bcd(data: Seq<u8>) -> bool {
    forall|i: int| 0 <= i < data.len() ==> is_bcd(#[trigger] data[i])
}

/// The number that decimal digit pairs stand for, the lowest pair first.
pub open spec fn bcd_value(data: Seq<u8>) -> int
    decreases data.len(),
{
    if data.len() == 0 {
        0
    } else {
        bcd_byte_value(data[0]) + 100 * bcd_value(data.skip(1))
    }
}

/// The lowest `2 * len` decimal digits of `value`, in pairs, the lowest pair first.
pub open spec fn bcd_digits(value: int, len: nat) -> Seq<u8>
    decreases len,
{
    if len == 0 {
        seq![]
    } else {
        seq![bcd_byte(value % 100)] + bcd_digits(value / 100, (len - 1) as nat)
    }
}

/// 100 to the power `n`.
pub open spec fn pow100(n: nat) -> int
    decreases n,
{
    if n == 0 {
        1
    } else {
        100 * pow100((n - 1) as nat)
    }
}

proof fn lemma_pow100_positive(n: nat)
    ensures
        pow100(n) >= 1,
    decreases n,
{
    if n > 0 {
        lemma_pow100_positive((n - 1) as nat);
    }
}

/// `n` digit pairs stand for a number below 100 to the power `n`.
pub proof fn lemma_bcd_value_bound(data: Seq<u8>)
    requires
        all_bcd(data),
    ensures
        0 <= bcd_value(data) < pow100(data.len()),
    decreases data.len(),
{
    reveal(is_bcd);
    reveal(bcd_byte_value);
    if data.len() > 0 {
        assert forall|i: int| 0 <= i < data.skip(1).len() implies is_bcd(
            #[trigger] data.skip(1)[i],
        ) by {
            assert(data.skip(1)[i] == data[i + 1]);
        }
        lemma_bcd_value_bound(data.skip(1));
        assert(is_bcd(data[0]));
    }
}

proof fn lemma_pow100_mono(a: nat, b: nat)
    requires
        a <= b,
    ensures
        pow100(a) <= pow100(b),
    decreases b - a,
{
    if a < b {
        lemma_pow100_mono(a, (b - 1) as nat);
        lemma_pow100_positive((b - 1) as nat);
    }
}

/// Reads digit pairs, the lowest pair first.
pub fn bcd_to_u64(data: &[u8]) -> (r: Result<u64, MeterError>)
    requires
        data@.len() <= 9 || (forall|k: int|
            0 <= k <= data@.len() && all_bcd(#[trigger] data@.skip(k)) ==> bcd_value(data@.skip(k))
                <= u64::MAX),
    ensures
        r is Ok <==> all_bcd(data@),
        r matches Ok(v) ==> v == bcd_value(data@),
        r matches Err(e) ==> exists|i: int|
            0 <= i < data@.len() && !is_bcd(#[trigger] data@[i]) && all_bcd(data@.skip(i + 1)) && e
                == MeterError::ParseError(ParseFault::BcdDigit { byte: data@[i] }),
{
    proof {
        reveal(is_bcd);
        reveal(bcd_byte_value);
    }
    let mut result: u64 = 0;
    let mut i: usize = data.len();
    assert(all_bcd(data@.skip(i as int)));
    assert(bcd_value(data@.skip(i as int)) == 0);
    while i > 0
        invariant
            i <= data@.len(),
            all_bcd(data@.skip(i as int)),
            result == bcd_value(data@.skip(i as int)),
            data@.len() <= 9 || (forall|k: int|
                0 <= k <= data@.len() && all_bcd(#[trigger] data@.skip(k)) ==> bcd_value(
                    data@.skip(k),
                ) <= u64::MAX),
        decreases i,
    {
        proof {
            reveal(is_bcd);
            reveal(bcd_byte_value);
        }
        let byte: u8 = data[i - 1];
        let high: u8 = byte / 16;
        let low: u8 = byte % 16;
        if high > 9 || low > 9 {
            assert(!is_bcd(data@[i - 1]));
            assert(!all_bcd(data@));
            return Err(MeterError::ParseError(ParseFault::BcdDigit { byte }));
        }
        proof {
            let part = data@.skip(i - 1);
            assert(part.skip(1) =~= data@.skip(i as int));
            assert(part[0] == byte);
            assert forall|j: int| 0 <= j < part.len() implies is_bcd(#[trigger] part[j]) by {
                if j > 0 {
                    assert(part[j] == data@.skip(i as int)[j - 1]);
                }
            }
            lemma_bcd_value_bound(part);
            if data@.len() <= 9 {
                lemma_pow100_mono(part.len(), 9);
                assert(pow100(9) == 1_000_000_000_000_000_000) by {
                    reveal_with_fuel(pow100, 10);
                }
            }
            assert(bcd_value(part) <= u64::MAX);
            lemma_bcd_value_bound(data@.skip(i as int));
        }
        result = result * 100 + high as u64 * 10 + low as u64;
        i = i - 1;
    }
    assert(data@.skip(0) =~= data@);
    Ok(result)
}

/// Two decimal digits as one byte.
pub fn two_digits(n: u64) -> (r: u8)
    ensures
        r == bcd_byte(n as int % 100),
{
    proof {
        reveal(bcd_byte);
    }
    let v: u8 = (n % 100) as u8;
    v / 10 * 16 + v % 10
}

/// Writes the lowest `2 * len` decimal digits of `value`, the lowest pair first.
pub fn u64_to_bcd(value: u64, len: usize) -> (r: Vec<u8>)
    ensures
        r@ == bcd_digits(value as int, len as nat),
        r@.len() == len,
{
    let mut result: Vec<u8> = Vec::new();
    let mut val: u64 = value;
    assert(result@ + bcd_digits(val as int, len as nat) =~= bcd_digits(value as int, len as nat));
    for i in 0..len
        invariant
            result@.len() == i,
            result@ + bcd_digits(val as int, (len - i) as nat) == bcd_digits(
                value as int,
                len as nat,
            ),
    {
        let ghost before = result@;
        let ghost rest = bcd_digits(val as int / 100, (len - i - 1) as nat);
        result.push(two_digits(val));
        assert(before + (seq![bcd_byte(val as int % 100)] + rest) =~= result@ + rest);
        val = val / 100;
    }
    assert(result@ + bcd_digits(val as int, 0) =~= result@);
    result
}

/// Reads digit pairs, the lowest pair first, of which `decimals` digits are decimal places.
pub fn bcd_to_quantity(data: &[u8], decimals: u8) -> (r: Result<Quantity, MeterError>)
    requires
        decimals <= 9,
        data@.len() <= 9,
    ensures
        r is Ok <==> all_bcd(data@),
        r matches Ok(q) ==> q == clamped(bcd_value(data@) * pow10((9 - decimals) as nat)),
        r matches Err(e) ==> exists|i: int|
            0 <= i < data@.len() && !is_bcd(#[trigger] data@[i]) && all_bcd(data@.skip(i + 1)) && e
                == MeterError::ParseError(ParseFault::BcdDigit { byte: data@[i] }),
{
    let whole: u64 = bcd_to_u64(data)?;
    let mut v: u128 = whole as u128;
    assert(pow10(0) == 1);
    for i in 0..9 - decimals
        invariant
            decimals <= 9,
            v == whole * pow10(i as nat),
            v <= 0xFFFF_FFFF_FFFF_FFFF * pow10(i as nat),
    {
        proof {
            let p = pow10(i as nat);
            crate::quantity::lemma_pow10_mono(i as nat, 9);
            crate::quantity::lemma_pow10_nine();
            assert(v <= 0xFFFF_FFFF_FFFF_FFFF * 1_000_000_000) by (nonlinear_arith)
                requires
                    v <= 0xFFFF_FFFF_FFFF_FFFF * p,
                    p <= 1_000_000_000,
            ;
            assert((whole * p) * 10 == whole * (10 * p)) by (nonlinear_arith);
            assert((0xFFFF_FFFF_FFFF_FFFF * p) * 10 == 0xFFFF_FFFF_FFFF_FFFF * (10 * p));
        }
        v = v * 10;
    }
    if v > i64::MAX as u128 {
        Ok(i64::MAX)
    } else {
        Ok(v as i64)
    }
}

/// Writes a quantity with `decimals` decimal places as digit pairs, the lowest pair first.
pub fn quantity_to_bcd(value: Quantity, decimals: u8, len: usize) -> (r: Vec<u8>)
    requires
        decimals <= 9,
    ensures
        r@ == bcd_digits(scaled(value, decimals as nat), len as nat),
{
    u64_to_bcd(scale(value, decimals), len)
}

/// Digits written and read back give the number, cut to the digits that were written.
pub proof fn law_bcd_write_read(value: int, len: nat)
    requires
        0 <= value,
    ensures
        all_bcd(bcd_digits(value, len)),
        bcd_digits(value, len).len() == len,
        bcd_value(bcd_digits(value, len)) == value % pow100(len),
    decreases len,
{
    reveal(is_bcd);
    reveal(bcd_byte_value);
    reveal(bcd_byte);
    if len > 0 {
        let rest = bcd_digits(value / 100, (len - 1) as nat);
        let all = bcd_digits(value, len);
        law_bcd_write_read(value / 100, (len - 1) as nat);
        assert(all.skip(1) =~= rest);
        assert(is_bcd(bcd_byte(value % 100)));
        assert(bcd_byte_value(bcd_byte(value % 100)) == value % 100);
        assert forall|i: int| 0 <= i < all.len() implies is_bcd(#[trigger] all[i]) by {
            if i > 0 {
                assert(all[i] == rest[i - 1]);
            }
        }
        lemma_pow100_positive((len - 1) as nat);
        vstd::arithmetic::div_mod::lemma_breakdown(value, 100, pow100((len - 1) as nat));
    }
}

/// Valid digit pairs read and written again are the same bytes.
pub proof fn law_bcd_read_write(data: Seq<u8>)
    requires
        all_bcd(data),
    ensures
        bcd_digits(bcd_value(data), data.len()) == data,
    decreases data.len(),
{
    reveal(is_bcd);
    reveal(bcd_byte_value);
    reveal(bcd_byte);
    if data.len() > 0 {
        let rest = data.skip(1);
        assert forall|i: int| 0 <= i < rest.len() implies is_bcd(#[trigger] rest[i]) by {
            assert(rest[i] == data[i + 1]);
        }
        law_bcd_read_write(rest);
        assert(is_bcd(data[0]));
        assert(bcd_value(data) % 100 == bcd_byte_value(data[0]));
        assert(bcd_value(data) / 100 == bcd_value(rest));
        assert(bcd_byte(bcd_byte_value(data[0])) == data[0]);
        assert(seq![data[0]] + rest =~= data);
    } else {
        assert(bcd_digits(0, 0) =~= data);
    }
}

/// The number that bytes stand for, the lowest byte first.
pub open spec fn bin_value(data: Seq<u8>) -> int
    decreases data.len(),
{
    if data.len() == 0 {
        0
    } else {
        data[0] + 256 * bin_value(data.skip(1))
    }
}

/// The lowest `len` bytes of `value`, the lowest first.
pub open spec fn bin_digits(value: int, len: nat) -> Seq<u8>
    decreases len,
{
    if len == 0 {
        seq![]
    } else {
        seq![(value % 256) as u8] + bin_digits(value / 256, (len - 1) as nat)
    }
}

/// 256 to the power `n`.
pub open spec fn pow256(n: nat) -> int
    decreases n,
{
    if n == 0 {
        1
    } else {
        256 * pow256((n - 1) as nat)
    }
}

proof fn lemma_bin_value_bound(data: Seq<u8>)
    requires
        data.len() <= 8,
    ensures
        0 <= bin_value(data) < pow256(data.len()),
        pow256(data.len()) <= 0x1_0000_0000_0000_0000,
    decreases data.len(),
{
    if data.len() > 0 {
        lemma_bin_value_bound(data.skip(1));
    }
    reveal_with_fuel(pow256, 9);
}

/// Reads an integer of up to eight bytes, the lowest byte first.
pub fn bin_to_u64(data: &[u8]) -> (r: u64)
    requires
        data@.len() <= 8,
    ensures
        r == bin_value(data@),
{
    let mut result: u64 = 0;
    let mut i: usize = data.len();
    while i > 0
        invariant
            i <= data@.len() <= 8,
            result == bin_value(data@.skip(i as int)),
        decreases i,
    {
        proof {
            let part = data@.skip(i - 1);
            assert(part.skip(1) =~= data@.skip(i as int));
            lemma_bin_value_bound(part);
        }
        result = result * 256 + data[i - 1] as u64;
        i = i - 1;
    }
    assert(data@.skip(0) =~= data@);
    result
}

/// Writes the lowest `len` bytes of `value`, the lowest byte first.
pub fn u64_to_bin(value: u64, len: usize) -> (r: Vec<u8>)
    requires
        len <= 8,
    ensures
        r@ == bin_digits(value as int, len as nat),
{
    let mut result: Vec<u8> = Vec::new();
    let mut val: u64 = value;
    assert(result@ + bin_digits(val as int, len as nat) =~= bin_digits(value as int, len as nat));
    for i in 0..len
        invariant
            result@ + bin_digits(val as int, (len - i) as nat) == bin_digits(
                value as int,
                len as nat,
            ),
    {
        let ghost before = result@;
        let ghost rest = bin_digits(val as int / 256, (len - i - 1) as nat);
        result.push((val % 256) as u8);
        assert(before + (seq![(val as int % 256) as u8] + rest) =~= result@ + rest);
        val = val / 256;
    }
    assert(result@ + bin_digits(val as int, 0) =~= result@);
    result
}

/// Bytes written and read back give the number, cut to the bytes that were written.
pub proof fn law_bin_write_read(value: int, len: nat)
    requires
        0 <= value,
    ensures
        bin_digits(value, len).len() == len,
        bin_value(bin_digits(value, len)) == value % pow256(len),
    decreases len,
{
    if len > 0 {
        law_bin_write_read(value / 256, (len - 1) as nat);
        assert(bin_digits(value, len).skip(1) =~= bin_digits(value / 256, (len - 1) as nat));
        lemma_pow256_positive((len - 1) as nat);
        vstd::arithmetic::div_mod::lemma_breakdown(value, 256, pow256((len - 1) as nat));
    }
}

proof fn lemma_pow256_positive(n: nat)
    ensures
        pow256(n) >= 1,
    decreases n,
{
    if n > 0 {
        lemma_pow256_positive((n - 1) as nat);
    }
}

/// Bytes read and written again are the same bytes.
pub proof fn law_bin_read_write(data: Seq<u8>)
    ensures
        bin_digits(bin_value(data), data.len()) == data,
    decreases data.len(),
{
    if data.len() > 0 {
        law_bin_read_write(data.skip(1));
        assert(seq![data[0]] + data.skip(1) =~= data);
    } else {
        assert(bin_digits(0, 0) =~= data);
    }
}

/// The calendar fields in seven bytes of digits: second, minute, hour, day, month and
/// the low and high half of the year.
pub open spec fn datetime_fields(data: Seq<u8>) -> Calendar {
    Calendar {
        year: (bcd_byte_value(data[6]) * 100 + bcd_byte_value(data[5])) as i32,
        month: bcd_byte_value(data[4]) as u32,
        day: bcd_byte_value(data[3]) as u32,
        hour: bcd_byte_value(data[2]) as u32,
        minute: bcd_byte_value(data[1]) as u32,
        second: bcd_byte_value(data[0]) as u32,
    }
}

/// The first byte that is not a pair of digits.
pub open spec fn first_bad_digit(data: Seq<u8>) -> u8
    decreases data.len(),
{
    if data.len() == 0 || !is_bcd(data[0]) {
        data[0]
    } else {
        first_bad_digit(data.skip(1))
    }
}

/// Why seven bytes of digits could not be read as a time, if they could not.
pub open spec fn datetime_error(data: Seq<u8>) -> Option<MeterError> {
    if data.len() != 7 {
        Some(MeterError::InvalidDataLength { expected: 7, actual: data.len() as usize })
    } else if !all_bcd(data) {
        Some(MeterError::ParseError(ParseFault::BcdDigit { byte: first_bad_digit(data) }))
    } else {
        let c = datetime_fields(data);
        if c.valid() {
            None
        } else {
            Some(
                MeterError::ParseError(
                    ParseFault::NoSuchTime {
                        year: c.year,
                        month: c.month,
                        day: c.day,
                        hour: c.hour,
                        minute: c.minute,
                        second: c.second,
                    },
                ),
            )
        }
    }
}

/// Reads one pair of digits.
pub fn digit_pair(byte: u8) -> (r: Option<u8>)
    ensures
        r is Some <==> is_bcd(byte),
        r matches Some(v) ==> v == bcd_byte_value(byte) && v <= 99,
{
    proof {
        reveal(is_bcd);
        reveal(bcd_byte_value);
    }
    let high: u8 = byte / 16;
    let low: u8 = byte % 16;
    if high > 9 || low > 9 {
        None
    } else {
        Some(high * 10 + low)
    }
}

/// Reads a time of seven bytes of digits: second, minute, hour, day, month and the low
/// and high half of the year.
pub fn parse_datetime(data: &[u8]) -> (r: Result<DateTime, MeterError>)
    ensures
        r is Ok <==> datetime_error(data@) is None,
        r matches Ok(t) ==> t.cal() == datetime_fields(data@) && t.secs() == datetime_fields(
            data@,
        ).seconds() && t.subsec_nanos() == 0,
        r matches Err(e) ==> datetime_error(data@) == Some(e),
{
    if data.len() != 7 {
        return Err(MeterError::InvalidDataLength { expected: 7, actual: data.len() });
    }
    let mut fields: [u8; 7] = [0; 7];
    assert(data@.skip(0) =~= data@);
    for i in 0..7
        invariant
            data@.len() == 7,
            forall|j: int|
                0 <= j < i ==> is_bcd(#[trigger] data@[j]) && fields@[j] == bcd_byte_value(data@[j])
                    && fields@[j] <= 99,
            first_bad_digit(data@) == first_bad_digit(data@.skip(i as int)),
    {
        match digit_pair(data[i]) {
            Some(v) => {
                fields[i] = v;
            },
            None => {
                assert(data@.skip(i as int)[0] == data@[i as int]);
                assert(!all_bcd(data@));
                return Err(MeterError::ParseError(ParseFault::BcdDigit { byte: data[i] }));
            },
        }
        assert(data@.skip(i as int)[0] == data@[i as int]);
        assert(data@.skip(i as int).skip(1) =~= data@.skip(i + 1));
    }
    assert(is_bcd(data@[0]) && is_bcd(data@[1]) && is_bcd(data@[2]) && is_bcd(data@[3]) && is_bcd(
        data@[4],
    ) && is_bcd(data@[5]) && is_bcd(data@[6]));
    assert(all_bcd(data@));
    let year: i32 = fields[6] as i32 * 100 + fields[5] as i32;
    let month: u32 = fields[4] as u32;
    let day: u32 = fields[3] as u32;
    let hour: u32 = fields[2] as u32;
    let minute: u32 = fields[1] as u32;
    let second: u32 = fields[0] as u32;
    assert(datetime_fields(data@) == Calendar { year, month, day, hour, minute, second });
    match DateTime::with_ymd_and_hms(year, month, day, hour, minute, second) {
        Some(t) => Ok(t),
        None => Err(
            MeterError::ParseError(
                ParseFault::NoSuchTime { year, month, day, hour, minute, second },
            ),
        ),
    }
}

/// A year or part of a year as a 64-bit word. Before the year 0 it wraps round.
pub open spec fn year_word(n: int) -> int {
    if n < 0 {
        n + 0x1_0000_0000_0000_0000
    } else {
        n
    }
}

/// The year within its century, with the sign of the year.
pub open spec fn year_in_century(y: int) -> int {
    if y < 0 {
        -(-y % 100)
    } else {
        y % 100
    }
}

/// The century of the year, with the sign of the year.
pub open spec fn century(y: int) -> int {
    if y < 0 {
        -(-y / 100)
    } else {
        y / 100
    }
}

/// Seven bytes of digits for a time: second, minute, hour, day, month and the low and
/// high half of the year.
pub open spec fn datetime_bytes(c: Calendar) -> Seq<u8> {
    seq![
        bcd_byte(c.second as int),
        bcd_byte(c.minute as int),
        bcd_byte(c.hour as int),
        bcd_byte(c.day as int),
        bcd_byte(c.month as int),
        bcd_byte(year_word(year_in_century(c.year as int)) % 100),
        bcd_byte(year_word(century(c.year as int)) % 100),
    ]
}

/// The 64-bit word of a small number that is given by its sign and size.
fn signed_word(negative: bool, size: u64) -> (r: u64)
    requires
        size <= 0x8000_0000,
    ensures
        r == year_word(if negative {
            -(size as int)
        } else {
            size as int
        }),
{
    if negative && size > 0 {
        u64::MAX - (size - 1)
    } else {
        size
    }
}

/// Writes a time as seven bytes of digits.
pub fn format_datetime(dt: &DateTime) -> (r: Vec<u8>)
    ensures
        r@ == datetime_bytes(dt.cal()),
{
    let c = dt.calendar();
    let negative: bool = c.year < 0;
    let size: u64 = if negative {
        (-(c.year as i64)) as u64
    } else {
        c.year as u64
    };
    let low: u64 = signed_word(negative, size % 100);
    let high: u64 = signed_word(negative, size / 100);
    assert(low == year_word(year_in_century(c.year as int)));
    assert(high == year_word(century(c.year as int)));
    let r: Vec<u8> = vec![
        two_digits(c.second as u64),
        two_digits(c.minute as u64),
        two_digits(c.hour as u64),
        two_digits(c.day as u64),
        two_digits(c.month as u64),
        two_digits(low),
        two_digits(high),
    ];
    assert(c.day <= 31);
    assert(r@ =~= datetime_bytes(c));
    r
}

/// Two digits written as a byte are read back.
pub proof fn lemma_bcd_byte(n: int)
    requires
        0 <= n <= 99,
    ensures
        is_bcd(bcd_byte(n)),
        bcd_byte_value(bcd_byte(n)) == n,
{
    reveal(is_bcd);
    reveal(bcd_byte_value);
    reveal(bcd_byte);
}

/// A time from the years 0 to 9999 that is written and read back is the same time.
pub proof fn law_datetime_roundtrip(c: Calendar)
    requires
        c.valid(),
        0 <= c.year <= 9999,
    ensures
        datetime_error(datetime_bytes(c)) is None,
        datetime_fields(datetime_bytes(c)) == c,
{
    let b = datetime_bytes(c);
    let y = c.year as int;
    assert(c.day <= 31);
    lemma_bcd_byte(c.second as int);
    lemma_bcd_byte(c.minute as int);
    lemma_bcd_byte(c.hour as int);
    lemma_bcd_byte(c.day as int);
    lemma_bcd_byte(c.month as int);
    lemma_bcd_byte(y % 100);
    lemma_bcd_byte(y / 100);
    assert(b[5] == bcd_byte(y % 100));
    assert(b[6] == bcd_byte(y / 100));
    assert(y / 100 * 100 + y % 100 == y);
    assert(all_bcd(b));
    assert(datetime_fields(b) == c);
}

/// Hexadecimal digit, in upper case.
pub open spec fn hex_char(n: int) -> char {
    if n < 10 {
        ('0' as int + n) as char
    } else {
        ('A' as int + n - 10) as char
    }
}

/// Two hexadecimal digits of a byte.
#[verifier::opaque]
pub open spec fn hex_pair(b: u8) -> Seq<char> {
    seq![hex_char(b as int / 16), hex_char(b as int % 16)]
}

/// An address as text: the highest byte first.
pub open spec fn address_text(addr: Seq<u8>) -> Seq<char> {
    hex_pair(addr[5]) + hex_pair(addr[4]) + hex_pair(addr[3]) + hex_pair(addr[2]) + hex_pair(
        addr[1],
    ) + hex_pair(addr[0])
}

fn hex_digit_text(n: u8) -> (r: &'static str)
    requires
        n < 16,
    ensures
        r@ == seq![hex_char(n as int)],
{
    proof {
        reveal_strlit("0");
        reveal_strlit("1");
        reveal_strlit("2");
        reveal_strlit("3");
        reveal_strlit("4");
        reveal_strlit("5");
        reveal_strlit("6");
        reveal_strlit("7");
        reveal_strlit("8");
        reveal_strlit("9");
        reveal_strlit("A");
        reveal_strlit("B");
        reveal_strlit("C");
        reveal_strlit("D");
        reveal_strlit("E");
        reveal_strlit("F");
    }
    let r = match n {
        0 => "0",
        1 => "1",
        2 => "2",
        3 => "3",
        4 => "4",
        5 => "5",
        6 => "6",
        7 => "7",
        8 => "8",
        9 => "9",
        10 => "A",
        11 => "B",
        12 => "C",
        13 => "D",
        14 => "E",
        _ => "F",
    };
    assert(r@ =~= seq![hex_char(n as int)]);
    r
}

/// Appends the two hexadecimal digits of a byte.
pub fn append_hex(out: &mut String, b: u8)
    ensures
        final(out)@ == old(out)@ + hex_pair(b),
{
    proof {
        reveal(hex_pair);
    }
    let ghost before = out@;
    out.append(hex_digit_text(b / 16));
    out.append(hex_digit_text(b % 16));
    assert(out@ =~= before + hex_pair(b));
}

/// Writes an address as twelve hexadecimal digits, the highest byte first.
pub fn format_address(addr: &[u8; 6]) -> (r: String)
    ensures
        r@ == address_text(addr@),
{
    let mut out = String::new();
    append_hex(&mut out, addr[5]);
    append_hex(&mut out, addr[4]);
    append_hex(&mut out, addr[3]);
    append_hex(&mut out, addr[2]);
    append_hex(&mut out, addr[1]);
    append_hex(&mut out, addr[0]);
    assert(out@ =~= address_text(addr@));
    out
}

/// The value of a hexadecimal digit in ASCII, in either case.
pub open spec fn hex_value(b: u8) -> Option<int> {
    if 48 <= b <= 57 {
        Some(b - 48)
    } else if 65 <= b <= 70 {
        Some(b - 55)
    } else if 97 <= b <= 102 {
        Some(b - 87)
    } else {
        None
    }
}

/// The byte that two characters stand for: two hexadecimal digits, or a plus sign and
/// one digit.
pub open spec fn hex_pair_value(first: u8, second: u8) -> Option<int> {
    match (hex_value(first), hex_value(second)) {
        (Some(h), Some(l)) => Some(h * 16 + l),
        (None, Some(l)) => if first == 43 {
            Some(l)
        } else {
            None
        },
        _ => None,
    }
}

fn hex_digit(b: u8) -> (r: Option<u8>)
    ensures
        r is Some <==> hex_value(b) is Some,
        r matches Some(v) ==> hex_value(b) == Some(v as int) && v < 16,
{
    if 48 <= b && b <= 57 {
        Some(b - 48)
    } else if 65 <= b && b <= 70 {
        Some(b - 55)
    } else if 97 <= b && b <= 102 {
        Some(b - 87)
    } else {
        None
    }
}

fn hex_digits(first: u8, second: u8) -> (r: Option<u8>)
    ensures
        r is Some <==> hex_pair_value(first, second) is Some,
        r matches Some(v) ==> hex_pair_value(first, second) == Some(v as int),
{
    match (hex_digit(first), hex_digit(second)) {
        (Some(h), Some(l)) => Some(h * 16 + l),
        (None, Some(l)) => if first == 43 {
            Some(l)
        } else {
            None
        },
        _ => None,
    }
}

/// The byte at position `i` of an address, from its text.
pub open spec fn address_byte(text: Seq<u8>, i: int) -> Option<int> {
    hex_pair_value(text[10 - 2 * i], text[11 - 2 * i])
}

/// Every pair of characters of the text stands for a byte.
pub open spec fn address_digits_valid(text: Seq<u8>) -> bool {
    forall|i: int| 0 <= i < 6 ==> (#[trigger] address_byte(text, i)) is Some
}

/// Reads an address of twelve hexadecimal digits, the highest byte first.
pub fn parse_address(addr_str: &str) -> (r: Result<[u8; 6], MeterError>)
    ensures
        ({
            let text = encode_utf8(addr_str@);
            &&& r is Ok <==> text.len() == 12 && address_digits_valid(text)
            &&& r matches Ok(addr) ==> forall|i: int|
                0 <= i < 6 ==> address_byte(text, i) == Some((#[trigger] addr@[i]) as int)
            &&& r matches Err(e) ==> e == (if text.len() != 12 {
                MeterError::ParseError(ParseFault::AddressLength { actual: text.len() as usize })
            } else {
                MeterError::ParseError(ParseFault::HexDigit)
            })
        }),
{
    let text = addr_str.as_bytes();
    if text.len() != 12 {
        return Err(MeterError::ParseError(ParseFault::AddressLength { actual: text.len() }));
    }
    let mut result: [u8; 6] = [0; 6];
    for i in 0..6
        invariant
            text@ == encode_utf8(addr_str@),
            text@.len() == 12,
            forall|j: int|
                0 <= j < i ==> (#[trigger] address_byte(text@, j)) is Some && address_byte(text@, j)
                    == Some(result@[j] as int),
    {
        match hex_digits(text[10 - 2 * i], text[11 - 2 * i]) {
            Some(v) => {
                result[i] = v;
            },
            None => {
                assert(address_byte(text@, i as int) is None);
                return Err(MeterError::ParseError(ParseFault::HexDigit));
            },
        }
    }
    assert forall|i: int| 0 <= i < 6 implies address_byte(text@, i) == Some(
        (#[trigger] result@[i]) as int,
    ) by {
        assert(address_byte(text@, i) is Some);
    }
    Ok(result)
}

/// An address written as text and read back is the same address.
pub proof fn law_address_roundtrip(addr: Seq<u8>)
    requires
        addr.len() == 6,
    ensures
        encode_utf8(address_text(addr)).len() == 12,
        forall|i: int|
            0 <= i < 6 ==> address_byte(encode_utf8(address_text(addr)), i) == Some(
                (#[trigger] addr[i]) as int,
            ),
{
    let text = address_text(addr);
    lemma_hex_pair(addr[0]);
    lemma_hex_pair(addr[1]);
    lemma_hex_pair(addr[2]);
    lemma_hex_pair(addr[3]);
    lemma_hex_pair(addr[4]);
    lemma_hex_pair(addr[5]);
    assert(text.len() == 12);
    assert(text.subrange(0, 2) =~= hex_pair(addr[5]));
    assert(text.subrange(2, 4) =~= hex_pair(addr[4]));
    assert(text.subrange(4, 6) =~= hex_pair(addr[3]));
    assert(text.subrange(6, 8) =~= hex_pair(addr[2]));
    assert(text.subrange(8, 10) =~= hex_pair(addr[1]));
    assert(text.subrange(10, 12) =~= hex_pair(addr[0]));
    assert forall|i: int| 0 <= i < 6 implies (#[trigger] text[10 - 2 * i]) == hex_pair(addr[i])[0]
        && text[11 - 2 * i] == hex_pair(addr[i])[1] by {
        assert(text.subrange(10 - 2 * i, 12 - 2 * i)[0] == text[10 - 2 * i]);
        assert(text.subrange(10 - 2 * i, 12 - 2 * i)[1] == text[11 - 2 * i]);
    }
    assert(vstd::utf8::is_ascii_chars(text)) by {
        assert forall|k: int| 0 <= k < text.len() implies '\0' <= #[trigger] text[k] <= '\u{7f}' by {
            let i = (11 - k) / 2;
            assert(0 <= i < 6 && (k == 10 - 2 * i || k == 11 - 2 * i));
            assert(text[10 - 2 * i] == hex_pair(addr[i])[0]);
            lemma_hex_pair(addr[i]);
        }
    }
    vstd::utf8::is_ascii_chars_encode_utf8(text);
    let raw = encode_utf8(text);
    assert forall|i: int| 0 <= i < 6 implies address_byte(raw, i) == Some(
        (#[trigger] addr[i]) as int,
    ) by {
        assert(text[10 - 2 * i] == hex_pair(addr[i])[0]);
        lemma_hex_pair(addr[i]);
    }
}

proof fn lemma_hex_pair(b: u8)
    ensures
        hex_pair(b).len() == 2,
        '\0' <= hex_pair(b)[0] <= '\u{7f}',
        '\0' <= hex_pair(b)[1] <= '\u{7f}',
        hex_pair_value(hex_pair(b)[0] as u8, hex_pair(b)[1] as u8) == Some(b as int),
{
    reveal(hex_pair);
}

} // verus!
