use meter_core::error::{MeterError, ParseFault};
use meter_core::protocol::format::{
    bcd_to_quantity, bcd_to_u64, bin_to_u64, format_address, format_datetime, parse_address,
    parse_datetime, quantity_to_bcd, u64_to_bcd, u64_to_bin,
};
use meter_core::time::DateTime;

#[test]
fn test_bcd_to_u64() {
    assert_eq!(bcd_to_u64(&[0x34, 0x12]).unwrap(), 1234);
    assert_eq!(bcd_to_u64(&[0x67, 0x45, 0x23, 0x01]).unwrap(), 1234567);
    assert_eq!(bcd_to_u64(&[0x00]).unwrap(), 0);
}

#[test]
fn test_u64_to_bcd() {
    assert_eq!(u64_to_bcd(1234, 2), vec![0x34, 0x12]);
    assert_eq!(u64_to_bcd(1234567, 4), vec![0x67, 0x45, 0x23, 0x01]);
    assert_eq!(u64_to_bcd(0, 1), vec![0x00]);
}

#[test]
fn test_bcd_roundtrip() {
    let values = [0, 1, 12, 123, 1234, 12345, 123456, 1234567];
    for &val in &values {
        let len = if val == 0 { 1 } else { ((val as f64).log10() as usize / 2) + 1 };
        let bcd = u64_to_bcd(val, len);
        assert_eq!(bcd_to_u64(&bcd).unwrap(), val);
    }
}

#[test]
fn test_bcd_to_f64() {
    assert_eq!(bcd_to_quantity(&[0x34, 0x12, 0x00, 0x00], 2).unwrap(), 12_340_000_000);
    assert_eq!(bcd_to_quantity(&[0x50, 0x12], 2).unwrap(), 12_500_000_000);
}

#[test]
fn test_f64_to_bcd() {
    assert_eq!(quantity_to_bcd(12_340_000_000, 2, 4), vec![0x34, 0x12, 0x00, 0x00]);
    assert_eq!(quantity_to_bcd(12_500_000_000, 2, 2), vec![0x50, 0x12]);
}

#[test]
fn test_bin_to_u64() {
    assert_eq!(bin_to_u64(&[0x34, 0x12, 0x00, 0x00]), 0x1234);
    assert_eq!(bin_to_u64(&[0xFF, 0x00]), 0xFF);
}

#[test]
fn test_u64_to_bin() {
    assert_eq!(u64_to_bin(0x1234, 4), vec![0x34, 0x12, 0x00, 0x00]);
    assert_eq!(u64_to_bin(0xFF, 2), vec![0xFF, 0x00]);
}

#[test]
fn test_parse_datetime() {
    let data = [0x30, 0x45, 0x12, 0x05, 0x08, 0x26, 0x20];
    let dt = parse_datetime(&data).unwrap();

    assert_eq!(dt.year(), 2026);
    assert_eq!(dt.month(), 8);
    assert_eq!(dt.day(), 5);
    assert_eq!(dt.hour(), 12);
    assert_eq!(dt.minute(), 45);
    assert_eq!(dt.second(), 30);
}

#[test]
fn test_format_datetime() {
    let dt = DateTime::with_ymd_and_hms(2026, 8, 5, 12, 45, 30).unwrap();

    let data = format_datetime(&dt);
    assert_eq!(data, vec![0x30, 0x45, 0x12, 0x05, 0x08, 0x26, 0x20]);
}

#[test]
fn test_format_address() {
    let addr = [0x01, 0x00, 0x00, 0x00, 0x00, 0x00];
    assert_eq!(format_address(&addr), "000000000001");

    let addr2 = [0x34, 0x12, 0x56, 0x78, 0x9A, 0xBC];
    assert_eq!(format_address(&addr2), "BC9A78561234");
}

#[test]
fn test_parse_address() {
    let result = parse_address("000000000001").unwrap();
    assert_eq!(result, [0x01, 0x00, 0x00, 0x00, 0x00, 0x00]);

    let result2 = parse_address("BC9A78561234").unwrap();
    assert_eq!(result2, [0x34, 0x12, 0x56, 0x78, 0x9A, 0xBC]);
}

#[test]
fn test_address_roundtrip() {
    let addresses = ["000000000001", "123456789012", "AABBCCDDEEFF"];

    for addr_str in &addresses {
        let addr = parse_address(addr_str).unwrap();
        let formatted = format_address(&addr);
        assert_eq!(formatted, *addr_str);
    }
}

#[test]
fn half_bytes_above_nine_are_refused() {
    assert_eq!(
        bcd_to_u64(&[0x12, 0x3A]).unwrap_err(),
        MeterError::ParseError(ParseFault::BcdDigit { byte: 0x3A })
    );
    assert_eq!(
        bcd_to_quantity(&[0xA1], 1).unwrap_err(),
        MeterError::ParseError(ParseFault::BcdDigit { byte: 0xA1 })
    );
}

#[test]
fn times_that_do_not_exist_are_refused() {
    assert_eq!(
        parse_datetime(&[0x00, 0x00, 0x00, 0x30, 0x02, 0x24, 0x20]).unwrap_err(),
        MeterError::ParseError(ParseFault::NoSuchTime {
            year: 2024,
            month: 2,
            day: 30,
            hour: 0,
            minute: 0,
            second: 0
        })
    );
    assert_eq!(
        parse_datetime(&[0x00]).unwrap_err(),
        MeterError::InvalidDataLength { expected: 7, actual: 1 }
    );
}

#[test]
fn addresses_that_are_none_are_refused() {
    assert_eq!(
        parse_address("1234").unwrap_err(),
        MeterError::ParseError(ParseFault::AddressLength { actual: 4 })
    );
    assert_eq!(
        parse_address("00000000000G").unwrap_err(),
        MeterError::ParseError(ParseFault::HexDigit)
    );
}

#[test]
fn bytes_come_back_from_digits_and_binary() {
    assert_eq!(u64_to_bcd(bcd_to_u64(&[0x78, 0x56, 0x34, 0x12]).unwrap(), 4), vec![
        0x78, 0x56, 0x34, 0x12
    ]);
    assert_eq!(u64_to_bin(bin_to_u64(&[0xEF, 0xBE, 0xAD, 0xDE]), 4), vec![0xEF, 0xBE, 0xAD, 0xDE]);
    assert_eq!(quantity_to_bcd(220_450_000_000, 1, 2), vec![0x05, 0x22]);
    assert_eq!(quantity_to_bcd(-1, 1, 2), vec![0x00, 0x00]);
}

#[test]
fn datetimes_come_back() {
    let dt = DateTime::with_ymd_and_hms(1999, 12, 31, 23, 59, 58).unwrap();
    assert_eq!(parse_datetime(&format_datetime(&dt)).unwrap(), dt);
}
