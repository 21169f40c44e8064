use meter_core::error::{FrameFault, MeterError};
use meter_core::protocol::codec::{
    decode_frame, encode_data_block_response, encode_error_response, encode_frame,
    encode_frame_raw, is_broadcast_address, is_wildcard_address, match_address, parse_di,
    validate_broadcast_command, ErrorInfoWord,
};
use meter_core::protocol::control_code::{ControlCode, ErrorCode};
use meter_core::protocol::frame::Frame;
use meter_core::protocol::stream::take_frame;

#[test]
fn test_encode_decode_roundtrip() {
    let frame = Frame::read([0x01, 0x00, 0x00, 0x00, 0x00, 0x00], [0x00, 0x01, 0x00, 0x00]);

    let encoded = encode_frame(&frame);
    let decoded = decode_frame(&encoded).unwrap();

    assert_eq!(decoded.address, frame.address);
    assert_eq!(decoded.control, frame.control);
    assert_eq!(decoded.data, frame.data);
}

#[test]
fn test_checksum_error() {
    let raw = vec![
        0x68, 0x01, 0x00, 0x00, 0x00, 0x00, 0x00, 0x68, 0x11, 0x04, 0x33, 0x34, 0x33, 0x33, 0x00,
        0x16,
    ];

    let result = decode_frame(&raw);
    assert!(result.is_err());
    assert!(matches!(result.unwrap_err(), MeterError::ChecksumMismatch { .. }));
}

#[test]
fn test_parse_di() {
    let data = vec![0x00, 0x01, 0x00, 0x00, 0xAA, 0xBB];
    let (di, rest) = parse_di(&data).unwrap();

    assert_eq!(di, [0x00, 0x01, 0x00, 0x00]);
    assert_eq!(rest, &[0xAA, 0xBB]);
}

#[test]
fn test_parse_di_too_short() {
    let data = vec![0x00, 0x01, 0x00];
    let result = parse_di(&data);

    assert!(result.is_err());
}

#[test]
fn test_encode_data_block_response() {
    let request_di = [0xFF, 0x01, 0x00, 0x00];
    let items = vec![
        ([0x01, 0x01, 0x00, 0x00], vec![0x12, 0x34]),
        ([0x02, 0x01, 0x00, 0x00], vec![0x56, 0x78]),
    ];

    let data = encode_data_block_response(request_di, items);

    assert_eq!(data.len(), 17);
    assert_eq!(&data[0..4], &[0xFF, 0x01, 0x00, 0x00]);
    assert_eq!(data[4], 2);
    assert_eq!(&data[5..9], &[0x01, 0x01, 0x00, 0x00]);
    assert_eq!(&data[9..11], &[0x12, 0x34]);
    assert_eq!(&data[11..15], &[0x02, 0x01, 0x00, 0x00]);
    assert_eq!(&data[15..17], &[0x56, 0x78]);
}

#[test]
fn test_encode_error_response() {
    let address = [0x01, 0x02, 0x03, 0x04, 0x05, 0x06];
    let request_control = 0x11;
    let err = ErrorInfoWord::new(ErrorInfoWord::NO_DATA);

    let response_bytes = encode_error_response(address, request_control, err);

    let frame = decode_frame(&response_bytes).unwrap();
    assert_eq!(frame.address, address);
    assert_eq!(frame.control, 0xD1);
    assert_eq!(frame.data, vec![ErrorInfoWord::NO_DATA]);
}

#[test]
fn test_encode_frame_raw_no_offset() {
    let addr = [0x12, 0x90, 0x78, 0x56, 0x34, 0x12];
    let raw = encode_frame_raw(addr, 0x93, &addr);

    assert_eq!(raw[0], 0x68);
    assert_eq!(raw[7], 0x68);
    assert_eq!(raw[8], 0x93);
    assert_eq!(raw[9], 6);
    assert_eq!(&raw[10..16], &addr);
    assert_eq!(raw[raw.len() - 1], 0x16);
}

#[test]
fn test_is_broadcast_address() {
    assert!(is_broadcast_address(&[0x99, 0x99, 0x99, 0x99, 0x99, 0x99]));
    assert!(!is_broadcast_address(&[0x01, 0x99, 0x99, 0x99, 0x99, 0x99]));
    assert!(!is_broadcast_address(&[0x00, 0x00, 0x00, 0x00, 0x00, 0x00]));
}

#[test]
fn test_is_wildcard_address() {
    assert!(is_wildcard_address(&[0xAA, 0x00, 0x00, 0x00, 0x00, 0x00]));
    assert!(is_wildcard_address(&[0x01, 0x02, 0xAA, 0x04, 0x05, 0x06]));
    assert!(!is_wildcard_address(&[0x01, 0x02, 0x03, 0x04, 0x05, 0x06]));
}

#[test]
fn test_validate_broadcast_command() {
    assert!(validate_broadcast_command(0x08));
    assert!(validate_broadcast_command(0x16));
    assert!(!validate_broadcast_command(0x11));
    assert!(!validate_broadcast_command(0x14));
}

#[test]
fn test_match_address() {
    let pattern = [0xAA, 0x02, 0x03, 0xAA, 0x05, 0x06];

    assert!(match_address(&pattern, &[0x01, 0x02, 0x03, 0x04, 0x05, 0x06]));
    assert!(match_address(&pattern, &[0xFF, 0x02, 0x03, 0x00, 0x05, 0x06]));
    assert!(!match_address(&pattern, &[0x01, 0xFF, 0x03, 0x04, 0x05, 0x06]));
    assert!(!match_address(&pattern, &[0x01, 0x02, 0xFF, 0x04, 0x05, 0x06]));
}

#[test]
fn test_error_info_word() {
    let err = ErrorInfoWord::new(ErrorInfoWord::NO_DATA | ErrorInfoWord::PASSWORD_ERR);
    assert_eq!(err.bits(), 0b0000_0110);

    let err2 = ErrorInfoWord::new(ErrorInfoWord::OTHER);
    assert_eq!(err2.bits(), 0b0000_0001);
}

fn read_request() -> Vec<u8> {
    encode_frame(&Frame::read([0x12, 0x90, 0x78, 0x56, 0x34, 0x12], [0x00, 0x00, 0x01, 0x00]))
}

#[test]
fn a_read_request_on_the_line() {
    assert_eq!(
        read_request(),
        vec![
            0x68, 0x12, 0x90, 0x78, 0x56, 0x34, 0x12, 0x68, 0x11, 0x04, 0x33, 0x33, 0x34, 0x33,
            0x68, 0x16
        ]
    );
}

#[test]
fn each_fault_of_a_frame_is_told_apart() {
    assert_eq!(
        decode_frame(&[0x68; 11]).unwrap_err(),
        MeterError::InvalidFrame(FrameFault::TooShort { actual: 11 })
    );
    let good = read_request();

    let mut raw = good.clone();
    raw[0] = 0x67;
    assert_eq!(
        decode_frame(&raw).unwrap_err(),
        MeterError::InvalidFrame(FrameFault::StartByte { found: 0x67 })
    );
    let mut raw = good.clone();
    raw[7] = 0x00;
    assert_eq!(
        decode_frame(&raw).unwrap_err(),
        MeterError::InvalidFrame(FrameFault::SecondStartByte { found: 0x00 })
    );
    assert!(matches!(
        decode_frame(&good[..14]).unwrap_err(),
        MeterError::InvalidFrame(FrameFault::Incomplete { expected: 16, actual: 14 })
    ));
    let mut raw = good.clone();
    raw[15] = 0x17;
    assert_eq!(
        decode_frame(&raw).unwrap_err(),
        MeterError::InvalidFrame(FrameFault::EndByte { found: 0x17 })
    );
    let mut raw = good.clone();
    raw[14] = 0x69;
    assert_eq!(
        decode_frame(&raw).unwrap_err(),
        MeterError::ChecksumMismatch { expected: 0x68, actual: 0x69 }
    );
    assert_eq!(
        parse_di(&[1, 2, 3]).unwrap_err(),
        MeterError::InvalidFrame(FrameFault::NoIdentifier { actual: 3 })
    );
}

#[test]
fn a_changed_byte_is_always_noticed() {
    let good = read_request();
    for i in 0..good.len() - 2 {
        if i == 9 {
            continue;
        }
        for b in 0..=255u8 {
            if b != good[i] {
                let mut raw = good.clone();
                raw[i] = b;
                assert!(decode_frame(&raw).is_err());
            }
        }
    }
}

#[test]
fn bytes_after_a_frame_do_not_matter() {
    let mut raw = read_request();
    raw.extend_from_slice(&[0xDE, 0xAD]);
    assert_eq!(decode_frame(&raw).unwrap().data, vec![0x00, 0x00, 0x01, 0x00]);
}

#[test]
fn the_longest_frame_comes_back() {
    let frame = Frame { address: [1, 2, 3, 4, 5, 6], control: 0x91, data: vec![0xCD; 255] };
    let decoded = decode_frame(&encode_frame(&frame)).unwrap();
    assert_eq!(decoded.data, frame.data);
}

#[test]
fn control_codes_have_bytes() {
    for byte in 0..=255u8 {
        if let Some(code) = ControlCode::from_u8(byte) {
            assert_eq!(code.to_u8(), byte);
            assert_eq!(code.is_response(), byte >= 0x80);
            assert_eq!(code.is_command(), byte < 0x80);
        }
    }
    assert_eq!(ControlCode::from_u8(0x1A), Some(ControlCode::ClearEnergy));
    assert_eq!(ControlCode::from_u8(0x12), None);
    assert_eq!(ErrorCode::RateOverflow.to_u8(), ErrorInfoWord::RATE_EXCEED);
    assert_eq!(ErrorCode::BaudNotChangeable.to_u8(), ErrorInfoWord::BAUD_LOCKED);
}

#[test]
fn one_wrong_byte_is_found_out() {
    let frame = Frame::read([0x01, 0x02, 0x03, 0x04, 0x05, 0x06], [0x00, 0x01, 0x00, 0x00]);
    let raw = encode_frame(&frame);
    let start = raw.iter().position(|b| *b == 0x68).unwrap();
    let raw = &raw[start..];
    for i in 0..raw.len() {
        if i != 9 {
            let mut bad = raw.to_vec();
            bad[i] ^= 0x21;
            assert!(decode_frame(&bad).is_err());
        }
    }
}

#[test]
fn frames_are_taken_out_of_a_stream() {
    let frame = Frame::read([0x01, 0x02, 0x03, 0x04, 0x05, 0x06], [0x00, 0x01, 0x00, 0x00]);
    let raw = encode_frame(&frame);
    let start = raw.iter().position(|b| *b == 0x68).unwrap();
    let raw = raw[start..].to_vec();
    let mut buffer = vec![0xFE, 0xFE, 0x00];
    buffer.extend_from_slice(&raw);
    buffer.extend_from_slice(&raw[..7]);
    assert_eq!(take_frame(&mut buffer), Some(raw.clone()));
    assert_eq!(buffer, raw[..7].to_vec());
    assert_eq!(take_frame(&mut buffer), None);
    assert_eq!(buffer, raw[..7].to_vec());
    buffer.extend_from_slice(&raw[7..]);
    assert_eq!(take_frame(&mut buffer), Some(raw));
    assert!(buffer.is_empty());
    let mut noise = vec![0xFE; 20];
    assert_eq!(take_frame(&mut noise), None);
    assert!(noise.is_empty());
}
