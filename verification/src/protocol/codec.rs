//! Encoding and decoding of frames, and the address rules.

use crate::bytes::append;
use crate::error::{FrameFault, MeterError};
use crate::protocol::frame::{Frame, FrameModel};
use vstd::prelude::*;

verus! {

/// Error information word: the data byte of an error answer.
#[derive(Debug, Clone, Copy, PartialEq, Eq, Structural)]
pub struct ErrorInfoWord(u8);

impl ErrorInfoWord {
    /// Bit 0: other error.
    pub const OTHER: u8 = 0b0000_0001;

    /// Bit 1: no such data.
    pub const NO_DATA: u8 = 0b0000_0010;

    /// Bit 2: wrong password or not authorised.
    pub const PASSWORD_ERR: u8 = 0b0000_0100;

    /// Bit 3: the baud rate cannot be changed.
    pub const BAUD_LOCKED: u8 = 0b0000_1000;

    /// Bit 4: too many year zones.
    pub const TOU_ZONE_EXCEED: u8 = 0b0001_0000;

    /// Bit 5: too many day slots.
    pub const TIME_SLOT_EXCEED: u8 = 0b0010_0000;

    /// Bit 6: too many rates.
    pub const RATE_EXCEED: u8 = 0b0100_0000;

    pub closed spec fn word(self) -> u8 {
        self.0
    }

    pub fn new(bits: u8) -> (r: ErrorInfoWord)
        ensures
            r.word() == bits,
    {
        ErrorInfoWord(bits)
    }

    pub fn bits(&self) -> (r: u8)
        ensures
            r == self.word(),
    {
        self.0
    }
}

/// Sum of the bytes.
pub open spec fn byte_sum(bytes: Seq<u8>) -> int
    decreases bytes.len(),
{
    if bytes.len() == 0 {
        0
    } else {
        byte_sum(bytes.drop_last()) + bytes.last()
    }
}

/// The checksum of a frame: the sum of the bytes before it, modulo 256.
pub open spec fn checksum(bytes: Seq<u8>) -> u8 {
    (byte_sum(bytes) % 256) as u8
}

/// A byte with 33H added, as it goes over the line.
pub open spec fn offset_byte(b: u8) -> u8 {
    ((b + 0x33) % 256) as u8
}

/// A byte from the line with 33H taken off.
pub open spec fn plain_byte(b: u8) -> u8 {
    ((b + 0x100 - 0x33) % 256) as u8
}

pub open spec fn offset_bytes(data: Seq<u8>) -> Seq<u8> {
    data.map_values(|b: u8| offset_byte(b))
}

pub open spec fn plain_bytes(data: Seq<u8>) -> Seq<u8> {
    data.map_values(|b: u8| plain_byte(b))
}

/// Everything of a frame before the checksum.
pub open spec fn frame_head(address: Seq<u8>, control: u8, payload: Seq<u8>) -> Seq<u8> {
    seq![0x68u8] + address + seq![0x68u8, control, (payload.len() % 256) as u8] + payload
}

/// A frame whose data field holds `payload` as it stands.
pub open spec fn frame_bytes(address: Seq<u8>, control: u8, payload: Seq<u8>) -> Seq<u8> {
    let head = frame_head(address, control, payload);
    head + seq![checksum(head), 0x16u8]
}

/// The bytes of a frame on the line: 68H, address, 68H, control code, length, data
/// with 33H added to each byte, checksum, 16H.
pub open spec fn encoded(frame: FrameModel) -> Seq<u8> {
    frame_bytes(frame.address, frame.control, offset_bytes(frame.data))
}

/// What is wrong with `raw` as a frame, the first fault in reading order; `None`
/// where it starts with a sound frame.
pub open spec fn frame_error(raw: Seq<u8>) -> Option<MeterError> {
    if raw.len() < 12 {
        Some(MeterError::InvalidFrame(FrameFault::TooShort { actual: raw.len() as usize }))
    } else if raw[0] != 0x68 {
        Some(MeterError::InvalidFrame(FrameFault::StartByte { found: raw[0] }))
    } else if raw[7] != 0x68 {
        Some(MeterError::InvalidFrame(FrameFault::SecondStartByte { found: raw[7] }))
    } else if raw.len() < 12 + raw[9] {
        Some(
            MeterError::InvalidFrame(
                FrameFault::Incomplete {
                    expected: (12 + raw[9]) as usize,
                    actual: raw.len() as usize,
                },
            ),
        )
    } else if checksum(raw.take(10 + raw[9])) != raw[10 + raw[9]] {
        Some(
            MeterError::ChecksumMismatch {
                expected: checksum(raw.take(10 + raw[9])),
                actual: raw[10 + raw[9]],
            },
        )
    } else if raw[11 + raw[9]] != 0x16 {
        Some(MeterError::InvalidFrame(FrameFault::EndByte { found: raw[11 + raw[9]] }))
    } else {
        None
    }
}

/// The frame at the start of `raw`. Bytes after its end are ignored.
pub open spec fn decoded(raw: Seq<u8>) -> FrameModel {
    FrameModel {
        address: raw.subrange(1, 7),
        control: raw[8],
        data: plain_bytes(raw.subrange(10, 10 + raw[9])),
    }
}

/// Adds up the first `n` bytes modulo 256.
fn compute_checksum(bytes: &[u8], n: usize) -> (r: u8)
    requires
        n <= bytes@.len(),
    ensures
        r == checksum(bytes@.take(n as int)),
{
    let mut sum: u8 = 0;
    for i in 0..n
        invariant
            n <= bytes@.len(),
            sum == checksum(bytes@.take(i as int)),
    {
        proof {
            let next = bytes@.take(i + 1);
            assert(next.drop_last() =~= bytes@.take(i as int));
            assert(next.last() == bytes@[i as int]);
            assert(byte_sum(next) == byte_sum(bytes@.take(i as int)) + bytes@[i as int]);
        }
        sum = sum.wrapping_add(bytes[i]);
    }
    sum
}

/// Decodes the frame at the start of `raw`.
pub fn decode_frame(raw: &[u8]) -> (r: Result<Frame, MeterError>)
    ensures
        r is Ok <==> frame_error(raw@) is None,
        r matches Ok(frame) ==> frame@ == decoded(raw@),
        r matches Err(e) ==> frame_error(raw@) == Some(e),
{
    if raw.len() < 12 {
        return Err(MeterError::InvalidFrame(FrameFault::TooShort { actual: raw.len() }));
    }
    if raw[0] != 0x68 {
        return Err(MeterError::InvalidFrame(FrameFault::StartByte { found: raw[0] }));
    }
    if raw[7] != 0x68 {
        return Err(MeterError::InvalidFrame(FrameFault::SecondStartByte { found: raw[7] }));
    }
    let address: [u8; 6] = [raw[1], raw[2], raw[3], raw[4], raw[5], raw[6]];
    let control: u8 = raw[8];
    let data_len: usize = raw[9] as usize;
    let expected: usize = 12 + data_len;
    if raw.len() < expected {
        return Err(
            MeterError::InvalidFrame(FrameFault::Incomplete { expected, actual: raw.len() }),
        );
    }
    let cs_pos: usize = 10 + data_len;
    let mut data: Vec<u8> = Vec::new();
    for i in 0..data_len
        invariant
            data_len <= 255,
            raw@.len() >= 12 + data_len,
            data@ == plain_bytes(raw@.subrange(10, 10 + i)),
    {
        data.push(raw[10 + i].wrapping_sub(0x33));
        assert(data@ =~= plain_bytes(raw@.subrange(10, 10 + i + 1)));
    }
    let calculated: u8 = compute_checksum(raw, cs_pos);
    if calculated != raw[cs_pos] {
        return Err(MeterError::ChecksumMismatch { expected: calculated, actual: raw[cs_pos] });
    }
    if raw[cs_pos + 1] != 0x16 {
        return Err(MeterError::InvalidFrame(FrameFault::EndByte { found: raw[cs_pos + 1] }));
    }
    assert(address@ =~= raw@.subrange(1, 7));
    Ok(Frame { address, control, data })
}

/// Builds a frame, with or without the 33H offset on the data.
fn encode_frame_impl(
    address: &[u8; 6],
    control: u8,
    data: &[u8],
    apply_offset: bool,
) -> (r: Vec<u8>)
    ensures
        r@ == frame_bytes(
            address@,
            control,
            if apply_offset {
                offset_bytes(data@)
            } else {
                data@
            },
        ),
{
    let ghost payload = if apply_offset {
        offset_bytes(data@)
    } else {
        data@
    };
    let mut buf: Vec<u8> = Vec::new();
    buf.push(0x68);
    append(&mut buf, address.as_slice());
    buf.push(0x68);
    buf.push(control);
    buf.push((data.len() % 256) as u8);
    let ghost lead = seq![0x68u8] + address@ + seq![0x68u8, control, (data@.len() % 256) as u8];
    assert(buf@ =~= lead);
    for i in 0..data.len()
        invariant
            payload == (if apply_offset {
                offset_bytes(data@)
            } else {
                data@
            }),
            buf@ == lead + payload.take(i as int),
    {
        let b: u8 = if apply_offset {
            data[i].wrapping_add(0x33)
        } else {
            data[i]
        };
        buf.push(b);
        assert(payload[i as int] == b);
        assert(buf@ =~= lead + payload.take(i + 1));
    }
    assert(payload.take(data@.len() as int) =~= payload);
    assert(buf@ =~= frame_head(address@, control, payload));
    let cs: u8 = compute_checksum(buf.as_slice(), buf.len());
    assert(buf@.take(buf@.len() as int) =~= buf@);
    buf.push(cs);
    buf.push(0x16);
    assert(buf@ =~= frame_bytes(address@, control, payload));
    buf
}

/// Encodes a frame, with 33H added to each data byte.
pub fn encode_frame(frame: &Frame) -> (r: Vec<u8>)
    ensures
        r@ == encoded(frame@),
{
    encode_frame_impl(&frame.address, frame.control, frame.data.as_slice(), true)
}

/// Encodes a frame whose data bytes go out as they are, as in the answer to 13H.
pub fn encode_frame_raw(address: [u8; 6], control: u8, data: &[u8]) -> (r: Vec<u8>)
    ensures
        r@ == frame_bytes(address@, control, data@),
{
    encode_frame_impl(&address, control, data, false)
}

/// Taking 33H off undoes adding it.
pub proof fn lemma_offset_roundtrip(data: Seq<u8>)
    ensures
        plain_bytes(offset_bytes(data)) == data,
{
    assert(plain_bytes(offset_bytes(data)) =~= data);
}

/// A frame with up to 255 data bytes is read back as it was sent, whatever bytes
/// follow it.
pub proof fn law_frame_roundtrip(frame: FrameModel, rest: Seq<u8>)
    requires
        frame.address.len() == 6,
        frame.data.len() <= 255,
    ensures
        frame_error(encoded(frame) + rest) is None,
        decoded(encoded(frame) + rest) == frame,
{
    let payload = offset_bytes(frame.data);
    let head = frame_head(frame.address, frame.control, payload);
    let raw = encoded(frame) + rest;
    assert(raw[9] == frame.data.len());
    assert(raw.take(10 + raw[9]) =~= head);
    assert(raw.subrange(1, 7) =~= frame.address);
    assert(raw.subrange(10, 10 + raw[9]) =~= payload);
    lemma_offset_roundtrip(frame.data);
    assert(raw[7] == 0x68 && raw[8] == frame.control);
}

/// One wrong byte of a frame is always found out, be it before the checksum, the checksum or the
/// end, unless it is the length, which says where the frame ends.
pub proof fn law_single_byte_error_detected(raw: Seq<u8>, i: int, b: u8)
    requires
        frame_error(raw) is None,
        0 <= i < 12 + raw[9],
        b != raw[i],
        i != 9,
    ensures
        frame_error(raw.update(i, b)) is Some,
{
    let n = 10 + raw[9] as int;
    let bad = raw.update(i, b);
    if i < n {
        lemma_byte_sum_update(raw.take(n), i, b);
        assert(bad.take(n) =~= raw.take(n).update(i, b));
    } else {
        assert(bad.take(n) =~= raw.take(n));
    }
}

proof fn lemma_byte_sum_update(bytes: Seq<u8>, i: int, b: u8)
    requires
        0 <= i < bytes.len(),
    ensures
        byte_sum(bytes.update(i, b)) == byte_sum(bytes) - bytes[i] + b,
    decreases bytes.len(),
{
    let changed = bytes.update(i, b);
    if i == bytes.len() - 1 {
        assert(changed.drop_last() =~= bytes.drop_last());
    } else {
        lemma_byte_sum_update(bytes.drop_last(), i, b);
        assert(changed.drop_last() =~= bytes.drop_last().update(i, b));
    }
}

/// Splits the data of a request into its identifier (lowest byte first) and the rest.
pub fn parse_di(data: &[u8]) -> (r: Result<([u8; 4], &[u8]), MeterError>)
    ensures
        r is Ok <==> data@.len() >= 4,
        r matches Ok((di, rest)) ==> di@ == data@.take(4) && rest@ == data@.skip(4),
        r matches Err(e) ==> e == MeterError::InvalidFrame(
            FrameFault::NoIdentifier { actual: data@.len() as usize },
        ),
{
    if data.len() < 4 {
        return Err(MeterError::InvalidFrame(FrameFault::NoIdentifier { actual: data.len() }));
    }
    let di: [u8; 4] = [data[0], data[1], data[2], data[3]];
    let rest = vstd::slice::slice_subrange(data, 4, data.len());
    assert(di@ =~= data@.take(4));
    assert(rest@ =~= data@.skip(4));
    Ok((di, rest))
}

/// The identifiers and values of a data block, one after the other.
pub open spec fn block_items(items: Seq<([u8; 4], Vec<u8>)>) -> Seq<u8>
    decreases items.len(),
{
    if items.len() == 0 {
        seq![]
    } else {
        block_items(items.drop_last()) + items.last().0@ + items.last().1@
    }
}

/// The data of the answer to a request with FFH in its identifier: the requested
/// identifier, the number of items (255 at most), and each item's identifier and value.
pub fn encode_data_block_response(request_di: [u8; 4], items: Vec<([u8; 4], Vec<u8>)>) -> (r: Vec<
    u8,
>)
    ensures
        r@ == request_di@ + seq![
            (if items@.len() > 255 {
                255
            } else {
                items@.len() as int
            }) as u8,
        ] + block_items(items@),
{
    let mut data: Vec<u8> = vec![request_di[0], request_di[1], request_di[2], request_di[3]];
    let count: u8 = if items.len() > 255 {
        255
    } else {
        items.len() as u8
    };
    data.push(count);
    let ghost lead = request_di@ + seq![count];
    assert(data@ =~= lead + block_items(items@.take(0)));
    for i in 0..items.len()
        invariant
            data@ == lead + block_items(items@.take(i as int)),
    {
        let ghost done = items@.take(i as int);
        append(&mut data, items[i].0.as_slice());
        append(&mut data, items[i].1.as_slice());
        proof {
            let next = items@.take(i + 1);
            assert(next.drop_last() =~= done);
            assert(next.last() == items@[i as int]);
            assert(data@ =~= lead + block_items(next));
        }
    }
    assert(items@.take(items@.len() as int) =~= items@);
    data
}

/// The control code of an error answer: the function bits of the request with the
/// two top bits set.
pub open spec fn error_control(request_control: u8) -> u8 {
    (0xC0 + request_control % 32) as u8
}

/// The frame of an error answer.
pub open spec fn error_frame(address: Seq<u8>, request_control: u8, word: u8) -> FrameModel {
    FrameModel { address, control: error_control(request_control), data: seq![word] }
}

/// Encodes an error answer: one data byte, the error information word.
pub fn encode_error_response(
    address: [u8; 6],
    request_control_code: u8,
    err: ErrorInfoWord,
) -> (r: Vec<u8>)
    ensures
        r@ == encoded(error_frame(address@, request_control_code, err.word())),
{
    let control: u8 = (request_control_code & 0x1F) | 0xC0;
    assert(control == 0xC0 + request_control_code % 32) by (bit_vector)
        requires
            control == (request_control_code & 0x1F) | 0xC0,
    ;
    let frame = Frame { address, control, data: vec![err.bits()] };
    assert(frame@.data =~= seq![err.word()]);
    encode_frame(&frame)
}

/// What a refused request is answered: the master reads back the meter's address, the
/// request's function with both top bits set, and the error information word.
pub proof fn law_error_answer_decodes(address: Seq<u8>, request_control: u8, word: u8)
    requires
        address.len() == 6,
    ensures
        frame_error(encoded(error_frame(address, request_control, word))) is None,
        decoded(encoded(error_frame(address, request_control, word))) == error_frame(
            address,
            request_control,
            word,
        ),
{
    let frame = error_frame(address, request_control, word);
    law_frame_roundtrip(frame, seq![]);
    assert(encoded(frame) + seq![] =~= encoded(frame));
}

/// Whether the address is the broadcast address, six times 99H.
pub fn is_broadcast_address(addr_bytes: &[u8; 6]) -> (r: bool)
    ensures
        r == (forall|i: int| 0 <= i < 6 ==> addr_bytes@[i] == 0x99),
{
    for i in 0..6
        invariant
            forall|j: int| 0 <= j < i ==> addr_bytes@[j] == 0x99,
    {
        if addr_bytes[i] != 0x99 {
            return false;
        }
    }
    true
}

/// Whether the address has a wildcard byte, AAH.
pub fn is_wildcard_address(addr_bytes: &[u8; 6]) -> (r: bool)
    ensures
        r == (exists|i: int| 0 <= i < 6 && addr_bytes@[i] == 0xAA),
{
    for i in 0..6
        invariant
            forall|j: int| 0 <= j < i ==> addr_bytes@[j] != 0xAA,
    {
        if addr_bytes[i] == 0xAA {
            return true;
        }
    }
    false
}

/// Whether a command may be broadcast: only the time (08H) and freeze (16H) functions.
pub fn validate_broadcast_command(control_code: u8) -> (r: bool)
    ensures
        r == (control_code % 32 == 0x08 || control_code % 32 == 0x16),
{
    let function: u8 = control_code & 0x1F;
    assert(function == control_code % 32) by (bit_vector)
        requires
            function == control_code & 0x1F,
    ;
    function == 0x08 || function == 0x16
}

/// Each byte of the pattern is AAH or the byte of the address.
pub open spec fn address_matches(pattern: Seq<u8>, actual: Seq<u8>) -> bool {
    forall|i: int| 0 <= i < 6 ==> (#[trigger] pattern[i] == 0xAA || pattern[i] == actual[i])
}

/// Whether `actual` fits the address pattern, in which AAH stands for any byte.
pub fn match_address(pattern: &[u8; 6], actual: &[u8; 6]) -> (r: bool)
    ensures
        r == address_matches(pattern@, actual@),
{
    for i in 0..6
        invariant
            forall|j: int|
                0 <= j < i ==> (#[trigger] pattern@[j] == 0xAA || pattern@[j] == actual@[j]),
    {
        if pattern[i] != 0xAA && pattern[i] != actual[i] {
            return false;
        }
    }
    true
}

/// A pattern without a wildcard matches itself alone.
pub proof fn law_plain_pattern_is_exact(pattern: Seq<u8>, actual: Seq<u8>)
    requires
        pattern.len() == 6,
        actual.len() == 6,
        forall|i: int| 0 <= i < 6 ==> pattern[i] != 0xAA,
    ensures
        address_matches(pattern, actual) <==> pattern == actual,
{
    if address_matches(pattern, actual) {
        assert(pattern =~= actual);
    }
}

} // verus!
