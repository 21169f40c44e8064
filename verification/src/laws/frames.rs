//! Frames on the line, told byte by byte, and whom they reach.

use crate::actor::continuation::{fragment, more_after};
use crate::protocol::codec::{
    address_matches, byte_sum, decoded, encoded, error_frame, frame_error, frame_head, offset_bytes,
};
use crate::protocol::frame::FrameModel;
use crate::protocol::format::{bin_digits, pow256};
use crate::protocol::stream::{awaits_more, from_frame, noise_before};
use crate::router::{law_targets_are_reached, targets};
use vstd::prelude::*;

verus! {

/// The sum of all bytes.
pub open spec fn sum_of(data: Seq<u8>) -> int
    decreases data.len(),
{
    if data.len() == 0 {
        0
    } else {
        data[0] + sum_of(data.skip(1))
    }
}

/// Adding up from either end gives the same sum.
pub proof fn lemma_sum_of(data: Seq<u8>)
    ensures
        byte_sum(data) == sum_of(data),
    decreases data.len(),
{
    if data.len() == 1 {
        assert(data.drop_last() =~= Seq::<u8>::empty());
        assert(data.skip(1) =~= Seq::<u8>::empty());
        assert(byte_sum(data.drop_last()) == 0);
        assert(sum_of(data.skip(1)) == 0);
        assert(data.last() == data[0]);
    } else if data.len() > 1 {
        let middle = data.skip(1).drop_last();
        assert(data.drop_last().skip(1) =~= middle);
        lemma_sum_of(data.drop_last());
        lemma_sum_of(data.skip(1));
        lemma_sum_of(middle);
        assert(data.skip(1).last() == data.last());
        assert(data.drop_last()[0] == data[0]);
        assert(byte_sum(data.skip(1)) == byte_sum(middle) + data.last());
        assert(sum_of(data.drop_last()) == data[0] + sum_of(middle));
    }
}

/// A byte on the line is 33H more than the byte it stands for, round the end of the range.
pub open spec fn stands_for(line: u8, plain: u8) -> bool {
    line == plain + 0x33 || line + 0x100 == plain + 0x33
}

/// On the line a frame is 68H, the address, 68H, the control code, the number of data bytes, the
/// data bytes each 33H higher, the sum of all these modulo 256, and 16H.
pub proof fn law_frame_on_the_line(frame: FrameModel)
    requires
        frame.address.len() == 6,
        frame.data.len() <= 255,
    ensures
        ({
            let line = encoded(frame);
            let n = frame.data.len() as int;
            &&& line.len() == 12 + n
            &&& line[0] == 0x68
            &&& line.subrange(1, 7) == frame.address
            &&& line[7] == 0x68
            &&& line[8] == frame.control
            &&& line[9] == n
            &&& forall|i: int| 0 <= i < n ==> #[trigger] stands_for(line[10 + i], frame.data[i])
            &&& line[10 + n] == sum_of(line.take(10 + n)) % 256
            &&& line[11 + n] == 0x16
        }),
{
    let payload = offset_bytes(frame.data);
    let head = frame_head(frame.address, frame.control, payload);
    let line = encoded(frame);
    let n = frame.data.len() as int;
    assert(line.take(10 + n) =~= head);
    lemma_sum_of(head);
    assert(line.subrange(1, 7) =~= frame.address);
    assert forall|i: int| 0 <= i < n implies #[trigger] stands_for(line[10 + i], frame.data[i]) by {
        assert(line[10 + i] == payload[i]);
    }
}

/// Bytes are taken for a frame exactly when they have this shape, and the frame taken from them
/// holds what they stand for.
pub proof fn law_frame_from_the_line(raw: Seq<u8>)
    ensures
        frame_error(raw) is None <==> {
            &&& raw.len() >= 12
            &&& raw.len() >= 12 + raw[9]
            &&& raw[0] == 0x68
            &&& raw[7] == 0x68
            &&& raw[10 + raw[9]] == sum_of(raw.take(10 + raw[9])) % 256
            &&& raw[11 + raw[9]] == 0x16
        },
        frame_error(raw) is None ==> {
            let frame = decoded(raw);
            &&& frame.address == raw.subrange(1, 7)
            &&& frame.control == raw[8]
            &&& frame.data.len() == raw[9]
            &&& forall|i: int|
                0 <= i < frame.data.len() ==> #[trigger] stands_for(raw[10 + i], frame.data[i])
        },
{
    if raw.len() >= 12 && raw.len() >= 12 + raw[9] {
        lemma_sum_of(raw.take(10 + raw[9]));
        let frame = decoded(raw);
        assert forall|i: int| 0 <= i < raw[9] implies #[trigger] stands_for(
            raw[10 + i],
            frame.data[i],
        ) by {
            assert(raw.subrange(10, 10 + raw[9])[i] == raw[10 + i]);
        }
    }
}

/// The control code of an error answer is a reply (bit 7) with an error (bit 6), announces
/// nothing more (bit 5) and repeats the function of the request. Its only data byte is the word.
pub proof fn law_error_answer(address: Seq<u8>, request_control: u8, word: u8)
    ensures
        ({
            let frame = error_frame(address, request_control, word);
            &&& frame.control / 128 == 1
            &&& frame.control / 64 % 2 == 1
            &&& frame.control / 32 % 2 == 0
            &&& frame.control % 32 == request_control % 32
            &&& frame.data == seq![word]
            &&& frame.address == address
        }),
{
}

/// A wildcard fits every byte: a pattern that fits still fits with AAH anywhere in it, and one of
/// wildcards alone fits every address. Any other byte that differs keeps it from fitting.
pub proof fn law_wildcards(pattern: Seq<u8>, actual: Seq<u8>, i: int)
    requires
        pattern.len() == 6,
        actual.len() == 6,
        0 <= i < 6,
    ensures
        address_matches(pattern, actual) ==> address_matches(pattern.update(i, 0xAA), actual),
        address_matches(seq![0xAAu8, 0xAA, 0xAA, 0xAA, 0xAA, 0xAA], actual),
        pattern[i] != 0xAA && pattern[i] != actual[i] ==> !address_matches(pattern, actual),
{
    if address_matches(pattern, actual) {
        let wild = pattern.update(i, 0xAA);
        assert forall|j: int| 0 <= j < 6 implies (#[trigger] wild[j] == 0xAA || wild[j]
            == actual[j]) by {
            assert(pattern[j] == 0xAA || pattern[j] == actual[j]);
        }
    }
}

/// A frame to 99 in every byte is for all meters if it sets the clock (08H) or freezes (16H),
/// and for none otherwise.
pub proof fn law_broadcasts(frame: FrameModel, addresses: Seq<[u8; 6]>, p: usize)
    requires
        frame.address == seq![0x99u8, 0x99, 0x99, 0x99, 0x99, 0x99],
        p < addresses.len() <= usize::MAX,
    ensures
        frame.control % 32 == 0x08 ==> targets(frame, addresses).contains(p),
        frame.control % 32 == 0x16 ==> targets(frame, addresses).contains(p),
        frame.control % 32 != 0x08 && frame.control % 32 != 0x16 ==> !targets(
            frame,
            addresses,
        ).contains(p),
{
    law_targets_are_reached(frame, addresses, p);
}

/// A frame to an address with neither wildcards nor 99 throughout is for the meter of that
/// address.
pub proof fn law_single_address(frame: FrameModel, addresses: Seq<[u8; 6]>, p: usize, i: int)
    requires
        frame.address.len() == 6,
        0 <= i < 6,
        frame.address[i] != 0x99,
        forall|j: int| 0 <= j < 6 ==> #[trigger] frame.address[j] != 0xAA,
        p < addresses.len() <= usize::MAX,
    ensures
        targets(frame, addresses).contains(p) <==> addresses[p as int]@ == frame.address,
{
    crate::router::law_plain_address_reaches_its_meter(frame, addresses, p);
}

/// Pieces of an answer are 195 bytes of it in turn; only the last may be shorter, and it is
/// never empty. A piece follows as long as bytes are left.
pub proof fn law_pieces(data: Seq<u8>, k: nat, i: int)
    ensures
        more_after(data, k) <==> data.len() > 195 * k,
        more_after(data, k) ==> fragment(data, k).len() > 0,
        more_after(data, k + 1) ==> fragment(data, k).len() == 195,
        more_after(data, k) && !more_after(data, k + 1) ==> fragment(data, k).len() == data.len()
            - 195 * k,
        0 <= i < fragment(data, k).len() ==> fragment(data, k)[i] == data[195 * k + i],
{
}

/// A number in bytes has its lowest byte first: each byte weighs 256 times the one before it.
pub proof fn law_lowest_byte_first(value: int, bytes: nat, i: nat)
    requires
        0 <= value,
        i < bytes,
    ensures
        bin_digits(value, bytes).len() == bytes,
        bin_digits(value, bytes)[i as int] == value / pow256(i) % 256,
    decreases i,
{
    crate::protocol::format::law_bin_write_read(value, bytes);
    if i > 0 {
        law_lowest_byte_first(value / 256, (bytes - 1) as nat, (i - 1) as nat);
        let p = pow256((i - 1) as nat);
        lemma_pow256_positive((i - 1) as nat);
        vstd::arithmetic::div_mod::lemma_div_denominator(value, 256, p);
        assert(pow256(i) == 256 * p);
    } else {
        assert(pow256(0) == 1);
    }
}

proof fn lemma_pow256_positive(n: nat)
    ensures
        pow256(n) > 0,
    decreases n,
{
    if n > 0 {
        lemma_pow256_positive((n - 1) as nat);
    }
}

/// Before a frame every byte other than 68H is noise, whatever comes after.
pub proof fn law_noise_is_left_out(noise: Seq<u8>, raw: Seq<u8>)
    requires
        forall|i: int| 0 <= i < noise.len() ==> #[trigger] noise[i] != 0x68,
        frame_error(raw) is None || awaits_more(raw),
    ensures
        from_frame(noise + raw) == raw,
    decreases noise.len(),
{
    let all = noise + raw;
    if noise.len() == 0 {
        assert(all =~= raw);
        assert(noise_before(all) == 0);
        assert(all.skip(0) =~= raw);
    } else {
        let rest = noise.drop_first();
        assert forall|i: int| 0 <= i < rest.len() implies #[trigger] rest[i] != 0x68 by {
            assert(rest[i] == noise[i + 1]);
        }
        law_noise_is_left_out(rest, raw);
        assert(all[0] == noise[0]);
        assert(frame_error(all) is Some);
        assert(!awaits_more(all));
        assert(all.drop_first() =~= rest + raw);
        assert(noise_before(all) == 1 + noise_before(rest + raw));
        lemma_noise_within(rest + raw);
        let n = noise_before(rest + raw) as int;
        assert(all.skip(1 + n) =~= (rest + raw).skip(n));
    }
}

proof fn lemma_noise_within(raw: Seq<u8>)
    ensures
        noise_before(raw) <= raw.len(),
    decreases raw.len(),
{
    if raw.len() > 0 && frame_error(raw) is Some && !awaits_more(raw) {
        lemma_noise_within(raw.drop_first());
    }
}

/// The beginning of a sound frame is waited for, however short it is.
pub proof fn law_beginning_is_waited_for(raw: Seq<u8>, n: int)
    requires
        frame_error(raw) is None,
        0 < n < 12 + raw[9],
    ensures
        awaits_more(raw.take(n)),
        noise_before(raw.take(n)) == 0,
{
    let part = raw.take(n);
    assert(part[0] == raw[0]);
    if n >= 12 {
        assert(part[7] == raw[7] && part[9] == raw[9]);
    }
}

} // verus!
