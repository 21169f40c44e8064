//! Frames in a stream of bytes.

use crate::bytes::to_vec;
use crate::error::{FrameFault, MeterError};
use crate::protocol::codec::{decode_frame, frame_error};
use vstd::prelude::*;
use vstd::slice::slice_subrange;

verus! {

/// The bytes may be the beginning of a frame whose end has not come yet.
pub open spec fn awaits_more(raw: Seq<u8>) -> bool {
    raw.len() > 0 && raw[0] == 0x68 && match frame_error(raw) {
        Some(MeterError::InvalidFrame(FrameFault::TooShort { .. })) => true,
        Some(MeterError::InvalidFrame(FrameFault::Incomplete { .. })) => true,
        _ => false,
    }
}

/// How many bytes belong to no frame before one begins, or may begin.
pub open spec fn noise_before(raw: Seq<u8>) -> nat
    decreases raw.len(),
{
    if raw.len() == 0 || frame_error(raw) is None || awaits_more(raw) {
        0
    } else {
        1 + noise_before(raw.drop_first())
    }
}

/// The bytes from the first frame on.
pub open spec fn from_frame(raw: Seq<u8>) -> Seq<u8> {
    raw.skip(noise_before(raw) as int)
}

/// Takes the first whole frame out of what has come. What is no frame is dropped.
pub fn take_frame(buffer: &mut Vec<u8>) -> (r: Option<Vec<u8>>)
    ensures
        r is Some <==> from_frame(old(buffer)@).len() > 0 && frame_error(
            from_frame(old(buffer)@),
        ) is None,
        r matches Some(frame) ==> ({
            let rest = from_frame(old(buffer)@);
            frame@ == rest.take(12 + rest[9]) && final(buffer)@ == rest.skip(12 + rest[9])
        }),
        r is None ==> final(buffer)@ == from_frame(old(buffer)@),
{
    let ghost whole = buffer@;
    let mut i: usize = 0;
    assert(whole.skip(0) =~= whole);
    while i < buffer.len()
        invariant
            buffer@ == whole,
            whole == old(buffer)@,
            i <= whole.len(),
            noise_before(whole) == i + noise_before(whole.skip(i as int)),
        decreases whole.len() - i,
    {
        let rest = slice_subrange(buffer.as_slice(), i, buffer.len());
        assert(rest@ =~= whole.skip(i as int));
        match decode_frame(rest) {
            Ok(_) => {
                let n: usize = 12 + rest[9] as usize;
                let frame = to_vec(slice_subrange(rest, 0, n));
                let left = to_vec(slice_subrange(rest, n, rest.len()));
                assert(frame@ =~= rest@.take(n as int));
                assert(left@ =~= rest@.skip(n as int));
                *buffer = left;
                return Some(frame);
            },
            Err(e) => {
                let waits: bool = rest[0] == 0x68 && match e {
                    MeterError::InvalidFrame(FrameFault::TooShort { .. }) => true,
                    MeterError::InvalidFrame(FrameFault::Incomplete { .. }) => true,
                    _ => false,
                };
                if waits {
                    let left = to_vec(rest);
                    *buffer = left;
                    return None;
                }
                assert(rest@.drop_first() =~= whole.skip(i + 1));
                i = i + 1;
            },
        }
    }
    assert(whole.skip(i as int) =~= Seq::<u8>::empty());
    *buffer = Vec::new();
    None
}

proof fn lemma_no_noise(raw: Seq<u8>)
    requires
        frame_error(raw) is None,
    ensures
        from_frame(raw) == raw,
{
    assert(raw.skip(0) =~= raw);
}

/// A sound frame at the beginning is taken out, whatever follows it.
pub proof fn law_sound_frame_is_taken(raw: Seq<u8>, more: Seq<u8>)
    requires
        frame_error(raw) is None,
        raw.len() == 12 + raw[9],
    ensures
        frame_error(raw + more) is None,
        from_frame(raw + more).take(12 + raw[9]) == raw,
        from_frame(raw + more).skip(12 + raw[9]) == more,
{
    let both = raw + more;
    assert(both.take(10 + raw[9]) =~= raw.take(10 + raw[9]));
    lemma_no_noise(both);
    assert(both.take(12 + raw[9]) =~= raw);
    assert(both.skip(12 + raw[9]) =~= more);
}

} // verus!
