//! What reads are answered over the line.

use crate::actor::meter_actor::{
    command_answered, follow_on_answered, protocol_done, ActorModel, ProtocolStep,
};
use crate::laws::commands::replies;
use crate::laws::frames::sum_of;
use crate::protocol::codec::{encoded, law_frame_roundtrip};
use crate::protocol::frame::FrameModel;
use crate::simulation::di_handler::memory_read;
use crate::simulation::di_handler::read_error::ReadError;
use crate::simulation::freeze::FreezeTrigger;
use crate::simulation::state::MeterState;
use crate::simulation::virtual_meter::{read_planned, ReadPlan};
use crate::time::DateTime;
use vstd::prelude::*;

verus! {

proof fn lemma_answered(request: FrameModel, control: u8, data: Seq<u8>)
    requires
        request.address.len() == 6,
        data.len() <= 255,
    ensures
        replies(
            request,
            encoded(FrameModel { address: request.address, control, data }),
            control,
            data,
        ),
{
    let frame = FrameModel { address: request.address, control, data };
    law_frame_roundtrip(frame, seq![]);
    assert(encoded(frame) + seq![] =~= encoded(frame));
}

/// The item is in memory: neither a frozen one nor a load record.
pub open spec fn in_memory(di: Seq<u8>) -> bool {
    di[3] != 0x05 && di[3] != 0x06
}

/// A read of an item in memory is answered with its identifier and its bytes, up to 195 of them;
/// of more, the first 195 with the mark that more follow. What cannot be read is refused, with
/// the word for missing data if there is no such item. A read changes nothing but what is kept
/// for the rest.
#[verifier::rlimit(50)]
pub proof fn law_read_is_answered(
    a0: ActorModel,
    a1: ActorModel,
    conn_id: u64,
    request: FrameModel,
    now: DateTime,
    step: ProtocolStep,
)
    requires
        protocol_done(a0, a1, conn_id, request, now, step),
        request.control % 32 == 0x11,
        request.address.len() == 6,
        request.data.len() >= 4,
        in_memory(request.data.take(4)),
    ensures
        ({
            let di = request.data.take(4);
            let r = memory_read(di, a0.meter.state);
            &&& a1.meter == a0.meter
            &&& step is Reply
            &&& r matches Ok(data) ==> (data.len() <= 195 ==> a1 == a0 && replies(
                request,
                step->bytes@,
                0x91,
                di + data,
            ))
            &&& r matches Ok(data) ==> (data.len() > 195 ==> replies(
                request,
                step->bytes@,
                0xB1,
                di + data.take(195),
            ))
            &&& r matches Err(e) ==> a1 == a0 && (replies(request, step->bytes@, 0xD1, seq![0x01u8])
                || replies(request, step->bytes@, 0xD1, seq![0x02u8]))
            &&& r matches Err(ReadError::Unsupported { .. }) ==> replies(
                request,
                step->bytes@,
                0xD1,
                seq![0x02u8],
            )
            &&& r matches Err(ReadError::NoEventRecord { .. }) ==> replies(
                request,
                step->bytes@,
                0xD1,
                seq![0x02u8],
            )
            &&& r matches Err(ReadError::RateOutOfRange { .. }) ==> replies(
                request,
                step->bytes@,
                0xD1,
                seq![0x01u8],
            )
        }),
{
    let di = request.data.take(4);
    let plan = choose|plan: Result<ReadPlan, ReadError>|
        {
            &&& #[trigger] read_planned(
                a0.meter.state,
                request.data,
                a0.config.has_store,
                plan,
            )
            &&& crate::actor::meter_actor::read_begun(a0, a1, conn_id, request, plan, step)
        };
    let r = memory_read(di, a0.meter.state);
    lemma_answered(request, 0xD1, seq![0x01u8]);
    lemma_answered(request, 0xD1, seq![0x02u8]);
    match r {
        Ok(data) => {
            if data.len() <= 195 {
                lemma_answered(request, 0x91, di + data);
            } else {
                assert(crate::actor::continuation::fragment(data, 0) =~= data.take(195));
                lemma_answered(request, 0xB1, di + data.take(195));
            }
        },
        Err(e) => {},
    }
}

/// The rest of a long answer is asked for piece by piece. The piece with the number that is due
/// is answered with identifier, number and the next 195 bytes, marked as long as more follow.
/// Another number ends the matter, and where nothing is kept there is nothing to ask for.
#[verifier::rlimit(50)]
pub proof fn law_rest_is_answered(
    a0: ActorModel,
    a1: ActorModel,
    conn_id: u64,
    request: FrameModel,
    now: DateTime,
    step: ProtocolStep,
    key: (u64, u32),
)
    requires
        protocol_done(a0, a1, conn_id, request, now, step),
        request.control % 32 == 0x12,
        request.address.len() == 6,
        request.data.len() == 5,
        key.0 == conn_id,
        key.1 == request.data[0] + 256 * request.data[1] + 65536 * request.data[2] + 16777216
            * request.data[3],
    ensures
        ({
            let kept = a0.pending[key];
            let done = 195 * kept.sent as int;
            let left = kept.data.len() - done;
            &&& step is Reply
            &&& a1.meter == a0.meter
            &&& !a0.pending.contains_key(key) ==> a1 == a0 && replies(
                request,
                step->bytes@,
                0xD2,
                seq![0x02u8],
            )
            &&& a0.pending.contains_key(key) && request.data[4] != kept.sent % 256 ==> replies(
                request,
                step->bytes@,
                0xD2,
                seq![0x01u8],
            ) && !a1.pending.contains_key(key)
            &&& a0.pending.contains_key(key) && request.data[4] == kept.sent % 256 && left > 195
                ==> replies(
                request,
                step->bytes@,
                0xB2,
                request.data + kept.data.subrange(done, done + 195),
            ) && a1.pending.contains_key(key) && a1.pending[key].sent == kept.sent + 1
                && a1.pending[key].data == kept.data
            &&& a0.pending.contains_key(key) && request.data[4] == kept.sent % 256 && 0 < left
                <= 195 ==> replies(
                request,
                step->bytes@,
                0x92,
                request.data + kept.data.skip(done),
            ) && !a1.pending.contains_key(key)
        }),
{
    let di = request.data.take(4);
    assert(crate::actor::continuation::di_number(di) == key.1);
    assert(follow_on_answered(a0, a1, conn_id, request, step->bytes@));
    lemma_answered(request, 0xD2, seq![0x01u8]);
    lemma_answered(request, 0xD2, seq![0x02u8]);
    let kept = a0.pending[key];
    let done = 195 * kept.sent as int;
    let left = kept.data.len() - done;
    if left > 195 {
        assert(crate::actor::continuation::fragment(kept.data, kept.sent) =~= kept.data.subrange(
            done,
            done + 195,
        ));
        lemma_answered(request, 0xB2, request.data + kept.data.subrange(done, done + 195));
    } else if left > 0 {
        assert(crate::actor::continuation::fragment(kept.data, kept.sent) =~= kept.data.skip(
            done,
        ));
        lemma_answered(request, 0x92, request.data + kept.data.skip(done));
    }
}

/// A meter that is asked for its address answers with it, as it stands in the frame's head.
#[verifier::rlimit(50)]
pub proof fn law_address_is_answered(
    s0: MeterState,
    s1: MeterState,
    request: FrameModel,
    now: DateTime,
    reply: Seq<u8>,
)
    requires
        command_answered(s0, s1, request, now, reply),
        request.control % 32 == 0x13,
    ensures
        s1 == s0,
        request.data.len() > 0 ==> reply.len() == 0,
        request.data.len() == 0 ==> {
            &&& reply.len() == 18
            &&& reply[0] == 0x68
            &&& reply.subrange(1, 7) == s0.address@
            &&& reply[7] == 0x68
            &&& reply[8] == 0x93
            &&& reply[9] == 6
            &&& reply.subrange(10, 16) == s0.address@
            &&& reply[16] == sum_of(reply.take(16)) % 256
            &&& reply[17] == 0x16
        },
{
    if request.data.len() == 0 {
        let head = crate::protocol::codec::frame_head(s0.address@, 0x93, s0.address@);
        assert(reply.take(16) =~= head);
        crate::laws::frames::lemma_sum_of(head);
        assert(reply.subrange(1, 7) =~= s0.address@);
        assert(reply.subrange(10, 16) =~= s0.address@);
    }
}

/// How many snapshots of a kind of freeze are at hand: 12 timed ones, 62 hourly and daily ones,
/// 3 of the others.
pub open spec fn snapshots_at_hand(number: u8) -> int {
    if number == 0 {
        12
    } else if number == 4 || number == 6 {
        62
    } else {
        3
    }
}

/// A snapshot beyond those at hand is looked up in the store, under its kind, item and number.
/// Without a store it is refused.
#[verifier::rlimit(50)]
pub proof fn law_old_snapshots_are_looked_up(
    s: MeterState,
    data: Seq<u8>,
    has_store: bool,
    r: Result<ReadPlan, ReadError>,
)
    requires
        read_planned(s, data, has_store, r),
        data.len() >= 4,
        data[3] == 0x05,
        data[2] <= 4 || data[2] == 6 || data[2] == 7,
    ensures
        ({
            let old = data[0] > snapshots_at_hand(data[2]);
            &&& old && has_store ==> r == Ok::<ReadPlan, ReadError>(
                ReadPlan::Frozen { trigger: data[2], category: data[1], occurrence: data[0] },
            )
            &&& old && !has_store ==> r is Err
            &&& !old ==> !(r matches Ok(plan) && plan is Frozen)
        }),
{
    let di = data.take(4);
    let t = if data[2] == 0 {
        FreezeTrigger::Timed
    } else if data[2] == 1 {
        FreezeTrigger::Instant
    } else if data[2] == 2 {
        FreezeTrigger::TimeZoneSwitch
    } else if data[2] == 3 {
        FreezeTrigger::DayTableSwitch
    } else if data[2] == 4 {
        FreezeTrigger::Hourly
    } else if data[2] == 6 {
        FreezeTrigger::Daily
    } else {
        FreezeTrigger::LadderSwitch
    };
    assert(t.di2() == di[2]);
    assert(crate::simulation::virtual_meter::reads_old_snapshot(di) <==> di[0] > t.history()) by {
        if crate::simulation::virtual_meter::reads_old_snapshot(di) {
            let u = choose|u: FreezeTrigger| #[trigger] u.di2() == di[2] && di[0] > u.history();
            assert(u == t);
        }
    }
}

/// Load records are read from the store by what the query means; without a store they are
/// refused, as is whatever is shorter than an identifier.
#[verifier::rlimit(50)]
pub proof fn law_records_are_looked_up(
    s: MeterState,
    data: Seq<u8>,
    has_store: bool,
    r: Result<ReadPlan, ReadError>,
)
    requires
        read_planned(s, data, has_store, r),
    ensures
        data.len() < 4 ==> r is Err,
        data.len() >= 4 && data[3] == 0x06 && !has_store ==> r is Err,
        data.len() >= 4 && data[3] == 0x06 && has_store && data[2] != 0x10 ==> (r is Ok <==> {
            &&& 1 <= data[2] <= 6
            &&& data[1] == 0x00
            &&& data[0] <= 2
            &&& data[0] == 1 ==> data.len() >= 9 && crate::laws::freezes::named_moment(
                data.skip(4),
            ).valid()
        }),
{
    if data.len() >= 4 && data[3] == 0x06 && data[2] != 0x10 {
        crate::laws::load_records::law_record_query(data.take(4), data.skip(4));
    }
}

} // verus!
