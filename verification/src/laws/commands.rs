//! What commands are answered and what they change, told from their bytes.

use crate::actor::meter_actor::command_answered;
use crate::laws::digits::{
    all_decimal, in_century, lemma_times_tell, piece, second_named, tells_second,
};
use crate::protocol::codec::{decoded, encoded, frame_error, law_frame_roundtrip};
use crate::protocol::format::{bcd_byte_value, is_bcd};
use crate::protocol::frame::FrameModel;
use crate::simulation::commands::{
    clear_command_error, freeze_command_error, password_command_error, write_command_error,
};
use crate::simulation::di_handler::encoding::clock_bytes;
use crate::simulation::di_handler::write::{write_error, written};
use crate::simulation::freeze::{FreezeTrigger, FreezeType};
use crate::simulation::schedule::due_freezes;
use crate::simulation::state::MeterState;
use crate::time::{lemma_seconds_in_range, DateTime};
use vstd::prelude::*;

verus! {

/// The four bytes at `at` open the meter to a command that needs access level `needed`: the
/// upper half of the first names a level, of which lower ones may do more, and the other three
/// are its password.
pub open spec fn opens(s: MeterState, data: Seq<u8>, at: int, needed: int) -> bool {
    let level = data[at] as int / 16;
    &&& level <= needed
    &&& level <= 9
    &&& s.password_config.passwords@[level]@[1] == data[at + 1]
    &&& s.password_config.passwords@[level]@[2] == data[at + 2]
    &&& s.password_config.passwords@[level]@[3] == data[at + 3]
}

proof fn lemma_opens(s: MeterState, data: Seq<u8>, at: int, needed: u8)
    requires
        0 <= at,
        at + 4 <= data.len(),
        needed <= 9,
    ensures
        crate::simulation::commands::access_error(s, data, at, needed) is None <==> opens(
            s,
            data,
            at,
            needed as int,
        ),
{
    let level = data[at] as int / 16;
    if level <= 9 {
        let stored = s.password_config.passwords@[level]@.skip(1);
        let given = data.subrange(at + 1, at + 4);
        assert(stored.len() == 3);
        assert(stored == given <==> stored[0] == given[0] && stored[1] == given[1] && stored[2]
            == given[2]) by {
            if stored[0] == given[0] && stored[1] == given[1] && stored[2] == given[2] {
                assert(stored =~= given);
            }
        }
    }
}

/// The reply is a frame of the meter that a request went to.
pub open spec fn replies(request: FrameModel, reply: Seq<u8>, control: u8, data: Seq<u8>) -> bool {
    &&& frame_error(reply) is None
    &&& decoded(reply).address == request.address
    &&& decoded(reply).control == control
    &&& decoded(reply).data == data
}

/// The command was carried out, as the reply says.
pub open spec fn carried_out(request: FrameModel, reply: Seq<u8>) -> bool {
    replies(request, reply, (0x80 + request.control % 32) as u8, Seq::empty())
}

/// The command was refused with an error word, as the reply says.
pub open spec fn turned_down(request: FrameModel, reply: Seq<u8>, word: u8) -> bool {
    replies(request, reply, (0xC0 + request.control % 32) as u8, seq![word])
}

proof fn lemma_replies(request: FrameModel, control: u8, data: Seq<u8>)
    requires
        request.address.len() == 6,
        data.len() <= 255,
    ensures
        replies(
            request,
            encoded(FrameModel { address: request.address, control, data }),
            control,
            data,
        ),
{
    let frame = FrameModel { address: request.address, control, data };
    law_frame_roundtrip(frame, seq![]);
    assert(encoded(frame) + seq![] =~= encoded(frame));
}

/// The command is one of those that are answered once they are carried out: write (14H), freeze
/// (16H), baud rate (17H), password (18H), clearing of demand (19H), meter (1AH) and events (1BH).
pub open spec fn is_answered(function: int) -> bool {
    function == 0x14 || 0x16 <= function <= 0x1B
}

/// Such a command is either carried out and answered so, or refused with an error word; then
/// nothing changes. An unknown command is refused as not available.
#[verifier::rlimit(50)]
pub proof fn law_carried_out_or_refused(
    s0: MeterState,
    s1: MeterState,
    request: FrameModel,
    now: DateTime,
    reply: Seq<u8>,
)
    requires
        command_answered(s0, s1, request, now, reply),
        request.address.len() == 6,
    ensures
        is_answered(request.control as int % 32) ==> carried_out(request, reply) || (s1 == s0 && (
        turned_down(request, reply, 0x01) || turned_down(request, reply, 0x02) || turned_down(
            request,
            reply,
            0x04,
        ))),
        !is_answered(request.control as int % 32) && request.control % 32 != 0x08 && request.control
            % 32 != 0x13 ==> s1 == s0 && turned_down(request, reply, 0x02),
{
    lemma_replies(request, (0x80 + request.control % 32) as u8, Seq::empty());
    lemma_replies(request, (0xC0 + request.control % 32) as u8, seq![0x01u8]);
    lemma_replies(request, (0xC0 + request.control % 32) as u8, seq![0x02u8]);
    lemma_replies(request, (0xC0 + request.control % 32) as u8, seq![0x04u8]);
}

/// A write is carried out only under a password of level 4 or better. Without one it is refused
/// as unauthorised, and without any data to write it is an error.
#[verifier::rlimit(50)]
pub proof fn law_write_needs_access(
    s0: MeterState,
    s1: MeterState,
    request: FrameModel,
    now: DateTime,
    reply: Seq<u8>,
)
    requires
        command_answered(s0, s1, request, now, reply),
        request.address.len() == 6,
        request.control % 32 == 0x14,
    ensures
        request.data.len() < 13 ==> s1 == s0 && turned_down(request, reply, 0x01),
        request.data.len() >= 13 && !opens(s0, request.data, 4, 4) ==> s1 == s0 && turned_down(
            request,
            reply,
            0x04,
        ),
        request.data.len() >= 13 && opens(s0, request.data, 4, 4) && request.data[3] != 0x04 ==> s1
            == s0 && turned_down(request, reply, 0x02),
        request.data.len() >= 13 && opens(s0, request.data, 4, 4) && request.data[3] == 0x04 && (
        write_error(request.data.take(4), request.data.skip(12), s0) is None) ==> carried_out(
            request,
            reply,
        ),
{
    if request.data.len() >= 13 {
        lemma_opens(s0, request.data, 4, 4);
    }
    lemma_replies(request, 0x94, Seq::empty());
    lemma_replies(request, 0xD4, seq![0x01u8]);
    lemma_replies(request, 0xD4, seq![0x02u8]);
    lemma_replies(request, 0xD4, seq![0x04u8]);
}

/// A write leaves a record with the operator code, dated by the clock as it is afterwards: one of
/// clock setting for date and time, one of tariff programming for the groups of slots, zones
/// and energy combinations, and one of other programming for the rest.
#[verifier::rlimit(50)]
pub proof fn law_write_is_recorded(
    s0: MeterState,
    s1: MeterState,
    request: FrameModel,
    now: DateTime,
    reply: Seq<u8>,
)
    requires
        command_answered(s0, s1, request, now, reply),
        request.control % 32 == 0x14,
        request.address.len() == 6,
        write_command_error(s0, request.data) is None,
    ensures
        ({
            let d = request.data;
            let sets_clock = d[2] == 0x00 && d[1] == 0x01 && 1 <= d[0] <= 2;
            let (event, sub) = if sets_clock {
                (0x31u8, 0x02u8)
            } else if d[1] == 0x02 || d[1] == 0x03 || d[1] == 0x06 {
                (0x30u8, 0x0Fu8)
            } else {
                (0x30u8, 0x10u8)
            };
            let records = s1.events(event, sub);
            &&& records.len() > 0
            &&& records.last().start_time == s1.virtual_time
            &&& records.last().end_time is None
            &&& records.last().data@ == piece(d, 8, 4)
            &&& exists|mid: MeterState| #[trigger]
                written(d.take(4), d.skip(12), s0, mid) && s1 == (MeterState {
                    event_records: s1.event_records,
                    ..mid
                })
        }),
{
    let d = request.data;
    let mid = choose|mid: MeterState| #[trigger]
        written(d.take(4), d.skip(12), s0, mid) && crate::simulation::commands::logged(
            mid,
            s1,
            crate::simulation::commands::write_record_kind(d.take(4)).0,
            crate::simulation::commands::write_record_kind(d.take(4)).1,
            mid.virtual_time,
            d.subrange(8, 12),
        );
    assert(written(d.take(4), d.skip(12), s0, mid));
}

/// Demand is cleared under a password of level 4 or better, meter and events under one of level
/// 2 or better. The length has to be right.
#[verifier::rlimit(50)]
pub proof fn law_clearing_needs_access(
    s0: MeterState,
    s1: MeterState,
    request: FrameModel,
    now: DateTime,
    reply: Seq<u8>,
)
    requires
        command_answered(s0, s1, request, now, reply),
        request.address.len() == 6,
        0x19 <= request.control % 32 <= 0x1B,
    ensures
        ({
            let f = request.control % 32;
            let d = request.data;
            let (length, at, needed) = if f == 0x19 {
                (12int, 4int, 4int)
            } else {
                (8int, 0int, 2int)
            };
            &&& d.len() == length && opens(s0, d, at, needed) ==> carried_out(request, reply)
            &&& d.len() == length && !opens(s0, d, at, needed) ==> s1 == s0 && turned_down(
                request,
                reply,
                0x04,
            )
            &&& d.len() != length ==> s1 == s0 && turned_down(request, reply, 0x01)
        }),
{
    let f = request.control % 32;
    let d = request.data;
    if f == 0x19 && d.len() == 12 {
        lemma_opens(s0, d, 4, 4);
    }
    if f != 0x19 && d.len() == 8 {
        lemma_opens(s0, d, 0, 2);
    }
    lemma_replies(request, (0x80 + f) as u8, Seq::empty());
    lemma_replies(request, (0xC0 + f) as u8, seq![0x01u8]);
    lemma_replies(request, (0xC0 + f) as u8, seq![0x04u8]);
    assert(clear_command_error(s0, d, 8, 0, 2) is Some || d.len() == 8);
}

/// What a clearing leaves: a cleared meter has no energy and no maximum demand, one whose demand
/// is cleared keeps its energies, one whose events are cleared keeps both. Each leaves a record
/// with the operator code.
#[verifier::rlimit(50)]
pub proof fn law_clearing_clears(
    s0: MeterState,
    s1: MeterState,
    request: FrameModel,
    now: DateTime,
    reply: Seq<u8>,
    t: crate::simulation::state::EnergyType,
    rate: u8,
    event_type: u8,
    sub_type: u8,
)
    requires
        command_answered(s0, s1, request, now, reply),
        request.control % 32 == 0x19 ==> clear_command_error(s0, request.data, 12, 4, 4) is None,
        request.control % 32 == 0x1A || request.control % 32 == 0x1B ==> clear_command_error(
            s0,
            request.data,
            8,
            0,
            2,
        ) is None,
    ensures
        request.control % 32 == 0x1A ==> s1.energy(t, rate) == 0 && s1.max_demand == 0
            && s1.max_demand_time == now && s1.demand(0, 0, t, rate).value == 0 && s1.events(
            0x32,
            0x01,
        ).len() > 0 && s1.events(0x32, 0x01).last().data@ == piece(request.data, 4, 4) && s1.events(
            0x32,
            0x01,
        ).last().start_time == now,
        request.control % 32 == 0x19 ==> s1.energy(t, rate) == s0.energy(t, rate) && s1.max_demand
            == 0 && s1.max_demand_time == now && s1.demand(0, 0, t, rate).value == 0 && s1.events(
            0x30,
            0x19,
        ).len() > 0 && s1.events(0x30, 0x19).last().data@ == piece(request.data, 8, 4) && s1.events(
            0x30,
            0x19,
        ).last().start_time == now,
        request.control % 32 == 0x1B ==> s1.energy(t, rate) == s0.energy(t, rate) && s1.max_demand
            == s0.max_demand && s1.demand_registers == s0.demand_registers && s1.events(
            0x30,
            0x1B,
        ).len() == 1 && s1.events(0x30, 0x1B).last().data@ == piece(request.data, 4, 4) && (
        event_type != 0x30 || sub_type != 0x1B ==> s1.events(event_type, sub_type).len() == 0),
{
    let d = request.data;
    if request.control % 32 == 0x1A {
        crate::simulation::commands::law_meter_clear_keeps_history(
            s0,
            s1,
            d.subrange(4, 8),
            now,
            0,
            0,
            t,
            rate,
            0x30,
            0x01,
        );
    }
    if request.control % 32 == 0x19 {
        crate::simulation::commands::law_demand_clear_clears(
            s0,
            s1,
            d.subrange(8, 12),
            now,
            0,
            0,
            t,
            rate,
        );
    }
    if request.control % 32 == 0x1B {
        crate::simulation::commands::law_event_clear_leaves_its_record(
            s0,
            s1,
            d.subrange(4, 8),
            now,
            event_type,
            sub_type,
        );
    }
}

/// A baud rate is a bit of the byte: exactly the powers of two up to 32 are accepted, and the
/// rate is then in use.
#[verifier::rlimit(50)]
pub proof fn law_baud_rates(
    s0: MeterState,
    s1: MeterState,
    request: FrameModel,
    now: DateTime,
    reply: Seq<u8>,
)
    requires
        command_answered(s0, s1, request, now, reply),
        request.address.len() == 6,
        request.control % 32 == 0x17,
    ensures
        carried_out(request, reply) <==> request.data.len() == 1 && is_power_of_two(
            request.data[0] as int,
            6,
        ),
        carried_out(request, reply) ==> s1 == (MeterState { baudrate: request.data[0], ..s0 }),
        !carried_out(request, reply) ==> s1 == s0,
{
    lemma_replies(request, 0x97, Seq::empty());
    lemma_replies(request, 0xD7, seq![0x01u8]);
    reveal_with_fuel(is_power_of_two, 8);
}

/// One of the first `n` powers of two.
pub open spec fn is_power_of_two(v: int, n: nat) -> bool
    decreases n,
{
    n > 0 && (v == 1 || (v % 2 == 0 && is_power_of_two(v / 2, (n - 1) as nat)))
}

/// A password of the level that the identifier names (1 for level 0) is changed by one who knows
/// a password of that level or a better one. Afterwards the new one opens its level, no other
/// does, and the other levels are opened by what opened them before.
#[verifier::rlimit(50)]
pub proof fn law_password_change(
    s0: MeterState,
    s1: MeterState,
    request: FrameModel,
    now: DateTime,
    reply: Seq<u8>,
    level: int,
    i: int,
)
    requires
        command_answered(s0, s1, request, now, reply),
        request.address.len() == 6,
        request.control % 32 == 0x18,
        0 <= level <= 9,
        1 <= i <= 3,
    ensures
        ({
            let d = request.data;
            let accepted = {
                &&& d.len() == 12
                &&& d[3] == 0x04
                &&& d[2] == 0x00
                &&& d[1] == 0x02
                &&& 1 <= d[0] <= 10
                &&& opens(s0, d, 4, d[0] - 1)
                &&& d[8] as int / 16 == d[0] - 1
            };
            &&& accepted <==> carried_out(request, reply)
            &&& accepted ==> {
                &&& s1.password_config.passwords@[d[0] - 1]@[i] == d[8 + i]
                &&& level != d[0] - 1 ==> s1.password_config.passwords@[level]
                    == s0.password_config.passwords@[level]
                &&& s1.events(0x30, 0x12).len() > 0
                &&& s1.events(0x30, 0x12).last().data@ == seq![(d[0] - 1) as u8]
                &&& s1.events(0x30, 0x12).last().start_time == now
            }
            &&& !accepted ==> s1 == s0
        }),
{
    lemma_replies(request, 0x98, Seq::empty());
    lemma_replies(request, 0xD8, seq![0x01u8]);
    lemma_replies(request, 0xD8, seq![0x04u8]);
    let d = request.data;
    if d.len() == 12 && 1 <= d[0] <= 10 {
        lemma_opens(s0, d, 4, (d[0] - 1) as u8);
    }
    if password_command_error(s0, d) is None {
        let now_level = (d[0] - 1) as u8;
        let mid = choose|mid: MeterState|
            {
                &&& mid.password_config.passwords@ == s0.password_config.passwords@.update(
                    now_level as int,
                    mid.password_config.passwords@[now_level as int],
                )
                &&& mid.password_config.passwords@[now_level as int]@ == seq![now_level]
                    + d.subrange(9, 12)
                &&& mid == (MeterState { password_config: mid.password_config, ..s0 })
                &&& #[trigger] crate::simulation::commands::logged(
                    mid,
                    s1,
                    0x30,
                    0x12,
                    now,
                    seq![now_level],
                )
            };
        assert(s1.password_config == mid.password_config);
        assert(d.subrange(9, 12)[i - 1] == d[8 + i]);
        assert((seq![now_level] + d.subrange(9, 12))[i] == d.subrange(9, 12)[i - 1]);
        if level != d[0] - 1 {
            assert(mid.password_config.passwords@[level] == s0.password_config.passwords@[level]);
        }
    }
}

/// A freeze command of minute, hour, day and month. With 99 in all four the meter freezes now;
/// with 99 for the month it freezes every month, day or hour from then on, as far as the others
/// are 99; otherwise an appointed freeze is switched on.
#[verifier::rlimit(50)]
pub proof fn law_freeze_command(
    s0: MeterState,
    s1: MeterState,
    request: FrameModel,
    now: DateTime,
    reply: Seq<u8>,
)
    requires
        command_answered(s0, s1, request, now, reply),
        request.address.len() == 6,
        request.control % 32 == 0x16,
        s0.virtual_time.valid(),
    ensures
        ({
            let d = request.data;
            let secs = s0.virtual_time.secs();
            let timed = due_freezes(s1).contains(FreezeType::Timed);
            let accepted = d.len() == 4 && all_decimal(d);
            &&& accepted <==> carried_out(request, reply)
            &&& !accepted ==> s1 == s0
            &&& accepted && d == seq![0x99u8, 0x99, 0x99, 0x99] && s0.freeze_snapshots@.contains_key(
                1,
            ) && s0.freeze_snapshots@[1].room() > 0 ==> {
                &&& s1.snapshots(FreezeTrigger::Instant).len() > 0
                &&& s1.snapshots(FreezeTrigger::Instant)[0].snapshot_time == s0.virtual_time
            }
            &&& accepted && d[3] == 0x99 && d[2] == 0x99 && d[1] == 0x99 && d[0] != 0x99 ==> (timed
                <==> secs % 3600 == 0)
            &&& accepted && d[3] == 0x99 && d[2] == 0x99 && d[1] != 0x99 ==> (timed <==> secs
                % 86400 == 0)
            &&& accepted && d[3] == 0x99 && d[2] != 0x99 ==> (timed <==> secs % 86400 == 0
                && s0.virtual_time.cal().day == 1)
            &&& accepted && d[3] != 0x99 ==> s1 == (MeterState {
                freeze_config: crate::simulation::config::FreezeConfig {
                    appointment_freeze_mode: 1,
                    ..s0.freeze_config
                },
                ..s0
            })
        }),
{
    lemma_replies(request, 0x96, Seq::empty());
    lemma_replies(request, 0xD6, seq![0x01u8]);
    let d = request.data;
    reveal(is_bcd);
    if d.len() == 4 {
        assert(freeze_command_error(d) is None <==> all_decimal(d)) by {
            if freeze_command_error(d) is None {
                assert forall|i: int| 0 <= i < d.len() implies (#[trigger] d[i]) as int / 16 < 10
                    && d[i] as int % 16 < 10 by {
                    assert(i == 0 || i == 1 || i == 2 || i == 3);
                }
            }
            if all_decimal(d) {
                assert(d[0] as int / 16 < 10 && d[1] as int / 16 < 10 && d[2] as int / 16 < 10
                    && d[3] as int / 16 < 10);
            }
        }
    }
    crate::laws::freezes::law_timed_freezes(s1);
}

/// A clock that is set by broadcast shows the time of the broadcast. A record tells the time
/// before and after. What names no time changes nothing, and there is never an answer.
#[verifier::rlimit(50)]
pub proof fn law_broadcast_time(
    s0: MeterState,
    s1: MeterState,
    request: FrameModel,
    now: DateTime,
    reply: Seq<u8>,
)
    requires
        command_answered(s0, s1, request, now, reply),
        request.control % 32 == 0x08,
        in_century(s0.virtual_time),
    ensures
        ({
            let d = request.data;
            let understood = d.len() == 6 && all_decimal(d) && second_named(d).valid();
            let record = s1.events(0x31, 0x01).last();
            &&& reply.len() == 0
            &&& !understood ==> s1 == s0
            &&& understood ==> {
                &&& tells_second(d, s1.virtual_time)
                &&& s1.virtual_time.subsec_nanos() == 0
                &&& s1.events(0x31, 0x01).len() > 0
                &&& record.start_time == s0.virtual_time
                &&& record.data@.len() == 12
                &&& tells_second(piece(record.data@, 0, 6), s0.virtual_time)
                &&& tells_second(piece(record.data@, 6, 6), s1.virtual_time)
            }
        }),
{
    let d = request.data;
    if d.len() == 6 {
        lemma_six_digits(d);
    }
    if d.len() == 6 && all_decimal(d) && second_named(d).valid() {
        let c = second_named(d);
        assert(crate::simulation::commands::broadcast_time_valid(d));
        let old_time = clock_bytes(s0.virtual_time.cal());
        let new_time = clock_bytes(c);
        lemma_seconds_in_range(c);
        s1.virtual_time.lemma_valid();
        assert(in_century(s1.virtual_time));
        lemma_times_tell(s0.virtual_time);
        lemma_times_tell(s1.virtual_time);
        assert(piece(old_time + new_time, 0, 6) =~= old_time);
        assert(piece(old_time + new_time, 6, 6) =~= new_time);
        let mid = choose|mid: MeterState|
            {
                &&& #[trigger] crate::simulation::commands::logged(
                    s0,
                    mid,
                    0x31,
                    0x01,
                    s0.virtual_time,
                    clock_bytes(s0.virtual_time.cal()) + clock_bytes(
                        crate::simulation::commands::broadcast_fields(d),
                    ),
                )
                &&& s1 == (MeterState { virtual_time: s1.virtual_time, ..mid })
                &&& s1.virtual_time.cal() == crate::simulation::commands::broadcast_fields(d)
                &&& s1.virtual_time.secs() == crate::simulation::commands::broadcast_fields(
                    d,
                ).seconds()
                &&& s1.virtual_time.subsec_nanos() == 0
            };
        assert(s1.event_records == mid.event_records);
    }
}

proof fn lemma_six_digits(d: Seq<u8>)
    requires
        d.len() == 6,
    ensures
        all_decimal(d) <==> is_bcd(d[0]) && is_bcd(d[1]) && is_bcd(d[2]) && is_bcd(d[3]) && is_bcd(
            d[4],
        ) && is_bcd(d[5]),
        all_decimal(d) ==> crate::simulation::commands::broadcast_fields(d) == second_named(d),
{
    reveal(is_bcd);
    reveal(bcd_byte_value);
    if is_bcd(d[0]) && is_bcd(d[1]) && is_bcd(d[2]) && is_bcd(d[3]) && is_bcd(d[4]) && is_bcd(
        d[5],
    ) {
        assert forall|i: int| 0 <= i < 6 implies (#[trigger] d[i]) as int / 16 < 10 && d[i] as int
            % 16 < 10 by {
            assert(i == 0 || i == 1 || i == 2 || i == 3 || i == 4 || i == 5);
        }
    }
    if all_decimal(d) {
        assert(d[0] as int / 16 < 10 && d[1] as int / 16 < 10 && d[2] as int / 16 < 10
            && d[3] as int / 16 < 10 && d[4] as int / 16 < 10 && d[5] as int / 16 < 10);
    }
}

} // verus!
