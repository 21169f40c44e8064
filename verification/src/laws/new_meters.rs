//! What a new meter reads and does.

use crate::laws::demands::law_rates_of_a_new_meter;
use crate::laws::energies::{kind_byte, read_energy, reads_energy};
use crate::laws::load_records::law_no_sampling_before_the_start;
use crate::laws::digits::{lemma_energy_shows, two_digits};
use crate::simulation::defaults::new_meter;
use crate::simulation::di_handler::encoding::decimal_of;
use crate::simulation::faults::fault_shows;
use crate::simulation::freeze::FreezeTrigger;
use crate::simulation::load_record::LoadRecordSample;
use crate::simulation::measurement::present_rate;
use crate::simulation::schedule::{due_freezes, sampling_done};
use crate::simulation::state::{rollover_due, EnergyType, MeterState};
use crate::time::DateTime;
use vstd::prelude::*;

verus! {

/// A new meter reads no energy of any kind and rate that it has, in the present period and in
/// every settlement slot.
#[verifier::rlimit(50)]
pub proof fn law_new_meter_reads_no_energy(
    s: MeterState,
    time: DateTime,
    now: DateTime,
    t: EnergyType,
    di1: u8,
    slot: u8,
)
    requires
        new_meter(s, time, now),
        di1 <= 0x3F,
        two_digits(di1) <= s.num_rates,
        slot != 0xFF,
        two_digits(slot) <= 12,
    ensures
        reads_energy(read_energy(s, kind_byte(t), di1, slot), 0),
{
    reveal(decimal_of);
    lemma_energy_shows(0);
    let (k, rate) = (two_digits(slot) as u8, two_digits(di1) as u8);
    assert(s.slot_energy(k, EnergyType::ForwardActive, rate) == 0);
    assert(s.slot_energy(k, EnergyType::ReverseActive, rate) == 0);
    assert(s.slot_energy(k, t, rate) == 0);
}

/// A new meter has no demand, no event, no snapshot and nothing pending, and none of its
/// measured values shows a fault.
pub proof fn law_new_meter_is_blank(
    s: MeterState,
    time: DateTime,
    now: DateTime,
    t: EnergyType,
    rate: u8,
    event_type: u8,
    sub_type: u8,
    trigger: FreezeTrigger,
)
    requires
        new_meter(s, time, now),
    ensures
        s.demand(0, 0, t, rate).value == 0,
        s.max_demand == 0,
        s.events(event_type, sub_type).len() == 0,
        s.totals(event_type, sub_type).total_count == 0,
        s.snapshots(trigger).len() == 0,
        s.pending_freeze_triggers@.len() == 0,
        !fault_shows(s, event_type, sub_type),
        !rollover_due(s),
{
    assert(s.freeze_snapshots@.contains_key(trigger.di2() as u32));
}

/// The present rate of a new meter is one that it has.
pub proof fn law_new_meter_has_its_rates(s: MeterState, time: DateTime, now: DateTime)
    requires
        new_meter(s, time, now),
        time.valid(),
    ensures
        1 <= present_rate(s) <= s.num_rates,
        s.tou_config.day_table_1.slots@.len() == s.num_time_slots,
{
    law_rates_of_a_new_meter(s);
    let second = time.secs() % 86400;
    assert(second < 8 * 3600 || 8 * 3600 <= second < 12 * 3600 || 12 * 3600 <= second < 18 * 3600
        || 18 * 3600 <= second < 22 * 3600 || second >= 22 * 3600);
}

/// A new meter samples nothing and freezes nothing by itself.
pub proof fn law_new_meter_is_quiet(
    s: MeterState,
    time: DateTime,
    now: DateTime,
    after: MeterState,
    samples: Seq<LoadRecordSample>,
)
    requires
        new_meter(s, time, now),
        sampling_done(s, after, samples),
    ensures
        samples.len() == 0,
        after == s,
        due_freezes(s).len() == 0,
{
    law_no_sampling_before_the_start(s, after, samples);
}

/// A new meter keeps 12 timed snapshots, 62 hourly and daily ones, and 3 of each other kind.
pub proof fn law_new_meter_has_room_for_snapshots(
    s: MeterState,
    time: DateTime,
    now: DateTime,
    number: u8,
)
    requires
        new_meter(s, time, now),
        number <= 4 || number == 6 || number == 7,
    ensures
        s.freeze_snapshots@.contains_key(number as u32),
        s.freeze_snapshots@[number as u32].room() == crate::laws::answers::snapshots_at_hand(
            number,
        ),
{
    let t = if number == 0 {
        FreezeTrigger::Timed
    } else if number == 1 {
        FreezeTrigger::Instant
    } else if number == 2 {
        FreezeTrigger::TimeZoneSwitch
    } else if number == 3 {
        FreezeTrigger::DayTableSwitch
    } else if number == 4 {
        FreezeTrigger::Hourly
    } else if number == 6 {
        FreezeTrigger::Daily
    } else {
        FreezeTrigger::LadderSwitch
    };
    assert(t.di2() == number);
}

} // verus!
