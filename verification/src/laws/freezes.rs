//! When freezes are due, told from the clock in seconds, and what a snapshot holds.

use crate::laws::clock::lemma_time_of_day;
use crate::laws::digits::{lemma_energy_shows, two_digits};
use crate::laws::energies::{kind_byte, read_energy, reads_energy};
use crate::quantity::Quantity;
use crate::simulation::di_handler::encoding::{decimal_of, year_first_fields};
use crate::simulation::freeze::{rate_energies, FreezeData, FreezeType};
use crate::simulation::history::took_snapshot;
use crate::simulation::schedule::{
    appointed_freeze_due, daily_freeze_due, due_freezes, hourly_freeze_due, if_due,
    timed_freeze_due,
};
use crate::simulation::state::{EnergyType, MeterState};
use crate::simulation::virtual_meter::{pending_taken, snapshots_taken, trigger_of};
use crate::time::Calendar;
use vstd::prelude::*;

verus! {

/// The time that YYMMDDhhmm names in decimal digits, in the years 2000 to 2099.
pub open spec fn named_moment(b: Seq<u8>) -> Calendar {
    Calendar {
        year: (2000 + two_digits(b[0])) as i32,
        month: two_digits(b[1]) as u32,
        day: two_digits(b[2]) as u32,
        hour: two_digits(b[3]) as u32,
        minute: two_digits(b[4]) as u32,
        second: 0,
    }
}

proof fn lemma_named_moment(b: Seq<u8>)
    ensures
        named_moment(b) == year_first_fields(b),
{
    reveal(decimal_of);
}

proof fn lemma_each_due_once(s: MeterState)
    ensures
        due_freezes(s).contains(FreezeType::Timed) == timed_freeze_due(s),
        due_freezes(s).contains(FreezeType::Daily) == daily_freeze_due(s),
        due_freezes(s).contains(FreezeType::Hourly) == hourly_freeze_due(s),
        due_freezes(s).contains(FreezeType::Appointment) == appointed_freeze_due(s),
        due_freezes(s).no_duplicates(),
{
    let due = due_freezes(s);
    let t = if_due(timed_freeze_due(s), FreezeType::Timed);
    let d = if_due(daily_freeze_due(s), FreezeType::Daily);
    let h = if_due(hourly_freeze_due(s), FreezeType::Hourly);
    let a = if_due(appointed_freeze_due(s), FreezeType::Appointment);
    if timed_freeze_due(s) {
        assert(due[0] == FreezeType::Timed);
    }
    if daily_freeze_due(s) {
        assert(due[t.len() as int] == FreezeType::Daily);
    }
    if hourly_freeze_due(s) {
        assert(due[(t.len() + d.len()) as int] == FreezeType::Hourly);
    }
    if appointed_freeze_due(s) {
        assert(due[(t.len() + d.len() + h.len()) as int] == FreezeType::Appointment);
    }
    assert forall|i: int| 0 <= i < due.len() implies {
        ||| #[trigger] due[i] == FreezeType::Timed && timed_freeze_due(s)
        ||| due[i] == FreezeType::Daily && daily_freeze_due(s)
        ||| due[i] == FreezeType::Hourly && hourly_freeze_due(s)
        ||| due[i] == FreezeType::Appointment && appointed_freeze_due(s)
    } by {}
}

/// With hourly freezing on, no hourly freeze is due before the start. From the start on one is
/// due at every whole minute whose minute of the day is a multiple of the interval, and at no
/// other time.
pub proof fn law_hourly_freezes(s: MeterState)
    requires
        s.virtual_time.valid(),
        s.hourly_freeze_mode != 0,
        s.hourly_freeze_interval_min > 0,
        named_moment(s.hourly_freeze_start@).valid(),
    ensures
        ({
            let start = named_moment(s.hourly_freeze_start@).seconds() * 1_000_000_000;
            let now = s.virtual_time.total_nanos();
            let secs = s.virtual_time.secs();
            let minute_of_day = secs % 86400 / 60;
            let due = due_freezes(s).contains(FreezeType::Hourly);
            &&& now < start ==> !due
            &&& start <= now && secs % 60 == 0 && minute_of_day
                % s.hourly_freeze_interval_min as int == 0 ==> due
            &&& due ==> secs % 60 == 0 && minute_of_day % s.hourly_freeze_interval_min as int == 0
        }),
{
    lemma_named_moment(s.hourly_freeze_start@);
    lemma_each_due_once(s);
    lemma_time_of_day(s.virtual_time);
}

/// Without hourly freezing, without an interval or without a start that exists, no hourly
/// freeze is ever due.
pub proof fn law_no_hourly_freezes(s: MeterState)
    requires
        s.hourly_freeze_mode == 0 || s.hourly_freeze_interval_min == 0 || !named_moment(
            s.hourly_freeze_start@,
        ).valid(),
    ensures
        !due_freezes(s).contains(FreezeType::Hourly),
{
    lemma_named_moment(s.hourly_freeze_start@);
    lemma_each_due_once(s);
}

/// Once an hourly freeze was due, one is due whenever the same time of the day comes again.
pub proof fn law_hourly_freezes_come_again(s: MeterState, later: MeterState)
    requires
        s.virtual_time.valid(),
        later.virtual_time.valid(),
        due_freezes(s).contains(FreezeType::Hourly),
        later == (MeterState { virtual_time: later.virtual_time, ..s }),
        s.virtual_time.total_nanos() <= later.virtual_time.total_nanos(),
        later.virtual_time.secs() % 86400 == s.virtual_time.secs() % 86400,
    ensures
        due_freezes(later).contains(FreezeType::Hourly),
{
    lemma_each_due_once(s);
    lemma_each_due_once(later);
    lemma_time_of_day(s.virtual_time);
    lemma_time_of_day(later.virtual_time);
}

/// Timed freezes: on the hour in mode 3, at midnight in mode 2, at midnight of the first of a
/// month in mode 1, never in another mode.
pub proof fn law_timed_freezes(s: MeterState)
    requires
        s.virtual_time.valid(),
    ensures
        ({
            let secs = s.virtual_time.secs();
            let due = due_freezes(s).contains(FreezeType::Timed);
            let mode = s.freeze_config.timed_freeze_mode;
            &&& mode == 3 ==> (due <==> secs % 3600 == 0)
            &&& mode == 2 ==> (due <==> secs % 86400 == 0)
            &&& mode == 1 ==> (due <==> secs % 86400 == 0 && s.virtual_time.cal().day == 1)
            &&& mode == 0 || mode > 3 ==> !due
        }),
{
    lemma_each_due_once(s);
    lemma_time_of_day(s.virtual_time);
}

/// A daily freeze is due at the configured minute of the day, and at no other time.
pub proof fn law_daily_freezes(s: MeterState)
    requires
        s.virtual_time.valid(),
    ensures
        ({
            let secs = s.virtual_time.secs();
            let (hour, minute) = (
                two_digits(s.daily_freeze_time@[0]),
                two_digits(s.daily_freeze_time@[1]),
            );
            let due = due_freezes(s).contains(FreezeType::Daily);
            &&& s.daily_freeze_mode == 0 || hour >= 24 || minute >= 60 ==> !due
            &&& s.daily_freeze_mode != 0 && hour < 24 && minute < 60 ==> (due <==> secs % 86400
                == hour * 3600 + minute * 60)
        }),
{
    reveal(decimal_of);
    lemma_each_due_once(s);
    lemma_time_of_day(s.virtual_time);
}

/// An appointed freeze is due from its time on until it was due once, and not before.
pub proof fn law_appointed_freezes(s: MeterState)
    requires
        s.virtual_time.valid(),
    ensures
        ({
            let target = named_moment(s.appointment_freeze_time@);
            let due = due_freezes(s).contains(FreezeType::Appointment);
            &&& s.freeze_config.appointment_freeze_mode == 0 ==> !due
            &&& s.appointment_freeze_fired ==> !due
            &&& !target.valid() ==> !due
            &&& s.virtual_time.total_nanos() < target.seconds() * 1_000_000_000 ==> !due
            &&& s.freeze_config.appointment_freeze_mode != 0 && !s.appointment_freeze_fired
                && target.valid() && s.virtual_time.total_nanos() >= target.seconds()
                * 1_000_000_000 ==> due
        }),
{
    lemma_named_moment(s.appointment_freeze_time@);
    lemma_each_due_once(s);
}

/// A freeze that is due is due once, and only the four scheduled kinds are ever due.
pub proof fn law_freezes_due_once(s: MeterState)
    ensures
        due_freezes(s).no_duplicates(),
        forall|t: FreezeType| #[trigger]
            due_freezes(s).contains(t) ==> t == FreezeType::Timed || t == FreezeType::Daily || t
                == FreezeType::Hourly || t == FreezeType::Appointment,
{
    lemma_each_due_once(s);
}

/// The number under which the snapshots of a freeze are kept and read.
pub open spec fn snapshot_number(t: FreezeType) -> u32 {
    match t {
        FreezeType::Timed => 0,
        FreezeType::Appointment => 0,
        FreezeType::Instant(_) => 1,
        FreezeType::Event(_) => 1,
        FreezeType::Hourly => 4,
        FreezeType::Daily => 6,
    }
}

/// What a freeze keeps is what a read of the registers gave at that moment: the total and every
/// rate of each kind of energy.
pub open spec fn keeps_energy(
    total: Quantity,
    rates: Seq<Quantity>,
    s: MeterState,
    t: EnergyType,
    rate: u8,
) -> bool {
    &&& rates.len() == s.num_rates
    &&& total < 999_999_990_000_000 ==> reads_energy(
        read_energy(s, kind_byte(t), 0x00, 0x00),
        total,
    )
    &&& 0x01 <= rate <= 0x3F && 1 <= two_digits(rate) <= s.num_rates && rates[two_digits(rate) - 1]
        < 999_999_990_000_000 ==> reads_energy(
        read_energy(s, kind_byte(t), rate, 0x00),
        rates[two_digits(rate) - 1],
    )
}

proof fn lemma_keeps_energy(
    total: Quantity,
    rates: Seq<Quantity>,
    s: MeterState,
    t: EnergyType,
    rate: u8,
)
    requires
        t != EnergyType::CombinedActive,
        total == s.energy(t, 0),
        rates == rate_energies(s, t),
    ensures
        keeps_energy(total, rates, s, t, rate),
{
    reveal(decimal_of);
    if total < 999_999_990_000_000 {
        lemma_energy_shows(total);
    }
    if 0x01 <= rate <= 0x3F && 1 <= two_digits(rate) <= s.num_rates {
        let v = rates[two_digits(rate) - 1];
        assert(v == s.energy(t, two_digits(rate) as u8));
        if v < 999_999_990_000_000 {
            lemma_energy_shows(v);
        }
    }
}

/// A snapshot keeps the energies that a read gave when it was taken, total and rates of all
/// eight kinds.
#[verifier::rlimit(50)]
pub proof fn law_snapshot_keeps_the_energies(data: FreezeData, s: MeterState, rate: u8)
    requires
        data.captures(s),
    ensures
        keeps_energy(
            data.forward_active_total,
            data.forward_active_rates@,
            s,
            EnergyType::ForwardActive,
            rate,
        ),
        keeps_energy(
            data.reverse_active_total,
            data.reverse_active_rates@,
            s,
            EnergyType::ReverseActive,
            rate,
        ),
        keeps_energy(
            data.forward_reactive_total,
            data.forward_reactive_rates@,
            s,
            EnergyType::ForwardReactive,
            rate,
        ),
        keeps_energy(
            data.reverse_reactive_total,
            data.reverse_reactive_rates@,
            s,
            EnergyType::ReverseReactive,
            rate,
        ),
        keeps_energy(
            data.quadrant1_reactive_total,
            data.quadrant1_reactive_rates@,
            s,
            EnergyType::Quadrant1Reactive,
            rate,
        ),
        keeps_energy(
            data.quadrant2_reactive_total,
            data.quadrant2_reactive_rates@,
            s,
            EnergyType::Quadrant2Reactive,
            rate,
        ),
        keeps_energy(
            data.quadrant3_reactive_total,
            data.quadrant3_reactive_rates@,
            s,
            EnergyType::Quadrant3Reactive,
            rate,
        ),
        keeps_energy(
            data.quadrant4_reactive_total,
            data.quadrant4_reactive_rates@,
            s,
            EnergyType::Quadrant4Reactive,
            rate,
        ),
{
    lemma_keeps_energy(
        data.forward_active_total,
        data.forward_active_rates@,
        s,
        EnergyType::ForwardActive,
        rate,
    );
    lemma_keeps_energy(
        data.reverse_active_total,
        data.reverse_active_rates@,
        s,
        EnergyType::ReverseActive,
        rate,
    );
    lemma_keeps_energy(
        data.forward_reactive_total,
        data.forward_reactive_rates@,
        s,
        EnergyType::ForwardReactive,
        rate,
    );
    lemma_keeps_energy(
        data.reverse_reactive_total,
        data.reverse_reactive_rates@,
        s,
        EnergyType::ReverseReactive,
        rate,
    );
    lemma_keeps_energy(
        data.quadrant1_reactive_total,
        data.quadrant1_reactive_rates@,
        s,
        EnergyType::Quadrant1Reactive,
        rate,
    );
    lemma_keeps_energy(
        data.quadrant2_reactive_total,
        data.quadrant2_reactive_rates@,
        s,
        EnergyType::Quadrant2Reactive,
        rate,
    );
    lemma_keeps_energy(
        data.quadrant3_reactive_total,
        data.quadrant3_reactive_rates@,
        s,
        EnergyType::Quadrant3Reactive,
        rate,
    );
    lemma_keeps_energy(
        data.quadrant4_reactive_total,
        data.quadrant4_reactive_rates@,
        s,
        EnergyType::Quadrant4Reactive,
        rate,
    );
}

/// A snapshot keeps the maximum demands with their times, those of the rates in their order, and
/// the values of the moment.
pub proof fn law_snapshot_keeps_the_moment(data: FreezeData, s: MeterState, rate: u8)
    requires
        data.captures(s),
        1 <= rate <= s.num_rates,
    ensures
        data.max_demand_active == s.max_demand,
        data.max_demand_active_time == s.max_demand_time,
        data.max_demand_active_rates@[rate - 1].0 == s.demand(
            0,
            0,
            EnergyType::ForwardActive,
            rate,
        ).value,
        data.max_demand_active_rates@[rate - 1].1 == s.demand(
            0,
            0,
            EnergyType::ForwardActive,
            rate,
        ).time,
        data.max_demand_reactive == s.demand(0, 0, EnergyType::ForwardReactive, 0).value,
        data.max_demand_reactive_time == s.demand(0, 0, EnergyType::ForwardReactive, 0).time,
        data.max_demand_reactive_rates@[rate - 1].0 == s.demand(
            0,
            0,
            EnergyType::ForwardReactive,
            rate,
        ).value,
        data.voltages matches Some(v) && v@[0] == s.voltage_a && v@[1] == s.voltage_b && v@[2]
            == s.voltage_c,
        data.currents matches Some(v) && v@[0] == s.current_a && v@[1] == s.current_b && v@[2]
            == s.current_c,
        data.active_power == Some(s.active_power_total),
        data.reactive_power == Some(s.reactive_power_total),
        data.power_factor == Some(s.power_factor),
        data.frequency == Some(s.frequency),
{
}

/// A snapshot that was taken stands first under its number, dated now and numbered 1. The ones
/// before it follow in their order, each one place further back; the oldest may have left.
pub proof fn law_newest_snapshot_comes_first(
    s0: MeterState,
    s1: MeterState,
    t: FreezeType,
    i: int,
)
    requires
        took_snapshot(s0, s1, trigger_of(t)),
        s0.freeze_snapshots@.contains_key(snapshot_number(t)),
        s0.freeze_snapshots@[snapshot_number(t)].room() > 0,
    ensures
        ({
            let old_ring = s0.freeze_snapshots@[snapshot_number(t)];
            let new_ring = s1.freeze_snapshots@[snapshot_number(t)];
            &&& s1.freeze_snapshots@.contains_key(snapshot_number(t))
            &&& 0 < new_ring@.len() <= old_ring@.len() + 1
            &&& old_ring@.len() < old_ring.room() ==> new_ring@.len() == old_ring@.len() + 1
            &&& old_ring@.len() == old_ring.room() ==> new_ring@.len() == old_ring@.len()
            &&& new_ring@[0].snapshot_time == s0.virtual_time
            &&& new_ring@[0].occurrence_index == 1
            &&& new_ring@[0].data.captures(s0)
            &&& 1 <= i < new_ring@.len() ==> new_ring@[i].data == old_ring@[i - 1].data
                && new_ring@[i].snapshot_time == old_ring@[i - 1].snapshot_time
            &&& 0 <= i < new_ring@.len() && i < 255 ==> new_ring@[i].occurrence_index == i + 1
        }),
{
}

proof fn lemma_taking_keeps(s0: MeterState, s1: MeterState, due: Seq<FreezeType>)
    requires
        snapshots_taken(s0, s1, due),
    ensures
        s1 == (MeterState { freeze_snapshots: s1.freeze_snapshots, ..s0 }),
        forall|k: u32| #[trigger]
            s1.freeze_snapshots@.contains_key(k) == s0.freeze_snapshots@.contains_key(k),
        forall|k: u32|
            s0.freeze_snapshots@.contains_key(k) ==> #[trigger] s1.freeze_snapshots@[k].room()
                == s0.freeze_snapshots@[k].room(),
    decreases due.len(),
{
    if due.len() > 0 {
        let mid = choose|mid: MeterState|
            snapshots_taken(s0, mid, due.drop_last()) && #[trigger] took_snapshot(
                mid,
                s1,
                trigger_of(due.last()),
            );
        lemma_taking_keeps(s0, mid, due.drop_last());
    }
}

/// Of the freezes that were pending none is left, and each was taken of the registers as they
/// stand: the last one is the newest snapshot under its number.
#[verifier::rlimit(50)]
pub proof fn law_pending_freezes_are_taken(s0: MeterState, s1: MeterState)
    requires
        pending_taken(s0, s1),
        s0.pending_freeze_triggers@.len() > 0,
        ({
            let number = snapshot_number(s0.pending_freeze_triggers@.last());
            s0.freeze_snapshots@.contains_key(number) && s0.freeze_snapshots@[number].room() > 0
        }),
    ensures
        ({
            let number = snapshot_number(s0.pending_freeze_triggers@.last());
            let newest = s1.freeze_snapshots@[number]@[0];
            &&& s1.pending_freeze_triggers@.len() == 0
            &&& s1.freeze_snapshots@.contains_key(number)
            &&& newest.snapshot_time == s0.virtual_time
            &&& newest.data.forward_active_total == s0.energy(EnergyType::ForwardActive, 0)
            &&& newest.data.reverse_active_total == s0.energy(EnergyType::ReverseActive, 0)
            &&& s1.energy_registers == s0.energy_registers
            &&& s1.virtual_time == s0.virtual_time
        }),
{
    let due = s0.pending_freeze_triggers@;
    let emptied = choose|emptied: MeterState|
        {
            &&& emptied.pending_freeze_triggers@ == Seq::<FreezeType>::empty()
            &&& emptied == (MeterState {
                pending_freeze_triggers: emptied.pending_freeze_triggers,
                ..s0
            })
            &&& #[trigger] snapshots_taken(emptied, s1, due)
        };
    let mid = choose|mid: MeterState|
        snapshots_taken(emptied, mid, due.drop_last()) && #[trigger] took_snapshot(
            mid,
            s1,
            trigger_of(due.last()),
        );
    lemma_taking_keeps(emptied, mid, due.drop_last());
    lemma_taking_keeps(emptied, s1, due);
    let number = snapshot_number(due.last());
    assert(mid.freeze_snapshots@.contains_key(number));
    assert(mid.freeze_snapshots@[number].room() > 0);
    law_newest_snapshot_comes_first(mid, s1, due.last(), 0);
}

} // verus!
