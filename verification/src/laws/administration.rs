//! What commands of the administration do, told by what the meter reads or does afterwards.

use crate::actor::admin::{admin_done, AdminError, AdminReply};
use crate::actor::messages::AdminCommand;
use crate::laws::commands::is_power_of_two;
use crate::laws::demands::{law_present_rate_is_of_its_slot, slot_minute};
use crate::laws::digits::two_digits;
use crate::laws::energies::{
    energy_set, law_rate_energy_reads_as_set, law_total_energy_reads_as_set, read_energy,
    reads_energy,
};
use crate::laws::faults::{detected, is_active};
use crate::laws::freezes::{
    law_appointed_freezes, law_daily_freezes, law_hourly_freezes, law_no_hourly_freezes,
    law_pending_freezes_are_taken, law_timed_freezes, named_moment,
};
use crate::quantity::{scaled, Quantity};
use crate::simulation::faults::{fault_present, fault_step, Baseline};
use crate::simulation::freeze::FreezeType;
use crate::simulation::measurement::present_rate;
use crate::simulation::schedule::due_freezes;
use crate::simulation::state::{EnergyType, MeterState};
use crate::simulation::virtual_meter::{pending_taken, MeterModel};
use crate::time::{Calendar, DateTime};
use vstd::prelude::*;

verus! {

/// An energy that is set is read under the number of its kind: the total or the rate. Kinds are
/// 1 to 4; no other is accepted.
pub proof fn law_energy_set_is_read(
    m0: MeterModel,
    m1: MeterModel,
    kind: u8,
    rate: Option<u8>,
    value: Quantity,
    now: DateTime,
    r: Result<AdminReply, AdminError>,
    di1: u8,
)
    requires
        admin_done(m0, m1, AdminCommand::SetEnergy { energy_type: kind, rate, value }, now, r),
        value < 999_999_990_000_000,
    ensures
        r is Ok <==> 1 <= kind <= 4,
        r is Ok && rate is None ==> reads_energy(read_energy(m1.state, kind, 0x00, 0x00), value),
        r is Ok && (rate matches Some(n) && 1 <= n <= m0.state.num_rates && 0x01 <= di1 <= 0x3F
            && two_digits(di1) == n) ==> reads_energy(
            read_energy(m1.state, kind, di1, 0x00),
            value,
        ),
        r is Err ==> m1 == m0,
{
    if r is Ok {
        let t = if kind == 1 {
            EnergyType::ForwardActive
        } else if kind == 2 {
            EnergyType::ReverseActive
        } else if kind == 3 {
            EnergyType::ForwardReactive
        } else {
            EnergyType::ReverseReactive
        };
        assert(energy_set(m0.state, m1.state, t, rate, value));
        match rate {
            None => {
                law_total_energy_reads_as_set(m0.state, m1.state, t, value);
            },
            Some(n) => {
                if 1 <= n <= m0.state.num_rates && 0x01 <= di1 <= 0x3F && two_digits(di1) == n {
                    law_rate_energy_reads_as_set(m0.state, m1.state, t, n, value, di1);
                }
            },
        }
    }
}

/// A clock that is set shows that second. A date or time that does not exist is refused.
pub proof fn law_clock_set(
    m0: MeterModel,
    m1: MeterModel,
    year: u16,
    month: u8,
    day: u8,
    hour: u8,
    minute: u8,
    second: u8,
    now: DateTime,
    r: Result<AdminReply, AdminError>,
)
    requires
        admin_done(
            m0,
            m1,
            AdminCommand::SetVirtualTime { year, month, day, hour, minute, second },
            now,
            r,
        ),
        m1.state.virtual_time.valid(),
    ensures
        ({
            let c = Calendar {
                year: year as i32,
                month: month as u32,
                day: day as u32,
                hour: hour as u32,
                minute: minute as u32,
                second: second as u32,
            };
            &&& r is Ok <==> c.valid()
            &&& r is Ok ==> m1.state.virtual_time.total_nanos() == c.seconds() * 1_000_000_000
            &&& r is Err ==> m1 == m0
        }),
{
    m1.state.virtual_time.lemma_valid();
    crate::time::lemma_calendar_of(m1.state.virtual_time.secs());
}

/// An injected fault is active after the next pass of fault detection, and one whose injection
/// was taken back is active only if it shows. Faults of a phase need a phase, those of the whole
/// meter must not have one.
pub proof fn law_injection_takes_effect(
    m0: MeterModel,
    m1: MeterModel,
    event_type: u8,
    phase: u8,
    active: bool,
    now: DateTime,
    r: Result<AdminReply, AdminError>,
    f0: Map<u32, Baseline>,
    s0: MeterState,
    f1: Map<u32, Baseline>,
    s1: MeterState,
)
    requires
        admin_done(m0, m1, AdminCommand::InjectFault { event_type, phase, active }, now, r),
        detected(f0, s0, f1, s1, m1.engine.forced),
    ensures
        r is Ok <==> {
            ||| (1 <= event_type <= 4 || event_type == 0x0B || event_type == 0x0C) && 1 <= phase
                <= 3
            ||| (5 <= event_type <= 0x0A || event_type == 0x0F || 0x30 <= event_type <= 0x32)
                && phase == 0
        },
        r is Ok && active ==> is_active(f1, event_type, phase),
        r is Ok && !active && (0x06 <= event_type <= 0x0A || event_type >= 0x30) ==> !is_active(
            f1,
            event_type,
            phase,
        ),
        r is Err ==> m1 == m0,
{
    if r is Ok {
        assert(m1.engine.forced.contains((event_type, phase)) == active);
        assert(fault_step(
            f0,
            s0,
            f1,
            s1,
            event_type,
            phase,
            fault_present(s0, m1.engine.forced, event_type, phase),
        ));
    }
}

/// Time slots that are set decide the rate: of slots in order of time, the one in which the time
/// of day lies. There are 14 at most.
pub proof fn law_slots_decide_the_rate(
    m0: MeterModel,
    m1: MeterModel,
    time_slots: Vec<(u8, u8, u8)>,
    now: DateTime,
    r: Result<AdminReply, AdminError>,
    k: int,
)
    requires
        admin_done(m0, m1, AdminCommand::SetTouConfig { time_slots }, now, r),
        m0.state.virtual_time.valid(),
        forall|i: int, j: int|
            0 <= i < j < time_slots@.len() ==> (#[trigger] time_slots@[i]).0 * 60 + time_slots@[i].1
                < (#[trigger] time_slots@[j]).0 * 60 + time_slots@[j].1,
        0 <= k < time_slots@.len(),
    ensures
        r is Ok <==> time_slots@.len() <= 14,
        ({
            let minute = m0.state.virtual_time.secs() % 86400 / 60;
            let begun = time_slots@[k].0 * 60 + time_slots@[k].1 <= minute;
            let over = k + 1 < time_slots@.len() && time_slots@[k + 1].0 * 60 + time_slots@[k + 1].1
                <= minute;
            r is Ok && begun && !over ==> present_rate(m1.state) == time_slots@[k].2
        }),
{
    if r is Ok {
        let slots = m1.state.tou_config.day_table_1.slots@;
        assert forall|i: int, j: int| 0 <= i < j < slots.len() implies slot_minute(
            #[trigger] slots[i],
        ) < slot_minute(#[trigger] slots[j]) by {
            assert(time_slots@[i].0 * 60 + time_slots@[i].1 < time_slots@[j].0 * 60
                + time_slots@[j].1);
        }
        law_present_rate_is_of_its_slot(m1.state, k);
    }
}

/// A load that is set is held to the nearest thousandth, with its power factor. It lies between
/// 100 and 1000 volts, up to 10000 amperes, and has a power factor from 0 to 1.
pub proof fn law_load_set(
    m0: MeterModel,
    m1: MeterModel,
    voltage: Quantity,
    current: Quantity,
    power_factor: Quantity,
    now: DateTime,
    r: Result<AdminReply, AdminError>,
)
    requires
        admin_done(
            m0,
            m1,
            AdminCommand::SetLoadModel { voltage, current, power_factor },
            now,
            r,
        ),
    ensures
        ({
            let one = 1_000_000_000int;
            &&& r is Ok <==> 100 * one <= voltage <= 1000 * one && 0 <= current <= 10000 * one && 0
                <= power_factor <= one
            &&& r is Ok ==> {
                &&& -1_000_000 <= 2 * (m1.state.rated_voltage * 1_000_000 - voltage) <= 1_000_000
                &&& -1_000_000 <= 2 * (m1.state.rated_current * 1_000_000 - current) <= 1_000_000
                &&& m1.state.power_factor == power_factor
                &&& m1.engine == m0.engine
            }
            &&& r is Err ==> m1 == m0
        }),
{
    reveal(scaled);
    crate::laws::digits::lemma_powers();
}

/// A password that is set has its level and the last three of the four bytes given.
pub proof fn law_password_set(
    m0: MeterModel,
    m1: MeterModel,
    level: u8,
    new_password: [u8; 4],
    now: DateTime,
    r: Result<AdminReply, AdminError>,
    i: int,
    other: int,
)
    requires
        admin_done(m0, m1, AdminCommand::ChangePassword { level, new_password }, now, r),
        1 <= i <= 3,
        0 <= other <= 9,
        other != level,
    ensures
        r is Ok <==> level <= 9,
        r is Ok ==> m1.state.password_config.passwords@[level as int]@[i] == new_password@[i],
        r is Ok ==> m1.state.password_config.passwords@[level as int]@[0] == level,
        r is Ok ==> m1.state.password_config.passwords@[other]
            == m0.state.password_config.passwords@[other],
        r is Err ==> m1 == m0,
{
    if r is Ok {
        assert((seq![level] + new_password@.skip(1))[i] == new_password@.skip(1)[i - 1]);
        assert(new_password@.skip(1)[i - 1] == new_password@[i]);
    }
}

/// A baud rate is one of the six that have a bit of their own.
pub proof fn law_baud_rate_set(
    m0: MeterModel,
    m1: MeterModel,
    baudrate: u8,
    now: DateTime,
    r: Result<AdminReply, AdminError>,
)
    requires
        admin_done(m0, m1, AdminCommand::SetBaudrate { baudrate }, now, r),
    ensures
        r is Ok <==> is_power_of_two(baudrate as int, 6),
        r is Ok ==> m1.state.baudrate == baudrate,
        r is Err ==> m1 == m0,
{
    reveal_with_fuel(is_power_of_two, 8);
}

/// Settlement days up to 28 and hours up to 23 are accepted and then in use.
pub proof fn law_settlement_days_set(
    m0: MeterModel,
    m1: MeterModel,
    days: [u8; 3],
    hours: [u8; 3],
    now: DateTime,
    r: Result<AdminReply, AdminError>,
)
    requires
        admin_done(m0, m1, AdminCommand::ApplySettlementDays { days, hours }, now, r),
    ensures
        r is Ok <==> days@[0] <= 28 && days@[1] <= 28 && days@[2] <= 28 && hours@[0] <= 23
            && hours@[1] <= 23 && hours@[2] <= 23,
        r is Ok ==> m1.state.settlement_days == days && m1.state.settlement_hours == hours,
        r is Err ==> m1 == m0,
{
    if r is Err {
        if exists|i: int| 0 <= i < 3 && #[trigger] days@[i] > 28 {
            let i = choose|i: int| 0 <= i < 3 && #[trigger] days@[i] > 28;
            assert(i == 0 || i == 1 || i == 2);
        } else {
            let i = choose|i: int| 0 <= i < 3 && #[trigger] hours@[i] > 23;
            assert(i == 0 || i == 1 || i == 2);
        }
    }
}

/// A meter that is cleared has neither energy nor maximum demand; one whose demand is cleared
/// keeps its energy. Both keep their settlement slots.
pub proof fn law_administrative_clearing(
    m0: MeterModel,
    m1: MeterModel,
    cmd: AdminCommand,
    now: DateTime,
    r: Result<AdminReply, AdminError>,
    t: EnergyType,
    rate: u8,
)
    requires
        admin_done(m0, m1, cmd, now, r),
        cmd is ClearMeter || cmd is ClearMaxDemand,
    ensures
        r is Ok,
        m1.state.max_demand == 0,
        m1.state.demand(0, 0, t, rate).value == 0,
        m1.state.settlement_energies == m0.state.settlement_energies,
        m1.state.event_records == m0.state.event_records,
        cmd is ClearMeter ==> m1.state.energy(t, rate) == 0,
        cmd is ClearMaxDemand ==> m1.state.energy(t, rate) == m0.state.energy(t, rate),
{
    assert(crate::simulation::state::demand_key(0, 0, t, rate) < 0x100_0000);
}

/// Hourly freezing that is configured is due from its start on at every whole minute of its
/// interval, and daily freezing at its minute; neither is due otherwise.
pub proof fn law_freezing_configured(
    m0: MeterModel,
    m1: MeterModel,
    cmd: AdminCommand,
    now: DateTime,
    r: Result<AdminReply, AdminError>,
)
    requires
        admin_done(m0, m1, cmd, now, r),
        cmd is ApplyFreezeConfig,
        m0.state.virtual_time.valid(),
    ensures
        r is Ok,
        ({
            let due = due_freezes(m1.state);
            let clock = m0.state.virtual_time;
            let secs = clock.secs();
            let start = named_moment(cmd->hourly_start@);
            let target = named_moment(cmd->appointment_time@);
            let (hour, minute) = (two_digits(cmd->daily_time@[0]), two_digits(cmd->daily_time@[1]));
            &&& cmd->hourly_mode == 0 ==> !due.contains(FreezeType::Hourly)
            &&& cmd->hourly_mode != 0 && cmd->hourly_interval_min > 0 && start.valid() ==> (
            due.contains(FreezeType::Hourly) <==> clock.total_nanos() >= start.seconds()
                * 1_000_000_000 && secs % 60 == 0 && secs % 86400 / 60
                % cmd->hourly_interval_min as int == 0)
            &&& cmd->daily_mode == 0 ==> !due.contains(FreezeType::Daily)
            &&& cmd->daily_mode != 0 && hour < 24 && minute < 60 ==> (due.contains(
                FreezeType::Daily,
            ) <==> secs % 86400 == hour * 3600 + minute * 60)
            &&& cmd->timed_mode == 3 ==> (due.contains(FreezeType::Timed) <==> secs % 3600 == 0)
            &&& cmd->timed_mode == 2 ==> (due.contains(FreezeType::Timed) <==> secs % 86400 == 0)
            &&& cmd->appointment_mode != 0 && target.valid() ==> (due.contains(
                FreezeType::Appointment,
            ) <==> clock.total_nanos() >= target.seconds() * 1_000_000_000)
            &&& m1.state.freeze_config.instant_freeze_mode == cmd->instant_mode
        }),
{
    let s = m1.state;
    if s.hourly_freeze_mode != 0 && s.hourly_freeze_interval_min > 0 && named_moment(
        s.hourly_freeze_start@,
    ).valid() {
        law_hourly_freezes(s);
    }
    if s.hourly_freeze_mode == 0 {
        law_no_hourly_freezes(s);
    }
    law_daily_freezes(s);
    law_timed_freezes(s);
    law_appointed_freezes(s);
}

/// Load records that are configured have the mode word, the start and the six intervals given.
pub proof fn law_load_records_configured(
    m0: MeterModel,
    m1: MeterModel,
    mode_word: u8,
    start_time: [u8; 4],
    intervals: [u16; 6],
    now: DateTime,
    r: Result<AdminReply, AdminError>,
    class: int,
)
    requires
        admin_done(
            m0,
            m1,
            AdminCommand::ApplyLoadRecordConfig { mode_word, start_time, intervals },
            now,
            r,
        ),
        0 <= class < 6,
    ensures
        r is Ok,
        m1.state.load_record_config.mode_word == mode_word,
        m1.state.load_record_start_time == start_time,
        m1.state.load_record_config.intervals@[class] == intervals@[class],
{
}

/// A freeze that is asked for is taken with the next step: kind 0 among the timed snapshots,
/// kind 1 among the instant ones. There is no other kind.
pub proof fn law_freeze_asked_for(
    m0: MeterModel,
    m1: MeterModel,
    freeze_type: u8,
    now: DateTime,
    r: Result<AdminReply, AdminError>,
    after: MeterState,
)
    requires
        admin_done(m0, m1, AdminCommand::TriggerFreeze { freeze_type }, now, r),
        pending_taken(m1.state, after),
        m0.state.freeze_snapshots@.contains_key(freeze_type as u32),
        m0.state.freeze_snapshots@[freeze_type as u32].room() > 0,
    ensures
        r is Ok <==> freeze_type <= 1,
        r is Ok ==> {
            let newest = after.freeze_snapshots@[freeze_type as u32]@[0];
            &&& after.pending_freeze_triggers@.len() == 0
            &&& newest.snapshot_time == m0.state.virtual_time
            &&& newest.data.forward_active_total == m0.state.energy(EnergyType::ForwardActive, 0)
        },
{
    if r is Ok {
        let t = m1.state.pending_freeze_triggers@.last();
        assert(crate::laws::freezes::snapshot_number(t) == freeze_type);
        law_pending_freezes_are_taken(m1.state, after);
    }
}

} // verus!
