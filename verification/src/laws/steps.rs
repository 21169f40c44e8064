//! One step of the simulation as a whole, settlements and configuration.

use crate::laws::energies::{kind_byte, read_energy};
use crate::laws::digits::two_digits;
use crate::laws::faults::{
    detected, is_active, law_loss_of_current, law_overcurrent, law_phase_status_word,
    law_voltage_bands, percent, values_of,
};
use crate::laws::freezes::{law_daily_freezes, law_hourly_freezes, named_moment};
use crate::laws::power::law_energy_is_power_times_time;
use crate::quantity::{scaled, Quantity};
use crate::simulation::di_handler::encoding::decimal_of;
use crate::simulation::freeze::FreezeType;
use crate::simulation::load_model::{config_error, LoadProfile, SimulationConfig};
use crate::simulation::measurement::{fresh_counter, measured, present_rate, Noise};
use crate::simulation::physics_engine::{
    simulated_nanos, step_through, stepped, EngineModel,
};
use crate::simulation::state::{
    demand_key, energy_key, law_rollover_keeps_demands, law_rollover_keeps_energies,
    law_rollover_keeps_phases, moment_in_span, rolled_over, rollover_due, settlement_moment, settlement_passed, EnergyType, MeterState,
};
use crate::simulation::virtual_meter::{configured, flush_due, with_config, MeterModel};
use crate::time::{lemma_calendar_of, Calendar, DateTime};
use vstd::prelude::*;

verus! {

/// Simulated time is elapsed time multiplied by the scale, to the nanosecond. At scale 1 the
/// two are the same.
#[verifier::rlimit(50)]
pub proof fn law_time_scale(elapsed: u64, scale: Quantity)
    ensures
        simulated_nanos(elapsed, scale) * 1_000_000_000 <= elapsed * scale < (simulated_nanos(
            elapsed,
            scale,
        ) + 1) * 1_000_000_000,
        simulated_nanos(elapsed, 1_000_000_000) == elapsed,
        simulated_nanos(elapsed, 0) == 0,
{
}

/// The faults that a step leaves active are those that the values after it show, when none is
/// injected.
#[verifier::rlimit(50)]
pub proof fn law_step_leaves_the_faults_that_show(
    e0: EngineModel,
    s0: MeterState,
    e1: EngineModel,
    s1: MeterState,
    nanos: int,
    noise: Noise,
    rolled: bool,
    phase: u8,
)
    requires
        stepped(e0, s0, e1, s1, nanos, noise, rolled),
        e0.forced == Seq::<(u8, u8)>::empty(),
        1 <= phase <= 3,
    ensures
        ({
            let (v, i, p, q) = values_of(s1, phase);
            &&& is_active(e1.faults, 0x0B, phase) <==> i * 100 < percent(s1.rated_current, 5)
            &&& is_active(e1.faults, 0x0C, phase) <==> i * 100 > percent(s1.rated_current, 120)
            &&& percent(s1.rated_voltage, 90) <= v * 100 <= percent(s1.rated_voltage, 120)
                ==> !is_active(e1.faults, 0x01, phase) && !is_active(e1.faults, 0x02, phase)
                && !is_active(e1.faults, 0x03, phase) && !is_active(e1.faults, 0x04, phase)
            &&& v * 100 < percent(s1.rated_voltage, 70) ==> is_active(e1.faults, 0x01, phase)
        }),
        ({
            let w = s1.derived_status;
            let word = if phase == 1 {
                w.status_word_4
            } else if phase == 2 {
                w.status_word_5
            } else {
                w.status_word_6
            };
            let (v, i, p, q) = values_of(s1, phase);
            &&& word < 16
            &&& word % 2 == 1 <==> v * 100 < percent(s1.rated_voltage, 70)
            &&& (word / 2) % 2 == 1 <==> v * 100 > percent(s1.rated_voltage, 120)
            &&& (word / 4) % 2 == 1 <==> i * 100 < percent(s1.rated_current, 5)
            &&& (word / 8) % 2 == 1 <==> i * 100 > percent(s1.rated_current, 120)
        }),
{
    let (clocked, charged, demanded, watched, closed_books, noted) = choose|
        clocked: MeterState,
        charged: MeterState,
        demanded: MeterState,
        watched: MeterState,
        closed_books: MeterState,
        noted: MeterState,
    | #[trigger]
        step_through(
            e0,
            s0,
            e1,
            s1,
            nanos,
            noise,
            rolled,
            clocked,
            charged,
            demanded,
            watched,
            closed_books,
            noted,
        );
    assert(detected(e0.faults, demanded, e1.faults, watched, e0.forced));
    assert(values_of(s1, phase) == values_of(demanded, phase));
    assert(s1.rated_current == demanded.rated_current && s1.rated_voltage
        == demanded.rated_voltage);
    law_loss_of_current(e0.faults, demanded, e1.faults, watched, e0.forced, phase);
    law_overcurrent(e0.faults, demanded, e1.faults, watched, e0.forced, phase);
    law_voltage_bands(e0.faults, demanded, e1.faults, watched, e0.forced, phase);
    law_phase_status_word(e0.faults, demanded, e1.faults, watched, phase);
    assert(s1.derived_status.status_word_4 == crate::simulation::schedule::phase_status(
        e1.faults,
        1,
    ));
}

/// From a fresh start, a step credits the power that is measured in it times its time: no more,
/// and less than a pulse and a billionth is missing. It goes to the total and to the rate of
/// the time after the step.
#[verifier::rlimit(50)]
pub proof fn law_step_counts_the_energy(
    e0: EngineModel,
    s0: MeterState,
    e1: EngineModel,
    s1: MeterState,
    nanos: int,
    noise: Noise,
    rolled: bool,
)
    requires
        stepped(e0, s0, e1, s1, nanos, noise, rolled),
        e0.counter == fresh_counter(),
        0 <= nanos <= u64::MAX,
        s0.meter_constant > 0,
        present_rate(s1) != 0,
        s1.active_power_total >= 0,
        0 <= s0.energy(EnergyType::ForwardActive, 0) <= 1_000_000_000_000_000_000,
        0 <= s0.energy(EnergyType::ForwardActive, present_rate(s1)) <= 1_000_000_000_000_000_000,
        s1.active_power_total * nanos <= 3_600_000_000_000 * 1_000_000_000_000_000_000int,
    ensures
        ({
            let e = s1.energy(EnergyType::ForwardActive, 0) - s0.energy(
                EnergyType::ForwardActive,
                0,
            );
            let flow = s1.active_power_total * nanos;
            let hour = 3_600_000_000_000int;
            &&& 0 <= e && e * hour <= flow
            &&& flow * s0.meter_constant < ((e + 1) * s0.meter_constant + 1_000_000_000) * hour
            &&& s1.energy(EnergyType::ForwardActive, present_rate(s1)) - s0.energy(
                EnergyType::ForwardActive,
                present_rate(s1),
            ) == e
        }),
{
    let (clocked, charged, demanded, watched, closed_books, noted) = choose|
        clocked: MeterState,
        charged: MeterState,
        demanded: MeterState,
        watched: MeterState,
        closed_books: MeterState,
        noted: MeterState,
    | #[trigger]
        step_through(
            e0,
            s0,
            e1,
            s1,
            nanos,
            noise,
            rolled,
            clocked,
            charged,
            demanded,
            watched,
            closed_books,
            noted,
        );
    let m = measured(clocked, e0.load_model, noise);
    assert(m.energy_registers == s0.energy_registers);
    assert(s1.energy_registers == charged.energy_registers);
    assert(m.active_power_total == s1.active_power_total);
    assert(present_rate(m) == present_rate(s1));
    law_energy_is_power_times_time(m, charged, nanos as u64);
}

/// A step notes the freezes that are due at the time after it: the hourly one exactly at whole
/// minutes of its interval from its start on, the daily one exactly at its minute.
#[verifier::rlimit(50)]
pub proof fn law_step_notes_the_freezes(
    e0: EngineModel,
    s0: MeterState,
    e1: EngineModel,
    s1: MeterState,
    nanos: int,
    noise: Noise,
    rolled: bool,
)
    requires
        stepped(e0, s0, e1, s1, nanos, noise, rolled),
        s0.pending_freeze_triggers@.len() == 0,
        s1.virtual_time.valid(),
    ensures
        ({
            let secs = s1.virtual_time.secs();
            let start = named_moment(s1.hourly_freeze_start@);
            let interval = s1.hourly_freeze_interval_min as int;
            let (hour, minute) = (
                two_digits(s1.daily_freeze_time@[0]),
                two_digits(s1.daily_freeze_time@[1]),
            );
            let noted = s1.pending_freeze_triggers@;
            &&& s1.hourly_freeze_mode != 0 && interval > 0 && start.valid() ==> (noted.contains(
                FreezeType::Hourly,
            ) <==> s1.virtual_time.total_nanos() >= start.seconds() * 1_000_000_000 && secs % 60
                == 0 && secs % 86400 / 60 % interval == 0)
            &&& s1.daily_freeze_mode != 0 && hour < 24 && minute < 60 ==> (noted.contains(
                FreezeType::Daily,
            ) <==> secs % 86400 == hour * 3600 + minute * 60)
        }),
{
    let (clocked, charged, demanded, watched, closed_books, noted) = choose|
        clocked: MeterState,
        charged: MeterState,
        demanded: MeterState,
        watched: MeterState,
        closed_books: MeterState,
        noted: MeterState,
    | #[trigger]
        step_through(
            e0,
            s0,
            e1,
            s1,
            nanos,
            noise,
            rolled,
            clocked,
            charged,
            demanded,
            watched,
            closed_books,
            noted,
        );
    assert(closed_books.pending_freeze_triggers == s0.pending_freeze_triggers);
    assert(s1.pending_freeze_triggers@ =~= crate::simulation::schedule::due_freezes(closed_books));
    if s1.hourly_freeze_mode != 0 && s1.hourly_freeze_interval_min > 0 && named_moment(
        s1.hourly_freeze_start@,
    ).valid() {
        law_hourly_freezes(closed_books);
    }
    law_daily_freezes(closed_books);
}

/// A settlement is due at the very moment of a settlement day and hour, if the clock was last
/// looked at before.
#[verifier::rlimit(50)]
pub proof fn law_settlement_at_its_moment(s: MeterState, last: DateTime, i: int)
    requires
        s.virtual_time.valid(),
        s.last_settlement_rollover == Some(last),
        last.total_nanos() < s.virtual_time.total_nanos(),
        0 <= i < 3,
        s.virtual_time.cal().day == s.settlement_days@[i],
        s.virtual_time.secs() % 86400 == s.settlement_hours@[i] * 3600,
        s.virtual_time.subsec_nanos() == 0,
    ensures
        rollover_due(s),
{
    let c = s.virtual_time.cal();
    s.virtual_time.lemma_valid();
    lemma_calendar_of(s.virtual_time.secs());
    crate::laws::clock::lemma_time_of_day(s.virtual_time);
    let (day, hour) = (s.settlement_days@[i], s.settlement_hours@[i]);
    assert(c == settlement_moment(c.year, c.month, day, hour));
    assert(moment_in_span(settlement_moment(c.year, c.month, day, hour), last, s.virtual_time));
    assert(settlement_passed(
        s.settlement_days@[i],
        s.settlement_hours@[i],
        crate::simulation::state::last_settlement_check(s),
        s.virtual_time,
    ));
}

/// A settlement that is due has passed since the clock was last looked at: its moment lies
/// after that and not after now. Without a look before there is none.
#[verifier::rlimit(50)]
pub proof fn law_settlement_has_passed(s: MeterState)
    requires
        rollover_due(s),
    ensures
        s.last_settlement_rollover is Some,
        exists|c: Calendar, i: int|
            {
                &&& 0 <= i < 3
                &&& #[trigger] c.valid()
                &&& c.day == #[trigger] s.settlement_days@[i]
                &&& c.hour == s.settlement_hours@[i]
                &&& c.minute == 0
                &&& c.second == 0
                &&& s.last_settlement_rollover->Some_0.total_nanos() < c.seconds() * 1_000_000_000
                    <= s.virtual_time.total_nanos()
            },
{
    let last = crate::simulation::state::last_settlement_check(s);
    let i = choose|i: int|
        0 <= i < 3 && #[trigger] settlement_passed(
            s.settlement_days@[i],
            s.settlement_hours@[i],
            last,
            s.virtual_time,
        );
    let (day, hour) = (s.settlement_days@[i], s.settlement_hours@[i]);
    let (y, m) = choose|y: i32, m: u32| #[trigger]
        moment_in_span(settlement_moment(y, m, day, hour), last, s.virtual_time);
    let c = settlement_moment(y, m, day, hour);
    assert(c.valid() && c.day == s.settlement_days@[i]);
}

/// No settlement is missed or counted twice when time is looked at in two parts: one is due
/// over the whole exactly when one is due in the first part or in the second.
#[verifier::rlimit(50)]
pub proof fn law_settlements_over_two_spans(
    a: DateTime,
    middle: DateTime,
    b: DateTime,
    day: u8,
    hour: u8,
)
    requires
        a.total_nanos() <= middle.total_nanos() <= b.total_nanos(),
    ensures
        settlement_passed(day, hour, a, b) <==> settlement_passed(day, hour, a, middle)
            || settlement_passed(day, hour, middle, b),
{
    if settlement_passed(day, hour, a, b) {
        let (y, m) = choose|y: i32, m: u32| #[trigger]
            moment_in_span(settlement_moment(y, m, day, hour), a, b);
        let c = settlement_moment(y, m, day, hour);
        assert(moment_in_span(c, a, middle) || moment_in_span(c, middle, b));
    }
    if settlement_passed(day, hour, a, middle) {
        let (y, m) = choose|y: i32, m: u32| #[trigger]
            moment_in_span(settlement_moment(y, m, day, hour), a, middle);
        assert(moment_in_span(settlement_moment(y, m, day, hour), a, b));
    }
    if settlement_passed(day, hour, middle, b) {
        let (y, m) = choose|y: i32, m: u32| #[trigger]
            moment_in_span(settlement_moment(y, m, day, hour), middle, b);
        assert(moment_in_span(settlement_moment(y, m, day, hour), a, b));
    }
}

/// After a settlement each slot reads what the one before it read: the first what the present
/// period had, and the present period goes on.
#[verifier::rlimit(50)]
pub proof fn law_settlement_moves_the_reads(
    before: MeterState,
    after: MeterState,
    t: EnergyType,
    di1: u8,
    slot: u8,
    next: u8,
)
    requires
        rolled_over(before, after),
        t != EnergyType::CombinedActive,
        di1 <= 0x3F,
        two_digits(di1) <= before.num_rates,
        slot != 0xFF,
        next != 0xFF,
        two_digits(slot) <= 11,
        two_digits(next) == two_digits(slot) + 1,
        two_digits(slot) == 0 ==> before.energy_registers@.contains_key(
            energy_key(t, two_digits(di1) as u8),
        ),
    ensures
        read_energy(after, kind_byte(t), di1, next) == read_energy(
            before,
            kind_byte(t),
            di1,
            slot,
        ),
        read_energy(after, kind_byte(t), di1, 0x00) == read_energy(
            before,
            kind_byte(t),
            di1,
            0x00,
        ),
{
    reveal(decimal_of);
    let k = two_digits(slot) as u8;
    let rate = two_digits(di1) as u8;
    if k > 0 {
        law_rollover_keeps_energies(before, after, k, t, rate);
    } else {
        law_rollover_keeps_energies(before, after, 1, t, rate);
    }
    assert(after.num_rates == before.num_rates);
}

/// After a settlement the new period has no demand yet, in total, of any rate or phase. The first
/// slot has the maximum demand of the period before with its time, and the other demands of
/// every slot are those of the slot before it.
#[verifier::rlimit(50)]
pub proof fn law_settlement_moves_the_demands(
    before: MeterState,
    after: MeterState,
    slot: u8,
    phase: u8,
    t: EnergyType,
    rate: u8,
)
    requires
        rolled_over(before, after),
        slot <= 11,
    ensures
        after.max_demand == 0,
        after.max_demand_time == before.virtual_time,
        after.demand(0, phase, t, rate).value == 0,
        after.demand(1, 0, EnergyType::ForwardActive, 0).value == before.max_demand,
        after.demand(1, 0, EnergyType::ForwardActive, 0).time == before.max_demand_time,
        before.demand_registers@.contains_key(demand_key(slot, phase, t, rate)) && !(slot == 0
            && phase == 0 && t == EnergyType::ForwardActive && rate == 0) ==> after.demand(
            (slot + 1) as u8,
            phase,
            t,
            rate,
        ) == before.demand(slot, phase, t, rate),
        after.last_settlement_rollover == Some(before.virtual_time),
        after.energy_registers == before.energy_registers,
{
    if before.demand_registers@.contains_key(demand_key(slot, phase, t, rate)) && !(slot == 0
        && phase == 0 && t == EnergyType::ForwardActive && rate == 0) {
        law_rollover_keeps_demands(before, after, slot, phase, t, rate);
    }
    assert(demand_key(0, phase, t, rate) < 0x100_0000);
    assert(demand_key(1, 0, EnergyType::ForwardActive, 0) >= 0x100_0000);
}

/// The same holds of the energies of the phases.
#[verifier::rlimit(50)]
pub proof fn law_settlement_moves_the_phase_reads(
    before: MeterState,
    after: MeterState,
    phase: u8,
    slot: u8,
    next: u8,
)
    requires
        rolled_over(before, after),
        1 <= phase <= 3,
        slot != 0xFF,
        next != 0xFF,
        two_digits(slot) <= 11,
        two_digits(next) == two_digits(slot) + 1,
    ensures
        ({
            let kind = (0x15 + 20 * (phase - 1)) as u8;
            read_energy(after, kind, 0x00, next) == read_energy(before, kind, 0x00, slot)
        }),
{
    reveal(decimal_of);
    law_rollover_keeps_phases(before, after, two_digits(slot) as u8, (phase - 1) as u8);
}

/// A configuration is accepted exactly when its values lie within their limits: 100 to 1000
/// volts, 0.1 to 10000 amperes, 45 to 65 hertz, power factors from 0 to 1 in order, a meter
/// constant, a demand period of 1 to 120 minutes, a time scale of a hundredth to ten thousand,
/// fluctuations that are not negative, phase loads up to threefold, and a fixed load up to full.
#[verifier::rlimit(50)]
pub proof fn law_configuration_limits(c: SimulationConfig)
    ensures
        config_error(c) is None <==> {
            let one = 1_000_000_000int;
            let m = c.load_model;
            &&& 100 * one <= c.rated_voltage <= 1000 * one
            &&& one <= 10 * c.rated_current
            &&& c.rated_current <= 10000 * one
            &&& 45 * one <= c.rated_frequency <= 65 * one
            &&& 0 <= c.power_factor <= one
            &&& c.meter_constant > 0
            &&& 1 <= c.demand_period_minutes <= 120
            &&& one <= 100 * c.time_scale
            &&& c.time_scale <= 10000 * one
            &&& m.voltage_noise_v >= 0
            &&& m.frequency_noise_hz >= 0
            &&& m.power_factor_noise >= 0
            &&& forall|p: int| 0 <= p < 3 ==> 0 <= #[trigger] m.phase_current_factors@[p] <= 3 * one
            &&& 0 <= m.power_factor_min
            &&& m.power_factor_min <= m.power_factor_max
            &&& m.power_factor_max <= one
            &&& m.profile matches LoadProfile::Fixed(f) ==> 0 <= f <= one
        },
{
    let f = c.load_model.phase_current_factors@;
    assert((forall|p: int| 0 <= p < 3 ==> 0 <= #[trigger] f[p] <= 3_000_000_000) <==> (0 <= f[0]
        <= 3_000_000_000 && 0 <= f[1] <= 3_000_000_000 && 0 <= f[2] <= 3_000_000_000)) by {
        if 0 <= f[0] <= 3_000_000_000 && 0 <= f[1] <= 3_000_000_000 && 0 <= f[2] <= 3_000_000_000 {
            assert forall|p: int| 0 <= p < 3 implies 0 <= #[trigger] f[p] <= 3_000_000_000 by {
                assert(p == 0 || p == 1 || p == 2);
            }
        }
    }
}

/// A configuration that is taken over is held to the nearest thousandth of a volt and an ampere
/// and to the nearest hertz; everything else is held as it is.
#[verifier::rlimit(50)]
pub proof fn law_configuration_is_held(s: MeterState, c: SimulationConfig)
    requires
        config_error(c) is None,
    ensures
        ({
            let t = with_config(s, c);
            &&& -1_000_000 <= 2 * (t.rated_voltage * 1_000_000 - c.rated_voltage) <= 1_000_000
            &&& -1_000_000 <= 2 * (t.rated_current * 1_000_000 - c.rated_current) <= 1_000_000
            &&& -1_000_000_000 <= 2 * (t.rated_frequency * 1_000_000_000 - c.rated_frequency)
                <= 1_000_000_000
            &&& t.power_factor == c.power_factor
            &&& t.meter_constant == c.meter_constant
            &&& t.demand_period_minutes == c.demand_period_minutes
            &&& t.simulation_time_scale == c.time_scale
            &&& t.energy_registers == s.energy_registers
            &&& t.virtual_time == s.virtual_time
        }),
{
    reveal(scaled);
    crate::laws::digits::lemma_powers();
    assert(crate::quantity::pow10(0) == 1);
}

/// The configuration that is told of a meter has its rated values in volts, amperes and hertz.
#[verifier::rlimit(50)]
pub proof fn law_configuration_is_told(
    s: MeterState,
    m: crate::simulation::load_model::LoadModelConfig,
)
    ensures
        ({
            let c = configured(s, m);
            &&& c.load_model == m
            &&& c.rated_voltage == s.rated_voltage * 1_000_000
            &&& c.rated_current == s.rated_current * 1_000_000
            &&& c.rated_frequency == s.rated_frequency * 1_000_000_000
            &&& c.power_factor == s.power_factor
            &&& c.meter_constant == s.meter_constant
            &&& c.demand_period_minutes == s.demand_period_minutes
            &&& c.time_scale == s.simulation_time_scale
        }),
{
}

/// Registers are stored when their interval has passed or the energy has moved by the threshold
/// in either direction, and only if there is a store. Right after they were stored they are not
/// stored again.
#[verifier::rlimit(50)]
pub proof fn law_registers_are_stored(m: MeterModel, seconds: u64)
    ensures
        ({
            let energy = m.state.energy(EnergyType::ForwardActive, 0);
            let c = m.config.energy_flush_config;
            &&& !m.persistent ==> !flush_due(m, seconds)
            &&& m.persistent && seconds >= c.interval_secs ==> flush_due(m, seconds)
            &&& m.persistent && energy >= m.flushed + c.threshold_kwh ==> flush_due(m, seconds)
            &&& m.persistent && energy <= m.flushed - c.threshold_kwh ==> flush_due(m, seconds)
            &&& seconds < c.interval_secs && m.flushed - c.threshold_kwh < energy < m.flushed
                + c.threshold_kwh ==> !flush_due(m, seconds)
        }),
{
}

} // verus!
