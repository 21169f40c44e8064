//! Maximum demands: averages over a sliding window.

use crate::quantity::{floor_div, Quantity};
use crate::simulation::measurement::present_rate;
use crate::simulation::state::{
    demand_key, make_demand_key, DemandValue, EnergyType, MeterState,
};
use crate::table::Table;
use crate::time::DateTime;
use vstd::prelude::*;

verus! {

/// Powers at one moment.
#[derive(Debug, Clone, Copy, PartialEq, Eq, Structural)]
pub struct PowerSample {
    pub timestamp: DateTime,
    pub power: Quantity,
    pub power_a: Quantity,
    pub power_b: Quantity,
    pub power_c: Quantity,
    pub reactive_total: Quantity,
}

/// The powers of the present moment.
pub open spec fn present_sample(s: MeterState) -> PowerSample {
    PowerSample {
        timestamp: s.virtual_time,
        power: s.active_power_total,
        power_a: s.active_power_a,
        power_b: s.active_power_b,
        power_c: s.active_power_c,
        reactive_total: s.reactive_power_total,
    }
}

/// The window without the samples at its start that are older than `limit` nanoseconds.
pub open spec fn trimmed(window: Seq<PowerSample>, now: DateTime, limit: int) -> Seq<PowerSample>
    decreases window.len(),
{
    if window.len() > 0 && now.total_nanos() - window[0].timestamp.total_nanos() > limit {
        trimmed(window.skip(1), now, limit)
    } else {
        window
    }
}

/// The window after one more sample: it spans the demand period.
pub open spec fn slid(window: Seq<PowerSample>, s: MeterState) -> Seq<PowerSample> {
    trimmed(
        window.push(present_sample(s)),
        s.virtual_time,
        s.demand_period_minutes * 60_000_000_000,
    )
}

/// Which power of a sample.
#[derive(Debug, Clone, Copy, PartialEq, Eq, Structural)]
pub enum PowerKind {
    Total,
    PhaseA,
    PhaseB,
    PhaseC,
    Reactive,
}

impl PowerSample {
    pub open spec fn of(self, kind: PowerKind) -> Quantity {
        match kind {
            PowerKind::Total => self.power,
            PowerKind::PhaseA => self.power_a,
            PowerKind::PhaseB => self.power_b,
            PowerKind::PhaseC => self.power_c,
            PowerKind::Reactive => self.reactive_total,
        }
    }

    fn get(&self, kind: PowerKind) -> (r: Quantity)
        ensures
            r == self.of(kind),
    {
        match kind {
            PowerKind::Total => self.power,
            PowerKind::PhaseA => self.power_a,
            PowerKind::PhaseB => self.power_b,
            PowerKind::PhaseC => self.power_c,
            PowerKind::Reactive => self.reactive_total,
        }
    }
}

pub open spec fn power_sum(window: Seq<PowerSample>, kind: PowerKind) -> int
    decreases window.len(),
{
    if window.len() == 0 {
        0
    } else {
        power_sum(window.drop_last(), kind) + window.last().of(kind)
    }
}

/// The average of a power over the window, rounded down.
#[verifier::opaque]
pub open spec fn average(window: Seq<PowerSample>, kind: PowerKind) -> Quantity {
    (power_sum(window, kind) / window.len() as int) as Quantity
}

fn average_of(window: &Vec<PowerSample>, kind: PowerKind) -> (r: Quantity)
    requires
        window@.len() > 0,
    ensures
        r == average(window@, kind),
{
    proof {
        reveal(average);
    }
    let mut total: i128 = 0;
    for i in 0..window.len()
        invariant
            total == power_sum(window@.take(i as int), kind),
            -0x8000_0000_0000_0000 * i <= total <= 0x7FFF_FFFF_FFFF_FFFF * i,
    {
        proof {
            let next = window@.take(i + 1);
            assert(next.drop_last() =~= window@.take(i as int));
            assert(next.last() == window@[i as int]);
        }
        total = total + window[i].get(kind) as i128;
    }
    assert(window@.take(window@.len() as int) =~= window@);
    let n: i128 = window.len() as i128;
    let r: i128 = floor_div(total, n);
    proof {
        let q = total as int / n as int;
        vstd::arithmetic::div_mod::lemma_fundamental_div_mod(total as int, n as int);
        assert(-0x8000_0000_0000_0000 <= q <= 0x7FFF_FFFF_FFFF_FFFF) by (nonlinear_arith)
            requires
                n > 0,
                total == n * q + total as int % n as int,
                0 <= total as int % n as int,
                (total as int % n as int) < n,
                -0x8000_0000_0000_0000 * n <= total <= 0x7FFF_FFFF_FFFF_FFFF * n,
        ;
    }
    r as i64
}

/// A register that keeps the larger of its value and the new one.
pub open spec fn raised(
    m: Map<u32, DemandValue>,
    key: u32,
    value: Quantity,
    time: DateTime,
) -> Map<u32, DemandValue> {
    if m.contains_key(key) && value <= m[key].value {
        m
    } else {
        m.insert(key, DemandValue { value, time })
    }
}

fn raise(registers: &mut Table<DemandValue>, key: u32, value: Quantity, time: DateTime)
    ensures
        final(registers)@ == raised(old(registers)@, key, value, time),
{
    let higher: bool = match registers.get(key) {
        Some(existing) => value > existing.value,
        None => true,
    };
    if higher {
        registers.insert(key, DemandValue { value, time });
    }
}

/// A new calculation is due: always without a sliding step, else when the step has passed
/// since the last one.
pub open spec fn calculation_due(last: Option<DateTime>, s: MeterState) -> bool {
    s.sliding_window_minutes == 0 || match last {
        None => true,
        Some(t) => s.virtual_time.total_nanos() - t.total_nanos() >= s.sliding_window_minutes
            * 60_000_000_000,
    }
}

/// The demand registers after a calculation: total, present rate and phases of forward
/// active power, and total and present rate of forward reactive power.
pub open spec fn raised_registers(s: MeterState, window: Seq<PowerSample>) -> Map<
    u32,
    DemandValue,
> {
    let now = s.virtual_time;
    let rate = present_rate(s);
    let total = average(window, PowerKind::Total);
    let reactive = average(window, PowerKind::Reactive);
    let m0 = raised(
        s.demand_registers@,
        demand_key(0, 0, EnergyType::ForwardActive, 0),
        total,
        now,
    );
    let m1 = raised(m0, demand_key(0, 0, EnergyType::ForwardActive, rate), total, now);
    let m2 = raised(
        m1,
        demand_key(0, 1, EnergyType::ForwardActive, 0),
        average(window, PowerKind::PhaseA),
        now,
    );
    let m3 = raised(
        m2,
        demand_key(0, 2, EnergyType::ForwardActive, 0),
        average(window, PowerKind::PhaseB),
        now,
    );
    let m4 = raised(
        m3,
        demand_key(0, 3, EnergyType::ForwardActive, 0),
        average(window, PowerKind::PhaseC),
        now,
    );
    let m5 = raised(m4, demand_key(0, 0, EnergyType::ForwardReactive, 0), reactive, now);
    raised(m5, demand_key(0, 0, EnergyType::ForwardReactive, rate), reactive, now)
}

/// What becomes of the demands in one step.
pub open spec fn demands_updated(
    before: MeterState,
    after: MeterState,
    window: Seq<PowerSample>,
    last: Option<DateTime>,
) -> bool {
    if calculation_due(last, before) {
        let total = average(window, PowerKind::Total);
        &&& after.demand_registers@ == raised_registers(before, window)
        &&& after == (MeterState {
            demand_registers: after.demand_registers,
            max_demand: if total > before.max_demand {
                total
            } else {
                before.max_demand
            },
            max_demand_time: if total > before.max_demand {
                before.virtual_time
            } else {
                before.max_demand_time
            },
            ..before
        })
    } else {
        after == before
    }
}

/// Takes a sample and, when a calculation is due, raises the demands to the averages of the
/// window.
pub fn update_max_demand(
    window: &mut Vec<PowerSample>,
    last_calculation: &mut Option<DateTime>,
    state: &mut MeterState,
)
    ensures
        final(window)@ == slid(old(window)@, *old(state)),
        *final(last_calculation) == (if calculation_due(*old(last_calculation), *old(state)) {
            Some(old(state).virtual_time)
        } else {
            *old(last_calculation)
        }),
        demands_updated(*old(state), *final(state), final(window)@, *old(last_calculation)),
{
    let now = state.virtual_time;
    let limit: i128 = state.demand_period_minutes as i128 * 60_000_000_000;
    let ghost s = *state;
    let ghost target = slid(window@, s);
    window.push(
        PowerSample {
            timestamp: now,
            power: state.active_power_total,
            power_a: state.active_power_a,
            power_b: state.active_power_b,
            power_c: state.active_power_c,
            reactive_total: state.reactive_power_total,
        },
    );
    while window.len() > 0 && now.nanos_since(&window[0].timestamp) > limit
        invariant
            now == s.virtual_time,
            limit == s.demand_period_minutes * 60_000_000_000,
            target == trimmed(window@, now, limit as int),
        decreases window@.len(),
    {
        let ghost before = window@;
        window.remove(0);
        assert(window@ =~= before.skip(1));
    }
    proof {
        assert(window@ == target);
        lemma_newest_stays(old(window)@.push(present_sample(s)), now, limit as int);
    }
    let due: bool = state.sliding_window_minutes == 0 || match *last_calculation {
        Some(last) => now.nanos_since(&last) >= state.sliding_window_minutes as i128
            * 60_000_000_000,
        None => true,
    };
    if !due {
        return ;
    }
    *last_calculation = Some(now);
    let total: Quantity = average_of(window, PowerKind::Total);
    let reactive: Quantity = average_of(window, PowerKind::Reactive);
    let rate: u8 = state.tou_config.day_table_1.get_rate_at_time(&state.virtual_time);
    if total > state.max_demand {
        state.max_demand = total;
        state.max_demand_time = now;
    }
    raise(
        &mut state.demand_registers,
        make_demand_key(0, 0, EnergyType::ForwardActive, 0),
        total,
        now,
    );
    raise(
        &mut state.demand_registers,
        make_demand_key(0, 0, EnergyType::ForwardActive, rate),
        total,
        now,
    );
    raise(
        &mut state.demand_registers,
        make_demand_key(0, 1, EnergyType::ForwardActive, 0),
        average_of(window, PowerKind::PhaseA),
        now,
    );
    raise(
        &mut state.demand_registers,
        make_demand_key(0, 2, EnergyType::ForwardActive, 0),
        average_of(window, PowerKind::PhaseB),
        now,
    );
    raise(
        &mut state.demand_registers,
        make_demand_key(0, 3, EnergyType::ForwardActive, 0),
        average_of(window, PowerKind::PhaseC),
        now,
    );
    raise(
        &mut state.demand_registers,
        make_demand_key(0, 0, EnergyType::ForwardReactive, 0),
        reactive,
        now,
    );
    raise(
        &mut state.demand_registers,
        make_demand_key(0, 0, EnergyType::ForwardReactive, rate),
        reactive,
        now,
    );
}

proof fn lemma_newest_stays(window: Seq<PowerSample>, now: DateTime, limit: int)
    requires
        window.len() > 0,
        window.last().timestamp == now,
        limit >= 0,
    ensures
        trimmed(window, now, limit).len() > 0,
    decreases window.len(),
{
    if now.total_nanos() - window[0].timestamp.total_nanos() > limit {
        assert(window.len() > 1);
        assert(window.skip(1).last() == window.last());
        lemma_newest_stays(window.skip(1), now, limit);
    }
}

/// Within a settlement period no demand register ever falls.
pub proof fn law_demands_never_fall(
    before: MeterState,
    after: MeterState,
    window: Seq<PowerSample>,
    last: Option<DateTime>,
    key: u32,
)
    requires
        demands_updated(before, after, window, last),
    ensures
        after.max_demand >= before.max_demand,
        before.demand_registers@.contains_key(key) ==> after.demand_registers@.contains_key(key)
            && after.demand_registers@[key].value >= before.demand_registers@[key].value,
{
}

/// In a window whose samples are in order of time, all samples that are left lie within the
/// demand period.
pub proof fn law_window_spans_period(window: Seq<PowerSample>, now: DateTime, limit: int, k: int)
    requires
        forall|i: int, j: int|
            0 <= i <= j < window.len() ==> (#[trigger] window[i]).timestamp.total_nanos() <= (
            #[trigger] window[j]).timestamp.total_nanos(),
        0 <= k < trimmed(window, now, limit).len(),
    ensures
        now.total_nanos() - trimmed(window, now, limit)[k].timestamp.total_nanos() <= limit,
    decreases window.len(),
{
    if now.total_nanos() - window[0].timestamp.total_nanos() > limit {
        let rest = window.skip(1);
        assert forall|i: int, j: int| 0 <= i <= j < rest.len() implies (
        #[trigger] rest[i]).timestamp.total_nanos() <= (
        #[trigger] rest[j]).timestamp.total_nanos() by {
            assert(rest[i] == window[i + 1] && rest[j] == window[j + 1]);
        }
        law_window_spans_period(rest, now, limit, k);
    } else {
        assert(window[0].timestamp.total_nanos() <= window[k].timestamp.total_nanos());
    }
}

} // verus!
