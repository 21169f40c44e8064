//! Demands: averages of the load over the demand period.

use crate::laws::clock::lemma_time_of_day;
use crate::quantity::Quantity;
use crate::simulation::demand_window::{
    average, calculation_due, demands_updated, power_sum, raised_registers, slid, trimmed,
    PowerKind, PowerSample,
};
use crate::simulation::measurement::present_rate;
use crate::simulation::state::{demand_key, DemandValue, EnergyType, MeterState};
use crate::simulation::tariff::{law_rate_of_latest_slot, TimeSlot};
use crate::time::DateTime;
use vstd::prelude::*;

verus! {

/// Samples stand in order of time.
pub open spec fn in_time_order(window: Seq<PowerSample>) -> bool {
    forall|i: int, j: int|
        0 <= i <= j < window.len() ==> (#[trigger] window[i]).timestamp.total_nanos() <= (
        #[trigger] window[j]).timestamp.total_nanos()
}

proof fn lemma_trimmed(window: Seq<PowerSample>, now: DateTime, limit: int)
    requires
        in_time_order(window),
    ensures
        ({
            let left = trimmed(window, now, limit);
            let gone = window.len() - left.len();
            &&& 0 <= gone
            &&& left == window.skip(gone)
            &&& forall|i: int|
                0 <= i < window.len() ==> (i < gone <==> now.total_nanos() - (
                #[trigger] window[i]).timestamp.total_nanos() > limit)
        }),
    decreases window.len(),
{
    if window.len() > 0 && now.total_nanos() - window[0].timestamp.total_nanos() > limit {
        let rest = window.skip(1);
        assert forall|i: int, j: int| 0 <= i <= j < rest.len() implies (
        #[trigger] rest[i]).timestamp.total_nanos() <= (
        #[trigger] rest[j]).timestamp.total_nanos() by {
            assert(rest[i] == window[i + 1] && rest[j] == window[j + 1]);
        }
        lemma_trimmed(rest, now, limit);
        let left = trimmed(rest, now, limit);
        let gone = window.len() - left.len();
        assert(left =~= window.skip(gone));
        assert forall|i: int| 0 <= i < window.len() implies (i < gone <==> now.total_nanos() - (
        #[trigger] window[i]).timestamp.total_nanos() > limit) by {
            if i > 0 {
                assert(rest[i - 1] == window[i]);
            }
        }
    } else {
        assert(window.skip(0) =~= window);
        assert forall|i: int| 0 <= i < window.len() implies now.total_nanos() - (
        #[trigger] window[i]).timestamp.total_nanos() <= limit by {
            assert(window[0].timestamp.total_nanos() <= window[i].timestamp.total_nanos());
        }
    }
}

/// The window holds the present powers last, and before them exactly the samples that are not
/// older than the demand period.
pub proof fn law_window_holds_the_period(window: Seq<PowerSample>, s: MeterState)
    requires
        in_time_order(window),
        forall|i: int|
            0 <= i < window.len() ==> (#[trigger] window[i]).timestamp.total_nanos()
                <= s.virtual_time.total_nanos(),
    ensures
        ({
            let after = slid(window, s);
            let period = s.demand_period_minutes * 60_000_000_000;
            let newest = after.last();
            let gone = window.len() + 1 - after.len();
            &&& after.len() > 0
            &&& newest.timestamp == s.virtual_time
            &&& newest.power == s.active_power_total
            &&& newest.power_a == s.active_power_a
            &&& newest.power_b == s.active_power_b
            &&& newest.power_c == s.active_power_c
            &&& newest.reactive_total == s.reactive_power_total
            &&& 0 <= gone <= window.len()
            &&& after.drop_last() == window.skip(gone)
            &&& forall|i: int|
                0 <= i < window.len() ==> (i < gone <==> s.virtual_time.total_nanos() - (
                #[trigger] window[i]).timestamp.total_nanos() > period)
        }),
{
    let all = window.push(crate::simulation::demand_window::present_sample(s));
    let period = s.demand_period_minutes * 60_000_000_000;
    assert forall|i: int, j: int| 0 <= i <= j < all.len() implies (
    #[trigger] all[i]).timestamp.total_nanos() <= (
    #[trigger] all[j]).timestamp.total_nanos() by {
        if j < window.len() {
            assert(all[i] == window[i] && all[j] == window[j]);
        } else if i < window.len() {
            assert(all[i] == window[i]);
        }
    }
    lemma_trimmed(all, s.virtual_time, period);
    let after = slid(window, s);
    let gone = all.len() - after.len();
    assert(gone <= window.len()) by {
        assert(all[window.len() as int].timestamp == s.virtual_time);
    }
    assert(after.drop_last() =~= window.skip(gone));
    assert forall|i: int| 0 <= i < window.len() implies (i < gone <==> s.virtual_time.total_nanos()
        - (#[trigger] window[i]).timestamp.total_nanos() > period) by {
        assert(all[i] == window[i]);
    }
}

proof fn lemma_sum_between(window: Seq<PowerSample>, kind: PowerKind, low: int, high: int)
    requires
        forall|i: int| 0 <= i < window.len() ==> low <= (#[trigger] window[i]).of(kind) <= high,
    ensures
        low * window.len() <= power_sum(window, kind) <= high * window.len(),
    decreases window.len(),
{
    if window.len() > 0 {
        let rest = window.drop_last();
        assert forall|i: int| 0 <= i < rest.len() implies low <= (#[trigger] rest[i]).of(kind)
            <= high by {
            assert(rest[i] == window[i]);
        }
        lemma_sum_between(rest, kind, low, high);
        assert(window.last() == window[window.len() - 1]);
        assert(low * window.len() == low * rest.len() + low) by (nonlinear_arith)
            requires
                window.len() == rest.len() + 1,
        ;
        assert(high * window.len() == high * rest.len() + high) by (nonlinear_arith)
            requires
                window.len() == rest.len() + 1,
        ;
    }
}

proof fn lemma_sum_concat(a: Seq<PowerSample>, b: Seq<PowerSample>, kind: PowerKind)
    ensures
        power_sum(a + b, kind) == power_sum(a, kind) + power_sum(b, kind),
    decreases b.len(),
{
    if b.len() > 0 {
        lemma_sum_concat(a, b.drop_last(), kind);
        assert((a + b).drop_last() =~= a + b.drop_last());
    } else {
        assert(a + b =~= a);
    }
}

proof fn lemma_average_exact(window: Seq<PowerSample>, kind: PowerKind)
    requires
        window.len() > 0,
    ensures
        average(window, kind) == power_sum(window, kind) / window.len() as int,
        average(window, kind) * window.len() <= power_sum(window, kind) < (average(window, kind)
            + 1) * window.len(),
{
    reveal(average);
    lemma_sum_between(window, kind, i64::MIN as int, i64::MAX as int);
    let (t, n) = (power_sum(window, kind), window.len() as int);
    let q = t / n;
    vstd::arithmetic::div_mod::lemma_fundamental_div_mod(t, n);
    assert(q * n <= t < (q + 1) * n) by (nonlinear_arith)
        requires
            t == n * q + t % n,
            0 <= t % n < n,
    ;
    assert(i64::MIN <= q <= i64::MAX) by (nonlinear_arith)
        requires
            q * n <= t < (q + 1) * n,
            n > 0,
            i64::MIN * n <= t <= i64::MAX * n,
    ;
}

/// An average lies between the least and the greatest of the samples.
pub proof fn law_average_lies_between(
    window: Seq<PowerSample>,
    kind: PowerKind,
    low: Quantity,
    high: Quantity,
)
    requires
        window.len() > 0,
        forall|i: int| 0 <= i < window.len() ==> low <= (#[trigger] window[i]).of(kind) <= high,
    ensures
        low <= average(window, kind) <= high,
{
    lemma_average_exact(window, kind);
    lemma_sum_between(window, kind, low as int, high as int);
    let (a, t, n) = (average(window, kind) as int, power_sum(window, kind), window.len() as int);
    assert(low <= a <= high) by (nonlinear_arith)
        requires
            a * n <= t < (a + 1) * n,
            low * n <= t <= high * n,
            n > 0,
    ;
}

/// Parts of a window weigh as much as they have samples: the average of the whole makes up for
/// those of its parts, but for less than one billionth per sample.
pub proof fn law_averages_weigh_by_samples(
    a: Seq<PowerSample>,
    b: Seq<PowerSample>,
    kind: PowerKind,
)
    requires
        a.len() > 0,
        b.len() > 0,
    ensures
        ({
            let whole = average(a + b, kind) * (a.len() + b.len());
            let parts = average(a, kind) * a.len() + average(b, kind) * b.len();
            -(a.len() + b.len()) < whole - parts < a.len() + b.len()
        }),
{
    lemma_average_exact(a, kind);
    lemma_average_exact(b, kind);
    lemma_average_exact(a + b, kind);
    lemma_sum_concat(a, b, kind);
    let (x, n) = (average(a, kind) as int, a.len() as int);
    let (y, m) = (average(b, kind) as int, b.len() as int);
    let z = average(a + b, kind) as int;
    assert((x + 1) * n == x * n + n) by (nonlinear_arith);
    assert((y + 1) * m == y * m + m) by (nonlinear_arith);
    assert((z + 1) * (n + m) == z * (n + m) + n + m) by (nonlinear_arith);
}

/// A register of demand rises to a value: it keeps the larger one, with the time at which it
/// came.
pub open spec fn rises(
    before: Map<u32, DemandValue>,
    after: Map<u32, DemandValue>,
    key: u32,
    value: Quantity,
    now: DateTime,
) -> bool {
    &&& after.contains_key(key)
    &&& !before.contains_key(key) || value > before[key].value ==> after[key].value == value
        && after[key].time == now
    &&& before.contains_key(key) && value <= before[key].value ==> after[key] == before[key]
}

/// Every sample of the window has the given powers: total, phases and reactive.
pub open spec fn steady(
    window: Seq<PowerSample>,
    p: Quantity,
    pa: Quantity,
    pb: Quantity,
    pc: Quantity,
    q: Quantity,
) -> bool {
    forall|i: int|
        0 <= i < window.len() ==> {
            &&& (#[trigger] window[i]).power == p
            &&& window[i].power_a == pa
            &&& window[i].power_b == pb
            &&& window[i].power_c == pc
            &&& window[i].reactive_total == q
        }
}

/// A load that was steady over the demand period is the demand: the registers of the total, of
/// the present rate and of the phases rise to its powers, the reactive ones to its reactive
/// power, and no other register changes.
#[verifier::rlimit(50)]
pub proof fn law_steady_load_is_the_demand(
    before: MeterState,
    after: MeterState,
    window: Seq<PowerSample>,
    last: Option<DateTime>,
    p: Quantity,
    pa: Quantity,
    pb: Quantity,
    pc: Quantity,
    q: Quantity,
    key: u32,
)
    requires
        demands_updated(before, after, window, last),
        before.sliding_window_minutes == 0 || last is None,
        window.len() > 0,
        steady(window, p, pa, pb, pc, q),
        present_rate(before) != 0,
    ensures
        ({
            let (m0, m1) = (before.demand_registers@, after.demand_registers@);
            let now = before.virtual_time;
            let rate = present_rate(before);
            &&& rises(m0, m1, demand_key(0, 0, EnergyType::ForwardActive, 0), p, now)
            &&& rises(m0, m1, demand_key(0, 0, EnergyType::ForwardActive, rate), p, now)
            &&& rises(m0, m1, demand_key(0, 1, EnergyType::ForwardActive, 0), pa, now)
            &&& rises(m0, m1, demand_key(0, 2, EnergyType::ForwardActive, 0), pb, now)
            &&& rises(m0, m1, demand_key(0, 3, EnergyType::ForwardActive, 0), pc, now)
            &&& rises(m0, m1, demand_key(0, 0, EnergyType::ForwardReactive, 0), q, now)
            &&& rises(m0, m1, demand_key(0, 0, EnergyType::ForwardReactive, rate), q, now)
            &&& ({
                &&& key != demand_key(0, 0, EnergyType::ForwardActive, 0)
                &&& key != demand_key(0, 0, EnergyType::ForwardActive, rate)
                &&& key != demand_key(0, 1, EnergyType::ForwardActive, 0)
                &&& key != demand_key(0, 2, EnergyType::ForwardActive, 0)
                &&& key != demand_key(0, 3, EnergyType::ForwardActive, 0)
                &&& key != demand_key(0, 0, EnergyType::ForwardReactive, 0)
                &&& key != demand_key(0, 0, EnergyType::ForwardReactive, rate)
            } ==> m1.contains_key(key) == m0.contains_key(key) && m1[key] == m0[key])
            &&& p > before.max_demand ==> after.max_demand == p && after.max_demand_time == now
            &&& p <= before.max_demand ==> after.max_demand == before.max_demand
                && after.max_demand_time == before.max_demand_time
            &&& after.energy_registers == before.energy_registers
        }),
{
    law_average_lies_between(window, PowerKind::Total, p, p);
    law_average_lies_between(window, PowerKind::PhaseA, pa, pa);
    law_average_lies_between(window, PowerKind::PhaseB, pb, pb);
    law_average_lies_between(window, PowerKind::PhaseC, pc, pc);
    law_average_lies_between(window, PowerKind::Reactive, q, q);
    assert(after.demand_registers@ == raised_registers(before, window));
}

/// The demand never exceeds the greatest power in the window, unless it did before.
pub proof fn law_demand_stays_within_the_load(
    before: MeterState,
    after: MeterState,
    window: Seq<PowerSample>,
    last: Option<DateTime>,
    high: Quantity,
)
    requires
        demands_updated(before, after, window, last),
        window.len() > 0,
        forall|i: int| 0 <= i < window.len() ==> (#[trigger] window[i]).power <= high,
    ensures
        after.max_demand <= high || after.max_demand == before.max_demand,
        after.max_demand >= before.max_demand,
{
    if calculation_due(last, before) {
        assert forall|i: int| 0 <= i < window.len() implies i64::MIN <= (#[trigger] window[i]).of(
            PowerKind::Total,
        ) <= high by {}
        law_average_lies_between(window, PowerKind::Total, i64::MIN, high);
    }
}

/// With a sliding step, demands are looked at again only when the step has passed since the
/// last time; between two such times nothing changes.
pub proof fn law_demands_wait_for_the_step(
    before: MeterState,
    after: MeterState,
    window: Seq<PowerSample>,
    last: DateTime,
)
    requires
        demands_updated(before, after, window, Some(last)),
        before.sliding_window_minutes > 0,
    ensures
        before.virtual_time.total_nanos() < last.total_nanos() + before.sliding_window_minutes
            * 60_000_000_000 ==> after == before,
        before.virtual_time.total_nanos() >= last.total_nanos() + before.sliding_window_minutes
            * 60_000_000_000 ==> after.demand_registers@.contains_key(
            demand_key(0, 0, EnergyType::ForwardActive, 0),
        ),
{
}

/// The minute of the day at which a slot starts.
pub open spec fn slot_minute(slot: TimeSlot) -> int {
    60 * slot.start_hour + slot.start_minute
}

/// The present rate is that of the slot in which the time of day lies, and rate 1 before the
/// first slot.
pub proof fn law_present_rate_is_of_its_slot(s: MeterState, k: int)
    requires
        s.virtual_time.valid(),
        forall|i: int, j: int|
            0 <= i < j < s.tou_config.day_table_1.slots@.len() ==> slot_minute(
                #[trigger] s.tou_config.day_table_1.slots@[i],
            ) < slot_minute(#[trigger] s.tou_config.day_table_1.slots@[j]),
        0 <= k < s.tou_config.day_table_1.slots@.len(),
    ensures
        ({
            let slots = s.tou_config.day_table_1.slots@;
            let minute = s.virtual_time.secs() % 86400 / 60;
            &&& slot_minute(slots[k]) <= minute && (k + 1 < slots.len() ==> minute < slot_minute(
                slots[k + 1],
            )) ==> present_rate(s) == slots[k].rate_number
            &&& minute < slot_minute(slots[0]) ==> present_rate(s) == 1
        }),
{
    lemma_time_of_day(s.virtual_time);
    let slots = s.tou_config.day_table_1.slots@;
    let minute = s.virtual_time.secs() % 86400 / 60;
    assert forall|i: int, j: int| 0 <= i < j < slots.len() implies (#[trigger] slots[i]).start() < (
    #[trigger] slots[j]).start() by {
        assert(slot_minute(slots[i]) < slot_minute(slots[j]));
    }
    if slot_minute(slots[k]) <= minute && (k + 1 < slots.len() ==> minute < slot_minute(
        slots[k + 1],
    )) {
        law_rate_of_latest_slot(slots, minute, k);
    }
}

/// A new meter counts rate 4 at night, from 22 to 8, rate 2 until noon, rate 3 until 18 and
/// rate 1 until 22.
#[verifier::rlimit(50)]
pub proof fn law_rates_of_a_new_meter(s: MeterState)
    requires
        s.virtual_time.valid(),
        s.tou_config.is_default(),
    ensures
        ({
            let second = s.virtual_time.secs() % 86400;
            &&& present_rate(s) == 4 <==> second < 8 * 3600 || second >= 22 * 3600
            &&& present_rate(s) == 2 <==> 8 * 3600 <= second < 12 * 3600
            &&& present_rate(s) == 3 <==> 12 * 3600 <= second < 18 * 3600
            &&& present_rate(s) == 1 <==> 18 * 3600 <= second < 22 * 3600
        }),
{
    let slots = s.tou_config.day_table_1.slots@;
    law_present_rate_is_of_its_slot(s, 0);
    law_present_rate_is_of_its_slot(s, 1);
    law_present_rate_is_of_its_slot(s, 2);
    law_present_rate_is_of_its_slot(s, 3);
    law_present_rate_is_of_its_slot(s, 4);
    assert(slot_minute(slots[0]) == 0);
    assert(slot_minute(slots[1]) == 480);
    assert(slot_minute(slots[2]) == 720);
    assert(slot_minute(slots[3]) == 1080);
    assert(slot_minute(slots[4]) == 1320);
}

} // verus!
