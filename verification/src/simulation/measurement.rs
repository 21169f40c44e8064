//! One step of the simulated physics: voltages, currents, powers and pulses.

use crate::quantity::{
    clamp_quantity, clamped, floor_div, product, product_of, sine, sine_of, sum, thousandth,
    thousandth_of, Quantity,
};
use crate::simulation::load_model::{load_factor, LoadModelConfig};
use crate::simulation::state::{energy_key, EnergyType, MeterState};
use crate::simulation::tariff::{minute_of_day, rate_at};
use rand::Rng;
use vstd::prelude::*;

verus! {

/// `rand::thread_rng().gen_range` over billionths from -1 to below 1. Nothing is claimed of
/// the number but that it lies in the range.
#[verifier::external_body]
pub(crate) fn small_noise() -> (r: Quantity)
    ensures
        -1_000_000_000 <= r < 1_000_000_000,
{
    rand::thread_rng().gen_range(-1_000_000_000i64..1_000_000_000i64)
}

/// The draws that one step of the physics takes: three voltages, power factor, frequency.
#[derive(Debug, Clone, Copy)]
pub struct Noise {
    pub voltages: [Quantity; 3],
    pub power_factor: Quantity,
    pub frequency: Quantity,
}

impl Noise {
    /// All draws lie from -1 to below 1.
    pub open spec fn in_range(self) -> bool {
        &&& forall|i: int|
            0 <= i < 3 ==> -1_000_000_000 <= #[trigger] self.voltages@[i] < 1_000_000_000
        &&& -1_000_000_000 <= self.power_factor < 1_000_000_000
        &&& -1_000_000_000 <= self.frequency < 1_000_000_000
    }

    /// Draws from -1 to below 1.
    pub fn draw() -> (r: Noise)
        ensures
            r.in_range(),
    {
        Noise {
            voltages: [small_noise(), small_noise(), small_noise()],
            power_factor: small_noise(),
            frequency: small_noise(),
        }
    }
}

/// A value in thousandths as a quantity.
pub open spec fn from_thousandths(n: u32) -> Quantity {
    (n * 1_000_000) as i64
}

/// A value that strays from its base by a share of an amplitude.
pub open spec fn strayed(base: Quantity, noise: Quantity, amplitude: Quantity) -> Quantity {
    clamped(base + product_of(noise, amplitude))
}

pub open spec fn limited(v: Quantity, low: Quantity, high: Quantity) -> Quantity {
    if v < low {
        low
    } else if v > high {
        high
    } else {
        v
    }
}

/// Power in kW: voltage, current and a factor.
pub open spec fn power_of(voltage: Quantity, current: Quantity, factor: Quantity) -> Quantity {
    thousandth_of(product_of(product_of(voltage, current), factor))
}

/// The current of a phase: the rated current, the load factor and the phase's own factor.
pub open spec fn phase_current(s: MeterState, m: LoadModelConfig, phase: int) -> Quantity {
    product_of(
        product_of(
            from_thousandths(s.rated_current),
            load_factor(m.profile, s.virtual_time.cal().hour),
        ),
        m.phase_current_factors@[phase],
    )
}

/// The voltage of a phase: the rated voltage and its noise.
pub open spec fn phase_voltage(s: MeterState, m: LoadModelConfig, n: Noise, phase: int) -> Quantity {
    strayed(from_thousandths(s.rated_voltage), n.voltages@[phase], m.voltage_noise_v)
}

/// The state with the measured values of the present load, given the noise.
pub open spec fn measured(s: MeterState, m: LoadModelConfig, n: Noise) -> MeterState {
    let (va, vb, vc) = (
        phase_voltage(s, m, n, 0),
        phase_voltage(s, m, n, 1),
        phase_voltage(s, m, n, 2),
    );
    let (ia, ib, ic) = (phase_current(s, m, 0), phase_current(s, m, 1), phase_current(s, m, 2));
    let pf = limited(
        strayed(s.power_factor, n.power_factor, m.power_factor_noise),
        m.power_factor_min,
        m.power_factor_max,
    );
    let (pa, pb, pc) = (power_of(va, ia, pf), power_of(vb, ib, pf), power_of(vc, ic, pf));
    let sin = sine_of(pf);
    let (qa, qb, qc) = (power_of(va, ia, sin), power_of(vb, ib, sin), power_of(vc, ic, sin));
    MeterState {
        voltage_a: va,
        voltage_b: vb,
        voltage_c: vc,
        current_a: ia,
        current_b: ib,
        current_c: ic,
        power_factor: pf,
        frequency: strayed(
            (s.rated_frequency * 1_000_000_000) as i64,
            n.frequency,
            m.frequency_noise_hz,
        ),
        active_power_a: pa,
        active_power_b: pb,
        active_power_c: pc,
        active_power_total: clamped(clamped(pa + pb) + pc),
        reactive_power_a: qa,
        reactive_power_b: qb,
        reactive_power_c: qc,
        reactive_power_total: clamped(clamped(qa + qb) + qc),
        apparent_power_total: clamped(
            clamped(
                thousandth_of(product_of(va, ia)) + thousandth_of(product_of(vb, ib)),
            ) + thousandth_of(product_of(vc, ic)),
        ),
        ..s
    }
}

fn stray(base: Quantity, noise: Quantity, amplitude: Quantity) -> (r: Quantity)
    ensures
        r == strayed(base, noise, amplitude),
{
    sum(base, product(noise, amplitude))
}

fn limit(v: Quantity, low: Quantity, high: Quantity) -> (r: Quantity)
    ensures
        r == limited(v, low, high),
{
    if v < low {
        low
    } else if v > high {
        high
    } else {
        v
    }
}

fn power(voltage: Quantity, current: Quantity, factor: Quantity) -> (r: Quantity)
    ensures
        r == power_of(voltage, current, factor),
{
    thousandth(product(product(voltage, current), factor))
}

/// Measures the present load, given the noise.
pub fn measure(state: &mut MeterState, model: &LoadModelConfig, noise: &Noise)
    requires
        model.power_factor_min <= model.power_factor_max,
    ensures
        *final(state) == measured(*old(state), *model, *noise),
{
    let factor: Quantity = model.get_load_factor(&state.virtual_time);
    let voltage_base: Quantity = state.rated_voltage as i64 * 1_000_000;
    let va: Quantity = stray(voltage_base, noise.voltages[0], model.voltage_noise_v);
    let vb: Quantity = stray(voltage_base, noise.voltages[1], model.voltage_noise_v);
    let vc: Quantity = stray(voltage_base, noise.voltages[2], model.voltage_noise_v);
    let current_base: Quantity = product(state.rated_current as i64 * 1_000_000, factor);
    let ia: Quantity = product(current_base, model.phase_current_factors[0]);
    let ib: Quantity = product(current_base, model.phase_current_factors[1]);
    let ic: Quantity = product(current_base, model.phase_current_factors[2]);
    let pf: Quantity = limit(
        stray(state.power_factor, noise.power_factor, model.power_factor_noise),
        model.power_factor_min,
        model.power_factor_max,
    );
    let frequency: Quantity = stray(
        state.rated_frequency as i64 * 1_000_000_000,
        noise.frequency,
        model.frequency_noise_hz,
    );
    let sin: Quantity = sine(pf);
    state.voltage_a = va;
    state.voltage_b = vb;
    state.voltage_c = vc;
    state.current_a = ia;
    state.current_b = ib;
    state.current_c = ic;
    state.power_factor = pf;
    state.frequency = frequency;
    state.active_power_a = power(va, ia, pf);
    state.active_power_b = power(vb, ib, pf);
    state.active_power_c = power(vc, ic, pf);
    state.active_power_total = sum(
        sum(state.active_power_a, state.active_power_b),
        state.active_power_c,
    );
    state.reactive_power_a = power(va, ia, sin);
    state.reactive_power_b = power(vb, ib, sin);
    state.reactive_power_c = power(vc, ic, sin);
    state.reactive_power_total = sum(
        sum(state.reactive_power_a, state.reactive_power_b),
        state.reactive_power_c,
    );
    state.apparent_power_total = sum(
        sum(thousandth(product(va, ia)), thousandth(product(vb, ib))),
        thousandth(product(vc, ic)),
    );
}

/// Power times time times the meter constant that makes one pulse: a kilowatt for an hour,
/// in billionths of a kilowatt and of a second.
pub const PULSE: i128 = 3_600_000_000_000_000_000_000;

/// What is left over between steps, so that nothing is lost by taking many of them.
#[derive(Debug, Clone)]
pub struct PulseCounter {
    /// power times time times the meter constant that is not yet a whole pulse
    pub part: i128,
    /// whole pulses that flowed backwards and must flow forwards before one is counted again
    pub owed: Vec<u128>,
    /// energy that is not yet a billionth of a kWh, in parts of it
    pub rest: u32,
    /// the meter constant that `rest` counts parts of
    pub constant: u32,
}

/// What is left over between steps, as a mathematical value.
pub ghost struct CounterModel {
    /// power times time times the meter constant; below zero after power flowed backwards
    pub pulses: int,
    pub rest: u32,
    pub constant: u32,
}

/// How many pulses are owed.
pub open spec fn sum_owed(owed: Seq<u128>) -> int
    decreases owed.len(),
{
    if owed.len() == 0 {
        0
    } else {
        sum_owed(owed.drop_last()) + owed.last()
    }
}

impl View for PulseCounter {
    type V = CounterModel;

    open spec fn view(&self) -> CounterModel {
        CounterModel {
            pulses: self.part - sum_owed(self.owed@) * PULSE,
            rest: self.rest,
            constant: self.constant,
        }
    }
}

impl CounterModel {
    /// Less than one pulse and less than a billionth of a kWh are left over.
    pub open spec fn wf(self) -> bool {
        &&& self.pulses < PULSE
        &&& self.rest == 0 || self.rest < self.constant
    }
}

impl PulseCounter {
    /// Part of a pulse is left over, and less than a billionth of a kWh.
    pub open spec fn wf(self) -> bool {
        &&& 0 <= self.part < PULSE
        &&& self.rest == 0 || self.rest < self.constant
    }

    /// A counter that has counted nothing.
    pub fn new() -> (r: PulseCounter)
        ensures
            r@ == fresh_counter(),
            r.wf(),
    {
        PulseCounter { part: 0, owed: Vec::new(), rest: 0, constant: 0 }
    }
}

/// A counter that has counted nothing.
pub open spec fn fresh_counter() -> CounterModel {
    CounterModel { pulses: 0, rest: 0, constant: 0 }
}

/// What `nanos` nanoseconds of the present power add.
#[verifier::opaque]
pub open spec fn pulses_in(s: MeterState, nanos: u64) -> int {
    s.active_power_total * nanos * s.meter_constant
}

/// What a step leaves to count, before whole pulses are taken out.
pub open spec fn pulses_due(c: CounterModel, s: MeterState, nanos: u64) -> int {
    c.pulses + pulses_in(s, nanos)
}

/// How many whole pulses there are.
pub open spec fn whole_pulses(due: int) -> int {
    if due < PULSE {
        0
    } else {
        due / PULSE as int
    }
}

/// The parts of a billionth of a kWh left from before: none once the meter constant changed.
pub open spec fn carried(c: CounterModel, s: MeterState) -> int {
    if c.constant == s.meter_constant {
        c.rest as int
    } else {
        0
    }
}

/// The energy of `n` pulses in kWh: one pulse is the meter constant's part of a kWh.
pub open spec fn pulse_energy(c: CounterModel, s: MeterState, n: int) -> Quantity {
    if s.meter_constant == 0 {
        0
    } else {
        clamped((n * 1_000_000_000 + carried(c, s)) / s.meter_constant as int)
    }
}

/// The counter after `nanos` nanoseconds of the present power.
pub open spec fn counted(c: CounterModel, s: MeterState, nanos: u64) -> CounterModel {
    let due = pulses_due(c, s, nanos);
    let n = whole_pulses(due);
    CounterModel {
        pulses: due - n * PULSE,
        rest: if n == 0 {
            c.rest
        } else if s.meter_constant == 0 {
            0
        } else {
            ((n * 1_000_000_000 + carried(c, s)) % s.meter_constant as int) as u32
        },
        constant: if n == 0 {
            c.constant
        } else {
            s.meter_constant
        },
    }
}

/// The rate that applies at the clock's time.
pub open spec fn present_rate(s: MeterState) -> u8 {
    rate_at(s.tou_config.day_table_1.slots@, minute_of_day(s.virtual_time.cal()))
}

/// The energy registers after `n` pulses: the total and then the present rate are credited.
pub open spec fn credited(c: CounterModel, s: MeterState, n: int) -> Map<u32, Quantity> {
    if n == 0 {
        s.energy_registers@
    } else {
        let total = energy_key(EnergyType::ForwardActive, 0);
        let rate = energy_key(EnergyType::ForwardActive, present_rate(s));
        let e = pulse_energy(c, s, n);
        let first = s.energy_registers@.insert(
            total,
            clamped(s.energy(EnergyType::ForwardActive, 0) + e),
        );
        first.insert(
            rate,
            clamped(crate::simulation::state::value_or_zero(first, rate) + e),
        )
    }
}

proof fn lemma_owed_counts(owed: Seq<u128>)
    ensures
        sum_owed(owed) >= 0,
    decreases owed.len(),
{
    if owed.len() > 0 {
        lemma_owed_counts(owed.drop_last());
    }
}

/// Notes `n` more pulses as owed.
fn owe(owed: &mut Vec<u128>, n: u128)
    requires
        n <= 300_000_000_000_000_000_000_000_000,
    ensures
        sum_owed(final(owed)@) == sum_owed(old(owed)@) + n,
{
    let ghost before = owed@;
    if owed.len() > 0 {
        let i: usize = owed.len() - 1;
        if owed[i] <= 300_000_000_000_000_000_000_000_000_000_000_000 {
            let more: u128 = owed[i] + n;
            owed[i] = more;
            assert(owed@.drop_last() =~= before.drop_last());
            return ;
        }
    }
    owed.push(n);
    assert(owed@.drop_last() =~= before);
}

/// Pays what is owed with `n` pulses. Returns how many are left; if any is, nothing is owed.
fn pay(owed: &mut Vec<u128>, n: u128) -> (r: u128)
    ensures
        r <= n,
        sum_owed(old(owed)@) - sum_owed(final(owed)@) == n - r,
        r > 0 ==> sum_owed(final(owed)@) == 0,
        sum_owed(final(owed)@) >= 0,
{
    let mut left: u128 = n;
    while owed.len() > 0 && left > 0
        invariant
            left <= n,
            sum_owed(old(owed)@) - sum_owed(owed@) == n - left,
        decreases owed.len() + left,
    {
        let ghost before = owed@;
        let i: usize = owed.len() - 1;
        let last: u128 = owed[i];
        if last <= left {
            owed.pop();
            assert(owed@ =~= before.drop_last());
            left = left - last;
        } else {
            owed[i] = last - left;
            assert(owed@.drop_last() =~= before.drop_last());
            left = 0;
        }
    }
    proof {
        lemma_owed_counts(owed@);
    }
    left
}

/// Counts `nanos` nanoseconds of the present power from part of a pulse on: how many whole
/// pulses flowed, below zero if backwards, and what is left of one.
fn count_pulses(part: i128, state: &MeterState, nanos: u64) -> (r: (i128, i128))
    requires
        0 <= part < PULSE,
    ensures
        part + pulses_in(*state, nanos) == r.0 * PULSE + r.1,
        -300_000_000_000_000_000_000_000_000 <= r.0 <= 300_000_000_000_000_000_000_000_000,
        0 <= r.1 < PULSE,
{
    let p: i128 = state.active_power_total as i128;
    let constant: i128 = state.meter_constant as i128;
    proof {
        reveal(pulses_in);
        assert(-0x7FFF_FFFF_FFFF_FFFF_8000_0000_0000_0000 <= p * nanos
            <= 0x7FFF_FFFF_FFFF_FFFE_8000_0000_0000_0001) by (nonlinear_arith)
            requires
                -0x8000_0000_0000_0000 <= p <= 0x7FFF_FFFF_FFFF_FFFF,
                0 <= nanos <= 0xFFFF_FFFF_FFFF_FFFF,
        ;
    }
    let flow: i128 = p * nanos as i128;
    let whole_flow: i128 = floor_div(flow, PULSE);
    assert(whole_flow * PULSE <= flow < whole_flow * PULSE + PULSE);
    let part_flow: i128 = if flow >= 0 {
        flow - whole_flow * PULSE
    } else {
        flow - (whole_flow + 1) * PULSE + PULSE
    };
    assert(-50_000_000_000_000_000 <= whole_flow <= 50_000_000_000_000_000);
    proof {
        lemma_times_constant(whole_flow as int, 50_000_000_000_000_000, constant as int);
        lemma_times_constant(part_flow as int, PULSE as int, constant as int);
        assert(0 <= part_flow * constant) by (nonlinear_arith)
            requires
                0 <= part_flow,
                0 <= constant,
        ;
    }
    let both: i128 = part + part_flow * constant;
    let carry: i128 = floor_div(both, PULSE);
    let left: i128 = both - carry * PULSE;
    assert(0 <= left < PULSE);
    let n: i128 = whole_flow * constant + carry;
    assert(part + pulses_in(*state, nanos) == n * PULSE + left) by {
        assert(flow * constant == (whole_flow * constant) * PULSE + part_flow * constant)
            by (nonlinear_arith)
            requires
                flow == whole_flow * PULSE + part_flow,
        ;
    }
    (n, left)
}

proof fn lemma_times_constant(a: int, bound: int, constant: int)
    requires
        -bound <= a <= bound,
        0 <= constant <= 0xFFFF_FFFF,
    ensures
        -bound * 0xFFFF_FFFF <= a * constant <= bound * 0xFFFF_FFFF,
{
    assert(-bound * 0xFFFF_FFFF <= a * constant <= bound * 0xFFFF_FFFF) by (nonlinear_arith)
        requires
            -bound <= a <= bound,
            0 <= constant <= 0xFFFF_FFFF,
    ;
}

/// Adds the energy of `nanos` nanoseconds of the present power. Energy is counted in whole
/// pulses; what is left of a pulse, and what the pulses leave of a billionth of a kWh, is
/// kept in the counter for the next step.
pub fn accumulate(counter: &mut PulseCounter, state: &mut MeterState, nanos: u64)
    requires
        old(counter).wf(),
    ensures
        final(counter).wf(),
        final(counter)@ == counted(old(counter)@, *old(state), nanos),
        final(state).energy_registers@ == credited(
            old(counter)@,
            *old(state),
            whole_pulses(pulses_due(old(counter)@, *old(state), nanos)),
        ),
        *final(state) == (MeterState {
            energy_registers: final(state).energy_registers,
            ..*old(state)
        }),
{
    let (flowed, left): (i128, i128) = count_pulses(counter.part, state, nanos);
    let ghost due = pulses_due(old(counter)@, *old(state), nanos);
    let ghost owed = sum_owed(old(counter).owed@);
    assert(due == (flowed - owed) * PULSE + left) by (nonlinear_arith)
        requires
            due == flowed * PULSE + left - owed * PULSE,
    ;
    counter.part = left;
    let mut n: u128 = 0;
    if flowed < 0 {
        owe(&mut counter.owed, (-flowed) as u128);
        proof {
            lemma_owed_counts(old(counter).owed@);
        }
    } else {
        n = pay(&mut counter.owed, flowed as u128);
    }
    proof {
        let total = sum_owed(counter.owed@);
        assert(n - total == flowed - owed);
        assert(due == (n - total) * PULSE + left);
        if n > 0 {
            vstd::arithmetic::div_mod::lemma_fundamental_div_mod_converse(
                due,
                PULSE as int,
                n as int,
                left as int,
            );
        } else {
            assert((n - total) * PULSE <= 0) by (nonlinear_arith)
                requires
                    n - total <= 0,
            ;
            assert((n - total) * PULSE == -(total * PULSE)) by (nonlinear_arith)
                requires
                    n == 0,
            ;
        }
        assert(n == whole_pulses(due));
        assert(counter@.pulses == due - n * PULSE);
    }
    if n == 0 {
        return ;
    }
    let constant: u32 = state.meter_constant;
    let rest: u32 = if counter.constant == constant {
        counter.rest
    } else {
        0
    };
    let mut credit: Quantity = 0;
    counter.constant = constant;
    counter.rest = 0;
    if constant != 0 {
        let parts: u128 = n * 1_000_000_000 + rest as u128;
        let whole: u128 = parts / constant as u128;
        let over: u128 = parts % constant as u128;
        assert(whole <= parts) by (nonlinear_arith)
            requires
                whole == parts / constant as u128,
                constant > 0,
        ;
        credit = clamp_quantity(whole as i128);
        counter.rest = over as u32;
    }
    let rate: u8 = state.tou_config.day_table_1.get_rate_at_time(&state.virtual_time);
    state.add_energy(EnergyType::ForwardActive, None, credit);
    state.add_energy(EnergyType::ForwardActive, Some(rate), credit);
}

/// Nothing is lost in the division by the meter constant: what two batches of pulses are
/// credited, the second from what the first left, is what one batch of them all is credited.
pub proof fn law_pulses_add_up(c: CounterModel, d: CounterModel, s: MeterState, n: int, m: int)
    requires
        c.wf(),
        0 <= n,
        0 <= m,
        s.meter_constant != 0,
        d.constant == s.meter_constant,
        d.rest == (n * 1_000_000_000 + carried(c, s)) % s.meter_constant as int,
        ((n + m) * 1_000_000_000 + carried(c, s)) / s.meter_constant as int <= i64::MAX,
    ensures
        pulse_energy(c, s, n) + pulse_energy(d, s, m) == pulse_energy(c, s, n + m),
        (m * 1_000_000_000 + carried(d, s)) % s.meter_constant as int == ((n + m)
            * 1_000_000_000 + carried(c, s)) % s.meter_constant as int,
{
    let k = s.meter_constant as int;
    let a = n * 1_000_000_000 + carried(c, s);
    let b = m * 1_000_000_000 + carried(d, s);
    let t = (n + m) * 1_000_000_000 + carried(c, s);
    vstd::arithmetic::div_mod::lemma_fundamental_div_mod(a, k);
    vstd::arithmetic::div_mod::lemma_fundamental_div_mod(b, k);
    vstd::arithmetic::div_mod::lemma_div_pos_is_pos(a, k);
    vstd::arithmetic::div_mod::lemma_div_pos_is_pos(b, k);
    assert(t == k * (a / k + b / k) + b % k) by (nonlinear_arith)
        requires
            t == a - a % k + b,
            a == k * (a / k) + a % k,
            b == k * (b / k) + b % k,
    ;
    vstd::arithmetic::div_mod::lemma_fundamental_div_mod_converse(t, k, a / k + b / k, b % k);
}

/// Nothing is lost by taking short steps: two steps under the same power count the
/// pulses of one step as long as both, and leave the same over.
pub proof fn law_steps_add_up(c: CounterModel, s: MeterState, a: u64, b: u64)
    requires
        c.wf(),
        a + b <= u64::MAX,
    ensures
        ({
            let d = counted(c, s, a);
            let both = (a + b) as u64;
            &&& whole_pulses(pulses_due(c, s, a)) + whole_pulses(pulses_due(d, s, b))
                == whole_pulses(pulses_due(c, s, both))
            &&& counted(d, s, b).pulses == counted(c, s, both).pulses
        }),
{
    reveal(pulses_in);
    let p = s.active_power_total as int;
    let k = s.meter_constant as int;
    let both = (a + b) as u64;
    assert(p * (a + b) * k == p * a * k + p * b * k) by (nonlinear_arith);
    assert(pulses_in(s, both) == pulses_in(s, a) + pulses_in(s, b));
    if p >= 0 {
        assert(0 <= p * a * k && 0 <= p * b * k) by (nonlinear_arith)
            requires
                0 <= p,
                0 <= a,
                0 <= b,
                0 <= k,
        ;
    } else {
        assert(p * a * k <= 0 && p * b * k <= 0) by (nonlinear_arith)
            requires
                p < 0,
                0 <= a,
                0 <= b,
                0 <= k,
        ;
    }
    let d = counted(c, s, a);
    let first = pulses_due(c, s, a);
    let second = pulses_due(d, s, b);
    let one = pulses_due(c, s, both);
    lemma_whole(first);
    lemma_whole(second);
    lemma_whole(one);
    let w1 = whole_pulses(first);
    let w2 = whole_pulses(second);
    assert(second == first - w1 * PULSE + pulses_in(s, b));
    assert(one == first + pulses_in(s, b));
    if one >= PULSE {
        if second >= PULSE || w1 > 0 {
            assert(one == (w1 + w2) * PULSE + (second - w2 * PULSE));
            vstd::arithmetic::div_mod::lemma_fundamental_div_mod_converse(
                one,
                PULSE as int,
                w1 + w2,
                second - w2 * PULSE,
            );
        }
    }
}

proof fn lemma_whole(due: int)
    ensures
        0 <= whole_pulses(due),
        due - whole_pulses(due) * PULSE < PULSE,
        whole_pulses(due) > 0 ==> 0 <= due - whole_pulses(due) * PULSE,
        due >= PULSE <==> whole_pulses(due) > 0,
{
}

/// The total grows by exactly what the present rate grows, and no other register changes,
/// as long as no register is full. Rate 0 is the total itself and is credited twice.
pub proof fn law_total_grows_with_rate(
    c: CounterModel,
    s: MeterState,
    t: MeterState,
    n: int,
    rate: u8,
)
    requires
        t.energy_registers@ == credited(c, s, n),
        0 <= n,
        present_rate(s) != 0,
        s.energy(EnergyType::ForwardActive, 0) + pulse_energy(c, s, n) <= i64::MAX,
        s.energy(EnergyType::ForwardActive, present_rate(s)) + pulse_energy(c, s, n) <= i64::MAX,
        0 <= s.energy(EnergyType::ForwardActive, 0),
        0 <= s.energy(EnergyType::ForwardActive, present_rate(s)),
        0 <= pulse_energy(c, s, n),
    ensures
        n > 0 ==> t.energy(EnergyType::ForwardActive, 0) - s.energy(EnergyType::ForwardActive, 0)
            == pulse_energy(c, s, n),
        n > 0 ==> t.energy(EnergyType::ForwardActive, present_rate(s)) - s.energy(
            EnergyType::ForwardActive,
            present_rate(s),
        ) == pulse_energy(c, s, n),
        rate != 0 && rate != present_rate(s) ==> t.energy(EnergyType::ForwardActive, rate)
            == s.energy(EnergyType::ForwardActive, rate),
        n == 0 ==> t.energy(EnergyType::ForwardActive, rate) == s.energy(
            EnergyType::ForwardActive,
            rate,
        ),
{
}

/// Measured values stay near the rated ones: voltages and frequency stray by no more than
/// their noise, and the power factor stays between its limits.
pub proof fn law_measured_values_stay_near(s: MeterState, m: LoadModelConfig, n: Noise)
    requires
        n.in_range(),
        0 <= m.voltage_noise_v,
        0 <= m.frequency_noise_hz,
        m.power_factor_min <= m.power_factor_max,
    ensures
        ({
            let t = measured(s, m, n);
            let rated = from_thousandths(s.rated_voltage);
            let hz = s.rated_frequency * 1_000_000_000;
            &&& -m.voltage_noise_v <= t.voltage_a - rated <= m.voltage_noise_v
            &&& -m.voltage_noise_v <= t.voltage_b - rated <= m.voltage_noise_v
            &&& -m.voltage_noise_v <= t.voltage_c - rated <= m.voltage_noise_v
            &&& -m.frequency_noise_hz <= t.frequency - hz <= m.frequency_noise_hz
            &&& m.power_factor_min <= t.power_factor <= m.power_factor_max
        }),
{
    lemma_strays_little(n.voltages@[0], m.voltage_noise_v);
    lemma_strays_little(n.voltages@[1], m.voltage_noise_v);
    lemma_strays_little(n.voltages@[2], m.voltage_noise_v);
    lemma_strays_little(n.frequency, m.frequency_noise_hz);
}

proof fn lemma_strays_little(noise: Quantity, amplitude: Quantity)
    requires
        -1_000_000_000 <= noise < 1_000_000_000,
        0 <= amplitude,
    ensures
        -amplitude <= product_of(noise, amplitude) <= amplitude,
{
    reveal(product_of);
    assert(-1_000_000_000 * amplitude <= noise * amplitude <= 1_000_000_000 * amplitude)
        by (nonlinear_arith)
        requires
            -1_000_000_000 <= noise < 1_000_000_000,
            0 <= amplitude,
    ;
}

} // verus!
