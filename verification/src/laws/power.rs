//! Powers, energies and the load behind them.

use crate::quantity::{is_root, product_of, root_of, sine_of, thousandth_of, Quantity};
use crate::simulation::load_model::{load_factor, LoadModelConfig, LoadProfile};
use crate::simulation::measurement::{
    credited, fresh_counter, measured, power_of, present_rate, pulse_energy, pulses_due, pulses_in,
    whole_pulses, Noise,
};
use crate::simulation::state::{EnergyType, MeterState};
use vstd::prelude::*;

verus! {

/// Voltage times current in billionths of a kVA, rounded down.
pub open spec fn kilovoltamperes(voltage: Quantity, current: Quantity) -> int {
    voltage * current / 1_000_000_000_000int
}

/// Voltage and current are not negative, and their product is one that a quantity holds.
pub open spec fn is_plain_load(voltage: Quantity, current: Quantity) -> bool {
    0 <= voltage && 0 <= current && voltage * current <= 9_000_000_000_000_000_000
        * 1_000_000_000int
}

/// Active and reactive power are the two sides of a right triangle over the apparent power,
/// up to rounding: with a power factor of 1 all is active, with 0 all is reactive.
pub open spec fn forms_power_triangle(
    voltage: Quantity,
    current: Quantity,
    power_factor: Quantity,
    active: Quantity,
    reactive: Quantity,
) -> bool {
    let s = kilovoltamperes(voltage, current);
    &&& 0 <= active <= s
    &&& 0 <= reactive <= s
    &&& active * active + reactive * reactive <= (s + 1) * (s + 1)
    &&& s * s <= (active + 1) * (active + 1) + (reactive + 2 + s / 1_000_000_000) * (reactive + 2
        + s / 1_000_000_000)
    // the power factor's share of the apparent power is active
    &&& s * power_factor - 1_000_000_000 <= active * 1_000_000_000 <= (s + 1) * power_factor
    &&& power_factor == 1_000_000_000 ==> active == s && reactive == 0
    &&& power_factor == 0 ==> active == 0 && reactive == s
}

proof fn lemma_floor_twice(x: int)
    ensures
        x / 1_000_000_000 / 1000 == x / 1_000_000_000_000,
{
}

/// A share of a product: what `power_of` gives for a plain load and a factor from 0 to 1.
proof fn lemma_power_of(voltage: Quantity, current: Quantity, factor: Quantity)
    requires
        is_plain_load(voltage, current),
        0 <= factor <= 1_000_000_000,
    ensures
        ({
            let a = voltage * current / 1_000_000_000int;
            let p = power_of(voltage, current, factor);
            &&& 0 <= a
            &&& a / 1000 == kilovoltamperes(voltage, current)
            &&& p * 1_000_000_000_000 <= a * factor < (p + 1) * 1_000_000_000_000
            &&& 0 <= p
        }),
{
    reveal(product_of);
    let x = voltage * current;
    assert(0 <= x) by (nonlinear_arith)
        requires
            x == voltage * current,
            0 <= voltage,
            0 <= current,
    ;
    let a = x / 1_000_000_000;
    assert(product_of(voltage, current) == a);
    lemma_floor_twice(x);
    assert(0 <= a * factor <= a * 1_000_000_000) by (nonlinear_arith)
        requires
            0 <= a,
            0 <= factor <= 1_000_000_000,
    ;
    let y = a * factor;
    assert(product_of(a as Quantity, factor) == y / 1_000_000_000);
    lemma_floor_twice(y);
}

proof fn lemma_sine(cosine: Quantity)
    requires
        0 <= cosine <= 1_000_000_000,
    ensures
        ({
            let sin = sine_of(cosine);
            &&& 0 <= sin <= 1_000_000_000
            &&& sin * sin + cosine * cosine <= 1_000_000_000_000_000_000
            &&& 1_000_000_000_000_000_000 < (sin + 1) * (sin + 1) + cosine * cosine
        }),
        cosine == 1_000_000_000 ==> sine_of(cosine) == 0,
        cosine == 0 ==> sine_of(cosine) == 1_000_000_000,
{
    reveal(sine_of);
    let rest = 1_000_000_000_000_000_000 - cosine * cosine;
    assert(0 <= rest <= 1_000_000_000_000_000_000) by (nonlinear_arith)
        requires
            rest == 1_000_000_000_000_000_000 - cosine * cosine,
            0 <= cosine <= 1_000_000_000,
    ;
    lemma_root_exists(rest, 1_000_000_001);
    let r = root_of(rest);
    assert(is_root(rest, r));
    assert(r <= 1_000_000_000) by (nonlinear_arith)
        requires
            r * r <= rest,
            rest <= 1_000_000_000_000_000_000,
            0 <= r,
    ;
    if cosine == 1_000_000_000 {
        assert(r == 0) by (nonlinear_arith)
            requires
                r * r <= 0,
                0 <= r,
        ;
    }
    if cosine == 0 {
        assert(r == 1_000_000_000) by (nonlinear_arith)
            requires
                1_000_000_000_000_000_000 < (r + 1) * (r + 1),
                0 <= r <= 1_000_000_000,
        ;
    }
}

pub proof fn lemma_root_exists(n: int, high: int)
    requires
        0 <= n,
        0 < high,
        n < high * high,
    ensures
        is_root(n, root_of(n)),
    decreases high,
{
    if (high - 1) * (high - 1) <= n {
        assert(is_root(n, high - 1));
    } else {
        assert(high > 1) by (nonlinear_arith)
            requires
                0 < high,
                0 <= n,
                n < (high - 1) * (high - 1),
        ;
        lemma_root_exists(n, high - 1);
    }
}

#[verifier::rlimit(40)]
proof fn lemma_power_triangle(voltage: Quantity, current: Quantity, cosine: Quantity)
    requires
        is_plain_load(voltage, current),
        0 <= cosine <= 1_000_000_000,
    ensures
        forms_power_triangle(
            voltage,
            current,
            cosine,
            power_of(voltage, current, cosine),
            power_of(voltage, current, sine_of(cosine)),
        ),
{
    lemma_sine(cosine);
    let sin = sine_of(cosine);
    lemma_power_of(voltage, current, cosine);
    lemma_power_of(voltage, current, sin);
    let a = voltage * current / 1_000_000_000int;
    let s = kilovoltamperes(voltage, current);
    let p = power_of(voltage, current, cosine) as int;
    let q = power_of(voltage, current, sin) as int;
    let (c, d) = (cosine as int, sin as int);
    assert(1000 * s <= a < 1000 * (s + 1));
    lemma_share(a, s, p, c);
    lemma_share(a, s, q, d);
    lemma_triangle_upper(a, s, p, q, c, d);
    lemma_triangle_lower(a, s, p, q, c, d);
}

proof fn lemma_share(a: int, s: int, p: int, c: int)
    requires
        0 <= a,
        1000 * s <= a < 1000 * (s + 1),
        0 <= c <= 1_000_000_000,
        0 <= p,
        p * 1_000_000_000_000 <= a * c < (p + 1) * 1_000_000_000_000,
    ensures
        p <= s,
        s * c - 1_000_000_000 <= p * 1_000_000_000 <= (s + 1) * c,
        c == 1_000_000_000 ==> p == s,
        c == 0 ==> p == 0,
{
    assert(a * c <= a * 1_000_000_000) by (nonlinear_arith)
        requires
            0 <= a,
            0 <= c <= 1_000_000_000,
    ;
    assert(1000 * (s * c) <= a * c <= 1000 * ((s + 1) * c)) by (nonlinear_arith)
        requires
            1000 * s <= a < 1000 * (s + 1),
            0 <= c,
    ;
    if c == 0 {
        assert(a * c == 0) by (nonlinear_arith)
            requires
                c == 0,
        ;
    }
}

proof fn lemma_triangle_upper(a: int, s: int, p: int, q: int, c: int, d: int)
    requires
        0 <= a < 1000 * (s + 1),
        0 <= p,
        0 <= q,
        0 <= c,
        0 <= d,
        p * 1_000_000_000_000 <= a * c,
        q * 1_000_000_000_000 <= a * d,
        d * d + c * c <= 1_000_000_000_000_000_000,
    ensures
        p * p + q * q <= (s + 1) * (s + 1),
{
    let k = 1_000_000_000_000int;
    assert((p * k) * (p * k) <= (a * c) * (a * c)) by (nonlinear_arith)
        requires
            0 <= p * k <= a * c,
    ;
    assert((q * k) * (q * k) <= (a * d) * (a * d)) by (nonlinear_arith)
        requires
            0 <= q * k <= a * d,
    ;
    assert((a * c) * (a * c) + (a * d) * (a * d) == (a * a) * (c * c + d * d)) by (nonlinear_arith);
    assert((a * a) * (c * c + d * d) <= (a * a) * 1_000_000_000_000_000_000) by (nonlinear_arith)
        requires
            0 <= a,
            c * c + d * d <= 1_000_000_000_000_000_000,
    ;
    assert(a * a <= 1_000_000 * ((s + 1) * (s + 1))) by (nonlinear_arith)
        requires
            0 <= a < 1000 * (s + 1),
    ;
    assert((p * k) * (p * k) == (p * p) * (k * k)) by (nonlinear_arith);
    assert((q * k) * (q * k) == (q * q) * (k * k)) by (nonlinear_arith);
    assert(k * k == 1_000_000_000_000_000_000_000_000);
    assert((p * p + q * q) * 1_000_000_000_000_000_000_000_000 == (p * p) * (k * k) + (q * q) * (k
        * k)) by (nonlinear_arith)
        requires
            k * k == 1_000_000_000_000_000_000_000_000,
    ;
}

proof fn lemma_triangle_lower(a: int, s: int, p: int, q: int, c: int, d: int)
    requires
        0 <= s,
        1000 * s <= a < 1000 * (s + 1),
        0 <= p,
        0 <= q,
        0 <= c,
        0 <= d,
        a * c < (p + 1) * 1_000_000_000_000,
        a * d < (q + 1) * 1_000_000_000_000,
        1_000_000_000_000_000_000 < (d + 1) * (d + 1) + c * c,
    ensures
        s * s <= (p + 1) * (p + 1) + (q + 2 + s / 1_000_000_000) * (q + 2 + s / 1_000_000_000),
{
    let k = 1_000_000_000_000int;
    let e = s / 1_000_000_000;
    let m = q + 2 + e;
    assert(a <= (e + 1) * k);
    assert(a * (d + 1) <= m * k) by (nonlinear_arith)
        requires
            a * d < (q + 1) * k,
            a <= (e + 1) * k,
            m == q + 2 + e,
    ;
    assert(0 <= a * c && 0 <= a * (d + 1)) by (nonlinear_arith)
        requires
            0 <= a,
            0 <= c,
            0 <= d,
    ;
    assert((a * c) * (a * c) <= ((p + 1) * k) * ((p + 1) * k)) by (nonlinear_arith)
        requires
            0 <= a * c <= (p + 1) * k,
    ;
    assert((a * (d + 1)) * (a * (d + 1)) <= (m * k) * (m * k)) by (nonlinear_arith)
        requires
            0 <= a * (d + 1) <= m * k,
    ;
    assert((a * c) * (a * c) + (a * (d + 1)) * (a * (d + 1)) == (a * a) * (c * c + (d + 1) * (d
        + 1))) by (nonlinear_arith);
    assert((a * a) * 1_000_000_000_000_000_000 <= (a * a) * (c * c + (d + 1) * (d + 1)))
        by (nonlinear_arith)
        requires
            1_000_000_000_000_000_000 < (d + 1) * (d + 1) + c * c,
    ;
    assert(1_000_000 * (s * s) <= a * a) by (nonlinear_arith)
        requires
            0 <= s,
            1000 * s <= a,
    ;
    assert(((p + 1) * k) * ((p + 1) * k) == ((p + 1) * (p + 1)) * (k * k)) by (nonlinear_arith);
    assert((m * k) * (m * k) == (m * m) * (k * k)) by (nonlinear_arith);
    assert(k * k == 1_000_000_000_000_000_000_000_000);
    assert(((p + 1) * (p + 1)) * (k * k) + (m * m) * (k * k) == ((p + 1) * (p + 1) + m * m)
        * 1_000_000_000_000_000_000_000_000) by (nonlinear_arith)
        requires
            k * k == 1_000_000_000_000_000_000_000_000,
    ;
}

/// In each phase the measured active and reactive power make up the apparent power. The
/// totals are the sums of the phases.
#[verifier::rlimit(50)]
pub proof fn law_measured_powers_form_a_triangle(s: MeterState, m: LoadModelConfig, n: Noise)
    requires
        0 <= m.power_factor_min <= m.power_factor_max <= 1_000_000_000,
        ({
            let t = measured(s, m, n);
            &&& is_plain_load(t.voltage_a, t.current_a)
            &&& is_plain_load(t.voltage_b, t.current_b)
            &&& is_plain_load(t.voltage_c, t.current_c)
        }),
    ensures
        ({
            let t = measured(s, m, n);
            let f = t.power_factor;
            &&& 0 <= f <= 1_000_000_000
            &&& forms_power_triangle(
                t.voltage_a,
                t.current_a,
                f,
                t.active_power_a,
                t.reactive_power_a,
            )
            &&& forms_power_triangle(
                t.voltage_b,
                t.current_b,
                f,
                t.active_power_b,
                t.reactive_power_b,
            )
            &&& forms_power_triangle(
                t.voltage_c,
                t.current_c,
                f,
                t.active_power_c,
                t.reactive_power_c,
            )
            &&& t.active_power_total == t.active_power_a + t.active_power_b + t.active_power_c
            &&& t.reactive_power_total == t.reactive_power_a + t.reactive_power_b
                + t.reactive_power_c
            &&& t.apparent_power_total == kilovoltamperes(t.voltage_a, t.current_a)
                + kilovoltamperes(t.voltage_b, t.current_b) + kilovoltamperes(
                t.voltage_c,
                t.current_c,
            )
        }),
{
    let t = measured(s, m, n);
    lemma_power_triangle(t.voltage_a, t.current_a, t.power_factor);
    lemma_power_triangle(t.voltage_b, t.current_b, t.power_factor);
    lemma_power_triangle(t.voltage_c, t.current_c, t.power_factor);
    lemma_apparent(t.voltage_a, t.current_a);
    lemma_apparent(t.voltage_b, t.current_b);
    lemma_apparent(t.voltage_c, t.current_c);
}

proof fn lemma_apparent(voltage: Quantity, current: Quantity)
    requires
        is_plain_load(voltage, current),
    ensures
        thousandth_of(product_of(voltage, current)) == kilovoltamperes(voltage, current),
        0 <= kilovoltamperes(voltage, current) <= 9_000_000_000_000_000,
{
    reveal(product_of);
    let x = voltage * current;
    assert(0 <= x) by (nonlinear_arith)
        requires
            x == voltage * current,
            0 <= voltage,
            0 <= current,
    ;
    lemma_floor_twice(x);
}

/// What a noise from -1 to 1 adds to a value: its share of the amplitude, rounded down.
pub open spec fn strays_by(v: Quantity, base: int, noise: Quantity, amplitude: Quantity) -> bool {
    (v - base) * 1_000_000_000 <= noise * amplitude < (v - base + 1) * 1_000_000_000
}

/// A current is a share of a share of the rated current: with the load factor and the factor of
/// the phase in billionths, rounded down twice.
pub open spec fn is_share(current: Quantity, rated_ma: u32, load: Quantity, phase: Quantity) -> bool {
    let exact = rated_ma * 1_000_000 * load * phase;
    current * 1_000_000_000_000_000_000 <= exact <= (current + 1) * 1_000_000_000_000_000_000
        + phase * 1_000_000_000
}

proof fn lemma_strays_by(base: int, noise: Quantity, amplitude: Quantity)
    requires
        0 <= base <= 10_000_000_000_000_000,
        -1_000_000_000 <= noise <= 1_000_000_000,
        0 <= amplitude <= 1_000_000_000_000_000,
    ensures
        strays_by(
            crate::simulation::measurement::strayed(base as Quantity, noise, amplitude),
            base,
            noise,
            amplitude,
        ),
{
    reveal(product_of);
    assert(-1_000_000_000 * amplitude <= noise * amplitude <= 1_000_000_000 * amplitude)
        by (nonlinear_arith)
        requires
            -1_000_000_000 <= noise <= 1_000_000_000,
            0 <= amplitude,
    ;
}

proof fn lemma_is_share(rated_ma: u32, load: Quantity, phase: Quantity)
    requires
        0 <= load <= 1_000_000_000,
        0 <= phase <= 3_000_000_000,
    ensures
        is_share(
            product_of(
                product_of(
                    crate::simulation::measurement::from_thousandths(rated_ma),
                    load,
                ),
                phase,
            ),
            rated_ma,
            load,
            phase,
        ),
{
    reveal(product_of);
    let rated = rated_ma * 1_000_000;
    let x = rated * load;
    assert(0 <= x <= rated * 1_000_000_000) by (nonlinear_arith)
        requires
            x == rated * load,
            0 <= rated,
            0 <= load <= 1_000_000_000,
    ;
    let a = x / 1_000_000_000;
    assert(0 <= a <= rated);
    let y = a * phase;
    assert(0 <= y <= rated * 3_000_000_000) by (nonlinear_arith)
        requires
            y == a * phase,
            0 <= a <= rated,
            0 <= phase <= 3_000_000_000,
    ;
    let i = y / 1_000_000_000;
    assert(product_of(product_of(crate::simulation::measurement::from_thousandths(rated_ma), load), phase)
        == i);
    assert(rated_ma * 1_000_000 * load * phase == x * phase);
    assert(y * 1_000_000_000 <= x * phase <= y * 1_000_000_000 + phase * 1_000_000_000)
        by (nonlinear_arith)
        requires
            a * 1_000_000_000 <= x < (a + 1) * 1_000_000_000,
            y == a * phase,
            0 <= phase,
    ;
}

/// Each phase's voltage is the rated one and its own noise, the frequency likewise; each
/// phase's current is the rated one times the load factor of the hour times the phase's own
/// factor.
#[verifier::rlimit(50)]
pub proof fn law_measured_values_follow_the_load(s: MeterState, m: LoadModelConfig, n: Noise)
    requires
        n.in_range(),
        0 <= m.voltage_noise_v <= 1_000_000_000_000_000,
        0 <= m.frequency_noise_hz <= 1_000_000_000_000_000,
        0 <= load_factor(m.profile, s.virtual_time.cal().hour) <= 1_000_000_000,
        forall|i: int|
            0 <= i < 3 ==> 0 <= #[trigger] m.phase_current_factors@[i] <= 3_000_000_000,
    ensures
        ({
            let t = measured(s, m, n);
            let volts = s.rated_voltage * 1_000_000;
            let load = load_factor(m.profile, s.virtual_time.cal().hour);
            &&& strays_by(t.voltage_a, volts, n.voltages@[0], m.voltage_noise_v)
            &&& strays_by(t.voltage_b, volts, n.voltages@[1], m.voltage_noise_v)
            &&& strays_by(t.voltage_c, volts, n.voltages@[2], m.voltage_noise_v)
            &&& strays_by(
                t.frequency,
                s.rated_frequency * 1_000_000_000,
                n.frequency,
                m.frequency_noise_hz,
            )
            &&& is_share(t.current_a, s.rated_current, load, m.phase_current_factors@[0])
            &&& is_share(t.current_b, s.rated_current, load, m.phase_current_factors@[1])
            &&& is_share(t.current_c, s.rated_current, load, m.phase_current_factors@[2])
        }),
{
    let volts = s.rated_voltage * 1_000_000;
    let load = load_factor(m.profile, s.virtual_time.cal().hour);
    lemma_strays_by(volts, n.voltages@[0], m.voltage_noise_v);
    lemma_strays_by(volts, n.voltages@[1], m.voltage_noise_v);
    lemma_strays_by(volts, n.voltages@[2], m.voltage_noise_v);
    lemma_strays_by(s.rated_frequency * 1_000_000_000, n.frequency, m.frequency_noise_hz);
    lemma_is_share(s.rated_current, load, m.phase_current_factors@[0]);
    lemma_is_share(s.rated_current, load, m.phase_current_factors@[1]);
    lemma_is_share(s.rated_current, load, m.phase_current_factors@[2]);
}

/// The power factor wanders: from a value between its limits it moves by its noise's share,
/// and stops at the limits. Without noise it stays.
#[verifier::rlimit(50)]
pub proof fn law_power_factor_wanders(s: MeterState, m: LoadModelConfig, n: Noise)
    requires
        n.in_range(),
        0 <= m.power_factor_noise <= 1_000_000_000,
        0 <= m.power_factor_min <= s.power_factor <= m.power_factor_max <= 1_000_000_000,
    ensures
        ({
            let f = measured(s, m, n).power_factor;
            let wish = s.power_factor * 1_000_000_000 + n.power_factor * m.power_factor_noise;
            &&& m.power_factor_min <= f <= m.power_factor_max
            &&& f < m.power_factor_max ==> wish < (f + 1) * 1_000_000_000
            &&& f > m.power_factor_min ==> f * 1_000_000_000 <= wish
            &&& m.power_factor_noise == 0 ==> f == s.power_factor
        }),
{
    lemma_strays_by(s.power_factor as int, n.power_factor, m.power_factor_noise);
    if m.power_factor_noise == 0 {
        assert(n.power_factor * m.power_factor_noise == 0) by (nonlinear_arith)
            requires
                m.power_factor_noise == 0,
        ;
    }
}

/// Measuring touches nothing but what is measured.
#[verifier::rlimit(50)]
pub proof fn law_measuring_keeps_the_rest(s: MeterState, m: LoadModelConfig, n: Noise)
    ensures
        ({
            let t = measured(s, m, n);
            t == (MeterState {
                voltage_a: t.voltage_a,
                voltage_b: t.voltage_b,
                voltage_c: t.voltage_c,
                current_a: t.current_a,
                current_b: t.current_b,
                current_c: t.current_c,
                power_factor: t.power_factor,
                frequency: t.frequency,
                active_power_total: t.active_power_total,
                active_power_a: t.active_power_a,
                active_power_b: t.active_power_b,
                active_power_c: t.active_power_c,
                reactive_power_total: t.reactive_power_total,
                reactive_power_a: t.reactive_power_a,
                reactive_power_b: t.reactive_power_b,
                reactive_power_c: t.reactive_power_c,
                apparent_power_total: t.apparent_power_total,
                ..s
            })
        }),
{
}

/// The energy of a step from a fresh start is power times time: an hour of a kilowatt makes a
/// kilowatt-hour. No more is credited, and less than a pulse and a billionth is missing. The
/// present rate is credited the same. Without forward power nothing is credited.
#[verifier::rlimit(50)]
pub proof fn law_energy_is_power_times_time(s: MeterState, t: MeterState, nanos: u64)
    requires
        t.energy_registers@ == credited(
            fresh_counter(),
            s,
            whole_pulses(pulses_due(fresh_counter(), s, nanos)),
        ),
        s.meter_constant > 0,
        present_rate(s) != 0,
        0 <= s.energy(EnergyType::ForwardActive, 0) <= 1_000_000_000_000_000_000,
        0 <= s.energy(EnergyType::ForwardActive, present_rate(s)) <= 1_000_000_000_000_000_000,
        s.active_power_total * nanos <= 3_600_000_000_000 * 1_000_000_000_000_000_000int,
    ensures
        ({
            let e = t.energy(EnergyType::ForwardActive, 0) - s.energy(EnergyType::ForwardActive, 0);
            let flow = s.active_power_total * nanos;
            let hour = 3_600_000_000_000int;
            &&& s.active_power_total >= 0 ==> 0 <= e && e * hour <= flow
            &&& s.active_power_total >= 0 ==> flow * s.meter_constant < ((e + 1) * s.meter_constant
                + 1_000_000_000) * hour
            &&& s.active_power_total <= 0 ==> e == 0
            &&& t.energy(EnergyType::ForwardActive, present_rate(s)) - s.energy(
                EnergyType::ForwardActive,
                present_rate(s),
            ) == e
        }),
{
    reveal(pulses_in);
    let p = s.active_power_total as int;
    let k = s.meter_constant as int;
    let due = pulses_due(fresh_counter(), s, nanos);
    let n = whole_pulses(due);
    let flow = p * nanos;
    assert(due == flow * k);
    if p >= 0 {
        assert(0 <= flow) by (nonlinear_arith)
            requires
                flow == p * nanos,
                0 <= p,
                0 <= nanos,
        ;
        assert(0 <= flow * k) by (nonlinear_arith)
            requires
                0 <= flow,
                0 < k,
        ;
    }
    if p <= 0 {
        assert(flow <= 0) by (nonlinear_arith)
            requires
                flow == p * nanos,
                p <= 0,
                0 <= nanos,
        ;
        assert(flow * k <= 0) by (nonlinear_arith)
            requires
                flow <= 0,
                0 < k,
        ;
    }
    let e = (n * 1_000_000_000) / k;
    vstd::arithmetic::div_mod::lemma_fundamental_div_mod(n * 1_000_000_000, k);
    assert(e * k <= n * 1_000_000_000 < (e + 1) * k) by (nonlinear_arith)
        requires
            n * 1_000_000_000 == k * e + (n * 1_000_000_000) % k,
            0 <= (n * 1_000_000_000) % k < k,
    ;
    if p >= 0 {
        assert(n * 3_600_000_000_000_000_000_000 <= flow * k < (n + 1)
            * 3_600_000_000_000_000_000_000);
        assert(0 <= e) by (nonlinear_arith)
            requires
                n * 1_000_000_000 < (e + 1) * k,
                0 <= n,
                0 < k,
        ;
        assert(e * 3_600_000_000_000 <= flow) by (nonlinear_arith)
            requires
                e * k <= n * 1_000_000_000,
                n * 3_600_000_000_000_000_000_000 <= flow * k,
                0 < k,
        ;
        assert(pulse_energy(fresh_counter(), s, n) == e);
    }
    crate::simulation::measurement::law_total_grows_with_rate(fresh_counter(), s, t, n, 0);
}

/// The load factors of hours 0 to `n - 1` together.
pub open spec fn day_load(profile: LoadProfile, n: nat) -> int
    decreases n,
{
    if n == 0 {
        0
    } else {
        day_load(profile, (n - 1) as nat) + load_factor(profile, (n - 1) as u32)
    }
}

/// How the loads of a day run. A household has a small load at night, one peak in the morning
/// and its full load in the evening; a factory runs full from 8 to 17 and least at night; a
/// shop is busiest at noon, busy again in the evening and nearly off at night. Every load lies
/// between a tenth and the whole, and a day has 12.1, 16.6 and 12.7 hours of full load. A fixed
/// load is the same at all hours.
#[verifier::rlimit(50)]
pub proof fn law_loads_over_the_day(hour: u32, other: u32, fixed: Quantity)
    requires
        hour < 24,
        other < 24,
    ensures
        load_factor(LoadProfile::Fixed(fixed), hour) == fixed,
        100_000_000 <= load_factor(LoadProfile::Residential, hour) <= 1_000_000_000,
        100_000_000 <= load_factor(LoadProfile::Industrial, hour) <= 1_000_000_000,
        100_000_000 <= load_factor(LoadProfile::Commercial, hour) <= 1_000_000_000,
        load_factor(LoadProfile::Residential, hour) == 1_000_000_000 <==> 17 <= hour <= 21,
        load_factor(LoadProfile::Industrial, hour) == 1_000_000_000 <==> 8 <= hour <= 17,
        load_factor(LoadProfile::Commercial, hour) == 1_000_000_000 <==> 12 <= hour <= 13,
        hour < 6 <= other ==> load_factor(LoadProfile::Residential, hour) < load_factor(
            LoadProfile::Residential,
            other,
        ),
        hour < 6 <= other ==> load_factor(LoadProfile::Industrial, hour) < load_factor(
            LoadProfile::Industrial,
            other,
        ),
        hour < 8 <= other ==> load_factor(LoadProfile::Commercial, hour) < load_factor(
            LoadProfile::Commercial,
            other,
        ),
        // the morning of a household and the evening of a shop
        6 <= hour <= 8 && 9 <= other <= 16 ==> load_factor(LoadProfile::Residential, hour)
            > load_factor(LoadProfile::Residential, other),
        18 <= hour <= 20 && 14 <= other <= 17 ==> load_factor(LoadProfile::Commercial, hour)
            > load_factor(LoadProfile::Commercial, other),
        18 <= hour <= 21 && 22 <= other ==> load_factor(LoadProfile::Industrial, hour)
            > load_factor(LoadProfile::Industrial, other),
        day_load(LoadProfile::Residential, 24) == 12_100_000_000,
        day_load(LoadProfile::Industrial, 24) == 16_600_000_000,
        day_load(LoadProfile::Commercial, 24) == 12_700_000_000,
{
    reveal_with_fuel(day_load, 25);
}

} // verus!
