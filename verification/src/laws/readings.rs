//! What instantaneous values, demands and events read, told from the state.

use crate::angle::arc_cosine;
use crate::laws::digits::{
    all_decimal, in_century, lemma_byte_digits, lemma_hundredths_show, lemma_number_shows, lemma_powers,
    lemma_short_thousandths_show, lemma_ten_thousandths_show, lemma_tenths_show,
    lemma_thousandths_show, lemma_times_tell, piece, shown, shows, tells_minute, tells_second,
    two_digits,
};
use crate::laws::energies::kind_byte;
use crate::laws::faults::values_of;
use crate::protocol::format::law_bcd_write_read;
use crate::quantity::{magnitude_of, scaled, Quantity};
use crate::simulation::di_handler::demand::{demand_and_rates, demand_bytes};
use crate::simulation::di_handler::encoding::{decimal_of, digits};
use crate::simulation::di_handler::event::total_bytes;
use crate::simulation::di_handler::instantaneous::{harmonics_in_turn, instantaneous_read};
use crate::simulation::di_handler::memory_read;
use crate::simulation::di_handler::read_error::ReadError;
use crate::simulation::state::{demand_key, rate_number, DemandValue, EnergyType, MeterState};
use vstd::prelude::*;

verus! {

/// What an instantaneous value reads.
#[verifier::opaque]
pub open spec fn read_value(s: MeterState, di2: u8, di1: u8, di0: u8) -> Result<
    Seq<u8>,
    ReadError,
> {
    memory_read(seq![di0, di1, di2, 0x02u8], s)
}

/// What an instantaneous identifier reads from memory.
pub proof fn lemma_read_value(s: MeterState, di2: u8, di1: u8, di0: u8)
    ensures
        instantaneous_read(seq![di0, di1, di2, 0x02u8], s) matches Some(r) ==> read_value(
            s,
            di2,
            di1,
            di0,
        ) == r,
{
    reveal(read_value);
}

/// A read gives a quantity to the nearest unit.
pub open spec fn reads(r: Result<Seq<u8>, ReadError>, v: Quantity, bytes: nat, unit: int) -> bool {
    r matches Ok(data) && shows(data, v, bytes, unit)
}

/// Voltage and current of each phase read to the nearest tenth of a volt and thousandth of an
/// ampere. The block read holds the three phases in their order.
#[verifier::rlimit(50)]
pub proof fn law_voltage_and_current_reads(s: MeterState, phase: u8)
    requires
        1 <= phase <= 3,
        values_of(s, phase).0 < 999_900_000_000,
        values_of(s, phase).1 < 999_999_000_000,
    ensures
        reads(read_value(s, 0x01, phase, 0x00), values_of(s, phase).0, 2, 100_000_000),
        reads(read_value(s, 0x02, phase, 0x00), values_of(s, phase).1, 3, 1_000_000),
        read_value(s, 0x01, 0xFF, 0x00) is Ok,
        read_value(s, 0x01, 0xFF, 0x00)->Ok_0.len() == 6,
        piece(read_value(s, 0x01, 0xFF, 0x00)->Ok_0, 2 * (phase - 1), 2) == read_value(
            s,
            0x01,
            phase,
            0x00,
        )->Ok_0,
        read_value(s, 0x02, 0xFF, 0x00) is Ok,
        read_value(s, 0x02, 0xFF, 0x00)->Ok_0.len() == 9,
        piece(read_value(s, 0x02, 0xFF, 0x00)->Ok_0, 3 * (phase - 1), 3) == read_value(
            s,
            0x02,
            phase,
            0x00,
        )->Ok_0,
{
    lemma_read_value(s, 0x01, phase, 0x00);
    lemma_read_value(s, 0x01, 0xFF, 0x00);
    lemma_read_value(s, 0x02, phase, 0x00);
    lemma_read_value(s, 0x02, 0xFF, 0x00);
    lemma_tenths_show(values_of(s, phase).0);
    lemma_thousandths_show(values_of(s, phase).1);
    lemma_length(s.voltage_a, 2, 1);
    lemma_length(s.voltage_b, 2, 1);
    lemma_length(s.voltage_c, 2, 1);
    lemma_length(s.current_a, 3, 3);
    lemma_length(s.current_b, 3, 3);
    lemma_length(s.current_c, 3, 3);
    assert(piece(read_value(s, 0x01, 0xFF, 0x00)->Ok_0, 2 * (phase - 1), 2) =~= read_value(
        s,
        0x01,
        phase,
        0x00,
    )->Ok_0);
    assert(piece(read_value(s, 0x02, 0xFF, 0x00)->Ok_0, 3 * (phase - 1), 3) =~= read_value(
        s,
        0x02,
        phase,
        0x00,
    )->Ok_0);
}

proof fn lemma_length(v: Quantity, bytes: nat, decimals: nat)
    requires
        1 <= decimals <= 4,
    ensures
        digits(v, bytes, decimals).len() == bytes,
{
    reveal(scaled);
    lemma_powers();
    law_bcd_write_read(scaled(v, decimals), bytes);
}

/// Active power, total and of each phase, reads to the nearest ten-thousandth. The block read
/// holds the total and the three phases in their order.
#[verifier::rlimit(50)]
pub proof fn law_active_power_reads(s: MeterState, phase: u8)
    requires
        1 <= phase <= 3,
        values_of(s, phase).2 < 99_999_900_000,
        s.active_power_total < 99_999_900_000,
    ensures
        reads(read_value(s, 0x03, 0x00, 0x00), s.active_power_total, 3, 100_000),
        reads(read_value(s, 0x03, phase, 0x00), values_of(s, phase).2, 3, 100_000),
        read_value(s, 0x03, 0xFF, 0x00) is Ok,
        read_value(s, 0x03, 0xFF, 0x00)->Ok_0.len() == 12,
        piece(read_value(s, 0x03, 0xFF, 0x00)->Ok_0, 0, 3) == read_value(
            s,
            0x03,
            0x00,
            0x00,
        )->Ok_0,
        piece(read_value(s, 0x03, 0xFF, 0x00)->Ok_0, 3 * phase as int, 3) == read_value(
            s,
            0x03,
            phase,
            0x00,
        )->Ok_0,
{
    lemma_read_value(s, 0x03, 0x00, 0x00);
    lemma_read_value(s, 0x03, phase, 0x00);
    lemma_read_value(s, 0x03, 0xFF, 0x00);
    lemma_ten_thousandths_show(s.active_power_total);
    lemma_ten_thousandths_show(values_of(s, phase).2);
    lemma_length(s.active_power_a, 3, 4);
    lemma_length(s.active_power_b, 3, 4);
    lemma_length(s.active_power_c, 3, 4);
    let block = read_value(s, 0x03, 0xFF, 0x00)->Ok_0;
    assert(piece(block, 0, 3) =~= read_value(s, 0x03, 0x00, 0x00)->Ok_0);
    assert(piece(block, 3 * phase as int, 3) =~= read_value(s, 0x03, phase, 0x00)->Ok_0);
}

/// Reactive power, total and of each phase, reads to the nearest ten-thousandth. The block read
/// holds the total and the three phases in their order.
#[verifier::rlimit(50)]
pub proof fn law_reactive_power_reads(s: MeterState, phase: u8)
    requires
        1 <= phase <= 3,
        values_of(s, phase).3 < 99_999_900_000,
        s.reactive_power_total < 99_999_900_000,
    ensures
        reads(read_value(s, 0x04, 0x00, 0x00), s.reactive_power_total, 3, 100_000),
        reads(read_value(s, 0x04, phase, 0x00), values_of(s, phase).3, 3, 100_000),
        read_value(s, 0x04, 0xFF, 0x00) is Ok,
        read_value(s, 0x04, 0xFF, 0x00)->Ok_0.len() == 12,
        piece(read_value(s, 0x04, 0xFF, 0x00)->Ok_0, 0, 3) == read_value(
            s,
            0x04,
            0x00,
            0x00,
        )->Ok_0,
        piece(read_value(s, 0x04, 0xFF, 0x00)->Ok_0, 3 * phase as int, 3) == read_value(
            s,
            0x04,
            phase,
            0x00,
        )->Ok_0,
{
    lemma_read_value(s, 0x04, 0x00, 0x00);
    lemma_read_value(s, 0x04, phase, 0x00);
    lemma_read_value(s, 0x04, 0xFF, 0x00);
    lemma_ten_thousandths_show(s.reactive_power_total);
    lemma_ten_thousandths_show(values_of(s, phase).3);
    lemma_length(s.reactive_power_a, 3, 4);
    lemma_length(s.reactive_power_b, 3, 4);
    lemma_length(s.reactive_power_c, 3, 4);
    let block = read_value(s, 0x04, 0xFF, 0x00)->Ok_0;
    assert(piece(block, 0, 3) =~= read_value(s, 0x04, 0x00, 0x00)->Ok_0);
    assert(piece(block, 3 * phase as int, 3) =~= read_value(s, 0x04, phase, 0x00)->Ok_0);
}

/// The apparent power of a phase reads as the third side of the triangle of its powers.
#[verifier::rlimit(50)]
pub proof fn law_apparent_power_reads(s: MeterState, phase: u8)
    requires
        1 <= phase <= 3,
        s.apparent_power_total < 99_999_900_000,
        -60_000_000_000 < values_of(s, phase).2 < 60_000_000_000,
        -60_000_000_000 < values_of(s, phase).3 < 60_000_000_000,
    ensures
        reads(read_value(s, 0x05, 0x00, 0x00), s.apparent_power_total, 3, 100_000),
        ({
            let (v, i, p, q) = values_of(s, phase);
            exists|side: Quantity| #[trigger]
                reads(read_value(s, 0x05, phase, 0x00), side, 3, 100_000) && side >= 0 && side
                    * side <= p * p + q * q < (side + 1) * (side + 1)
        }),
{
    lemma_read_value(s, 0x05, 0x00, 0x00);
    lemma_read_value(s, 0x05, phase, 0x00);
    lemma_ten_thousandths_show(s.apparent_power_total);
    let (v, i, p, q) = values_of(s, phase);
    let n = p * p + q * q;
    assert(0 <= n < 99_999_900_000 * 99_999_900_000) by (nonlinear_arith)
        requires
            n == p * p + q * q,
            -60_000_000_000 < p < 60_000_000_000,
            -60_000_000_000 < q < 60_000_000_000,
    ;
    crate::laws::power::lemma_root_exists(n, 99_999_900_000);
    let side = magnitude_of(p, q);
    reveal(magnitude_of);
    let r = crate::quantity::root_of(n);
    assert(r < 99_999_900_000) by (nonlinear_arith)
        requires
            0 <= r,
            r * r <= n,
            n < 99_999_900_000 * 99_999_900_000,
    ;
    assert(side == r);
    lemma_ten_thousandths_show(side);
    assert(reads(read_value(s, 0x05, phase, 0x00), side, 3, 100_000));
}

/// The power factor reads the same for the total and every phase. The angle between voltage and
/// current reads as that whose cosine it is.
#[verifier::rlimit(50)]
pub proof fn law_power_factor_reads(s: MeterState, phase: u8, to: u8)
    requires
        1 <= phase <= 3,
        to <= 3,
        s.power_factor < 9_999_000_000,
    ensures
        reads(read_value(s, 0x06, 0x00, 0x00), s.power_factor, 2, 1_000_000),
        reads(read_value(s, 0x06, phase, 0x00), s.power_factor, 2, 1_000_000),
        reads(read_value(s, 0x07, phase, to), arc_cosine(s.power_factor), 2, 100_000_000),
        read_value(s, 0x06, 0xFF, 0x00) is Ok,
        read_value(s, 0x06, 0xFF, 0x00)->Ok_0.len() == 8,
        piece(read_value(s, 0x06, 0xFF, 0x00)->Ok_0, 2 * to as int, 2) == read_value(
            s,
            0x06,
            0x00,
            0x00,
        )->Ok_0,
{
    lemma_read_value(s, 0x06, 0x00, 0x00);
    lemma_read_value(s, 0x06, phase, 0x00);
    lemma_read_value(s, 0x06, 0xFF, 0x00);
    lemma_read_value(s, 0x07, phase, to);
    lemma_short_thousandths_show(s.power_factor);
    crate::angle::law_angle_has_the_cosine(s.power_factor);
    lemma_tenths_show(arc_cosine(s.power_factor));
    assert(piece(read_value(s, 0x06, 0xFF, 0x00)->Ok_0, 2 * to as int, 2) =~= read_value(
        s,
        0x06,
        0x00,
        0x00,
    )->Ok_0);
}

/// Neutral current, frequency, power, demand and apparent power of the whole read as they are
/// held.
#[verifier::rlimit(50)]
pub proof fn law_other_values_read(s: MeterState)
    requires
        s.neutral_current < 999_999_000_000,
        s.frequency < 99_990_000_000,
        s.active_power_total < 99_999_900_000,
        s.max_demand < 99_999_900_000,
        s.apparent_power_total < 99_999_900_000,
    ensures
        reads(read_value(s, 0x80, 0x00, 0x01), s.neutral_current, 3, 1_000_000),
        reads(read_value(s, 0x80, 0x00, 0x02), s.frequency, 2, 10_000_000),
        reads(read_value(s, 0x80, 0x00, 0x03), s.active_power_total, 3, 100_000),
        reads(read_value(s, 0x80, 0x00, 0x04), s.max_demand, 3, 100_000),
        reads(read_value(s, 0x80, 0x00, 0x05), s.max_demand, 3, 100_000),
        reads(read_value(s, 0x80, 0x00, 0x06), s.apparent_power_total, 3, 100_000),
{
    lemma_read_value(s, 0x80, 0x00, 0x01);
    lemma_read_value(s, 0x80, 0x00, 0x02);
    lemma_read_value(s, 0x80, 0x00, 0x03);
    lemma_read_value(s, 0x80, 0x00, 0x04);
    lemma_read_value(s, 0x80, 0x00, 0x05);
    lemma_read_value(s, 0x80, 0x00, 0x06);
    lemma_thousandths_show(s.neutral_current);
    lemma_hundredths_show(s.frequency);
    lemma_ten_thousandths_show(s.active_power_total);
    lemma_ten_thousandths_show(s.max_demand);
    lemma_ten_thousandths_show(s.apparent_power_total);
}

/// Temperature, the two battery voltages, the minutes on battery and the step price read as
/// they are held.
#[verifier::rlimit(50)]
pub proof fn law_condition_reads(s: MeterState)
    requires
        s.meter_temperature < 999_900_000_000,
        s.clock_battery_voltage < 99_990_000_000,
        s.outage_battery_voltage < 99_990_000_000,
        s.battery_work_minutes < 100_000_000,
        s.current_step_price < 999_900_000,
    ensures
        reads(read_value(s, 0x80, 0x00, 0x07), s.meter_temperature, 2, 100_000_000),
        reads(read_value(s, 0x80, 0x00, 0x08), s.clock_battery_voltage, 2, 10_000_000),
        reads(read_value(s, 0x80, 0x00, 0x09), s.outage_battery_voltage, 2, 10_000_000),
        read_value(s, 0x80, 0x00, 0x0A) matches Ok(d) && d.len() == 4 && all_decimal(d) && shown(d)
            == s.battery_work_minutes,
        reads(read_value(s, 0x80, 0x00, 0x0B), s.current_step_price, 2, 100_000),
{
    lemma_read_value(s, 0x80, 0x00, 0x07);
    lemma_read_value(s, 0x80, 0x00, 0x08);
    lemma_read_value(s, 0x80, 0x00, 0x09);
    lemma_read_value(s, 0x80, 0x00, 0x0A);
    lemma_read_value(s, 0x80, 0x00, 0x0B);
    lemma_tenths_show(s.meter_temperature);
    lemma_hundredths_show(s.clock_battery_voltage);
    lemma_hundredths_show(s.outage_battery_voltage);
    lemma_powers();
    lemma_number_shows(s.battery_work_minutes as int, 4);
    assert(shows(digits(s.current_step_price, 2, 4), s.current_step_price, 2, 100_000)) by {
        reveal(scaled);
        lemma_number_shows(scaled(s.current_step_price, 4), 2);
    }
}

proof fn lemma_harmonic_pieces(orders: Seq<Quantity>, n: nat, k: nat)
    requires
        1 <= k <= n,
    ensures
        harmonics_in_turn(orders, n).len() == 2 * n,
        piece(harmonics_in_turn(orders, n), 2 * (k - 1), 2) == digits(orders[k as int], 2, 2),
    decreases n,
{
    let all = harmonics_in_turn(orders, n);
    let before = harmonics_in_turn(orders, (n - 1) as nat);
    lemma_length(orders[n as int], 2, 2);
    if n > 1 {
        if k < n {
            lemma_harmonic_pieces(orders, (n - 1) as nat, k);
            assert(piece(all, 2 * (k - 1), 2) =~= piece(before, 2 * (k - 1), 2));
        } else {
            lemma_harmonic_pieces(orders, (n - 1) as nat, 1);
            assert(piece(all, 2 * (k - 1), 2) =~= digits(orders[k as int], 2, 2));
        }
    } else {
        assert(before =~= seq![]);
        assert(piece(all, 0, 2) =~= digits(orders[1], 2, 2));
    }
}

/// Distortions and harmonics of each phase read to the nearest hundredth. A read of all
/// harmonics of a phase holds orders 1 to 21 in turn.
#[verifier::rlimit(50)]
pub proof fn law_harmonic_reads(s: MeterState, phase: u8, order: u8)
    requires
        1 <= phase <= 3,
        1 <= two_digits(order) <= 21,
        s.voltage_thd@[phase - 1] < 99_990_000_000,
        s.current_thd@[phase - 1] < 99_990_000_000,
        s.voltage_harmonics@[phase - 1]@[two_digits(order)] < 99_990_000_000,
        s.current_harmonics@[phase - 1]@[two_digits(order)] < 99_990_000_000,
    ensures
        reads(read_value(s, 0x08, phase, 0x00), s.voltage_thd@[phase - 1], 2, 10_000_000),
        reads(read_value(s, 0x09, phase, 0x00), s.current_thd@[phase - 1], 2, 10_000_000),
        reads(
            read_value(s, 0x0A, phase, order),
            s.voltage_harmonics@[phase - 1]@[two_digits(order)],
            2,
            10_000_000,
        ),
        reads(
            read_value(s, 0x0B, phase, order),
            s.current_harmonics@[phase - 1]@[two_digits(order)],
            2,
            10_000_000,
        ),
        read_value(s, 0x0A, phase, 0xFF) matches Ok(d) && d.len() == 42 && piece(
            d,
            2 * (two_digits(order) - 1),
            2,
        ) == read_value(s, 0x0A, phase, order)->Ok_0,
        read_value(s, 0x0B, phase, 0xFF) matches Ok(d) && d.len() == 42 && piece(
            d,
            2 * (two_digits(order) - 1),
            2,
        ) == read_value(s, 0x0B, phase, order)->Ok_0,
{
    reveal(decimal_of);
    let n = two_digits(order);
    assert(order != 0xFF);
    lemma_read_value(s, 0x08, phase, 0x00);
    lemma_read_value(s, 0x09, phase, 0x00);
    lemma_read_value(s, 0x0A, phase, order);
    lemma_read_value(s, 0x0B, phase, order);
    lemma_read_value(s, 0x0A, phase, 0xFF);
    lemma_read_value(s, 0x0B, phase, 0xFF);
    lemma_hundredths_show(s.voltage_thd@[phase - 1]);
    lemma_hundredths_show(s.current_thd@[phase - 1]);
    lemma_hundredths_show(s.voltage_harmonics@[phase - 1]@[n]);
    lemma_hundredths_show(s.current_harmonics@[phase - 1]@[n]);
    lemma_harmonic_pieces(s.voltage_harmonics@[phase - 1]@, 21, n as nat);
    lemma_harmonic_pieces(s.current_harmonics@[phase - 1]@, 21, n as nat);
}

/// What a demand reads.
pub open spec fn read_demand(s: MeterState, di2: u8, di1: u8, di0: u8) -> Result<
    Seq<u8>,
    ReadError,
> {
    memory_read(seq![di0, di1, di2, 0x01u8], s)
}

/// A read gives a demand to the nearest ten-thousandth with the minute in which it occurred.
pub open spec fn reads_demand(r: Result<Seq<u8>, ReadError>, d: DemandValue) -> bool {
    r matches Ok(data) && data.len() == 8 && shows(piece(data, 0, 3), d.value, 3, 100_000)
        && tells_minute(piece(data, 3, 5), d.time)
}

/// A demand register was set, and nothing else changed.
pub open spec fn demand_set(
    s0: MeterState,
    s1: MeterState,
    slot: u8,
    phase: u8,
    t: EnergyType,
    rate: Option<u8>,
    d: DemandValue,
) -> bool {
    &&& s1.demand_registers@ == s0.demand_registers@.insert(
        demand_key(slot, phase, t, rate_number(rate)),
        d,
    )
    &&& s1 == (MeterState { demand_registers: s1.demand_registers, ..s0 })
}

proof fn lemma_demand_reads(d: DemandValue)
    requires
        d.value < 99_999_900_000,
        in_century(d.time),
    ensures
        demand_bytes(d).len() == 8,
        shows(piece(demand_bytes(d), 0, 3), d.value, 3, 100_000),
        tells_minute(piece(demand_bytes(d), 3, 5), d.time),
{
    lemma_ten_thousandths_show(d.value);
    lemma_times_tell(d.time);
    assert(piece(demand_bytes(d), 0, 3) =~= digits(d.value, 3, 4));
    assert(piece(demand_bytes(d), 3, 5)
        =~= crate::simulation::di_handler::encoding::minute_bytes(d.time.cal()));
}

/// Once a demand is set, reading it from its slot gives it with its time.
#[verifier::rlimit(50)]
pub proof fn law_demand_reads_as_set(
    s0: MeterState,
    s1: MeterState,
    slot: u8,
    t: EnergyType,
    n: u8,
    d: DemandValue,
    di1: u8,
)
    requires
        demand_set(s0, s1, slot, 0, t, Some(n), d),
        slot <= 12,
        t != EnergyType::CombinedActive,
        di1 <= 0x3F,
        two_digits(di1) == n,
        n <= s0.num_rates,
        d.value < 99_999_900_000,
        in_century(d.time),
    ensures
        reads_demand(read_demand(s1, kind_byte(t), di1, slot), d),
{
    reveal(decimal_of);
    lemma_demand_reads(d);
}

/// Setting a demand changes no read of another slot, kind or rate.
#[verifier::rlimit(50)]
pub proof fn law_other_demands_read_as_before(
    s0: MeterState,
    s1: MeterState,
    slot: u8,
    t: EnergyType,
    n: u8,
    d: DemandValue,
    u: EnergyType,
    di1: u8,
    di0: u8,
)
    requires
        demand_set(s0, s1, slot, 0, t, Some(n), d),
        slot <= 12,
        di1 <= 0x3F,
        di0 != slot || u != t || two_digits(di1) != n,
    ensures
        read_demand(s1, kind_byte(u), di1, di0) == read_demand(s0, kind_byte(u), di1, di0),
{
    reveal(decimal_of);
}

/// Once the demand of a phase is set, reading that phase gives it with its time.
#[verifier::rlimit(50)]
pub proof fn law_phase_demand_reads_as_set(
    s0: MeterState,
    s1: MeterState,
    slot: u8,
    phase: u8,
    d: DemandValue,
    di2: u8,
)
    requires
        demand_set(s0, s1, slot, phase, EnergyType::ForwardActive, None, d),
        slot <= 12,
        1 <= phase <= 3,
        0x15 + 20 * (phase - 1) <= di2 < 0x15 + 20 * (phase - 1) + 10,
        d.value < 99_999_900_000,
        in_century(d.time),
    ensures
        reads_demand(read_demand(s1, di2, 0x00, slot), d),
{
    lemma_demand_reads(d);
}

/// Without a register the total forward active demand reads the maximum demand with its time;
/// every other one reads zero at the present time.
#[verifier::rlimit(50)]
pub proof fn law_unset_demands_read(s: MeterState, slot: u8, t: EnergyType, n: u8, di1: u8)
    requires
        !s.demand_registers@.contains_key(demand_key(slot, 0, t, n)),
        slot <= 12,
        t != EnergyType::CombinedActive,
        di1 <= 0x3F,
        two_digits(di1) == n,
        n <= s.num_rates,
        s.max_demand < 99_999_900_000,
        in_century(s.max_demand_time),
        in_century(s.virtual_time),
    ensures
        t == EnergyType::ForwardActive && n == 0 ==> reads_demand(
            read_demand(s, 0x01, 0x00, slot),
            DemandValue { value: s.max_demand, time: s.max_demand_time },
        ),
        t != EnergyType::ForwardActive || n != 0 ==> reads_demand(
            read_demand(s, kind_byte(t), di1, slot),
            DemandValue { value: 0, time: s.virtual_time },
        ),
{
    reveal(decimal_of);
    lemma_demand_reads(DemandValue { value: s.max_demand, time: s.max_demand_time });
    lemma_demand_reads(DemandValue { value: 0, time: s.virtual_time });
}

proof fn lemma_demand_length(d: DemandValue)
    ensures
        demand_bytes(d).len() == 8,
{
    lemma_length(d.value, 3, 4);
}

proof fn lemma_demand_pieces(s: MeterState, slot: u8, t: EnergyType, n: nat, k: nat)
    requires
        k <= n <= 255,
    ensures
        demand_and_rates(s, slot, t, n).len() == 8 * (n + 1),
        piece(demand_and_rates(s, slot, t, n), 8 * k as int, 8) == demand_bytes(
            s.demand(slot, 0, t, k as u8),
        ),
    decreases n,
{
    let block = demand_and_rates(s, slot, t, n);
    lemma_demand_length(s.demand(slot, 0, t, n as u8));
    if n > 0 {
        let before = demand_and_rates(s, slot, t, (n - 1) as nat);
        if k < n {
            lemma_demand_pieces(s, slot, t, (n - 1) as nat, k);
            assert(piece(block, 8 * k as int, 8) =~= piece(before, 8 * k as int, 8));
        } else {
            lemma_demand_pieces(s, slot, t, (n - 1) as nat, 0);
            assert(piece(block, 8 * k as int, 8) =~= demand_bytes(s.demand(slot, 0, t, n as u8)));
        }
    } else {
        assert(piece(block, 0, 8) =~= block);
    }
}

/// The block read of a demand is the total and the rates in their order: every single read is
/// its eight-byte piece. A rate that the meter does not have is refused.
#[verifier::rlimit(50)]
pub proof fn law_demand_block_holds_the_single_reads(
    s: MeterState,
    slot: u8,
    t: EnergyType,
    di1: u8,
)
    requires
        slot <= 12,
        t != EnergyType::CombinedActive,
        di1 <= 0x3F,
    ensures
        ({
            let block = read_demand(s, kind_byte(t), 0xFF, slot);
            let single = read_demand(s, kind_byte(t), di1, slot);
            &&& block is Ok
            &&& block->Ok_0.len() == 8 * (s.num_rates + 1)
            &&& two_digits(di1) <= s.num_rates ==> single == Ok::<Seq<u8>, ReadError>(
                piece(block->Ok_0, 8 * two_digits(di1), 8),
            )
            &&& two_digits(di1) > s.num_rates ==> single is Err
        }),
{
    reveal(decimal_of);
    let n = two_digits(di1);
    lemma_demand_pieces(s, slot, t, s.num_rates as nat, 0);
    if n <= s.num_rates {
        lemma_demand_pieces(s, slot, t, s.num_rates as nat, n as nat);
    }
}

/// What an event reads.
pub open spec fn read_event(s: MeterState, event_type: u8, sub_type: u8, number: u8) -> Result<
    Seq<u8>,
    ReadError,
> {
    memory_read(seq![number, sub_type, event_type, 0x03u8], s)
}

proof fn lemma_total_shows(n: u32)
    ensures
        total_bytes(n).len() == 3,
        all_decimal(total_bytes(n)),
        n <= 999999 ==> shown(total_bytes(n)) == n,
        n > 999999 ==> shown(total_bytes(n)) == 999999,
{
    let v: int = if n > 999999 {
        999999
    } else {
        n as int
    };
    lemma_byte_digits((v % 100) as u8);
    lemma_byte_digits((v / 100 % 100) as u8);
    lemma_byte_digits((v / 10000 % 100) as u8);
    let d = total_bytes(n);
    lemma_shown_three(d);
    assert(v == v % 100 + 100 * (v / 100 % 100) + 10000 * (v / 10000 % 100));
}

proof fn lemma_shown_three(d: Seq<u8>)
    requires
        d.len() == 3,
    ensures
        shown(d) == two_digits(d[0]) + 100 * two_digits(d[1]) + 10000 * two_digits(d[2]),
{
    reveal_with_fuel(shown, 4);
    assert(d.skip(1) =~= seq![d[1], d[2]]);
    assert(d.skip(1).skip(1) =~= seq![d[2]]);
    assert(d.skip(1).skip(1).skip(1) =~= Seq::<u8>::empty());
}

/// The totals of a kind of event read as how often and how many minutes, six digits each.
#[verifier::rlimit(50)]
pub proof fn law_event_totals_read(s: MeterState, event_type: u8, sub_type: u8)
    requires
        s.totals(event_type, sub_type).total_count <= 999999,
        s.totals(event_type, sub_type).total_duration_minutes <= 999999,
    ensures
        ({
            let r = read_event(s, event_type, sub_type, 0);
            &&& r matches Ok(d) ==> d.len() == 6 && all_decimal(d) && shown(piece(d, 0, 3))
                == s.totals(event_type, sub_type).total_count && shown(piece(d, 3, 3)) == s.totals(
                event_type,
                sub_type,
            ).total_duration_minutes
            &&& s.totals(event_type, sub_type).total_count > 0 ==> r is Ok
        }),
{
    let summary = s.totals(event_type, sub_type);
    let (a, b) = (total_bytes(summary.total_count), total_bytes(summary.total_duration_minutes));
    lemma_total_shows(summary.total_count);
    lemma_total_shows(summary.total_duration_minutes);
    assert(piece(a + b, 0, 3) =~= a);
    assert(piece(a + b, 3, 3) =~= b);
    assert forall|i: int| 0 <= i < 6 implies (#[trigger] (a + b)[i]) as int / 16 < 10 && (a
        + b)[i] as int % 16 < 10 by {
        if i < 3 {
            assert((a + b)[i] == a[i]);
        } else {
            assert((a + b)[i] == b[i - 3]);
        }
    }
}

/// Record number `k` of a kind of event is the `k`th newest. It reads as start, end (zeros while
/// the event lasts) and data; a fault always has 119 bytes of data.
#[verifier::rlimit(50)]
pub proof fn law_event_record_reads(s: MeterState, event_type: u8, sub_type: u8, k: u8)
    requires
        1 <= k <= 10,
        k <= s.events(event_type, sub_type).len(),
        ({
            let e = s.events(event_type, sub_type)[s.events(event_type, sub_type).len() - k];
            in_century(e.start_time) && (e.end_time matches Some(end) ==> in_century(end))
        }),
    ensures
        ({
            let records = s.events(event_type, sub_type);
            let e = records[records.len() - k];
            let r = read_event(s, event_type, sub_type, k);
            &&& r is Ok
            &&& tells_second(piece(r->Ok_0, 0, 6), e.start_time)
            &&& e.end_time matches Some(end) ==> tells_second(piece(r->Ok_0, 6, 6), end)
            &&& e.end_time is None ==> piece(r->Ok_0, 6, 6) == seq![0u8, 0, 0, 0, 0, 0]
            &&& 1 <= event_type <= 15 ==> r->Ok_0.len() == 131
            &&& event_type == 0 || event_type > 15 || e.data@.len() == 119 ==> r->Ok_0.skip(12)
                == e.data@
            &&& forall|i: int|
                0 <= i < e.data@.len() && i + 12 < r->Ok_0.len() ==> #[trigger] r->Ok_0[i + 12]
                    == e.data@[i]
        }),
{
    let records = s.events(event_type, sub_type);
    let e = records[records.len() - k];
    let r = read_event(s, event_type, sub_type, k);
    lemma_times_tell(e.start_time);
    let d = r->Ok_0;
    assert(piece(d, 0, 6) =~= crate::simulation::di_handler::encoding::clock_bytes(
        e.start_time.cal(),
    ));
    match e.end_time {
        Some(end) => {
            lemma_times_tell(end);
            assert(piece(d, 6, 6) =~= crate::simulation::di_handler::encoding::clock_bytes(
                end.cal(),
            ));
        },
        None => {
            assert(piece(d, 6, 6) =~= seq![0u8, 0, 0, 0, 0, 0]);
        },
    }
    if event_type == 0 || event_type > 15 || e.data@.len() == 119 {
        assert(d.skip(12) =~= e.data@);
    }
}

/// A record that is not there, and one beyond the tenth, is refused.
#[verifier::rlimit(50)]
pub proof fn law_missing_event_is_refused(s: MeterState, event_type: u8, sub_type: u8, k: u8)
    requires
        k > 10 || (k > 0 && k > s.events(event_type, sub_type).len()),
    ensures
        read_event(s, event_type, sub_type, k) is Err,
{
}

} // verus!
