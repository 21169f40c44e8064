//! What parameters read, and what writing them changes.

use crate::laws::clock::{
    gregorian_weekday, law_weekday, lemma_seconds_split, lemma_time_of_day,
};
use crate::laws::digits::{
    all_decimal, in_century, lemma_byte_digits, lemma_energy_shows, lemma_number_shows,
    lemma_powers, lemma_short_thousandths_show, lemma_shown, lemma_ten_thousandths_show,
    lemma_tenths_show, piece, second_named, shown, shows, tells_second, two_digits,
};
use crate::protocol::format::{bcd_byte_value, bin_digits, is_bcd};
use crate::simulation::di_handler::encoding::{bcd_of, clock_bytes, decimal_of, year_byte};
use crate::simulation::di_handler::memory_read;
use crate::simulation::di_handler::parameter::{parameter_read, word_bytes};
use crate::simulation::di_handler::read_error::ReadError;
use crate::simulation::di_handler::write::{dated, timed, write_error, written};
use crate::simulation::state::MeterState;
use crate::time::{days_in_month, lemma_calendar_of, Calendar};
use vstd::prelude::*;

verus! {

/// What a parameter (04-00-xx-xx) reads.
#[verifier::opaque]
pub open spec fn read_parameter(s: MeterState, di1: u8, di0: u8) -> Result<Seq<u8>, ReadError> {
    memory_read(seq![di0, di1, 0x00u8, 0x04u8], s)
}

proof fn lemma_read_parameter(s: MeterState, di1: u8, di0: u8)
    ensures
        parameter_read(seq![di0, di1, 0x00u8, 0x04u8], s) matches Some(bytes) ==> read_parameter(
            s,
            di1,
            di0,
        ) == Ok::<Seq<u8>, ReadError>(bytes),
{
    reveal(read_parameter);
}

/// A read gives exactly these bytes.
pub open spec fn reads_as(r: Result<Seq<u8>, ReadError>, bytes: Seq<u8>) -> bool {
    r == Ok::<Seq<u8>, ReadError>(bytes)
}

/// A read gives a whole number in decimal digits.
pub open spec fn reads_number(r: Result<Seq<u8>, ReadError>, n: int, bytes: nat) -> bool {
    r matches Ok(data) && data.len() == bytes && all_decimal(data) && shown(data) == n
}

proof fn lemma_one_byte(v: u8)
    requires
        v <= 99,
    ensures
        all_decimal(seq![bcd_of(v)]),
        shown(seq![bcd_of(v)]) == v,
{
    lemma_byte_digits(v);
    reveal_with_fuel(shown, 2);
    assert(seq![bcd_of(v)].skip(1) =~= Seq::<u8>::empty());
}

proof fn lemma_two_bytes(a: u8, b: u8)
    requires
        a <= 99,
        b <= 99,
    ensures
        all_decimal(seq![bcd_of(a), bcd_of(b)]),
        shown(seq![bcd_of(a), bcd_of(b)]) == a + 100 * b,
{
    lemma_byte_digits(a);
    lemma_byte_digits(b);
    reveal_with_fuel(shown, 3);
    let d = seq![bcd_of(a), bcd_of(b)];
    assert(d.skip(1) =~= seq![bcd_of(b)]);
    assert(d.skip(1).skip(1) =~= Seq::<u8>::empty());
}

/// The time read (seconds, minutes, hours) and the date read behind its first byte (day, month,
/// year) name the present second. The first byte of the date is the day of the week.
#[verifier::rlimit(50)]
pub proof fn law_clock_reads(s: MeterState)
    requires
        in_century(s.virtual_time),
    ensures
        ({
            let (date, time) = (read_parameter(s, 0x01, 0x01), read_parameter(s, 0x01, 0x02));
            let c = second_named(time->Ok_0 + date->Ok_0.skip(1));
            &&& date is Ok
            &&& time is Ok
            &&& date->Ok_0.len() == 4
            &&& time->Ok_0.len() == 3
            &&& tells_second(time->Ok_0 + date->Ok_0.skip(1), s.virtual_time)
            &&& two_digits(date->Ok_0[0]) == gregorian_weekday(
                c.year as int,
                c.month as int,
                c.day as int,
            )
        }),
{
    lemma_read_parameter(s, 0x01, 0x01);
    lemma_read_parameter(s, 0x01, 0x02);
    let c = s.virtual_time.cal();
    s.virtual_time.lemma_valid();
    lemma_calendar_of(s.virtual_time.secs());
    let (date, time) = (
        read_parameter(s, 0x01, 0x01)->Ok_0,
        read_parameter(s, 0x01, 0x02)->Ok_0,
    );
    crate::laws::digits::lemma_times_tell(s.virtual_time);
    assert(time + date.skip(1) =~= clock_bytes(c));
    law_weekday(c);
    lemma_byte_digits(crate::time::weekday_of(s.virtual_time.secs()) as u8);
    assert(second_named(clock_bytes(c)) == c) by {
        reveal(days_in_month);
        reveal(year_byte);
        lemma_byte_digits(c.second as u8);
        lemma_byte_digits(c.minute as u8);
        lemma_byte_digits(c.hour as u8);
        lemma_byte_digits(c.day as u8);
        lemma_byte_digits(c.month as u8);
        lemma_byte_digits(year_byte(c.year as int));
    }
}

/// Demand period, sliding step and pulse width read as numbers.
#[verifier::rlimit(50)]
pub proof fn law_period_reads(s: MeterState)
    requires
        s.demand_period_minutes < 100,
        s.sliding_window_minutes < 100,
        s.calibration_pulse_width_ms < 10_000,
    ensures
        reads_number(read_parameter(s, 0x01, 0x03), s.demand_period_minutes as int, 1),
        reads_number(read_parameter(s, 0x01, 0x04), s.sliding_window_minutes as int, 1),
        reads_number(read_parameter(s, 0x01, 0x05), s.calibration_pulse_width_ms as int, 2),
{
    lemma_powers();
    lemma_read_parameter(s, 0x01, 0x03);
    lemma_one_byte(s.demand_period_minutes as u8);
    lemma_read_parameter(s, 0x01, 0x04);
    lemma_one_byte(s.sliding_window_minutes as u8);
    lemma_read_parameter(s, 0x01, 0x05);
    lemma_number_shows(s.calibration_pulse_width_ms as int, 2);
}

/// The sizes of the tariff tables read as numbers.
#[verifier::rlimit(50)]
pub proof fn law_tariff_reads(s: MeterState)
    requires
        s.num_time_zones < 100,
        s.num_day_tables < 100,
        s.num_time_slots < 100,
        s.num_rates < 100,
    ensures
        reads_number(read_parameter(s, 0x02, 0x01), s.num_time_zones as int, 1),
        reads_number(read_parameter(s, 0x02, 0x02), s.num_day_tables as int, 1),
        reads_number(read_parameter(s, 0x02, 0x03), s.num_time_slots as int, 1),
        reads_number(read_parameter(s, 0x02, 0x04), s.num_rates as int, 1),
{
    lemma_powers();
    lemma_read_parameter(s, 0x02, 0x01);
    lemma_one_byte(s.num_time_zones);
    lemma_read_parameter(s, 0x02, 0x02);
    lemma_one_byte(s.num_day_tables);
    lemma_read_parameter(s, 0x02, 0x03);
    lemma_one_byte(s.num_time_slots);
    lemma_read_parameter(s, 0x02, 0x04);
    lemma_one_byte(s.num_rates);
}

/// The numbers of holidays, harmonics and ladders read as numbers.
#[verifier::rlimit(50)]
pub proof fn law_more_tariff_reads(s: MeterState)
    requires
        s.num_public_holidays < 10_000,
        s.harmonic_analysis_orders < 100,
        s.num_ladders < 100,
    ensures
        reads_number(read_parameter(s, 0x02, 0x05), s.num_public_holidays as int, 2),
        reads_number(read_parameter(s, 0x02, 0x06), s.harmonic_analysis_orders as int, 1),
        reads_number(read_parameter(s, 0x02, 0x07), s.num_ladders as int, 1),
{
    lemma_powers();
    lemma_read_parameter(s, 0x02, 0x05);
    lemma_two_bytes((s.num_public_holidays % 100) as u8, (s.num_public_holidays / 100) as u8);
    lemma_read_parameter(s, 0x02, 0x06);
    lemma_one_byte(s.harmonic_analysis_orders);
    lemma_read_parameter(s, 0x02, 0x07);
    lemma_one_byte(s.num_ladders);
}

/// Display settings read as numbers.
#[verifier::rlimit(50)]
pub proof fn law_display_reads(s: MeterState)
    requires
        s.display_config.cycle_screen_count < 100,
        s.display_config.screen_period_seconds < 100,
        s.display_config.energy_decimals < 100,
        s.display_config.demand_decimals < 100,
    ensures
        reads_number(read_parameter(s, 0x03, 0x01), s.display_config.cycle_screen_count as int, 1),
        reads_number(read_parameter(s, 0x03, 0x02), s.display_config.screen_period_seconds as int, 1),
        reads_number(read_parameter(s, 0x03, 0x03), s.display_config.energy_decimals as int, 1),
        reads_number(read_parameter(s, 0x03, 0x04), s.display_config.demand_decimals as int, 1),
{
    lemma_powers();
    lemma_read_parameter(s, 0x03, 0x01);
    lemma_one_byte(s.display_config.cycle_screen_count);
    lemma_read_parameter(s, 0x03, 0x02);
    lemma_one_byte(s.display_config.screen_period_seconds);
    lemma_read_parameter(s, 0x03, 0x03);
    lemma_one_byte(s.display_config.energy_decimals);
    lemma_read_parameter(s, 0x03, 0x04);
    lemma_one_byte(s.display_config.demand_decimals);
}

/// The key screens and the transformer ratios read as numbers.
#[verifier::rlimit(50)]
pub proof fn law_transformer_reads(s: MeterState)
    requires
        s.display_config.key_screen_count < 100,
        s.display_config.ct_ratio < 1_000_000,
        s.display_config.pt_ratio < 1_000_000,
    ensures
        reads_number(read_parameter(s, 0x03, 0x05), s.display_config.key_screen_count as int, 1),
        reads_number(read_parameter(s, 0x03, 0x06), s.display_config.ct_ratio as int, 3),
        reads_number(read_parameter(s, 0x03, 0x07), s.display_config.pt_ratio as int, 3),
{
    lemma_powers();
    lemma_read_parameter(s, 0x03, 0x05);
    lemma_one_byte(s.display_config.key_screen_count);
    lemma_read_parameter(s, 0x03, 0x06);
    lemma_number_shows(s.display_config.ct_ratio as int, 3);
    lemma_read_parameter(s, 0x03, 0x07);
    lemma_number_shows(s.display_config.pt_ratio as int, 3);
}

/// The two meter constants read as numbers.
#[verifier::rlimit(50)]
pub proof fn law_constant_reads(s: MeterState)
    requires
        s.meter_constant < 1_000_000,
        s.nameplate.reactive_meter_constant < 1_000_000,
    ensures
        reads_number(read_parameter(s, 0x04, 0x09), s.meter_constant as int, 3),
        reads_number(read_parameter(s, 0x04, 0x0A), s.nameplate.reactive_meter_constant as int, 3),
{
    lemma_powers();
    lemma_read_parameter(s, 0x04, 0x09);
    lemma_number_shows(s.meter_constant as int, 3);
    lemma_read_parameter(s, 0x04, 0x0A);
    lemma_number_shows(s.nameplate.reactive_meter_constant as int, 3);
}

/// Switching times read as they were stored.
#[verifier::rlimit(50)]
pub proof fn law_switching_times_read(s: MeterState)
    ensures
        reads_as(read_parameter(s, 0x01, 0x06), s.timezone_switch_time@),
        reads_as(read_parameter(s, 0x01, 0x07), s.daytable_switch_time@),
        reads_as(read_parameter(s, 0x01, 0x08), s.price_switch_time@),
        reads_as(read_parameter(s, 0x01, 0x09), s.ladder_switch_time@),
{
    lemma_read_parameter(s, 0x01, 0x06);
    lemma_read_parameter(s, 0x01, 0x07);
    lemma_read_parameter(s, 0x01, 0x08);
    lemma_read_parameter(s, 0x01, 0x09);
}

/// Numbers on the nameplate read as they are stored, and its texts from the last character to
/// the first.
#[verifier::rlimit(50)]
pub proof fn law_nameplate_reads(s: MeterState)
    ensures
        reads_as(read_parameter(s, 0x04, 0x01), s.address@),
        reads_as(read_parameter(s, 0x04, 0x02), s.nameplate.meter_no@),
        reads_as(read_parameter(s, 0x04, 0x03), s.nameplate.asset_code@),
        reads_as(read_parameter(s, 0x04, 0x04), s.nameplate.rated_voltage_ascii@.reverse()),
        reads_as(read_parameter(s, 0x04, 0x05), s.nameplate.rated_current_ascii@.reverse()),
        reads_as(read_parameter(s, 0x04, 0x06), s.nameplate.max_current_ascii@.reverse()),
        reads_as(read_parameter(s, 0x04, 0x07), s.nameplate.active_accuracy@.reverse()),
        reads_as(read_parameter(s, 0x04, 0x08), s.nameplate.reactive_accuracy@.reverse()),
        reads_as(read_parameter(s, 0x04, 0x0B), s.nameplate.meter_model_ascii@.reverse()),
        reads_as(read_parameter(s, 0x04, 0x0C), s.nameplate.production_date_ascii@.reverse()),
        reads_as(read_parameter(s, 0x04, 0x0D), s.nameplate.protocol_version_ascii@.reverse()),
        reads_as(read_parameter(s, 0x04, 0x0E), s.nameplate.customer_no@),
{
    lemma_read_parameter(s, 0x04, 0x01);
    lemma_read_parameter(s, 0x04, 0x02);
    lemma_read_parameter(s, 0x04, 0x03);
    lemma_read_parameter(s, 0x04, 0x04);
    lemma_read_parameter(s, 0x04, 0x05);
    lemma_read_parameter(s, 0x04, 0x06);
    lemma_read_parameter(s, 0x04, 0x07);
    lemma_read_parameter(s, 0x04, 0x08);
    lemma_read_parameter(s, 0x04, 0x0B);
    lemma_read_parameter(s, 0x04, 0x0C);
    lemma_read_parameter(s, 0x04, 0x0D);
    lemma_read_parameter(s, 0x04, 0x0E);
}

/// Combination, rest day, load record and freeze modes read as they are.
#[verifier::rlimit(50)]
pub proof fn law_mode_words_read(s: MeterState)
    ensures
        reads_as(read_parameter(s, 0x06, 0x01), seq![s.active_combination_word]),
        reads_as(read_parameter(s, 0x06, 0x02), seq![s.reactive_combination_1]),
        reads_as(read_parameter(s, 0x06, 0x03), seq![s.reactive_combination_2]),
        reads_as(read_parameter(s, 0x08, 0x01), seq![s.weekly_rest_day_word]),
        reads_as(read_parameter(s, 0x09, 0x01), seq![s.load_record_config.mode_word]),
        reads_as(read_parameter(s, 0x09, 0x02), seq![s.freeze_config.timed_freeze_mode]),
        reads_as(read_parameter(s, 0x09, 0x03), seq![s.freeze_config.instant_freeze_mode]),
        reads_as(read_parameter(s, 0x09, 0x04), seq![s.freeze_config.appointment_freeze_mode]),
        reads_as(read_parameter(s, 0x09, 0x05), seq![s.hourly_freeze_mode]),
        reads_as(read_parameter(s, 0x09, 0x06), seq![s.daily_freeze_mode]),
        reads_as(read_parameter(s, 0x0A, 0x01), s.load_record_start_time@.reverse()),
{
    lemma_read_parameter(s, 0x06, 0x01);
    lemma_read_parameter(s, 0x06, 0x02);
    lemma_read_parameter(s, 0x06, 0x03);
    lemma_read_parameter(s, 0x08, 0x01);
    lemma_read_parameter(s, 0x09, 0x01);
    lemma_read_parameter(s, 0x09, 0x02);
    lemma_read_parameter(s, 0x09, 0x03);
    lemma_read_parameter(s, 0x09, 0x04);
    lemma_read_parameter(s, 0x09, 0x05);
    lemma_read_parameter(s, 0x09, 0x06);
    lemma_read_parameter(s, 0x0A, 0x01);
}

/// Freeze times and the signal strength read as they are.
#[verifier::rlimit(50)]
pub proof fn law_freeze_times_read(s: MeterState)
    ensures
        reads_as(read_parameter(s, 0x12, 0x01), s.hourly_freeze_start@),
        reads_as(read_parameter(s, 0x12, 0x03), s.daily_freeze_time@),
        reads_as(read_parameter(s, 0x11, 0x04), s.active_report_mode@),
        reads_as(read_parameter(s, 0x13, 0x01), seq![s.wireless_signal]),
{
    lemma_read_parameter(s, 0x12, 0x01);
    lemma_read_parameter(s, 0x12, 0x03);
    lemma_read_parameter(s, 0x11, 0x04);
    lemma_read_parameter(s, 0x13, 0x01);
}

/// The speed of port `k`, the interval of load record class `k` and settlement day `k` are read
/// under number `k` (intervals under one more).
#[verifier::rlimit(50)]
pub proof fn law_numbered_parameters_read(s: MeterState, k: u8)
    ensures
        1 <= k <= 5 ==> reads_as(
            read_parameter(s, 0x07, k),
            seq![s.comm_speed_feature@[k - 1]],
        ),
        1 <= k <= 7 && s.load_record_config.intervals@[k - 1] < 10_000 ==> reads_number(
            read_parameter(s, 0x0A, (k + 1) as u8),
            s.load_record_config.intervals@[k - 1] as int,
            2,
        ),
        1 <= k <= 3 && s.settlement_days@[k - 1] <= 99 && s.settlement_hours@[k - 1] <= 99 ==> {
            let r = read_parameter(s, 0x0B, k);
            &&& r is Ok
            &&& r->Ok_0.len() == 2
            &&& all_decimal(r->Ok_0)
            &&& two_digits(r->Ok_0[0]) == s.settlement_days@[k - 1]
            &&& two_digits(r->Ok_0[1]) == s.settlement_hours@[k - 1]
        },
{
    lemma_read_parameter(s, 0x07, k);
    lemma_read_parameter(s, 0x0B, k);
    if 1 <= k <= 7 && s.load_record_config.intervals@[k - 1] < 10_000 {
        lemma_read_parameter(s, 0x0A, (k + 1) as u8);
        let n = s.load_record_config.intervals@[k - 1];
        lemma_two_bytes((n % 100) as u8, (n / 100) as u8);
    }
    if 1 <= k <= 3 && s.settlement_days@[k - 1] <= 99 && s.settlement_hours@[k - 1] <= 99 {
        lemma_byte_digits(s.settlement_days@[k - 1]);
        lemma_byte_digits(s.settlement_hours@[k - 1]);
    }
}

/// The status word with the given number.
pub open spec fn status_word(s: MeterState, k: int) -> u16 {
    if k == 1 {
        s.derived_status.status_word_1
    } else if k == 2 {
        s.derived_status.status_word_2
    } else if k == 3 {
        s.derived_status.status_word_3
    } else if k == 4 {
        s.derived_status.status_word_4
    } else if k == 5 {
        s.derived_status.status_word_5
    } else if k == 6 {
        s.derived_status.status_word_6
    } else {
        s.derived_status.status_word_7
    }
}

proof fn lemma_word_bytes(w: u16)
    ensures
        word_bytes(w).len() == 2,
        word_bytes(w)[0] + 256 * word_bytes(w)[1] == w,
{
    reveal_with_fuel(bin_digits, 3);
}

/// Status words read with the lower byte first. The block read holds words 1 to 7 in their order.
#[verifier::rlimit(50)]
pub proof fn law_status_reads(s: MeterState, k: u8)
    requires
        1 <= k <= 7,
    ensures
        ({
            let (single, block) = (read_parameter(s, 0x05, k), read_parameter(s, 0x05, 0xFF));
            &&& single is Ok
            &&& block is Ok
            &&& single->Ok_0.len() == 2
            &&& single->Ok_0[0] + 256 * single->Ok_0[1] == status_word(s, k as int)
            &&& block->Ok_0.len() == 18
            &&& piece(block->Ok_0, 2 * (k - 1), 2) == single->Ok_0
        }),
{
    lemma_read_parameter(s, 0x05, k);
    lemma_read_parameter(s, 0x05, 0xFF);
    let d = s.derived_status;
    lemma_word_bytes(d.status_word_1);
    lemma_word_bytes(d.status_word_2);
    lemma_word_bytes(d.status_word_3);
    lemma_word_bytes(d.status_word_4);
    lemma_word_bytes(d.status_word_5);
    lemma_word_bytes(d.status_word_6);
    lemma_word_bytes(d.status_word_7);
    crate::protocol::format::law_bin_write_read(d.status_key as int, 4);
    assert(piece(read_parameter(s, 0x05, 0xFF)->Ok_0, 2 * (k - 1), 2) =~= read_parameter(
        s,
        0x05,
        k,
    )->Ok_0);
}

/// A read gives a quantity to the nearest unit.
pub open spec fn reads_quantity(
    r: Result<Seq<u8>, ReadError>,
    v: crate::quantity::Quantity,
    bytes: nat,
    unit: int,
) -> bool {
    r matches Ok(data) && shows(data, v, bytes, unit)
}

/// Limits of power and voltage read to the nearest unit.
#[verifier::rlimit(50)]
pub proof fn law_power_and_voltage_limits_read(s: MeterState)
    requires
        s.limits.forward_active_power_limit < 99_999_900_000,
        s.limits.reverse_active_power_limit < 99_999_900_000,
        s.limits.voltage_upper < 999_900_000_000,
        s.limits.voltage_lower < 999_900_000_000,
    ensures
        reads_quantity(read_parameter(s, 0x0E, 0x01), s.limits.forward_active_power_limit, 3, 100_000),
        reads_quantity(read_parameter(s, 0x0E, 0x02), s.limits.reverse_active_power_limit, 3, 100_000),
        reads_quantity(read_parameter(s, 0x0E, 0x03), s.limits.voltage_upper, 2, 100_000_000),
        reads_quantity(read_parameter(s, 0x0E, 0x04), s.limits.voltage_lower, 2, 100_000_000),
{
    lemma_read_parameter(s, 0x0E, 0x01);
    lemma_ten_thousandths_show(s.limits.forward_active_power_limit);
    lemma_read_parameter(s, 0x0E, 0x02);
    lemma_ten_thousandths_show(s.limits.reverse_active_power_limit);
    lemma_read_parameter(s, 0x0E, 0x03);
    lemma_tenths_show(s.limits.voltage_upper);
    lemma_read_parameter(s, 0x0E, 0x04);
    lemma_tenths_show(s.limits.voltage_lower);
}

/// Limits of energy read to the nearest hundredth.
#[verifier::rlimit(50)]
pub proof fn law_energy_limits_read(s: MeterState)
    requires
        s.limits.alarm_energy_1 < 999_999_990_000_000,
        s.limits.alarm_energy_2 < 999_999_990_000_000,
        s.limits.hoard_energy < 999_999_990_000_000,
        s.limits.overdraft_energy < 999_999_990_000_000,
    ensures
        reads_quantity(read_parameter(s, 0x0F, 0x01), s.limits.alarm_energy_1, 4, 10_000_000),
        reads_quantity(read_parameter(s, 0x0F, 0x02), s.limits.alarm_energy_2, 4, 10_000_000),
        reads_quantity(read_parameter(s, 0x0F, 0x03), s.limits.hoard_energy, 4, 10_000_000),
        reads_quantity(read_parameter(s, 0x0F, 0x04), s.limits.overdraft_energy, 4, 10_000_000),
{
    lemma_read_parameter(s, 0x0F, 0x01);
    lemma_energy_shows(s.limits.alarm_energy_1);
    lemma_read_parameter(s, 0x0F, 0x02);
    lemma_energy_shows(s.limits.alarm_energy_2);
    lemma_read_parameter(s, 0x0F, 0x03);
    lemma_energy_shows(s.limits.hoard_energy);
    lemma_read_parameter(s, 0x0F, 0x04);
    lemma_energy_shows(s.limits.overdraft_energy);
}

/// Limits of amounts read to the nearest hundredth.
#[verifier::rlimit(50)]
pub proof fn law_amount_limits_read(s: MeterState)
    requires
        s.limits.alarm_amount_1 < 999_999_990_000_000,
        s.limits.alarm_amount_2 < 999_999_990_000_000,
        s.limits.overdraft_amount < 999_999_990_000_000,
        s.limits.hoard_amount < 999_999_990_000_000,
        s.limits.close_allow_amount < 999_999_990_000_000,
    ensures
        reads_quantity(read_parameter(s, 0x10, 0x01), s.limits.alarm_amount_1, 4, 10_000_000),
        reads_quantity(read_parameter(s, 0x10, 0x02), s.limits.alarm_amount_2, 4, 10_000_000),
        reads_quantity(read_parameter(s, 0x10, 0x03), s.limits.overdraft_amount, 4, 10_000_000),
        reads_quantity(read_parameter(s, 0x10, 0x04), s.limits.hoard_amount, 4, 10_000_000),
        reads_quantity(read_parameter(s, 0x10, 0x05), s.limits.close_allow_amount, 4, 10_000_000),
{
    lemma_read_parameter(s, 0x10, 0x01);
    lemma_energy_shows(s.limits.alarm_amount_1);
    lemma_read_parameter(s, 0x10, 0x02);
    lemma_energy_shows(s.limits.alarm_amount_2);
    lemma_read_parameter(s, 0x10, 0x03);
    lemma_energy_shows(s.limits.overdraft_amount);
    lemma_read_parameter(s, 0x10, 0x04);
    lemma_energy_shows(s.limits.hoard_amount);
    lemma_read_parameter(s, 0x10, 0x05);
    lemma_energy_shows(s.limits.close_allow_amount);
}

/// Coefficient `k` of phase `p` reads to the nearest thousandth, four of each phase in turn.
#[verifier::rlimit(50)]
pub proof fn law_coefficients_read(s: MeterState, p: int, k: int)
    requires
        0 <= p < 3,
        0 <= k < 4,
        s.limits.network_coefficients@[p]@[k] < 9_999_000_000,
    ensures
        reads_quantity(
            read_parameter(s, 0x0D, (1 + 4 * p + k) as u8),
            s.limits.network_coefficients@[p]@[k],
            2,
            1_000_000,
        ),
{
    let di0 = (1 + 4 * p + k) as u8;
    lemma_read_parameter(s, 0x0D, di0);
    lemma_short_thousandths_show(s.limits.network_coefficients@[p]@[k]);
    assert((di0 - 1) / 4 == p && (di0 - 1) % 4 == k);
}

/// The hourly interval and the rest day table read as numbers, and the feature word with its
/// lower byte first.
#[verifier::rlimit(50)]
pub proof fn law_other_parameters_read(s: MeterState)
    requires
        s.hourly_freeze_interval_min <= 99,
        s.rest_day_table_no <= 99,
    ensures
        reads_number(read_parameter(s, 0x12, 0x02), s.hourly_freeze_interval_min as int, 1),
        reads_number(read_parameter(s, 0x08, 0x02), s.rest_day_table_no as int, 1),
        read_parameter(s, 0x11, 0x01) matches Ok(d) && d.len() == 2 && d[0] + 256 * d[1]
            == s.operation_feature_word_1,
{
    lemma_read_parameter(s, 0x12, 0x02);
    lemma_read_parameter(s, 0x08, 0x02);
    lemma_read_parameter(s, 0x11, 0x01);
    lemma_one_byte(s.hourly_freeze_interval_min);
    lemma_one_byte(s.rest_day_table_no);
    lemma_word_bytes(s.operation_feature_word_1);
}

/// A date that is written (year, month, day and the day of the week) is the date afterwards; the
/// time of day stays as it was. It is accepted exactly when it exists.
#[verifier::rlimit(50)]
pub proof fn law_date_write(data: Seq<u8>, s: MeterState, t: MeterState)
    requires
        s.virtual_time.valid(),
    ensures
        ({
            let di = seq![0x01u8, 0x01, 0x00, 0x04];
            let date = Calendar {
                year: (2000 + two_digits(data[0])) as i32,
                month: two_digits(data[1]) as u32,
                day: two_digits(data[2]) as u32,
                hour: 0,
                minute: 0,
                second: 0,
            };
            let accepted = data.len() == 4 && all_decimal(data.take(3)) && date.valid();
            &&& write_error(di, data, s) is None <==> accepted
            &&& accepted && written(di, data, s, t) ==> {
                &&& t.virtual_time.secs() == date.seconds() + s.virtual_time.secs() % 86400
                &&& t.virtual_time.subsec_nanos() == 0
                &&& t == (MeterState { virtual_time: t.virtual_time, ..s })
            }
        }),
{
    s.virtual_time.lemma_valid();
    lemma_calendar_of(s.virtual_time.secs());
    if data.len() == 4 {
        let b = data.take(3);
        lemma_three_digits(b);
        assert(b[0] == data[0] && b[1] == data[1] && b[2] == data[2]);
    }
    lemma_time_of_day(s.virtual_time);
    let c = dated(data, s);
    if c.valid() {
        lemma_seconds_split(c);
        lemma_seconds_split(Calendar { hour: 0, minute: 0, second: 0, ..c });
    }
}

proof fn lemma_three_digits(b: Seq<u8>)
    requires
        b.len() == 3,
    ensures
        all_decimal(b) <==> is_bcd(b[0]) && is_bcd(b[1]) && is_bcd(b[2]),
        is_bcd(b[0]) ==> bcd_byte_value(b[0]) == two_digits(b[0]),
        is_bcd(b[1]) ==> bcd_byte_value(b[1]) == two_digits(b[1]),
        is_bcd(b[2]) ==> bcd_byte_value(b[2]) == two_digits(b[2]),
{
    reveal(is_bcd);
    reveal(bcd_byte_value);
    if is_bcd(b[0]) && is_bcd(b[1]) && is_bcd(b[2]) {
        assert forall|i: int| 0 <= i < 3 implies (#[trigger] b[i]) as int / 16 < 10 && b[i] as int
            % 16 < 10 by {
            assert(i == 0 || i == 1 || i == 2);
        }
    }
    if all_decimal(b) {
        assert(b[0] as int / 16 < 10 && b[1] as int / 16 < 10 && b[2] as int / 16 < 10);
    }
}

/// A time of day that is written (hours, minutes, seconds) is the time of day afterwards; the
/// date stays as it was. It is accepted exactly when it exists.
#[verifier::rlimit(50)]
pub proof fn law_time_write(data: Seq<u8>, s: MeterState, t: MeterState)
    requires
        s.virtual_time.valid(),
    ensures
        ({
            let di = seq![0x02u8, 0x01, 0x00, 0x04];
            let accepted = data.len() == 3 && all_decimal(data) && two_digits(data[0]) < 24
                && two_digits(data[1]) < 60 && two_digits(data[2]) < 60;
            &&& write_error(di, data, s) is None <==> accepted
            &&& accepted && written(di, data, s, t) ==> {
                &&& t.virtual_time.secs() / 86400 == s.virtual_time.secs() / 86400
                &&& t.virtual_time.secs() % 86400 == two_digits(data[0]) * 3600 + two_digits(
                    data[1],
                ) * 60 + two_digits(data[2])
                &&& t.virtual_time.subsec_nanos() == 0
                &&& t == (MeterState { virtual_time: t.virtual_time, ..s })
            }
        }),
{
    s.virtual_time.lemma_valid();
    lemma_calendar_of(s.virtual_time.secs());
    if data.len() == 3 {
        lemma_three_digits(data);
    }
    lemma_seconds_split(s.virtual_time.cal());
    let c = timed(data, s);
    if c.valid() {
        lemma_seconds_split(c);
    }
}

/// Demand period and sliding step that are written in digits are those numbers of minutes
/// afterwards.
#[verifier::rlimit(50)]
pub proof fn law_number_writes(data: Seq<u8>, s: MeterState, t: MeterState)
    ensures
        ({
            let (period, step) = (
                seq![0x03u8, 0x01, 0x00, 0x04],
                seq![0x04u8, 0x01, 0x00, 0x04],
            );
            let one_number = data.len() == 1 && all_decimal(data);
            &&& write_error(period, data, s) is None <==> one_number
            &&& write_error(step, data, s) is None <==> one_number
            &&& one_number && written(period, data, s, t) ==> t.demand_period_minutes
                == two_digits(data[0]) && t == (MeterState {
                demand_period_minutes: t.demand_period_minutes,
                ..s
            })
            &&& one_number && written(step, data, s, t) ==> t.sliding_window_minutes
                == two_digits(data[0]) && t == (MeterState {
                sliding_window_minutes: t.sliding_window_minutes,
                ..s
            })
        }),
{
    reveal(is_bcd);
    reveal(bcd_byte_value);
    if data.len() == 1 {
        assert(all_decimal(data) <==> is_bcd(data[0])) by {
            if is_bcd(data[0]) {
                assert forall|i: int| 0 <= i < 1 implies (#[trigger] data[i]) as int / 16 < 10
                    && data[i] as int % 16 < 10 by {
                    assert(i == 0);
                }
            }
            if all_decimal(data) {
                assert(data[0] as int / 16 < 10);
            }
        }
    }
}

/// A meter constant that is written is the number that its three bytes of digits show.
#[verifier::rlimit(50)]
pub proof fn law_constant_write(data: Seq<u8>, s: MeterState, t: MeterState)
    ensures
        ({
            let di = seq![0x09u8, 0x04, 0x00, 0x04];
            let accepted = data.len() == 3 && all_decimal(data);
            &&& write_error(di, data, s) is None <==> accepted
            &&& accepted && written(di, data, s, t) ==> t.meter_constant == shown(data) && t == (
            MeterState { meter_constant: t.meter_constant, ..s })
        }),
{
    if data.len() == 3 {
        lemma_three_digits(data);
        lemma_shown(data);
        if all_decimal(data) {
            assert(crate::protocol::format::all_bcd(data));
            crate::protocol::format::lemma_bcd_value_bound(data);
            lemma_powers();
        }
    }
}

/// An address that is written from its highest byte to its lowest is the address, lowest first.
#[verifier::rlimit(50)]
pub proof fn law_address_write(data: Seq<u8>, s: MeterState, t: MeterState, i: int)
    requires
        data.len() == 6,
        written(seq![0x01u8, 0x04, 0x00, 0x04], data, s, t),
        0 <= i < 6,
    ensures
        write_error(seq![0x01u8, 0x04, 0x00, 0x04], data, s) is None,
        t.address@[i] == data[5 - i],
        t == (MeterState { address: t.address, ..s }),
{
}

/// A settlement day lies between 1 and 28, its hour between 0 and 23; 99 for both takes it away.
#[verifier::rlimit(50)]
pub proof fn law_settlement_write(data: Seq<u8>, s: MeterState, t: MeterState, k: u8, i: int)
    requires
        1 <= k <= 3,
        0 <= i < 3,
    ensures
        ({
            let di = seq![k, 0x0Bu8, 0x00, 0x04];
            let taken_away = data.len() == 2 && data[0] == 0x99 && data[1] == 0x99;
            let named = data.len() == 2 && 1 <= two_digits(data[0]) <= 28 && two_digits(data[1])
                <= 23;
            &&& write_error(di, data, s) is None <==> taken_away || named
            &&& named && written(di, data, s, t) ==> t.settlement_days@[k - 1] == two_digits(
                data[0],
            ) && t.settlement_hours@[k - 1] == two_digits(data[1])
            &&& taken_away && written(di, data, s, t) ==> t.settlement_days@[k - 1] == 0
            &&& (named || taken_away) && written(di, data, s, t) && i != k - 1
                ==> t.settlement_days@[i] == s.settlement_days@[i] && t.settlement_hours@[i]
                == s.settlement_hours@[i]
        }),
{
    reveal(decimal_of);
}

/// Combination words, port speeds and the rest day word are one byte, stored as it is.
#[verifier::rlimit(50)]
pub proof fn law_byte_writes(b: u8, s: MeterState, t: MeterState, port: u8)
    requires
        1 <= port <= 5,
    ensures
        ({
            let data = seq![b];
            &&& written(seq![0x01u8, 0x06, 0x00, 0x04], data, s, t) ==> t == (MeterState {
                active_combination_word: b,
                ..s
            })
            &&& written(seq![0x02u8, 0x06, 0x00, 0x04], data, s, t) ==> t == (MeterState {
                reactive_combination_1: b,
                ..s
            })
            &&& written(seq![0x03u8, 0x06, 0x00, 0x04], data, s, t) ==> t == (MeterState {
                reactive_combination_2: b,
                ..s
            })
            &&& written(seq![0x01u8, 0x08, 0x00, 0x04], data, s, t) ==> t == (MeterState {
                weekly_rest_day_word: b,
                ..s
            })
            &&& written(seq![port, 0x07u8, 0x00, 0x04], data, s, t) ==> t.comm_speed_feature@[port
                - 1] == b && (port == 3 ==> t.baudrate == b) && (port != 3 ==> t.baudrate
                == s.baudrate)
            &&& write_error(seq![0x01u8, 0x06, 0x00, 0x04], data, s) is None
            &&& write_error(seq![0x02u8, 0x06, 0x00, 0x04], data, s) is None
            &&& write_error(seq![0x03u8, 0x06, 0x00, 0x04], data, s) is None
            &&& write_error(seq![0x01u8, 0x08, 0x00, 0x04], data, s) is None
            &&& write_error(seq![port, 0x07u8, 0x00, 0x04], data, s) is None
        }),
{
}

} // verus!
