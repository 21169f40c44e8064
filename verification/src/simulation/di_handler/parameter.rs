//! Parameters (04-00-xx-xx) and manufacturer data (C0-xx-00-00).

use crate::bytes::{append, to_vec};
use crate::protocol::format::{bcd_digits, bin_digits, u64_to_bcd, u64_to_bin};
use crate::simulation::di_handler::encoding::{
    bcd_of, digits, encode_bcd, encode_bcd_energy, encode_bcd_power, energy_bytes, power_bytes,
    short_year, to_bcd, year_byte,
};
use crate::simulation::di_handler::DIHandler;
use crate::simulation::state::MeterState;
use crate::time::weekday_of;
use vstd::prelude::*;

verus! {

/// One byte of two digits; of a larger number only the lowest eight bits count.
pub open spec fn low_byte_digits(n: int) -> Seq<u8> {
    seq![bcd_of((n % 256) as u8)]
}

/// Two bytes of two digits, the lower pair first.
pub open spec fn pair_digits(n: int) -> Seq<u8> {
    seq![bcd_of((n % 100) as u8), bcd_of((n / 100 % 256) as u8)]
}

/// Manufacturer data: protocol version, manufacturer, model, date and software version.
/// Texts are written from their last character to their first.
pub open spec fn maker_item(s: MeterState, di2: u8) -> Option<Seq<u8>> {
    let c = s.virtual_time.cal();
    match di2 {
        0x31u8 => Some(seq![0x07u8, 0x20]),
        // "KIRO"
        0x32u8 => Some(seq![0x4Fu8, 0x52, 0x49, 0x4B]),
        // "DLT645VM"
        0x33u8 => Some(seq![0x4Du8, 0x56, 0x35, 0x34, 0x36, 0x54, 0x4C, 0x44]),
        0x34u8 => Some(
            seq![bcd_of(year_byte(c.year as int)), bcd_of(c.month as u8), bcd_of(c.day as u8)],
        ),
        // "V1.0.0"
        0x35u8 => Some(seq![0x30u8, 0x2E, 0x30, 0x2E, 0x31, 0x56]),
        _ => None,
    }
}

/// 04-00-01-xx: clock, demand periods and switching times.
pub open spec fn clock_item(s: MeterState, di0: u8) -> Option<Seq<u8>> {
    let c = s.virtual_time.cal();
    match di0 {
        0x01u8 => Some(
            seq![
                bcd_of(weekday_of(s.virtual_time.secs()) as u8),
                bcd_of(c.day as u8),
                bcd_of(c.month as u8),
                bcd_of(year_byte(c.year as int)),
            ],
        ),
        0x02u8 => Some(
            seq![bcd_of(c.second as u8), bcd_of(c.minute as u8), bcd_of(c.hour as u8)],
        ),
        0x03u8 => Some(low_byte_digits(s.demand_period_minutes as int)),
        0x04u8 => Some(low_byte_digits(s.sliding_window_minutes as int)),
        0x05u8 => Some(bcd_digits(s.calibration_pulse_width_ms as int, 2)),
        0x06u8 => Some(s.timezone_switch_time@),
        0x07u8 => Some(s.daytable_switch_time@),
        0x08u8 => Some(s.price_switch_time@),
        0x09u8 => Some(s.ladder_switch_time@),
        _ => None,
    }
}

/// 04-00-02-xx: sizes of the tariff tables.
pub open spec fn tariff_item(s: MeterState, di0: u8) -> Option<Seq<u8>> {
    match di0 {
        0x01u8 => Some(seq![bcd_of(s.num_time_zones)]),
        0x02u8 => Some(seq![bcd_of(s.num_day_tables)]),
        0x03u8 => Some(seq![bcd_of(s.num_time_slots)]),
        0x04u8 => Some(seq![bcd_of(s.num_rates)]),
        0x05u8 => Some(pair_digits(s.num_public_holidays as int)),
        0x06u8 => Some(seq![bcd_of(s.harmonic_analysis_orders)]),
        0x07u8 => Some(seq![bcd_of(s.num_ladders)]),
        _ => None,
    }
}

/// 04-00-03-xx: display and transformers.
pub open spec fn display_item(s: MeterState, di0: u8) -> Option<Seq<u8>> {
    let d = s.display_config;
    match di0 {
        0x01u8 => Some(seq![bcd_of(d.cycle_screen_count)]),
        0x02u8 => Some(seq![bcd_of(d.screen_period_seconds)]),
        0x03u8 => Some(seq![bcd_of(d.energy_decimals)]),
        0x04u8 => Some(seq![bcd_of(d.demand_decimals)]),
        0x05u8 => Some(seq![bcd_of(d.key_screen_count)]),
        0x06u8 => Some(bcd_digits(d.ct_ratio as int, 3)),
        0x07u8 => Some(bcd_digits(d.pt_ratio as int, 3)),
        _ => None,
    }
}

/// 04-00-04-xx: nameplate. Texts are written from their last character to their first.
pub open spec fn nameplate_item(s: MeterState, di0: u8) -> Option<Seq<u8>> {
    let n = s.nameplate;
    match di0 {
        0x01u8 => Some(s.address@),
        0x02u8 => Some(n.meter_no@),
        0x03u8 => Some(n.asset_code@),
        0x04u8 => Some(n.rated_voltage_ascii@.reverse()),
        0x05u8 => Some(n.rated_current_ascii@.reverse()),
        0x06u8 => Some(n.max_current_ascii@.reverse()),
        0x07u8 => Some(n.active_accuracy@.reverse()),
        0x08u8 => Some(n.reactive_accuracy@.reverse()),
        0x09u8 => Some(bcd_digits(s.meter_constant as int, 3)),
        0x0Au8 => Some(bcd_digits(n.reactive_meter_constant as int, 3)),
        0x0Bu8 => Some(n.meter_model_ascii@.reverse()),
        0x0Cu8 => Some(n.production_date_ascii@.reverse()),
        0x0Du8 => Some(n.protocol_version_ascii@.reverse()),
        0x0Eu8 => Some(n.customer_no@),
        _ => None,
    }
}

/// A status word, the lower byte first.
pub open spec fn word_bytes(w: u16) -> Seq<u8> {
    bin_digits(w as int, 2)
}

/// 04-00-05-xx: status words, one by one or (FF) words 1 to 7 and the key status.
pub open spec fn status_item(s: MeterState, di0: u8) -> Option<Seq<u8>> {
    let d = s.derived_status;
    match di0 {
        0x01u8 => Some(word_bytes(d.status_word_1)),
        0x02u8 => Some(word_bytes(d.status_word_2)),
        0x03u8 => Some(word_bytes(d.status_word_3)),
        0x04u8 => Some(word_bytes(d.status_word_4)),
        0x05u8 => Some(word_bytes(d.status_word_5)),
        0x06u8 => Some(word_bytes(d.status_word_6)),
        0x07u8 => Some(word_bytes(d.status_word_7)),
        0x08u8 => Some(bin_digits(d.status_key as int, 4)),
        0x0Eu8 => Some(word_bytes(d.meter_status)),
        0xFFu8 => Some(
            word_bytes(d.status_word_1) + word_bytes(d.status_word_2) + word_bytes(d.status_word_3)
                + word_bytes(d.status_word_4) + word_bytes(d.status_word_5) + word_bytes(
                d.status_word_6,
            ) + word_bytes(d.status_word_7) + bin_digits(d.status_key as int, 4),
        ),
        _ => None,
    }
}

/// 04-00-06-xx to 04-00-0B-xx: feature and mode words, load records, settlement days.
pub open spec fn mode_item(s: MeterState, di1: u8, di0: u8) -> Option<Seq<u8>> {
    match (di1, di0) {
        (0x06u8, 0x01u8) => Some(seq![s.active_combination_word]),
        (0x06u8, 0x02u8) => Some(seq![s.reactive_combination_1]),
        (0x06u8, 0x03u8) => Some(seq![s.reactive_combination_2]),
        (0x08u8, 0x01u8) => Some(seq![s.weekly_rest_day_word]),
        (0x08u8, 0x02u8) => Some(seq![bcd_of(s.rest_day_table_no)]),
        (0x09u8, 0x01u8) => Some(seq![s.load_record_config.mode_word]),
        (0x09u8, 0x02u8) => Some(seq![s.freeze_config.timed_freeze_mode]),
        (0x09u8, 0x03u8) => Some(seq![s.freeze_config.instant_freeze_mode]),
        (0x09u8, 0x04u8) => Some(seq![s.freeze_config.appointment_freeze_mode]),
        (0x09u8, 0x05u8) => Some(seq![s.hourly_freeze_mode]),
        (0x09u8, 0x06u8) => Some(seq![s.daily_freeze_mode]),
        (0x0Au8, 0x01u8) => Some(s.load_record_start_time@.reverse()),
        _ => if di1 == 0x07 && 0x01 <= di0 <= 0x05 {
            Some(seq![s.comm_speed_feature@[di0 - 1]])
        } else if di1 == 0x0A && 0x02 <= di0 <= 0x08 {
            Some(pair_digits(s.load_record_config.intervals@[di0 - 2] as int))
        } else if di1 == 0x0B && 0x01 <= di0 <= 0x03 {
            Some(
                seq![bcd_of(s.settlement_days@[di0 - 1]), bcd_of(s.settlement_hours@[di0 - 1])],
            )
        } else {
            None
        },
    }
}

/// 04-00-0D-xx to 04-00-13-xx: limits, reports and freeze times.
pub open spec fn limit_item(s: MeterState, di1: u8, di0: u8) -> Option<Seq<u8>> {
    let l = s.limits;
    match (di1, di0) {
        (0x0Eu8, 0x01u8) => Some(power_bytes(l.forward_active_power_limit)),
        (0x0Eu8, 0x02u8) => Some(power_bytes(l.reverse_active_power_limit)),
        (0x0Eu8, 0x03u8) => Some(digits(l.voltage_upper, 2, 1)),
        (0x0Eu8, 0x04u8) => Some(digits(l.voltage_lower, 2, 1)),
        (0x0Fu8, 0x01u8) => Some(energy_bytes(l.alarm_energy_1)),
        (0x0Fu8, 0x02u8) => Some(energy_bytes(l.alarm_energy_2)),
        (0x0Fu8, 0x03u8) => Some(energy_bytes(l.hoard_energy)),
        (0x0Fu8, 0x04u8) => Some(energy_bytes(l.overdraft_energy)),
        (0x10u8, 0x01u8) => Some(energy_bytes(l.alarm_amount_1)),
        (0x10u8, 0x02u8) => Some(energy_bytes(l.alarm_amount_2)),
        (0x10u8, 0x03u8) => Some(energy_bytes(l.overdraft_amount)),
        (0x10u8, 0x04u8) => Some(energy_bytes(l.hoard_amount)),
        (0x10u8, 0x05u8) => Some(energy_bytes(l.close_allow_amount)),
        (0x11u8, 0x01u8) => Some(word_bytes(s.operation_feature_word_1)),
        (0x11u8, 0x04u8) => Some(s.active_report_mode@),
        (0x12u8, 0x01u8) => Some(s.hourly_freeze_start@),
        (0x12u8, 0x02u8) => Some(seq![bcd_of(s.hourly_freeze_interval_min)]),
        (0x12u8, 0x03u8) => Some(s.daily_freeze_time@),
        (0x13u8, 0x01u8) => Some(seq![s.wireless_signal]),
        _ => if di1 == 0x0D && 0x01 <= di0 <= 0x0C {
            Some(digits(l.network_coefficients@[(di0 - 1) / 4]@[(di0 - 1) % 4], 2, 3))
        } else {
            None
        },
    }
}

/// What a parameter identifier reads.
pub open spec fn parameter_read(di: Seq<u8>, s: MeterState) -> Option<Seq<u8>> {
    let (di3, di2, di1, di0) = (di[3], di[2], di[1], di[0]);
    if di3 == 0xC0 && di1 == 0x00 && di0 == 0x00 {
        maker_item(s, di2)
    } else if di3 != 0x04 || di2 != 0x00 {
        None
    } else if di1 == 0x01 {
        clock_item(s, di0)
    } else if di1 == 0x02 {
        tariff_item(s, di0)
    } else if di1 == 0x03 {
        display_item(s, di0)
    } else if di1 == 0x04 {
        nameplate_item(s, di0)
    } else if di1 == 0x05 {
        status_item(s, di0)
    } else if di1 <= 0x0B {
        mode_item(s, di1, di0)
    } else {
        limit_item(s, di1, di0)
    }
}

/// Bytes that may be missing.
pub open spec fn maybe_bytes(r: Option<Vec<u8>>) -> Option<Seq<u8>> {
    match r {
        Some(v) => Some(v@),
        None => None,
    }
}

fn reversed(src: &[u8]) -> (r: Vec<u8>)
    ensures
        r@ == src@.reverse(),
{
    let mut out: Vec<u8> = Vec::new();
    let n: usize = src.len();
    for i in 0..n
        invariant
            n == src@.len(),
            out@ == src@.reverse().take(i as int),
    {
        out.push(src[n - 1 - i]);
        assert(out@ =~= src@.reverse().take(i + 1));
    }
    assert(src@.reverse().take(n as int) =~= src@.reverse());
    out
}

fn one(b: u8) -> (r: Vec<u8>)
    ensures
        r@ == seq![b],
{
    let r: Vec<u8> = vec![b];
    assert(r@ =~= seq![b]);
    r
}

fn two(a: u8, b: u8) -> (r: Vec<u8>)
    ensures
        r@ == seq![a, b],
{
    let r: Vec<u8> = vec![a, b];
    assert(r@ =~= seq![a, b]);
    r
}

fn three(a: u8, b: u8, c: u8) -> (r: Vec<u8>)
    ensures
        r@ == seq![a, b, c],
{
    let r: Vec<u8> = vec![a, b, c];
    assert(r@ =~= seq![a, b, c]);
    r
}

fn word(w: u16) -> (r: Vec<u8>)
    ensures
        r@ == word_bytes(w),
{
    u64_to_bin(w as u64, 2)
}

fn pair(n: u16) -> (r: Vec<u8>)
    ensures
        r@ == pair_digits(n as int),
{
    two(to_bcd((n % 100) as u8), to_bcd((n / 100 % 256) as u8))
}

impl DIHandler {
    fn read_maker(di2: u8, state: &MeterState) -> (r: Option<Vec<u8>>)
        ensures
            maybe_bytes(r) == maker_item(*state, di2),
    {
        match di2 {
            0x31 => Some(two(0x07, 0x20)),
            0x32 => {
                let text: [u8; 4] = [0x4B, 0x49, 0x52, 0x4F];
                assert(text@.reverse() =~= seq![0x4Fu8, 0x52, 0x49, 0x4B]);
                Some(reversed(text.as_slice()))
            },
            0x33 => {
                let text: [u8; 8] = [0x44, 0x4C, 0x54, 0x36, 0x34, 0x35, 0x56, 0x4D];
                assert(text@.reverse() =~= seq![
                    0x4Du8,
                    0x56,
                    0x35,
                    0x34,
                    0x36,
                    0x54,
                    0x4C,
                    0x44,
                ]);
                Some(reversed(text.as_slice()))
            },
            0x34 => {
                let c = state.virtual_time.calendar();
                Some(three(to_bcd(short_year(c.year)), to_bcd(c.month as u8), to_bcd(c.day as u8)))
            },
            0x35 => {
                let text: [u8; 6] = [0x56, 0x31, 0x2E, 0x30, 0x2E, 0x30];
                assert(text@.reverse() =~= seq![0x30u8, 0x2E, 0x30, 0x2E, 0x31, 0x56]);
                Some(reversed(text.as_slice()))
            },
            _ => None,
        }
    }

    fn read_clock(di0: u8, state: &MeterState) -> (r: Option<Vec<u8>>)
        ensures
            maybe_bytes(r) == clock_item(*state, di0),
    {
        match di0 {
            0x01 => {
                let c = state.virtual_time.calendar();
                let r: Vec<u8> = vec![
                    to_bcd(state.virtual_time.weekday_from_sunday()),
                    to_bcd(c.day as u8),
                    to_bcd(c.month as u8),
                    to_bcd(short_year(c.year)),
                ];
                assert(r@ =~= clock_item(*state, di0)->Some_0);
                Some(r)
            },
            0x02 => {
                let c = state.virtual_time.calendar();
                Some(three(to_bcd(c.second as u8), to_bcd(c.minute as u8), to_bcd(c.hour as u8)))
            },
            0x03 => Some(one(to_bcd((state.demand_period_minutes % 256) as u8))),
            0x04 => Some(one(to_bcd((state.sliding_window_minutes % 256) as u8))),
            0x05 => Some(u64_to_bcd(state.calibration_pulse_width_ms as u64, 2)),
            0x06 => Some(to_vec(state.timezone_switch_time.as_slice())),
            0x07 => Some(to_vec(state.daytable_switch_time.as_slice())),
            0x08 => Some(to_vec(state.price_switch_time.as_slice())),
            0x09 => Some(to_vec(state.ladder_switch_time.as_slice())),
            _ => None,
        }
    }

    fn read_tariff(di0: u8, state: &MeterState) -> (r: Option<Vec<u8>>)
        ensures
            maybe_bytes(r) == tariff_item(*state, di0),
    {
        match di0 {
            0x01 => Some(one(to_bcd(state.num_time_zones))),
            0x02 => Some(one(to_bcd(state.num_day_tables))),
            0x03 => Some(one(to_bcd(state.num_time_slots))),
            0x04 => Some(one(to_bcd(state.num_rates))),
            0x05 => Some(pair(state.num_public_holidays)),
            0x06 => Some(one(to_bcd(state.harmonic_analysis_orders))),
            0x07 => Some(one(to_bcd(state.num_ladders))),
            _ => None,
        }
    }

    fn read_display(di0: u8, state: &MeterState) -> (r: Option<Vec<u8>>)
        ensures
            maybe_bytes(r) == display_item(*state, di0),
    {
        let d = state.display_config;
        match di0 {
            0x01 => Some(one(to_bcd(d.cycle_screen_count))),
            0x02 => Some(one(to_bcd(d.screen_period_seconds))),
            0x03 => Some(one(to_bcd(d.energy_decimals))),
            0x04 => Some(one(to_bcd(d.demand_decimals))),
            0x05 => Some(one(to_bcd(d.key_screen_count))),
            0x06 => Some(u64_to_bcd(d.ct_ratio as u64, 3)),
            0x07 => Some(u64_to_bcd(d.pt_ratio as u64, 3)),
            _ => None,
        }
    }

    fn read_nameplate(di0: u8, state: &MeterState) -> (r: Option<Vec<u8>>)
        ensures
            maybe_bytes(r) == nameplate_item(*state, di0),
    {
        let n = &state.nameplate;
        match di0 {
            0x01 => Some(to_vec(state.address.as_slice())),
            0x02 => Some(to_vec(n.meter_no.as_slice())),
            0x03 => Some(to_vec(n.asset_code.as_slice())),
            0x04 => Some(reversed(n.rated_voltage_ascii.as_slice())),
            0x05 => Some(reversed(n.rated_current_ascii.as_slice())),
            0x06 => Some(reversed(n.max_current_ascii.as_slice())),
            0x07 => Some(reversed(n.active_accuracy.as_slice())),
            0x08 => Some(reversed(n.reactive_accuracy.as_slice())),
            0x09 => Some(u64_to_bcd(state.meter_constant as u64, 3)),
            0x0A => Some(u64_to_bcd(n.reactive_meter_constant as u64, 3)),
            0x0B => Some(reversed(n.meter_model_ascii.as_slice())),
            0x0C => Some(reversed(n.production_date_ascii.as_slice())),
            0x0D => Some(reversed(n.protocol_version_ascii.as_slice())),
            0x0E => Some(to_vec(n.customer_no.as_slice())),
            _ => None,
        }
    }

    fn read_status(di0: u8, state: &MeterState) -> (r: Option<Vec<u8>>)
        ensures
            maybe_bytes(r) == status_item(*state, di0),
    {
        let d = state.derived_status;
        match di0 {
            0x01 => Some(word(d.status_word_1)),
            0x02 => Some(word(d.status_word_2)),
            0x03 => Some(word(d.status_word_3)),
            0x04 => Some(word(d.status_word_4)),
            0x05 => Some(word(d.status_word_5)),
            0x06 => Some(word(d.status_word_6)),
            0x07 => Some(word(d.status_word_7)),
            0x08 => Some(u64_to_bin(d.status_key as u64, 4)),
            0x0E => Some(word(d.meter_status)),
            0xFF => {
                let mut data = word(d.status_word_1);
                append(&mut data, word(d.status_word_2).as_slice());
                append(&mut data, word(d.status_word_3).as_slice());
                append(&mut data, word(d.status_word_4).as_slice());
                append(&mut data, word(d.status_word_5).as_slice());
                append(&mut data, word(d.status_word_6).as_slice());
                append(&mut data, word(d.status_word_7).as_slice());
                append(&mut data, u64_to_bin(d.status_key as u64, 4).as_slice());
                Some(data)
            },
            _ => None,
        }
    }

    fn read_mode(di1: u8, di0: u8, state: &MeterState) -> (r: Option<Vec<u8>>)
        ensures
            maybe_bytes(r) == mode_item(*state, di1, di0),
    {
        match (di1, di0) {
            (0x06, 0x01) => Some(one(state.active_combination_word)),
            (0x06, 0x02) => Some(one(state.reactive_combination_1)),
            (0x06, 0x03) => Some(one(state.reactive_combination_2)),
            (0x08, 0x01) => Some(one(state.weekly_rest_day_word)),
            (0x08, 0x02) => Some(one(to_bcd(state.rest_day_table_no))),
            (0x09, 0x01) => Some(one(state.load_record_config.mode_word)),
            (0x09, 0x02) => Some(one(state.freeze_config.timed_freeze_mode)),
            (0x09, 0x03) => Some(one(state.freeze_config.instant_freeze_mode)),
            (0x09, 0x04) => Some(one(state.freeze_config.appointment_freeze_mode)),
            (0x09, 0x05) => Some(one(state.hourly_freeze_mode)),
            (0x09, 0x06) => Some(one(state.daily_freeze_mode)),
            (0x0A, 0x01) => Some(reversed(state.load_record_start_time.as_slice())),
            _ => if di1 == 0x07 && 0x01 <= di0 && di0 <= 0x05 {
                Some(one(state.comm_speed_feature[di0 as usize - 1]))
            } else if di1 == 0x0A && 0x02 <= di0 && di0 <= 0x08 {
                Some(pair(state.load_record_config.intervals[di0 as usize - 2]))
            } else if di1 == 0x0B && 0x01 <= di0 && di0 <= 0x03 {
                Some(
                    two(
                        to_bcd(state.settlement_days[di0 as usize - 1]),
                        to_bcd(state.settlement_hours[di0 as usize - 1]),
                    ),
                )
            } else {
                None
            },
        }
    }

    fn read_limit(di1: u8, di0: u8, state: &MeterState) -> (r: Option<Vec<u8>>)
        ensures
            maybe_bytes(r) == limit_item(*state, di1, di0),
    {
        let l = &state.limits;
        match (di1, di0) {
            (0x0E, 0x01) => Some(encode_bcd_power(l.forward_active_power_limit)),
            (0x0E, 0x02) => Some(encode_bcd_power(l.reverse_active_power_limit)),
            (0x0E, 0x03) => Some(encode_bcd(l.voltage_upper, 2, 1)),
            (0x0E, 0x04) => Some(encode_bcd(l.voltage_lower, 2, 1)),
            (0x0F, 0x01) => Some(encode_bcd_energy(l.alarm_energy_1)),
            (0x0F, 0x02) => Some(encode_bcd_energy(l.alarm_energy_2)),
            (0x0F, 0x03) => Some(encode_bcd_energy(l.hoard_energy)),
            (0x0F, 0x04) => Some(encode_bcd_energy(l.overdraft_energy)),
            (0x10, 0x01) => Some(encode_bcd_energy(l.alarm_amount_1)),
            (0x10, 0x02) => Some(encode_bcd_energy(l.alarm_amount_2)),
            (0x10, 0x03) => Some(encode_bcd_energy(l.overdraft_amount)),
            (0x10, 0x04) => Some(encode_bcd_energy(l.hoard_amount)),
            (0x10, 0x05) => Some(encode_bcd_energy(l.close_allow_amount)),
            (0x11, 0x01) => Some(word(state.operation_feature_word_1)),
            (0x11, 0x04) => Some(to_vec(state.active_report_mode.as_slice())),
            (0x12, 0x01) => Some(to_vec(state.hourly_freeze_start.as_slice())),
            (0x12, 0x02) => Some(one(to_bcd(state.hourly_freeze_interval_min))),
            (0x12, 0x03) => Some(to_vec(state.daily_freeze_time.as_slice())),
            (0x13, 0x01) => Some(one(state.wireless_signal)),
            _ => if di1 == 0x0D && 0x01 <= di0 && di0 <= 0x0C {
                let phase: usize = (di0 as usize - 1) / 4;
                let item: usize = (di0 as usize - 1) % 4;
                Some(encode_bcd(l.network_coefficients[phase][item], 2, 3))
            } else {
                None
            },
        }
    }

    /// Reads a parameter; `None` if the identifier is not one.
    pub fn handle_parameter_read(&self, di: [u8; 4], state: &MeterState) -> (r: Option<Vec<u8>>)
        ensures
            maybe_bytes(r) == parameter_read(di@, *state),
    {
        let (di3, di2, di1, di0): (u8, u8, u8, u8) = (di[3], di[2], di[1], di[0]);
        if di3 == 0xC0 && di1 == 0x00 && di0 == 0x00 {
            return Self::read_maker(di2, state);
        }
        if di3 != 0x04 || di2 != 0x00 {
            return None;
        }
        if di1 == 0x01 {
            Self::read_clock(di0, state)
        } else if di1 == 0x02 {
            Self::read_tariff(di0, state)
        } else if di1 == 0x03 {
            Self::read_display(di0, state)
        } else if di1 == 0x04 {
            Self::read_nameplate(di0, state)
        } else if di1 == 0x05 {
            Self::read_status(di0, state)
        } else if di1 <= 0x0B {
            Self::read_mode(di1, di0, state)
        } else {
            Self::read_limit(di1, di0, state)
        }
    }
}

} // verus!
