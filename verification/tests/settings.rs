use meter_core::persistence::decimal::{format_natural, format_quantity, parse_quantity};
use meter_core::persistence::json::{parse_json, write_text, Json};
use meter_core::persistence::rows::{
    energy_entries, from_hundredths, settlement_entries, snapshot_capacity, to_hundredths,
    EnergyEntry, PersistenceConfig, RequestBuffer,
};
use meter_core::persistence::saves::{put_in_text, SaveError};
use meter_core::persistence::settings::{
    freeze_fields_from_json, parse_load_profile, restore_meter_config, settings_from_trees,
    FreezeSettings, MeterRow, RowTrees,
};
use meter_core::persistence::settings_tree::{
    baudrate_tree, freeze_tree, load_model_tree, load_record_tree, passwords_tree, put_part,
    settlement_tree, slots_tree, stored_simulation,
};
use meter_core::persistence::types::{
    EnergyRegisterRow, MaxDemandRow, PersistRequest, SettlementEnergiesRow, SettlementEnergy,
};
use meter_core::simulation::load_model::{LoadModelConfig, LoadProfile, SimulationConfig};
use meter_core::simulation::state::EnergyType;
use meter_core::simulation::virtual_meter::{VirtualMeter, VirtualMeterConfig};
use meter_core::time::DateTime;

const UNIT: i64 = 1_000_000_000;

fn row() -> MeterRow {
    MeterRow {
        meter_constant: 1600,
        rated_voltage_mv: 220_000,
        rated_current_ma: 5_000,
        demand_period_min: 15,
        time_scale: UNIT,
        rated_frequency_hz: 50 * UNIT,
        initial_power_factor: 950_000_000,
        load_record_mode_word: 0x107,
        load_model_json: "{}".to_string(),
        settlement_days_json: "[]".to_string(),
        tou_config_json: "{}".to_string(),
        comm_baud_json: "{}".to_string(),
        passwords_json: "{}".to_string(),
    }
}

fn freeze() -> FreezeSettings {
    FreezeSettings {
        timed_mode: 1,
        instant_mode: 2,
        appointment_mode: 3,
        hourly_mode: 4,
        daily_mode: 5,
        daily_time: [6, 7],
        hourly_start: [8, 9, 10, 11, 12],
        hourly_interval_min: 60,
        appointment_time: [13, 14, 15, 16, 17],
    }
}

#[test]
fn texts_are_read_as_trees() {
    let tree = parse_json(" {\"b\": [1, -2, 0.25, \"x\", null, true], \"a\": {\"c\": 3}} ").unwrap();
    let list = tree.field("b").unwrap().items().unwrap();
    assert_eq!(list.len(), 6);
    assert_eq!(list[0].natural(), Some(1));
    assert_eq!(list[1].natural(), None);
    assert_eq!(list[1].quantity(), Some(-2 * UNIT));
    assert_eq!(list[2].quantity(), Some(250_000_000));
    assert!(matches!(&list[3], Json::Text(t) if t == "x"));
    assert!(matches!(list[4], Json::Null));
    assert!(matches!(list[5], Json::Bool(true)));
    assert_eq!(tree.field("a").unwrap().field("c").unwrap().natural(), Some(3));
    assert!(tree.field("d").is_none());
    assert!(list[0].field("a").is_none());
    assert!(parse_json("{\"a\": }").is_none());
    assert!(parse_json("").is_none());
}

#[test]
fn deep_texts_are_read_up_to_a_limit() {
    let deep = |n: usize| "[".repeat(n) + &"]".repeat(n);
    assert!(parse_json(&deep(120)).is_some());
    assert!(parse_json(&deep(200)).is_none());
}

#[test]
fn numbers_are_read_from_digits() {
    let read = |s: &str| parse_quantity(s.as_bytes());
    assert_eq!(read("0.95"), Some(950_000_000));
    assert_eq!(read("-1.5"), Some(-1_500_000_000));
    assert_eq!(read("220"), Some(220 * UNIT));
    assert_eq!(read("1e-9"), Some(1));
    assert_eq!(read("4e-10"), Some(0));
    assert_eq!(read("5e-10"), Some(1));
    assert_eq!(read("1.25E+2"), Some(125 * UNIT));
    assert_eq!(read("1e300"), Some(i64::MAX));
    assert_eq!(read("-1e300"), Some(i64::MIN));
    assert_eq!(read("1e-300"), Some(0));
    for bad in ["", "-", ".5", "1.", "1e", "1ex", "x", "1e99999", "1.5.5"] {
        assert_eq!(read(bad), None, "{bad}");
    }
}

#[test]
fn quantities_come_back_from_digits() {
    for q in [0, 1, -1, UNIT, 950_000_000, -12_345_678_901, i64::MAX, i64::MIN] {
        assert_eq!(parse_quantity(&format_quantity(q)), Some(q));
    }
    assert_eq!(format_quantity(-1_500_000_000), b"-1.500000000".to_vec());
    assert_eq!(format_natural(1200), b"1200".to_vec());
}

#[test]
fn nothing_stored_stands_for_defaults() {
    let s = restore_meter_config(&row());
    assert_eq!(s.simulation.load_model, LoadModelConfig::default());
    assert_eq!(s.simulation.rated_voltage, 220 * UNIT);
    assert_eq!(s.simulation.rated_current, 5 * UNIT);
    assert_eq!(s.simulation.meter_constant, 1600);
    assert_eq!(s.load_record_mode_word, 0x07);
    assert_eq!(s.settlement_days, [0; 3]);
    assert_eq!(s.daily_freeze_time, [0; 2]);
    assert_eq!(s.baudrate, None);
    assert!(s.passwords.is_none());
    assert!(s.tou_time_slots.is_none());
}

#[test]
fn stored_texts_are_read() {
    let mut r = row();
    r.meter_constant = -3;
    r.demand_period_min = 500;
    r.load_model_json = "{\"profile\":{\"Fixed\":0.3},\"voltage_noise_v\":1.5,\
        \"phase_current_factors\":[1,\"x\",0.5]}"
        .to_string();
    r.settlement_days_json = "{\"days\":[1,\"x\",300],\"hours\":[8]}".to_string();
    r.tou_config_json = "{\"freeze\":{\"timed_mode\":3,\"daily_time\":[0,48]},\
        \"load_record\":{\"start_time\":[1,2,3,4],\"intervals\":[1,2,3,4,5,6,7,8]},\
        \"tou\":{\"time_slots\":[[0,0,1],[1],[8,30,2]]}}"
        .to_string();
    r.comm_baud_json = "{\"baudrate\":8}".to_string();
    r.passwords_json = "{\"passwords\":[[0,1,2,3]]}".to_string();
    let s = restore_meter_config(&r);
    assert_eq!(s.simulation.meter_constant, 1);
    assert_eq!(s.simulation.demand_period_minutes, 120);
    assert_eq!(s.simulation.load_model.profile, LoadProfile::Fixed(300_000_000));
    assert_eq!(s.simulation.load_model.voltage_noise_v, 1_500_000_000);
    assert_eq!(s.simulation.load_model.phase_current_factors, [UNIT, 500_000_000, 1_020_000_000]);
    assert_eq!(s.settlement_days, [1, 0, 44]);
    assert_eq!(s.settlement_hours, [8, 0, 0]);
    assert_eq!(s.timed_freeze_mode, 3);
    assert_eq!(s.daily_freeze_time, [0, 48]);
    assert_eq!(s.load_record_start_time, [1, 2, 3, 4]);
    assert_eq!(s.load_record_intervals, [1, 2, 3, 4, 5, 6, 0, 0]);
    assert_eq!(s.tou_time_slots, Some(vec![(0, 0, 1), (8, 30, 2)]));
    assert_eq!(s.baudrate, Some(8));
    assert!(s.passwords.is_none());
}

#[test]
fn the_old_layout_is_understood() {
    let mut r = row();
    r.tou_config_json = "{\"timed_mode\":2,\"load_record\":{\"start_time\":[1,2,3,4]}}".to_string();
    let s = restore_meter_config(&r);
    assert_eq!(s.timed_freeze_mode, 2);
    assert_eq!(s.load_record_start_time, [0; 4]);
    let old = parse_json(&r.tou_config_json).unwrap();
    let new = put_part(old, "load_record", load_record_tree(&[9, 8, 7, 6], &[0; 8]));
    assert_eq!(new.field("freeze").unwrap().field("timed_mode").unwrap().natural(), Some(2));
    assert!(new.field("load_record").is_some());
    assert!(new.field("timed_mode").is_none());
}

#[test]
fn stored_settings_come_back() {
    let mut passwords = [[0u8; 4]; 10];
    for (i, p) in passwords.iter_mut().enumerate() {
        *p = [i as u8, 1, 2, 3];
    }
    let slots = vec![(0, 0, 4), (8, 0, 2), (22, 30, 4)];
    let intervals = [1, 5, 15, 30, 60, 1440, 7, 8];
    let mut extra = Json::Null;
    extra = put_part(extra, "freeze", freeze_tree(&freeze()));
    extra = put_part(extra, "load_record", load_record_tree(&[1, 2, 3, 4], &intervals));
    extra = put_part(extra, "tou", slots_tree(&vec![(9, 9, 9)]));
    extra = put_part(extra, "tou", slots_tree(&slots));
    let load_model = LoadModelConfig {
        profile: LoadProfile::Commercial,
        voltage_noise_v: 1,
        frequency_noise_hz: 2,
        power_factor_noise: 3,
        power_factor_min: 4,
        power_factor_max: 5,
        phase_current_factors: [6, 7, 8],
    };
    let trees = RowTrees {
        load_model: load_model_tree(&load_model),
        settlement_days: settlement_tree(&[1, 15, 0], &[0, 8, 0]),
        tou_config: extra,
        comm_baud: baudrate_tree(0x10),
        passwords: passwords_tree(&passwords),
    };
    let s = settings_from_trees(&row(), &trees);
    assert_eq!(s.simulation.load_model, load_model);
    assert_eq!(s.hourly_freeze_start, freeze().hourly_start);
    assert_eq!(s.appointment_freeze_time, freeze().appointment_time);
    assert_eq!(s.settlement_days, [1, 15, 0]);
    assert_eq!(s.load_record_intervals, [1, 5, 15, 30, 60, 1440, 0, 0]);
    assert_eq!(s.baudrate, Some(0x10));
    assert_eq!(s.passwords, Some(passwords));
    assert_eq!(s.tou_time_slots, Some(slots));
    assert_eq!(freeze_fields_from_json(&freeze_tree(&freeze())), freeze());
}

#[test]
fn trees_are_written_as_texts() {
    let text = write_text(&settlement_tree(&[1, 15, 0], &[0, 8, 23])).unwrap();
    assert_eq!(text, "{\"days\":[1,15,0],\"hours\":[0,8,23]}");
    assert_eq!(write_text(&Json::Null).unwrap(), "null");
    assert_eq!(write_text(&Json::Bool(true)).unwrap(), "true");
    assert_eq!(write_text(&Json::Text("a\"\u{e9}\n".to_string())).unwrap(), "\"a\\\"\u{e9}\\n\"");
    let number = |natural: Option<u64>, digits: &str| Json::Number {
        natural,
        digits: digits.as_bytes().to_vec(),
    };
    assert_eq!(write_text(&number(None, "220.500000000")).unwrap(), "220.5");
    assert_eq!(write_text(&number(Some(7), "7")).unwrap(), "7");
    assert!(write_text(&number(None, "x")).is_none());
    assert!(write_text(&Json::List(vec![Json::Null, number(None, "1.")])).is_none());
    let mut deep = Json::Null;
    for _ in 0..200 {
        deep = Json::List(vec![deep]);
    }
    assert!(write_text(&deep).is_none());
}

#[test]
fn short_fractions_come_back_from_texts() {
    for q in [
        0,
        1,
        -1,
        9,
        123,
        -999_999_999,
        100_000_000,
        300_000_000,
        850_000_000,
        1_020_000_000,
        123_456_789_012_345,
        999_999_999_999_999,
        -999_999_999_999_999,
        700_000_000_000_001,
    ] {
        let tree = Json::Number { natural: None, digits: format_quantity(q) };
        let text = write_text(&Json::List(vec![tree])).unwrap();
        let back = parse_json(&text).unwrap();
        let item = &back.items().unwrap()[0];
        assert_eq!((item.natural(), item.quantity()), (None, Some(q)));
    }
    for n in [0, 1, 10, 255, u64::MAX] {
        let tree = Json::Number { natural: Some(n), digits: format_natural(n) };
        assert_eq!(parse_json(&write_text(&tree).unwrap()).unwrap().natural(), Some(n));
    }
}

#[test]
fn stored_settings_come_back_from_texts() {
    let mut passwords = [[9u8; 4]; 10];
    passwords[3] = [1, 2, 3, 4];
    let slots = vec![(0, 0, 4), (8, 0, 2), (22, 30, 4)];
    let intervals = [1, 5, 15, 30, 60, 1440, 7, 8];
    let mut r = row();
    for (key, part) in [
        ("freeze", freeze_tree(&freeze())),
        ("load_record", load_record_tree(&[1, 2, 3, 4], &intervals)),
        ("tou", slots_tree(&slots)),
    ] {
        let tree = parse_json(&r.tou_config_json).unwrap();
        r.tou_config_json = write_text(&put_part(tree, key, part)).unwrap();
    }
    let load_model = LoadModelConfig {
        profile: LoadProfile::Fixed(730_000_001),
        voltage_noise_v: 1_234_567_891,
        frequency_noise_hz: 2,
        power_factor_noise: 3_000_000,
        power_factor_min: 850_000_000,
        power_factor_max: 990_000_000,
        phase_current_factors: [UNIT, 980_000_000, 1_020_000_000],
    };
    r.load_model_json = write_text(&load_model_tree(&load_model)).unwrap();
    r.settlement_days_json = write_text(&settlement_tree(&[1, 15, 0], &[0, 8, 0])).unwrap();
    r.comm_baud_json = write_text(&baudrate_tree(0x10)).unwrap();
    r.passwords_json = write_text(&passwords_tree(&passwords)).unwrap();
    let s = restore_meter_config(&r);
    assert_eq!(s.simulation.load_model, load_model);
    assert_eq!(s.hourly_freeze_start, freeze().hourly_start);
    assert_eq!(s.appointment_freeze_time, freeze().appointment_time);
    assert_eq!((s.timed_freeze_mode, s.daily_freeze_mode), (1, 5));
    assert_eq!((s.settlement_days, s.settlement_hours), ([1, 15, 0], [0, 8, 0]));
    assert_eq!(s.load_record_start_time, [1, 2, 3, 4]);
    assert_eq!(s.load_record_intervals, [1, 5, 15, 30, 60, 1440, 0, 0]);
    assert_eq!(s.baudrate, Some(0x10));
    assert_eq!(s.passwords, Some(passwords));
    assert_eq!(s.tou_time_slots, Some(slots));
}

fn save(row: &mut MeterRow, which: usize) {
    let slots = vec![(0, 0, 4), (8, 0, 2), (22, 30, 4)];
    match which {
        0 => row.save_settlement_days(&[1, 15, 0], &[0, 8, 23]),
        1 => row.save_freeze_config(&freeze()).unwrap(),
        2 => row
            .save_load_record_config(0x3F, &[1, 2, 3, 4], &[1, 5, 15, 30, 60, 1440, 7, 8])
            .unwrap(),
        _ => row.save_protocol_parameters(0x10, &[[9, 1, 2, 3]; 10], &slots).unwrap(),
    }
}

fn assert_all_saved(row: &MeterRow) {
    let s = restore_meter_config(row);
    assert_eq!((s.settlement_days, s.settlement_hours), ([1, 15, 0], [0, 8, 23]));
    let f = freeze();
    assert_eq!(
        (s.timed_freeze_mode, s.instant_freeze_mode, s.appointment_freeze_mode),
        (f.timed_mode, f.instant_mode, f.appointment_mode)
    );
    assert_eq!((s.hourly_freeze_mode, s.daily_freeze_mode), (f.hourly_mode, f.daily_mode));
    assert_eq!((s.daily_freeze_time, s.hourly_freeze_start), (f.daily_time, f.hourly_start));
    assert_eq!(s.hourly_freeze_interval_min, f.hourly_interval_min);
    assert_eq!(s.appointment_freeze_time, f.appointment_time);
    assert_eq!((s.load_record_mode_word, s.load_record_start_time), (0x3F, [1, 2, 3, 4]));
    assert_eq!(s.load_record_intervals[..6], [1, 5, 15, 30, 60, 1440]);
    assert_eq!((s.baudrate, s.passwords), (Some(0x10), Some([[9, 1, 2, 3]; 10])));
    assert_eq!(s.tou_time_slots, Some(vec![(0, 0, 4), (8, 0, 2), (22, 30, 4)]));
}

#[test]
fn saves_in_any_order_are_all_read_back() {
    for a in 0..4 {
        for b in 0..4 {
            for c in 0..4 {
                for d in 0..4 {
                    let order = [a, b, c, d];
                    if (0..4).all(|k| order.contains(&k)) {
                        let mut row = MeterRow::new();
                        for k in order {
                            save(&mut row, k);
                        }
                        assert_all_saved(&row);
                        save(&mut row, a);
                        assert_all_saved(&row);
                    }
                }
            }
        }
    }
}

#[test]
fn many_saves_do_not_deepen_the_text() {
    let mut row = MeterRow::new();
    for k in 0..4 {
        save(&mut row, k);
    }
    let text = row.tou_config_json.clone();
    for _ in 0..150 {
        save(&mut row, 1);
        save(&mut row, 2);
    }
    assert_eq!(row.tou_config_json, text);
    assert_all_saved(&row);
}

#[test]
fn a_row_begins_without_settings() {
    let r = MeterRow::new();
    assert_eq!((r.meter_constant, r.rated_voltage_mv, r.rated_current_ma), (1600, 220_000, 5_000));
    assert_eq!((r.demand_period_min, r.load_record_mode_word), (15, 0));
    assert_eq!((r.time_scale, r.rated_frequency_hz), (UNIT, 50 * UNIT));
    assert_eq!(r.initial_power_factor, 950_000_000);
    assert_eq!((r.tou_config_json.as_str(), r.settlement_days_json.as_str()), ("{}", "[]"));
    assert_eq!((r.comm_baud_json.as_str(), r.passwords_json.as_str()), ("{}", "{}"));
    assert_eq!(r.load_model_json, "{}");
}

#[test]
fn saves_that_fail_say_why() {
    let mut r = row();
    r.tou_config_json = "[1]".to_string();
    assert_eq!(r.save_freeze_config(&freeze()), Err(SaveError::NotAnObject));
    assert_eq!(r.tou_config_json, "[1]");
    r.tou_config_json = "no JSON".to_string();
    assert_eq!(r.save_freeze_config(&freeze()), Ok(()));
    r.tou_config_json = "null".to_string();
    assert_eq!(r.save_freeze_config(&freeze()), Ok(()));
    let mut deep = Json::Null;
    for _ in 0..130 {
        deep = Json::List(vec![deep]);
    }
    assert_eq!(put_in_text("{}", "tou", deep), Err(SaveError::Unwritable));
    r.tou_config_json = write_text(&freeze_tree(&freeze())).unwrap();
    for k in [0, 2, 3] {
        save(&mut r, k);
    }
    assert_all_saved(&r);
}

#[test]
fn what_is_read_can_be_written_again() {
    let model = LoadModelConfig {
        profile: LoadProfile::Fixed(1),
        voltage_noise_v: 12_345_678_901_234,
        frequency_noise_hz: 15,
        power_factor_noise: 999_999_999_999_999,
        power_factor_min: -3,
        power_factor_max: 100_000_000_000_000,
        phase_current_factors: [1_000, 10_000, 123_450],
    };
    let first = write_text(&load_model_tree(&model)).unwrap();
    let tree = parse_json(&first).unwrap();
    let second = write_text(&tree).unwrap();
    assert_eq!(first, second);
    let mut r = row();
    r.load_model_json = second;
    assert_eq!(restore_meter_config(&r).simulation.load_model, model);
}

#[test]
fn a_configuration_comes_back() {
    let config = SimulationConfig {
        load_model: LoadModelConfig::default(),
        rated_voltage: 220_500_000_000,
        rated_current: 5_001_000_000,
        rated_frequency: 50 * UNIT,
        power_factor: 950_000_000,
        meter_constant: 800,
        demand_period_minutes: 30,
        time_scale: 2 * UNIT,
    };
    let stored = stored_simulation(&config);
    assert_eq!((stored.rated_voltage_mv, stored.rated_current_ma), (220_500, 5_001));
    let mut r = row();
    r.meter_constant = stored.meter_constant;
    r.rated_voltage_mv = stored.rated_voltage_mv;
    r.rated_current_ma = stored.rated_current_ma;
    r.demand_period_min = stored.demand_period_min;
    r.time_scale = stored.time_scale;
    let back = meter_core::persistence::settings::simulation_from_row(&r, &stored.load_model);
    assert_eq!(back, config);
}

#[test]
fn profiles_are_read() {
    let read = |s: &str| parse_load_profile(&parse_json(s).unwrap());
    assert_eq!(read("\"Industrial\""), LoadProfile::Industrial);
    assert_eq!(read("\"Commercial\""), LoadProfile::Commercial);
    assert_eq!(read("\"Fixed\""), LoadProfile::Fixed(500_000_000));
    assert_eq!(read("\"other\""), LoadProfile::Residential);
    assert_eq!(read("{\"Fixed\":\"x\"}"), LoadProfile::Fixed(500_000_000));
    assert_eq!(read("7"), LoadProfile::Residential);
}

#[test]
fn energies_are_stored_in_hundredths() {
    assert_eq!(to_hundredths(12_349_999_999), 1234);
    assert_eq!(to_hundredths(-12_349_999_999), -1234);
    assert_eq!(from_hundredths(1234), 12_340_000_000);
    assert_eq!(from_hundredths(i64::MAX), i64::MAX);
    let row = EnergyRegisterRow {
        meter_address: "1".to_string(),
        timestamp: DateTime::with_ymd_and_hms(2025, 1, 1, 0, 0, 0).unwrap(),
        combined_active_positive: UNIT,
        combined_active_negative: 2 * UNIT,
        combined_reactive_positive: 3 * UNIT,
        combined_reactive_negative: 4 * UNIT,
        rate1_active_positive: 5 * UNIT,
        rate2_active_positive: 6 * UNIT,
        rate3_active_positive: 7 * UNIT,
        rate4_active_positive: 8 * UNIT,
    };
    let entries = energy_entries(&row);
    assert_eq!(entries.len(), 8);
    assert_eq!(
        entries[5],
        EnergyEntry { energy_kind: 1, rate_index: 2, settlement_day: 0, value_fp: 600 }
    );
    let past = SettlementEnergiesRow {
        meter_address: "1".to_string(),
        energies: vec![
            SettlementEnergy { settlement_day: 0, energy_kind: 1, rate_index: 0, value: UNIT },
            SettlementEnergy { settlement_day: 2, energy_kind: 1, rate_index: 0, value: UNIT },
        ],
    };
    assert_eq!(
        settlement_entries(&past),
        vec![EnergyEntry { energy_kind: 1, rate_index: 0, settlement_day: 2, value_fp: 100 }]
    );
}

#[test]
fn the_store_keeps_as_many_snapshots_as_the_meter() {
    assert_eq!(snapshot_capacity(0x00), 12);
    assert_eq!(snapshot_capacity(0x01), 3);
    assert_eq!(snapshot_capacity(0x06), 62);
    assert_eq!(snapshot_capacity(0x55), 12);
    let config = PersistenceConfig::default();
    assert_eq!(config.db_path, "./data/meters.db");
    assert_eq!(config.batch_max_size, 200);
}

#[test]
fn requests_wait_until_there_are_enough() {
    let request = |n: i64| {
        PersistRequest::UpdateMaxDemand(MaxDemandRow {
            meter_address: "1".to_string(),
            demand_kind: 1,
            rate_index: 0,
            value_fp: n,
            occurred_at: DateTime::with_ymd_and_hms(2025, 1, 1, 0, 0, 0).unwrap(),
        })
    };
    let mut buffer = RequestBuffer::new(2);
    assert!(buffer.is_empty());
    assert!(!buffer.push(request(1)));
    assert!(buffer.push(request(2)));
    let all = buffer.take();
    assert_eq!(all.len(), 2);
    assert!(matches!(&all[0], PersistRequest::UpdateMaxDemand(row) if row.value_fp == 1));
    assert!(buffer.is_empty());
}

#[test]
fn registers_survive_a_restart() {
    let mut meter = VirtualMeter::with_persistence(VirtualMeterConfig::default());
    meter.state_mut().set_energy(EnergyType::ForwardActive, None, 12_345_678_901);
    meter.state_mut().set_energy(EnergyType::ForwardActive, Some(3), 7_000_000_000);
    meter.state_mut().set_energy(EnergyType::ReverseReactive, None, -1_119_999_999);
    let mut rows = Vec::new();
    for request in meter.force_flush_energy(0) {
        if let PersistRequest::WriteEnergyRegister(row) = request {
            for e in energy_entries(&row) {
                rows.push((e.energy_kind, e.rate_index, from_hundredths(e.value_fp)));
            }
        }
    }
    rows.reverse();
    let mut restarted = VirtualMeter::new(VirtualMeterConfig::default());
    restarted.restore_energy_registers(&rows);
    let s = restarted.state();
    assert_eq!(s.get_energy(EnergyType::ForwardActive, None), 12_340_000_000);
    assert_eq!(s.get_energy(EnergyType::ForwardActive, Some(3)), 7_000_000_000);
    assert_eq!(s.get_energy(EnergyType::ForwardActive, Some(1)), 0);
    assert_eq!(s.get_energy(EnergyType::ReverseReactive, None), -1_110_000_000);
}
