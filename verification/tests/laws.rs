use meter_core::actor::admin::administer;
use meter_core::actor::messages::AdminCommand;
use meter_core::persistence::settings::{restore_meter_config, MeterRow};
use meter_core::protocol::codec::{decode_frame, encode_error_response, ErrorInfoWord};
use meter_core::protocol::format::{format_address, parse_address};
use meter_core::simulation::command_error::CommandError;
use meter_core::simulation::config::PasswordConfig;
use meter_core::simulation::demand_window::update_max_demand;
use meter_core::simulation::di_handler::encoding::{bcd_to_decimal, to_bcd};
use meter_core::simulation::di_handler::DIHandler;
use meter_core::simulation::event::{EventRecord, EventRingBuffer};
use meter_core::simulation::freeze::{FreezeTrigger, FreezeType};
use meter_core::simulation::load_record::LoadProfileSamplingState;
use meter_core::simulation::physics_engine::PhysicsEngine;
use meter_core::simulation::load_model::LoadModelConfig;
use meter_core::simulation::state::{DemandValue, EnergyType, MeterState};
use meter_core::simulation::virtual_meter::VirtualMeter;
use meter_core::time::DateTime;

const UNIT: i64 = 1_000_000_000;

fn at(day: u32, hour: u32, minute: u32) -> DateTime {
    DateTime::with_ymd_and_hms(2025, 1, day, hour, minute, 0).unwrap()
}

#[test]
fn every_byte_below_a_hundred_comes_back() {
    for v in 0..100u8 {
        assert_eq!(bcd_to_decimal(to_bcd(v)), v);
    }
}

#[test]
fn addresses_come_back_from_text() {
    let address = [0x00, 0x9A, 0xBC, 0xDE, 0xFF, 0x01];
    assert_eq!(parse_address(&format_address(&address)).unwrap(), address);
}

#[test]
fn an_error_answer_can_be_decoded() {
    let bytes = encode_error_response([7; 6], 0x3B, ErrorInfoWord::new(0x04));
    let frame = decode_frame(&bytes).unwrap();
    assert_eq!((frame.address, frame.control, frame.data), ([7; 6], 0xDB, vec![0x04]));
}

#[test]
fn a_password_opens_its_level_only() {
    let mut passwords = PasswordConfig::default();
    passwords.set_password(3, &[9, 9, 9]);
    assert!(passwords.verify(3, &[9, 9, 9]));
    assert!(!passwords.verify(3, &[0, 0, 0]));
    assert!(passwords.verify(2, &[0, 0, 0]));
    assert!(!passwords.verify(10, &[9, 9, 9]));
    passwords.set_password(10, &[1, 1, 1]);
    assert!(!passwords.verify(10, &[1, 1, 1]));
}

#[test]
fn clearing_the_meter_keeps_its_history() {
    let mut meter = VirtualMeter::default();
    meter.state_mut().set_energy(EnergyType::ForwardActive, None, 5 * UNIT);
    meter.state_mut().max_demand = UNIT;
    meter.state_mut().create_freeze_snapshot(FreezeTrigger::Timed);
    meter.state_mut().add_event_record(0x01, 0x01, at(1, 0, 0), vec![1]);
    let now = at(2, 3, 4);
    let operator = meter.handle_meter_clear_at(&[0, 0, 0, 0, 1, 2, 3, 4], now).unwrap();
    assert_eq!(operator, [1, 2, 3, 4]);
    let s = meter.state();
    assert_eq!(s.get_energy(EnergyType::ForwardActive, None), 0);
    assert_eq!((s.max_demand, s.max_demand_time), (0, now));
    assert_eq!(s.get_all_event_records(0x01, 0x01).len(), 1);
    assert!(s.get_freeze_snapshot(FreezeTrigger::Timed, 1).is_some());
    assert_eq!(s.get_event_record(0x32, 0x01, 1).unwrap().data, vec![1, 2, 3, 4]);
}

#[test]
fn clearing_the_events_leaves_one_record() {
    let mut meter = VirtualMeter::default();
    meter.state_mut().add_event_record(0x01, 0x01, at(1, 0, 0), vec![1]);
    meter.handle_event_clear_at(&[0, 0, 0, 0, 4, 3, 2, 1], at(2, 0, 0)).unwrap();
    let s = meter.state();
    assert_eq!(s.get_all_event_records(0x01, 0x01).len(), 0);
    assert_eq!(s.event_records.items().len(), 1);
    assert_eq!(s.get_event_record(0x30, 0x1B, 1).unwrap().data, vec![4, 3, 2, 1]);
}

#[test]
fn clearing_needs_a_password_and_a_level() {
    let mut meter = VirtualMeter::default();
    assert_eq!(
        meter.handle_meter_clear_at(&[0, 1, 1, 1, 1, 2, 3, 4], at(1, 0, 0)).unwrap_err(),
        CommandError::WrongPassword { level: 0 }
    );
    assert_eq!(
        meter.handle_meter_clear_at(&[0x30, 0, 0, 0, 1, 2, 3, 4], at(1, 0, 0)).unwrap_err(),
        CommandError::AccessLevel { level: 3, needed: 2 }
    );
    assert_eq!(
        meter.handle_event_clear_at(&[0, 0], at(1, 0, 0)).unwrap_err(),
        CommandError::Length { expected: 8, actual: 2 }
    );
    assert_eq!(
        meter.handle_change_baudrate_command(&[0x03]).unwrap_err(),
        CommandError::BaudCode { code: 0x03 }
    );
}

#[test]
fn password_changes_that_fail_say_why() {
    let mut meter = VirtualMeter::default();
    let mut change = |di1: u8, di0: u8, old: [u8; 4], new: [u8; 4]| {
        let mut data = vec![di0, di1, 0x00, 0x04];
        data.extend_from_slice(&old);
        data.extend_from_slice(&new);
        meter.handle_change_password_at(&data, at(1, 0, 0)).unwrap_err()
    };
    let none = [0, 0, 0, 0];
    assert!(matches!(change(0x03, 0x01, none, none), CommandError::PasswordIdentifier { .. }));
    assert!(matches!(change(0x02, 0x0B, none, none), CommandError::NoSuchLevel { .. }));
    assert!(matches!(change(0x02, 0x01, [0, 1, 1, 1], none), CommandError::WrongPassword { .. }));
    assert!(matches!(
        change(0x02, 0x01, [0x40, 0, 0, 0], none),
        CommandError::LevelTooLow { level: 4, target: 0 }
    ));
    assert!(matches!(
        change(0x02, 0x01, none, [0x10, 1, 1, 1]),
        CommandError::LevelMismatch { .. }
    ));
}

#[test]
fn rings_keep_the_latest() {
    let mut ring = EventRingBuffer::new(2);
    for i in 0..5u8 {
        ring.push(EventRecord::new(1, 1, at(1, 0, 0), vec![i]));
    }
    let kept: Vec<u8> = ring.get_all().iter().map(|r| r.data[0]).collect();
    assert_eq!(kept, vec![3, 4]);
}

#[test]
fn an_event_that_ends_is_counted() {
    let mut state = MeterState::default();
    state.add_event_record(0x0B, 0x02, at(1, 0, 0), vec![]);
    assert!(state.get_event_summary(0x0B, 0x02).is_none());
    state.end_event_record(0x0B, 0x02, at(1, 1, 30));
    let summary = state.get_event_summary(0x0B, 0x02).unwrap();
    assert_eq!((summary.total_count, summary.total_duration_minutes), (1, 90));
}

#[test]
fn several_freezes_can_be_due_at_once() {
    let engine = PhysicsEngine::new(LoadModelConfig::default());
    let mut state = MeterState::default();
    state.freeze_config.timed_freeze_mode = 2;
    state.daily_freeze_mode = 1;
    state.daily_freeze_time = [0x00, 0x00];
    state.virtual_time = at(3, 0, 0);
    engine.check_freeze_schedule(&mut state);
    assert!(state.pending_freeze_triggers.contains(&FreezeType::Timed));
    assert!(state.pending_freeze_triggers.contains(&FreezeType::Daily));
}

#[test]
fn a_settlement_keeps_demands_and_phases() {
    let mut state = MeterState::default();
    state.settlement_days = [2, 0, 0];
    state.last_settlement_rollover = Some(at(1, 0, 0));
    state.virtual_time = at(2, 0, 1);
    state.phase_forward_active = [1, 2, 3];
    state.max_demand = 7;
    state.max_demand_time = at(1, 5, 0);
    let value = DemandValue { value: 5, time: at(1, 6, 0) };
    state.set_demand(0, 2, EnergyType::ForwardActive, None, value);
    assert!(state.settlement_rollover_if_due());
    assert_eq!(state.get_phase_energy(1, 2), 3);
    assert_eq!(state.get_phase_energy(0, 2), 3);
    let total = state.get_demand(1, 0, EnergyType::ForwardActive, None);
    assert_eq!((total.value, total.time), (7, at(1, 5, 0)));
    let phase = state.get_demand(1, 2, EnergyType::ForwardActive, None);
    assert_eq!((phase.value, phase.time), (5, at(1, 6, 0)));
    assert_eq!(state.get_demand(0, 2, EnergyType::ForwardActive, None).value, 0);
    assert!(!state.has_settlement_energy(2, EnergyType::ForwardActive, None));
}

#[test]
fn the_demand_window_spans_its_period() {
    let mut state = MeterState::default();
    state.demand_period_minutes = 15;
    let (mut window, mut last) = (Vec::new(), None);
    for minute in 0..40 {
        state.virtual_time = at(1, 0, minute);
        state.active_power_total = UNIT;
        update_max_demand(&mut window, &mut last, &mut state);
    }
    assert!(window.len() >= 15 && window.len() <= 17);
    assert_eq!(state.get_demand(0, 0, EnergyType::ForwardActive, None).value, UNIT);
}

#[test]
fn one_sample_is_taken_per_period() {
    let mut sampling = LoadProfileSamplingState::default();
    let mut taken = 0;
    for minute in 0..60 {
        let time = at(1, 5, minute);
        if sampling.should_sample(3, &time, 20) {
            sampling.update_sample_time(3, time);
            taken += 1;
        }
    }
    assert_eq!(taken, 3);
}

#[test]
fn a_write_is_read_back() {
    let handler = DIHandler::new();
    let mut state = MeterState::default();
    state.virtual_time = at(15, 10, 20);
    for (di, data) in [
        ([0x03, 0x01, 0x00, 0x04], vec![0x30]),
        ([0x04, 0x01, 0x00, 0x04], vec![0x05]),
        ([0x02, 0x06, 0x00, 0x04], vec![0xA5]),
        ([0x03, 0x07, 0x00, 0x04], vec![0x08]),
        ([0x01, 0x08, 0x00, 0x04], vec![0x41]),
        ([0x02, 0x0B, 0x00, 0x04], vec![0x28, 0x23]),
    ] {
        handler.handle_write(di, &data, &mut state).unwrap();
        assert_eq!(handler.handle_read(di, &state).unwrap(), data);
    }
    let time = [0x02, 0x01, 0x00, 0x04];
    handler.handle_write(time, &[0x23, 0x59, 0x58], &mut state).unwrap();
    assert_eq!(handler.handle_read(time, &state).unwrap(), vec![0x58, 0x59, 0x23]);
}

#[test]
fn stored_settings_act_as_commands_do() {
    let row = MeterRow {
        meter_constant: 1600,
        rated_voltage_mv: 220_000,
        rated_current_ma: 5_000,
        demand_period_min: 15,
        time_scale: UNIT,
        rated_frequency_hz: 50 * UNIT,
        initial_power_factor: 950_000_000,
        load_record_mode_word: 0,
        load_model_json: "{}".to_string(),
        settlement_days_json: "{\"days\":[3,0,9],\"hours\":[1,0,2]}".to_string(),
        tou_config_json: "{\"freeze\":{\"timed_mode\":2,\"hourly_interval_min\":30}}".to_string(),
        comm_baud_json: "{}".to_string(),
        passwords_json: "{}".to_string(),
    };
    let mut restored = VirtualMeter::default();
    restored.apply_persisted_settings(&restore_meter_config(&row));
    let mut applied = VirtualMeter::default();
    let now = at(1, 0, 0);
    administer(
        &mut applied,
        AdminCommand::ApplySettlementDays { days: [3, 0, 9], hours: [1, 0, 2] },
        now,
    )
    .unwrap();
    administer(
        &mut applied,
        AdminCommand::ApplyFreezeConfig {
            timed_mode: 2,
            instant_mode: 0,
            appointment_mode: 0,
            hourly_mode: 0,
            daily_mode: 0,
            daily_time: [0; 2],
            hourly_start: [0; 5],
            hourly_interval_min: 30,
            appointment_time: [0; 5],
        },
        now,
    )
    .unwrap();
    let (r, a) = (restored.state(), applied.state());
    assert_eq!(r.settlement_days, a.settlement_days);
    assert_eq!(r.settlement_hours, a.settlement_hours);
    assert_eq!(r.freeze_config.timed_freeze_mode, a.freeze_config.timed_freeze_mode);
    assert_eq!(r.hourly_freeze_interval_min, a.hourly_freeze_interval_min);
}
