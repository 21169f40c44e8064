use meter_core::simulation::freeze::{FreezeTrigger, FreezeType};
use meter_core::simulation::load_model::LoadModelConfig;
use meter_core::simulation::physics_engine::PhysicsEngine;
use meter_core::simulation::state::{make_demand_key, make_energy_key, EnergyType, MeterState};
use meter_core::time::DateTime;

const UNIT: i64 = 1_000_000_000;
const SECOND: u64 = 1_000_000_000;

#[test]
fn test_physics_tick() {
    let mut engine = PhysicsEngine::new(LoadModelConfig::default());
    let mut state = MeterState::default();

    let initial_time = state.virtual_time;

    engine.tick(&mut state, SECOND, UNIT);

    let time_diff = state.virtual_time.nanos_since(&initial_time);
    assert_eq!(time_diff / 1_000_000_000, 1);

    assert!(state.voltage_a > 0);
    assert!(state.current_a > 0);
    assert!(state.active_power_total > 0);
}

#[test]
fn test_time_scale() {
    let mut engine = PhysicsEngine::new(LoadModelConfig::default());
    let mut state = MeterState::default();

    let initial_time = state.virtual_time;

    engine.tick(&mut state, SECOND, 10 * UNIT);

    let time_diff = state.virtual_time.nanos_since(&initial_time);
    assert_eq!(time_diff / 1_000_000_000, 10);
}

#[test]
fn test_demand_registers_tracked_per_dimension() {
    let mut engine = PhysicsEngine::new(LoadModelConfig::default());
    let mut state = MeterState::default();

    engine.tick(&mut state, SECOND, UNIT);

    let rate = state.tou_config.day_table_1.get_rate_at_time(&state.virtual_time);
    assert!(state
        .demand_registers
        .contains_key(make_demand_key(0, 0, EnergyType::ForwardActive, 0)));
    assert!(state
        .demand_registers
        .contains_key(make_demand_key(0, 0, EnergyType::ForwardActive, rate)));
    for phase in 1..=3u8 {
        assert!(state
            .demand_registers
            .contains_key(make_demand_key(0, phase, EnergyType::ForwardActive, 0)));
    }
    assert!(state
        .demand_registers
        .contains_key(make_demand_key(0, 0, EnergyType::ForwardReactive, 0)));
}

#[test]
fn test_fault_injection_generates_events() {
    let mut engine = PhysicsEngine::new(LoadModelConfig::default());
    let mut state = MeterState::default();

    engine.set_forced_fault(0x01, 1, true);
    engine.set_forced_fault(0x07, 0, true);
    engine.tick(&mut state, SECOND, UNIT);

    assert_eq!(state.get_all_event_records(0x01, 0x01).len(), 1);
    assert_eq!(state.get_all_event_records(0x07, 0x00).len(), 1);
    let record = state.get_all_event_records(0x01, 0x01)[0];
    assert_eq!(record.data.len(), 119);

    engine.set_forced_fault(0x01, 1, false);
    engine.tick(&mut state, SECOND, UNIT);
    let record = state.get_all_event_records(0x01, 0x01)[0];
    assert!(record.end_time.is_some());
}

#[test]
fn test_under_voltage_band_detection() {
    let mut engine = PhysicsEngine::new(LoadModelConfig::default());
    let mut state = MeterState::default();
    state.voltage_a = 176 * UNIT;
    engine.detect_events(&mut state);

    assert_eq!(state.get_all_event_records(0x02, 0x01).len(), 1);
    assert_eq!(state.get_all_event_records(0x01, 0x01).len(), 0);
}

#[test]
fn test_daily_freeze_triggered_by_config() {
    let engine = PhysicsEngine::new(LoadModelConfig::default());
    let mut state = MeterState::default();
    state.daily_freeze_mode = 1;
    state.daily_freeze_time = [0x00, 0x30];

    state.virtual_time = DateTime::with_ymd_and_hms(2025, 6, 2, 0, 30, 0).unwrap();
    engine.check_freeze_schedule(&mut state);
    assert!(!state.pending_freeze_triggers.is_empty());

    state.pending_freeze_triggers.clear();
    state.virtual_time = DateTime::with_ymd_and_hms(2025, 6, 2, 0, 31, 0).unwrap();
    engine.check_freeze_schedule(&mut state);
    assert!(state.pending_freeze_triggers.is_empty());
}

#[test]
fn test_settlement_rollover_resets_demand() {
    let mut engine = PhysicsEngine::new(LoadModelConfig::default());
    let mut state = MeterState::default();
    state.settlement_days = [1, 0, 0];

    state.virtual_time = DateTime::with_ymd_and_hms(2025, 5, 31, 23, 59, 50).unwrap();
    engine.tick(&mut state, 15 * SECOND, UNIT);

    assert_eq!(state.max_demand, 0);
    assert!(state
        .demand_registers
        .contains_key(make_demand_key(1, 0, EnergyType::ForwardActive, 0)));
}

#[test]
fn test_energy_accumulation() {
    let mut engine = PhysicsEngine::new(LoadModelConfig::default());
    let mut state = MeterState::default();

    let initial_energy = state.get_energy(EnergyType::ForwardActive, None);

    for _ in 0..3600 {
        engine.tick(&mut state, SECOND, UNIT);
    }

    let final_energy = state.get_energy(EnergyType::ForwardActive, None);

    assert!(final_energy > initial_energy);
}

#[test]
fn test_rate_energy_accumulation() {
    let mut engine = PhysicsEngine::new(LoadModelConfig::default());
    let mut state = MeterState::default();

    for _ in 0..3600 {
        engine.tick(&mut state, SECOND, UNIT);
    }

    let total = state.get_energy(EnergyType::ForwardActive, None);
    let rate1 = state.get_energy(EnergyType::ForwardActive, Some(1));
    let rate2 = state.get_energy(EnergyType::ForwardActive, Some(2));
    let rate3 = state.get_energy(EnergyType::ForwardActive, Some(3));
    let rate4 = state.get_energy(EnergyType::ForwardActive, Some(4));

    let sum_rates = rate1 + rate2 + rate3 + rate4;
    let diff = (total - sum_rates).abs();
    assert!(diff < 1_000_000, "{}", diff);
}

#[test]
fn test_freeze_trigger_detection() {
    let engine = PhysicsEngine::new(LoadModelConfig::default());
    let mut state = MeterState::default();

    state.freeze_config.timed_freeze_mode = 3;

    state.virtual_time = DateTime::with_ymd_and_hms(2024, 6, 15, 10, 59, 59).unwrap();

    engine.check_freeze_schedule(&mut state);
    assert!(state.pending_freeze_triggers.is_empty());

    state.virtual_time = DateTime::with_ymd_and_hms(2024, 6, 15, 11, 0, 0).unwrap();

    engine.check_freeze_schedule(&mut state);
    assert_eq!(state.pending_freeze_triggers, vec![FreezeType::Timed]);
}

#[test]
fn test_freeze_snapshot_creation() {
    let mut state = MeterState::default();

    state
        .energy_registers
        .insert(make_energy_key(EnergyType::ForwardActive, 0), 12_345_670_000_000);
    state.voltage_a = 220_500_000_000;
    state.current_a = 12_345_000_000;

    state.create_freeze_snapshot(FreezeTrigger::Timed);

    let snapshot = state.get_freeze_snapshot(FreezeTrigger::Timed, 0x01);
    assert!(snapshot.is_some());

    let snapshot = snapshot.unwrap();
    assert_eq!(snapshot.trigger_type, FreezeTrigger::Timed);
    assert_eq!(snapshot.occurrence_index, 0x01);
    assert_eq!(snapshot.data.forward_active_total, 12_345_670_000_000);
}

#[test]
fn test_freeze_ring_buffer() {
    let mut state = MeterState::default();

    for i in 1..=13 {
        state
            .energy_registers
            .insert(make_energy_key(EnergyType::ForwardActive, 0), 1000 * UNIT * i);
        state.create_freeze_snapshot(FreezeTrigger::Timed);
    }

    let snapshot_01 = state.get_freeze_snapshot(FreezeTrigger::Timed, 0x01);
    let snapshot_0c = state.get_freeze_snapshot(FreezeTrigger::Timed, 0x0C);

    assert!(snapshot_01.is_some());
    assert!(snapshot_0c.is_some());

    let latest = snapshot_01.unwrap();
    assert_eq!(latest.data.forward_active_total, 13000 * UNIT);

    let oldest = snapshot_0c.unwrap();
    assert_eq!(oldest.data.forward_active_total, 2000 * UNIT);
}

#[test]
fn test_freeze_instant_command() {
    let mut state = MeterState::default();
    state
        .energy_registers
        .insert(make_energy_key(EnergyType::ForwardActive, 0), 5_555_550_000_000);

    state.freeze_config.instant_freeze_mode = 1;

    state.create_freeze_snapshot(FreezeTrigger::Instant);

    let snapshot = state.get_freeze_snapshot(FreezeTrigger::Instant, 0x01);
    assert!(snapshot.is_some());

    let snapshot = snapshot.unwrap();
    assert_eq!(snapshot.trigger_type, FreezeTrigger::Instant);
    assert_eq!(snapshot.data.forward_active_total, 5_555_550_000_000);
}

#[test]
fn test_load_record_sampling_logic() {
    let engine = PhysicsEngine::new(LoadModelConfig::default());
    let mut state = MeterState::default();

    state.load_record_config.mode_word = 0b00000001;
    state.load_record_config.intervals[0] = 15;

    state.virtual_time = DateTime::with_ymd_and_hms(2026, 8, 20, 9, 7, 30).unwrap();

    let samples = engine.check_load_record_sampling(&mut state);
    assert!(samples.is_empty());

    state.virtual_time = DateTime::with_ymd_and_hms(2026, 8, 20, 9, 15, 0).unwrap();
    let samples = engine.check_load_record_sampling(&mut state);
    assert_eq!(samples.len(), 1);
    assert_eq!(samples[0].class_id, 1);
    assert_eq!(samples[0].sample_time, state.virtual_time);
    assert!(samples[0].data.vif.is_some());
    assert!(samples[0].data.pq.is_none());

    let vif = samples[0].data.vif.as_ref().unwrap();
    assert!((vif.voltage_a - 220 * UNIT).abs() < UNIT);
    assert!((vif.frequency - 50 * UNIT).abs() < UNIT);

    state.virtual_time = state.virtual_time.plus_millis(2 * 60 * 1000);
    let samples = engine.check_load_record_sampling(&mut state);
    assert!(samples.is_empty());

    state.virtual_time = DateTime::with_ymd_and_hms(2026, 8, 20, 9, 30, 0).unwrap();
    let samples = engine.check_load_record_sampling(&mut state);
    assert_eq!(samples.len(), 1);
}

#[test]
fn test_load_record_mode_word_selects_blocks() {
    let engine = PhysicsEngine::new(LoadModelConfig::default());
    let mut state = MeterState::default();

    state.virtual_time = DateTime::with_ymd_and_hms(2026, 8, 20, 9, 0, 0).unwrap();

    state.voltage_a = 220 * UNIT;
    state.current_a = 10 * UNIT;
    state.active_power_a = 2_200_000_000;
    state.power_factor = 950_000_000;

    state.load_record_config.mode_word = 0b00000111;
    state.load_record_config.intervals[1] = 5;

    let samples = engine.check_load_record_sampling(&mut state);
    assert_eq!(samples.len(), 1);
    assert_eq!(samples[0].class_id, 2);

    let data = &samples[0].data;
    let vif = data.vif.as_ref().unwrap();
    assert_eq!(vif.voltage_a, 220 * UNIT);
    assert_eq!(vif.current_a, 10 * UNIT);

    let pq = data.pq.as_ref().unwrap();
    assert_eq!(pq.active_a, 2_200_000_000);

    let pf = data.pf.as_ref().unwrap();
    assert_eq!(pf.total, 950_000_000);

    assert!(data.energy.is_none());
    assert!(data.quadrant.is_none());
    assert!(data.demand.is_none());
}

#[test]
fn test_load_record_mode_word_zero_disables_sampling() {
    let engine = PhysicsEngine::new(LoadModelConfig::default());
    let mut state = MeterState::default();

    state.load_record_config.mode_word = 0;
    state.load_record_config.intervals[0] = 5;

    let samples = engine.check_load_record_sampling(&mut state);
    assert!(samples.is_empty());
}

#[test]
fn test_load_record_interval_zero_disables_sampling() {
    let engine = PhysicsEngine::new(LoadModelConfig::default());
    let mut state = MeterState::default();

    state.load_record_config.mode_word = 0b00000001;
    state.load_record_config.intervals[0] = 0;

    let samples = engine.check_load_record_sampling(&mut state);

    assert!(samples.is_empty());
}

#[test]
fn test_freeze_and_load_integration() {
    let mut engine = PhysicsEngine::new(LoadModelConfig::default());
    let mut state = MeterState::default();

    state.freeze_config.timed_freeze_mode = 3;
    state.load_record_config.mode_word = 0b00000111;
    state.load_record_config.intervals[0] = 15;

    state.virtual_time = DateTime::with_ymd_and_hms(2024, 6, 15, 10, 45, 0).unwrap();

    let mut taken = 0;
    let mut sampled = 0;
    for _ in 0..1800 {
        engine.tick(&mut state, SECOND, UNIT);

        sampled += engine.check_load_record_sampling(&mut state).len();

        if !state.pending_freeze_triggers.is_empty() {
            state.create_freeze_snapshot(FreezeTrigger::Timed);
            state.pending_freeze_triggers.clear();
            taken += 1;
        }
    }

    let snapshot = state.get_freeze_snapshot(FreezeTrigger::Timed, 0x01);
    assert!(snapshot.is_some());
    assert_eq!(taken, 1);
    assert!(sampled >= 2);
}

#[test]
fn a_lasting_fault_is_recorded_once() {
    let mut engine = PhysicsEngine::new(LoadModelConfig::default());
    let mut state = MeterState::default();
    engine.set_forced_fault(0x07, 0, true);
    for _ in 0..5 {
        engine.tick(&mut state, SECOND, UNIT);
    }
    assert_eq!(state.get_all_event_records(0x07, 0x00).len(), 1);
    assert!(state.get_all_event_records(0x07, 0x00)[0].end_time.is_none());
    engine.set_forced_fault(0x07, 0, false);
    engine.tick(&mut state, SECOND, UNIT);
    assert!(state.get_all_event_records(0x07, 0x00)[0].end_time.is_some());
}

#[test]
fn an_appointed_freeze_happens_once() {
    let engine = PhysicsEngine::new(LoadModelConfig::default());
    let mut state = MeterState::default();
    state.freeze_config.appointment_freeze_mode = 1;
    state.appointment_freeze_time = [0x24, 0x06, 0x15, 0x11, 0x00];
    state.virtual_time = DateTime::with_ymd_and_hms(2024, 6, 15, 11, 0, 0).unwrap();
    engine.check_freeze_schedule(&mut state);
    engine.check_freeze_schedule(&mut state);
    let appointed =
        state.pending_freeze_triggers.iter().filter(|t| **t == FreezeType::Appointment).count();
    assert_eq!(appointed, 1);
    assert!(state.appointment_freeze_fired);
}

#[test]
fn steps_beyond_the_clock_are_known_beforehand() {
    let engine = PhysicsEngine::new(LoadModelConfig::default());
    let state = MeterState::default();
    assert!(engine.can_tick(&state, SECOND, UNIT));
    assert!(!engine.can_tick(&state, SECOND, -1));
    assert!(!engine.can_tick(&state, u64::MAX, 10_000 * UNIT));
}
