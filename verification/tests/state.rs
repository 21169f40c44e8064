use meter_core::simulation::freeze::FreezeTrigger;
use meter_core::simulation::event::{EventRecord, EventRingBuffer};
use meter_core::simulation::load_record::LoadProfileSamplingState;
use meter_core::simulation::state::{EnergyType, MeterState};
use meter_core::time::DateTime;

fn at(hour: u32, minute: u32, second: u32) -> DateTime {
    DateTime::with_ymd_and_hms(2025, 1, 1, hour, minute, second).unwrap()
}

#[test]
fn test_meter_state_creation() {
    let state = MeterState::default();

    assert_eq!(state.address, [0x12, 0x34, 0x56, 0x78, 0x90, 0x12]);
    assert_eq!(state.meter_constant, 1600);
    assert_eq!(state.baudrate, 0x10);

    assert_eq!(state.event_records.items().len(), 0);
    assert_eq!(state.event_summary.items().len(), 0);
}

#[test]
fn test_event_limit() {
    let mut state = MeterState::default();

    for i in 1..=15 {
        state.add_event_record(0x01, 0x01, DateTime::now(), vec![i as u8]);
    }

    let records = state.get_all_event_records(0x01, 0x01);
    assert_eq!(records.len(), 10);

    let latest = state.get_event_record(0x01, 0x01, 1).unwrap();
    assert_eq!(latest.data[0], 15);

    let tenth = state.get_event_record(0x01, 0x01, 10).unwrap();
    assert_eq!(tenth.data[0], 6);
}

#[test]
fn test_event_record_operations() {
    let mut state = MeterState::default();
    let now = DateTime::now();

    state.add_event_record(0x30, 0x0F, now, vec![0x01, 0x02, 0x03, 0x04]);

    let record = state.get_event_record(0x30, 0x0F, 1).unwrap();
    assert_eq!(record.event_type, 0x30);
    assert_eq!(record.sub_type, 0x0F);
    assert_eq!(record.data, vec![0x01, 0x02, 0x03, 0x04]);

    let fault_start = now.plus_millis(-30 * 60 * 1000);
    state.add_event_record(0x01, 0x01, fault_start, vec![]);

    let fault_end = now;
    state.end_event_record(0x01, 0x01, fault_end);

    let fault_record = state.get_event_record(0x01, 0x01, 1).unwrap();
    assert!(fault_record.end_time.is_some());
    assert_eq!(fault_record.duration_minutes(), 30);

    let summary = state.get_event_summary(0x01, 0x01).unwrap();
    assert_eq!(summary.total_count, 1);
    assert_eq!(summary.total_duration_minutes, 30);

    state.clear_all_events();
    assert_eq!(state.get_all_event_records(0x30, 0x0F).len(), 0);
    assert_eq!(state.get_all_event_records(0x01, 0x01).len(), 0);
}

#[test]
fn test_event_ring_buffer() {
    let mut buffer = EventRingBuffer::new(3);

    for i in 1..=3 {
        buffer.push(EventRecord::new(0x30, 0x0F, DateTime::now(), vec![i]));
    }

    assert_eq!(buffer.len(), 3);
    assert_eq!(buffer.get(1).unwrap().data[0], 3);
    assert_eq!(buffer.get(3).unwrap().data[0], 1);

    buffer.push(EventRecord::new(0x30, 0x0F, DateTime::now(), vec![4]));

    assert_eq!(buffer.len(), 3);
    assert_eq!(buffer.get(1).unwrap().data[0], 4);
    assert_eq!(buffer.get(3).unwrap().data[0], 2);

    buffer.clear();
    assert_eq!(buffer.len(), 0);
}

#[test]
fn test_load_profile_sampling_alignment() {
    let mut sampling_state = LoadProfileSamplingState::default();

    let interval = 15;

    let time_12_00 = at(12, 0, 0);
    assert!(sampling_state.should_sample(0, &time_12_00, interval));
    sampling_state.update_sample_time(0, time_12_00);

    let time_12_07 = at(12, 7, 0);
    assert!(!sampling_state.should_sample(0, &time_12_07, interval));

    let time_12_15 = at(12, 15, 0);
    assert!(sampling_state.should_sample(0, &time_12_15, interval));
    sampling_state.update_sample_time(0, time_12_15);

    let time_12_30 = at(12, 30, 0);
    assert!(sampling_state.should_sample(0, &time_12_30, interval));
    sampling_state.update_sample_time(0, time_12_30);

    let time_12_45 = at(12, 45, 0);
    assert!(sampling_state.should_sample(0, &time_12_45, interval));
    sampling_state.update_sample_time(0, time_12_45);

    let time_13_00 = at(13, 0, 0);
    assert!(sampling_state.should_sample(0, &time_13_00, interval));
}

#[test]
fn test_load_profile_sampling_skip_alignment_point() {
    let mut sampling_state = LoadProfileSamplingState::default();
    let interval = 15;

    let time_12_00 = at(12, 0, 0);
    assert!(sampling_state.should_sample(0, &time_12_00, interval));
    sampling_state.update_sample_time(0, time_12_00);

    let time_12_15_03 = at(12, 15, 3);
    assert!(sampling_state.should_sample(0, &time_12_15_03, interval));
    sampling_state.update_sample_time(0, time_12_15_03);

    let time_12_15_05 = at(12, 15, 5);
    assert!(!sampling_state.should_sample(0, &time_12_15_05, interval));

    let time_12_47 = at(12, 47, 0);
    assert!(sampling_state.should_sample(0, &time_12_47, interval));
    sampling_state.update_sample_time(0, time_12_47);

    let time_12_50 = at(12, 50, 0);
    assert!(!sampling_state.should_sample(0, &time_12_50, interval));
}

#[test]
fn test_load_profile_sampling_various_intervals() {
    let mut sampling_state = LoadProfileSamplingState::default();

    let interval_30 = 30;

    let time_12_00 = at(12, 0, 0);
    assert!(sampling_state.should_sample(1, &time_12_00, interval_30));
    sampling_state.update_sample_time(1, time_12_00);

    let time_12_15 = at(12, 15, 0);
    assert!(!sampling_state.should_sample(1, &time_12_15, interval_30));

    let time_12_30 = at(12, 30, 0);
    assert!(sampling_state.should_sample(1, &time_12_30, interval_30));
    sampling_state.update_sample_time(1, time_12_30);

    let time_13_00 = at(13, 0, 0);
    assert!(sampling_state.should_sample(1, &time_13_00, interval_30));

    let interval_60 = 60;

    let time_14_00 = at(14, 0, 0);
    assert!(sampling_state.should_sample(2, &time_14_00, interval_60));
    sampling_state.update_sample_time(2, time_14_00);

    let time_14_30 = at(14, 30, 0);
    assert!(!sampling_state.should_sample(2, &time_14_30, interval_60));

    let time_15_00 = at(15, 0, 0);
    assert!(sampling_state.should_sample(2, &time_15_00, interval_60));
}

#[test]
fn test_load_profile_no_duplicate_sampling() {
    let mut sampling_state = LoadProfileSamplingState::default();

    let interval = 15;
    let time_12_00 = at(12, 0, 0);

    assert!(sampling_state.should_sample(0, &time_12_00, interval));
    sampling_state.update_sample_time(0, time_12_00);

    let time_12_05 = at(12, 5, 0);
    assert!(!sampling_state.should_sample(0, &time_12_05, interval));

    let time_12_14 = at(12, 14, 59);
    assert!(!sampling_state.should_sample(0, &time_12_14, interval));
}

#[test]
fn registers_stop_at_their_limit() {
    let mut state = MeterState::default();
    state.set_energy(EnergyType::ForwardActive, None, i64::MAX - 1);
    state.add_energy(EnergyType::ForwardActive, None, 5);
    assert_eq!(state.get_energy(EnergyType::ForwardActive, None), i64::MAX);
    assert_eq!(state.get_energy(EnergyType::ForwardActive, Some(1)), 0);
}

#[test]
fn a_settlement_moves_earlier_ones_back() {
    let mut state = MeterState::default();
    state.settlement_days = [1, 0, 0];
    state.last_settlement_rollover = Some(DateTime::with_ymd_and_hms(2025, 1, 15, 0, 0, 0).unwrap());
    for (month, energy) in [(2u32, 10i64), (3, 20)] {
        state.set_energy(EnergyType::ForwardActive, None, energy);
        state.virtual_time = DateTime::with_ymd_and_hms(2025, month, 1, 0, 0, 5).unwrap();
        assert!(state.settlement_rollover_if_due());
        assert!(!state.settlement_rollover_if_due());
    }
    assert_eq!(state.get_settlement_energy(1, EnergyType::ForwardActive, None), 20);
    assert_eq!(state.get_settlement_energy(2, EnergyType::ForwardActive, None), 10);
}

#[test]
fn snapshots_give_way_to_newer_ones() {
    let mut state = MeterState::default();
    for i in 0..5 {
        state.set_energy(EnergyType::ForwardActive, None, i);
        state.create_freeze_snapshot(FreezeTrigger::Instant);
    }
    let all = state.get_all_freeze_snapshots(FreezeTrigger::Instant);
    assert_eq!(all.len(), 3);
    assert_eq!(all[0].data.forward_active_total, 4);
    assert_eq!(all[2].data.forward_active_total, 2);
    assert!(state.get_freeze_snapshot(FreezeTrigger::Instant, 4).is_none());
    state.clear_freeze_snapshots(FreezeTrigger::Instant);
    assert!(state.get_freeze_snapshot(FreezeTrigger::Instant, 1).is_none());
}
