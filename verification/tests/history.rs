use meter_core::actor::freeze_history::{memory_history, merge_history, HistoryKey};
use meter_core::simulation::freeze::FreezeTrigger;
use meter_core::simulation::state::MeterState;
use meter_core::sorting::stable_order;
use meter_core::time::DateTime;

#[test]
fn equal_times_keep_their_order() {
    assert_eq!(stable_order(&vec![3, 1, 2, 1]), vec![1, 3, 2, 0]);
    assert!(stable_order(&vec![]).is_empty());
}

#[test]
fn the_history_shows_each_snapshot_once_the_newest_first() {
    let key = |trigger: u8, occurrence: u8, time_ms: i64| HistoryKey { trigger, occurrence, time_ms };
    let keys =
        vec![key(0, 1, 50), key(0, 2, 40), key(1, 1, 50), key(0, 7, 40), key(6, 1, 90), key(0, 9, 10)];
    assert_eq!(merge_history(&keys), vec![4, 0, 2, 1, 5]);
}

#[test]
fn snapshots_in_memory_come_trigger_by_trigger() {
    let mut state = MeterState::default();
    state.virtual_time = DateTime::with_ymd_and_hms(2025, 1, 1, 0, 0, 1).unwrap();
    state.create_freeze_snapshot(FreezeTrigger::Daily);
    state.create_freeze_snapshot(FreezeTrigger::Timed);
    state.virtual_time = DateTime::with_ymd_and_hms(2025, 1, 1, 0, 0, 2).unwrap();
    state.create_freeze_snapshot(FreezeTrigger::Timed);
    let found: Vec<(u8, u8, i64)> = memory_history(&state)
        .iter()
        .map(|k| (k.trigger, k.occurrence, k.time_ms % 10_000))
        .collect();
    assert_eq!(found, vec![(0, 1, 2000), (0, 2, 1000), (6, 1, 1000)]);
}
