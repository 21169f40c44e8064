use meter_core::actor::admin::administer;
use meter_core::actor::messages::AdminCommand;
use meter_core::angle::{angle_of_cosine, HALF_TURN_DEGREES};
use meter_core::communication_log::{CommunicationLogEntry, CommunicationLogService};
use meter_core::simulation::di_handler::DIHandler;
use meter_core::simulation::faults::transition_fault;
use meter_core::simulation::load_record::{
    DemandBlock, EnergyBlock, PfBlock, PqBlock, QuadrantBlock, VifBlock,
};
use meter_core::simulation::measurement::{accumulate, PulseCounter};
use meter_core::simulation::state::{DemandValue, EnergyType, MeterState};
use meter_core::simulation::virtual_meter::VirtualMeter;
use meter_core::table::Table;
use meter_core::time::DateTime;

const UNIT: i64 = 1_000_000_000;

fn at(day: u32, hour: u32, minute: u32) -> DateTime {
    DateTime::with_ymd_and_hms(2025, 1, day, hour, minute, 0).unwrap()
}

fn with_demands() -> VirtualMeter {
    let mut meter = VirtualMeter::default();
    let s = meter.state_mut();
    s.max_demand = 4 * UNIT;
    s.max_demand_time = at(1, 8, 0);
    s.set_energy(EnergyType::ForwardActive, None, 7 * UNIT);
    let value = |v: i64| DemandValue { value: v * UNIT, time: at(1, 8, 0) };
    s.set_demand(0, 0, EnergyType::ForwardActive, None, value(4));
    s.set_demand(0, 0, EnergyType::ForwardActive, Some(2), value(3));
    s.set_demand(0, 1, EnergyType::ForwardActive, None, value(2));
    s.set_demand(0, 0, EnergyType::ReverseReactive, None, value(1));
    s.set_demand(1, 0, EnergyType::ForwardActive, None, value(9));
    s.set_demand(12, 2, EnergyType::ForwardActive, Some(1), value(8));
    meter
}

fn assert_demands_cleared(s: &MeterState, now: DateTime) {
    assert_eq!((s.max_demand, s.max_demand_time), (0, now));
    assert_eq!(s.get_demand(0, 0, EnergyType::ForwardActive, None).value, 0);
    assert_eq!(s.get_demand(0, 0, EnergyType::ForwardActive, Some(2)).value, 0);
    assert_eq!(s.get_demand(0, 1, EnergyType::ForwardActive, None).value, 0);
    assert_eq!(s.get_demand(0, 0, EnergyType::ReverseReactive, None).value, 0);
    assert_eq!(s.get_demand(1, 0, EnergyType::ForwardActive, None).value, 9 * UNIT);
    assert_eq!(s.get_demand(12, 2, EnergyType::ForwardActive, Some(1)).value, 8 * UNIT);
}

#[test]
fn only_the_total_falls_back_on_the_maximum_demand() {
    let mut s = MeterState::default();
    s.max_demand = 4_500_000_000;
    s.max_demand_time = at(3, 4, 5);
    let total = s.get_demand(0, 0, EnergyType::ForwardActive, None);
    assert_eq!((total.value, total.time), (4_500_000_000, at(3, 4, 5)));
    let zero = s.get_demand(0, 1, EnergyType::ForwardActive, None);
    assert_eq!((zero.value, zero.time), (0, s.virtual_time));
    assert_eq!(s.get_demand(0, 0, EnergyType::ForwardActive, Some(2)).value, 0);
    assert_eq!(s.get_demand(0, 0, EnergyType::ReverseActive, None).value, 0);
}

#[test]
fn clearing_the_demand_clears_every_present_register() {
    let mut meter = with_demands();
    let data = [0, 0, 0, 0, 0, 0, 0, 0, 1, 2, 3, 4];
    let operator = meter.handle_demand_clear_at(&data, at(2, 0, 0)).unwrap();
    assert_eq!(operator, [1, 2, 3, 4]);
    assert_demands_cleared(meter.state(), at(2, 0, 0));
    assert_eq!(meter.state().get_energy(EnergyType::ForwardActive, None), 7 * UNIT);
    let record = meter.state().get_event_record(0x30, 0x19, 1).unwrap();
    assert_eq!(record.data, vec![1, 2, 3, 4]);
}

#[test]
fn clearing_the_meter_clears_every_present_demand() {
    let mut meter = with_demands();
    meter.handle_meter_clear_at(&[0, 0, 0, 0, 1, 2, 3, 4], at(2, 0, 0)).unwrap();
    assert_demands_cleared(meter.state(), at(2, 0, 0));
    assert_eq!(meter.state().get_energy(EnergyType::ForwardActive, None), 0);
}

#[test]
fn administration_clears_every_present_demand() {
    let mut meter = with_demands();
    administer(&mut meter, AdminCommand::ClearMaxDemand, at(2, 0, 0)).unwrap();
    assert_demands_cleared(meter.state(), at(2, 0, 0));
    assert_eq!(meter.state().get_energy(EnergyType::ForwardActive, None), 7 * UNIT);
    let mut meter = with_demands();
    administer(&mut meter, AdminCommand::ClearMeter, at(2, 0, 0)).unwrap();
    assert_demands_cleared(meter.state(), at(2, 0, 0));
    assert_eq!(meter.state().get_energy(EnergyType::ForwardActive, None), 0);
}

#[test]
fn faults_hold_the_values_of_their_phase_in_digits() {
    let mut s = MeterState::default();
    s.voltage_a = 220_100_000_000;
    s.current_a = 12_345_000_000;
    s.active_power_a = 2_717_100_000;
    s.reactive_power_a = 1_234_500_000;
    s.power_factor = 987_000_000;
    let mut faults = Table::new();
    transition_fault(&mut faults, &mut s, 0x01, 0x01, true);
    let data = &s.get_event_record(0x01, 0x01, 1).unwrap().data;
    assert_eq!(data.len(), 119);
    assert_eq!(&data[0..32], &[0u8; 32][..]);
    assert_eq!(
        &data[32..45],
        &[0x01, 0x22, 0x45, 0x23, 0x01, 0x71, 0x71, 0x02, 0x45, 0x23, 0x01, 0x87, 0x09][..]
    );
    s.set_energy(EnergyType::ForwardActive, None, 1234 * UNIT + 560_000_000);
    transition_fault(&mut faults, &mut s, 0x01, 0x01, false);
    let data = &s.get_event_record(0x01, 0x01, 1).unwrap().data;
    assert_eq!(&data[0..4], &[0x56, 0x34, 0x12, 0x00][..]);
}

#[test]
fn rate_parameters_are_logged_as_such() {
    let mut meter = VirtualMeter::default();
    let mut write = |di: [u8; 4], value: &[u8]| {
        let mut data = di.to_vec();
        data.extend_from_slice(&[0, 0, 0, 0, 1, 2, 3, 4]);
        data.extend_from_slice(value);
        meter.handle_write_command(&data).unwrap()
    };
    assert_eq!(write([0x01, 0x06, 0x00, 0x04], &[0x00]), [1, 2, 3, 4]);
    write([0x01, 0x0B, 0x00, 0x04], &[0x15, 0x08]);
    let s = meter.state();
    assert_eq!(s.get_all_event_records(0x30, 0x0F).len(), 1);
    assert_eq!(s.get_all_event_records(0x30, 0x10).len(), 1);
}

#[test]
fn all_slots_of_an_energy_are_read_in_turn() {
    let mut s = MeterState::default();
    s.set_energy(EnergyType::ForwardActive, None, 12 * UNIT);
    let handler = DIHandler::new();
    let read = handler.handle_read([0xFF, 0x00, 0x01, 0x00], &s).unwrap();
    assert_eq!(read.len(), 13 * 4);
    let mut expected: Vec<u8> = Vec::new();
    for slot in 0..13u8 {
        expected.extend_from_slice(&handler.handle_read([slot, 0x00, 0x01, 0x00], &s).unwrap());
    }
    assert_eq!(read, expected);
    assert_eq!(&read[0..4], &[0x00, 0x12, 0x00, 0x00][..]);
}

fn total(s: &MeterState) -> i64 {
    s.get_energy(EnergyType::ForwardActive, None)
}

#[test]
fn no_energy_is_lost_to_the_meter_constant() {
    let mut s = MeterState::default();
    s.meter_constant = 12_000;
    s.active_power_total = UNIT;
    let mut counter = PulseCounter::new();
    for _ in 0..3_600 {
        accumulate(&mut counter, &mut s, 1_000_000_000);
    }
    assert_eq!(total(&s), UNIT);
    assert!(counter.owed.is_empty());
    assert_eq!((counter.part, counter.rest, counter.constant), (0, 0, 12_000));
}

#[test]
fn fine_pulses_count_too() {
    let mut s = MeterState::default();
    s.meter_constant = 4_000_000_000;
    s.active_power_total = UNIT;
    let mut counter = PulseCounter::new();
    for _ in 0..3_600 {
        accumulate(&mut counter, &mut s, 1_000_000_000);
    }
    assert_eq!(total(&s), UNIT);
}

#[test]
fn no_energy_is_lost_to_short_steps() {
    let mut s = MeterState::default();
    s.meter_constant = 6_400;
    s.active_power_total = 3_600 * UNIT;
    let mut counter = PulseCounter::new();
    for _ in 0..10_000 {
        accumulate(&mut counter, &mut s, 100_000);
    }
    assert_eq!(total(&s), UNIT);
    let mut t = MeterState::default();
    t.meter_constant = 6_400;
    t.active_power_total = 1;
    let mut slow = PulseCounter::new();
    for _ in 0..3 {
        accumulate(&mut slow, &mut t, 1);
    }
    assert_eq!(slow.part, 3 * 6_400);
}

#[test]
fn backward_flow_is_owed() {
    let mut s = MeterState::default();
    s.meter_constant = 1_000;
    s.active_power_total = -3_600 * UNIT;
    let mut counter = PulseCounter::new();
    accumulate(&mut counter, &mut s, 1_000_000_000);
    assert_eq!(total(&s), 0);
    s.active_power_total = 3_600 * UNIT;
    accumulate(&mut counter, &mut s, 1_000_000_000);
    assert_eq!(total(&s), 0);
    accumulate(&mut counter, &mut s, 1_000_000_000);
    assert_eq!(total(&s), UNIT);
}

#[test]
fn all_that_flowed_backwards_is_owed() {
    let mut s = MeterState::default();
    s.meter_constant = u32::MAX;
    let mut counter = PulseCounter::new();
    s.active_power_total = -i64::MAX;
    for _ in 0..5 {
        accumulate(&mut counter, &mut s, u64::MAX);
    }
    s.active_power_total = i64::MAX;
    for _ in 0..5 {
        assert_eq!(total(&s), 0);
        accumulate(&mut counter, &mut s, u64::MAX);
    }
    assert_eq!(total(&s), 0);
    assert_eq!(counter.part, 0);
    s.meter_constant = 1_000;
    s.active_power_total = 3_600 * UNIT;
    accumulate(&mut counter, &mut s, 1_000_000_000);
    assert_eq!(total(&s), UNIT);
}

#[test]
fn the_angle_follows_the_power_factor() {
    let mut s = MeterState::default();
    let handler = DIHandler::new();
    for (power_factor, degrees, bytes) in [
        (950_000_000, 18_194_872_339, [0x82, 0x01]),
        (1_000_000_000, 0, [0x00, 0x00]),
        (2_000_000_000, 0, [0x00, 0x00]),
        (500_000_000, 60_000_000_000, [0x00, 0x06]),
        (0, 90_000_000_000, [0x00, 0x09]),
        (-500_000_000, 120_000_000_000, [0x00, 0x12]),
        (-1_000_000_000, 180_000_000_000, [0x00, 0x18]),
        (i64::MIN, 180_000_000_000, [0x00, 0x18]),
    ] {
        s.power_factor = power_factor;
        assert_eq!(s.phase_angle_degrees(), degrees);
        assert_eq!(handler.handle_read([0x00, 0x01, 0x07, 0x02], &s).unwrap(), bytes.to_vec());
    }
}

#[test]
fn angles_are_those_of_the_arc_cosine() {
    for i in -1_000i64..=1_000 {
        let cosine = i * 999_999 + (i % 7);
        let expected = (cosine as f64 / 1e9).acos().to_degrees() * 1e9;
        let angle = angle_of_cosine(cosine);
        assert!((angle as f64 - expected).abs() < 1.0);
        assert!(angle == HALF_TURN_DEGREES - angle_of_cosine(-cosine));
    }
}

#[test]
fn a_copy_is_independent() {
    let meter = with_demands();
    let mut copy = meter.state().clone();
    assert_eq!(copy.get_demand(12, 2, EnergyType::ForwardActive, Some(1)).value, 8 * UNIT);
    copy.set_energy(EnergyType::ForwardActive, None, 0);
    assert_eq!(meter.state().get_energy(EnergyType::ForwardActive, None), 7 * UNIT);
    let mut log = CommunicationLogService::new();
    let frame = [0x68, 1, 2, 3, 4, 5, 6, 0x68];
    log.record(CommunicationLogEntry::new_at(5, "rx", "line".to_string(), &frame, None));
    let kept = log.clone();
    log.record(CommunicationLogEntry::new_at(6, "tx", "line".to_string(), &frame, None));
    assert_eq!(kept.entries_for([1, 2, 3, 4, 5, 6]).len(), 1);
    assert_eq!(log.entries_for([1, 2, 3, 4, 5, 6]).len(), 2);
    assert_eq!(kept.entries_for([1, 2, 3, 4, 5, 6])[0].timestamp_ms, 5);
}

#[test]
fn blocks_begin_with_zeros() {
    assert_eq!(VifBlock::default().frequency, 0);
    assert_eq!(PqBlock::default().reactive_c, 0);
    assert_eq!(PfBlock::default().total, 0);
    assert_eq!(EnergyBlock::default().combined_reactive2, 0);
    assert_eq!(QuadrantBlock::default().q4, 0);
    assert_eq!(DemandBlock::default(), DemandBlock { active: 0, reactive: 0 });
}
