use meter_core::quantity::{
    difference, floor_div, magnitude, product, scale, sine, square_root, sum, thousandth,
};
use meter_core::simulation::demand_window::update_max_demand;
use meter_core::simulation::load_model::{LoadModelConfig, LoadProfile};
use meter_core::simulation::measurement::{accumulate, measure, Noise, PulseCounter};
use meter_core::simulation::state::{EnergyType, MeterState};
use meter_core::time::DateTime;

const UNIT: i64 = 1_000_000_000;

#[test]
fn quantities_are_reckoned_with() {
    assert_eq!(sum(i64::MAX, 1), i64::MAX);
    assert_eq!(difference(i64::MIN, 1), i64::MIN);
    assert_eq!(product(1_500_000_000, -2 * UNIT), -3 * UNIT);
    assert_eq!(thousandth(2_500_000_000), 2_500_000);
    assert_eq!(floor_div(-7, 2), -4);
    assert_eq!(square_root(99), 9);
    assert_eq!(magnitude(3 * UNIT, -4 * UNIT), 5 * UNIT);
    assert_eq!(sine(600_000_000), 800_000_000);
    assert_eq!(scale(1_249_999_999, 1), 12);
    assert_eq!(scale(1_250_000_000, 1), 13);
    assert_eq!(scale(-1, 3), 0);
}

fn steady() -> LoadModelConfig {
    LoadModelConfig {
        profile: LoadProfile::Fixed(500_000_000),
        voltage_noise_v: 2 * UNIT,
        frequency_noise_hz: 50_000_000,
        power_factor_noise: 10_000_000,
        power_factor_min: 850_000_000,
        power_factor_max: 990_000_000,
        phase_current_factors: [UNIT, UNIT, 2 * UNIT],
    }
}

#[test]
fn the_load_is_measured() {
    let mut state = MeterState::default();
    state.rated_voltage = 220_000;
    state.rated_current = 10_000;
    state.rated_frequency = 50;
    state.power_factor = 800_000_000;
    let noise = Noise { voltages: [0, 500_000_000, -UNIT], power_factor: 0, frequency: -UNIT };
    measure(&mut state, &steady(), &noise);
    assert_eq!(state.voltage_a, 220 * UNIT);
    assert_eq!(state.voltage_b, 221 * UNIT);
    assert_eq!(state.voltage_c, 218 * UNIT);
    assert_eq!((state.current_a, state.current_c), (5 * UNIT, 10 * UNIT));
    assert_eq!(state.power_factor, 850_000_000);
    assert_eq!(state.frequency, 49_950_000_000);
    assert_eq!(state.active_power_a, 935_000_000);
    assert_eq!(state.apparent_power_total, 1_100_000_000 + 1_105_000_000 + 2_180_000_000);
}

#[test]
fn noise_stays_in_its_range() {
    for _ in 0..100 {
        let n = Noise::draw();
        for v in n.voltages {
            assert!(-UNIT <= v && v < UNIT);
        }
        assert!(-UNIT <= n.power_factor && n.power_factor < UNIT);
        assert!(-UNIT <= n.frequency && n.frequency < UNIT);
    }
}

#[test]
fn whole_pulses_are_credited() {
    let mut state = MeterState::default();
    state.meter_constant = 1000;
    state.active_power_total = 3_600_000_000_000;
    let mut counter = PulseCounter::new();
    accumulate(&mut counter, &mut state, 1_000_000_000);
    assert_eq!(state.get_energy(EnergyType::ForwardActive, None), UNIT);
    let rate = state.tou_config.day_table_1.get_rate_at_time(&state.virtual_time);
    assert_eq!(state.get_energy(EnergyType::ForwardActive, Some(rate)), UNIT);
    state.active_power_total = 1;
    accumulate(&mut counter, &mut state, 1);
    assert_eq!(state.get_energy(EnergyType::ForwardActive, None), UNIT);
}

#[test]
fn demand_does_not_fall() {
    let mut state = MeterState::default();
    state.virtual_time = DateTime::with_ymd_and_hms(2025, 1, 1, 0, 0, 0).unwrap();
    state.active_power_total = 8 * UNIT;
    let (mut window, mut last) = (Vec::new(), None);
    update_max_demand(&mut window, &mut last, &mut state);
    let high = state.get_demand(0, 0, EnergyType::ForwardActive, None).value;
    state.virtual_time = DateTime::with_ymd_and_hms(2025, 1, 1, 0, 5, 0).unwrap();
    state.active_power_total = UNIT;
    update_max_demand(&mut window, &mut last, &mut state);
    let later = state.get_demand(0, 0, EnergyType::ForwardActive, None).value;
    assert!(high > 0 && later >= high);
    assert_eq!(window.len(), 2);
}

#[test]
fn rates_follow_the_time_of_day() {
    let state = MeterState::default();
    let at = |hour: u32| {
        let time = DateTime::with_ymd_and_hms(2025, 1, 1, hour, 0, 0).unwrap();
        state.tou_config.day_table_1.get_rate_at_time(&time)
    };
    let first = &state.tou_config.day_table_1.slots[0];
    assert_eq!(at(first.start_hour as u32), first.rate_number);
    let last = state.tou_config.day_table_1.slots.last().unwrap();
    assert_eq!(at(23), last.rate_number);
}

#[test]
fn measured_values_stay_near_the_rated_ones() {
    let model = steady();
    for _ in 0..50 {
        let mut state = MeterState::default();
        state.rated_voltage = 220_000;
        state.rated_frequency = 50;
        measure(&mut state, &model, &Noise::draw());
        for v in [state.voltage_a, state.voltage_b, state.voltage_c] {
            assert!((v - 220 * UNIT).abs() <= model.voltage_noise_v);
        }
        assert!((state.frequency - 50 * UNIT).abs() <= model.frequency_noise_hz);
        assert!(model.power_factor_min <= state.power_factor);
        assert!(state.power_factor <= model.power_factor_max);
    }
}
