use meter_core::persistence::types::PersistRequest;
use meter_core::simulation::freeze::{FreezeTrigger, FreezeType};
use meter_core::simulation::load_model::{
    ConfigError, LoadModelConfig, LoadProfile, SimulationConfig,
};
use meter_core::simulation::virtual_meter::{
    address_to_string, string_to_address, VirtualMeter, VirtualMeterConfig,
};
use meter_core::{create_default_meter, create_meter};

const UNIT: i64 = 1_000_000_000;
const SECOND: u64 = 1_000_000_000;

fn steady(factor: i64, current: i64, time_scale: i64) -> SimulationConfig {
    SimulationConfig {
        load_model: LoadModelConfig {
            profile: LoadProfile::Fixed(factor),
            voltage_noise_v: 0,
            frequency_noise_hz: 0,
            power_factor_noise: 0,
            power_factor_min: 0,
            power_factor_max: UNIT,
            phase_current_factors: [UNIT, UNIT, UNIT],
        },
        rated_voltage: 230 * UNIT,
        rated_current: current,
        rated_frequency: 50 * UNIT,
        power_factor: 900_000_000,
        meter_constant: 800,
        demand_period_minutes: 10,
        time_scale,
    }
}

#[test]
fn test_virtual_meter_basic() {
    let meter = VirtualMeter::default();

    let di = [0x00, 0x01, 0x01, 0x02];
    let result = meter.handle_read_command(di);
    assert!(result.is_ok());

    let data = result.unwrap();
    assert_eq!(data.len(), 2);
}

#[test]
fn test_address_conversion() {
    let address = [0x12, 0x90, 0x78, 0x56, 0x34, 0x12];
    let s = address_to_string(&address);
    assert_eq!(s, "123456789012");

    let addr2 = string_to_address("123456789012").unwrap();
    assert_eq!(addr2, address);
}

#[test]
fn simulation_configuration_controls_state_and_calculation() {
    let mut meter = VirtualMeter::default();
    let config = steady(500_000_000, 20 * UNIT, 4 * UNIT);
    meter.apply_simulation_config(config).unwrap();
    meter.tick(SECOND, config.time_scale, 0, 0);
    assert_eq!(meter.state().rated_voltage, 230_000);
    assert_eq!(meter.state().rated_current, 20_000);
    assert_eq!(meter.state().voltage_a, 230 * UNIT);
    assert_eq!(meter.state().current_a, 10 * UNIT);
    assert!((meter.state().active_power_total - 6_210_000_000).abs() < 1_000_000);
    assert!(matches!(
        meter.simulation_config().load_model.profile,
        LoadProfile::Fixed(500_000_000)
    ));
}

#[test]
fn invalid_simulation_configuration_does_not_modify_meter_state() {
    let mut meter = VirtualMeter::default();
    let before = meter.simulation_config();
    let mut invalid = before;
    invalid.rated_voltage = 10 * UNIT;

    assert!(meter.apply_simulation_config(invalid).is_err());

    let after = meter.simulation_config();
    assert_eq!(after.rated_voltage, before.rated_voltage);
    assert_eq!(after.rated_current, before.rated_current);
    assert_eq!(after.time_scale, before.time_scale);
}

#[test]
fn each_broken_rule_is_named() {
    let good = steady(500_000_000, 20 * UNIT, UNIT);
    assert!(good.validate().is_ok());
    let broken = |change: fn(&mut SimulationConfig)| {
        let mut c = good;
        change(&mut c);
        c.validate().unwrap_err()
    };
    assert_eq!(broken(|c| c.rated_voltage = 99 * UNIT), ConfigError::RatedVoltage);
    assert_eq!(broken(|c| c.rated_current = 0), ConfigError::RatedCurrent);
    assert_eq!(broken(|c| c.rated_frequency = 70 * UNIT), ConfigError::RatedFrequency);
    assert_eq!(broken(|c| c.power_factor = 2 * UNIT), ConfigError::PowerFactor);
    assert_eq!(broken(|c| c.meter_constant = 0), ConfigError::MeterConstant);
    assert_eq!(broken(|c| c.demand_period_minutes = 0), ConfigError::DemandPeriod);
    assert_eq!(broken(|c| c.time_scale = 0), ConfigError::TimeScale);
    assert_eq!(broken(|c| c.load_model.voltage_noise_v = -1), ConfigError::Noise);
    assert_eq!(
        broken(|c| c.load_model.phase_current_factors = [4 * UNIT, 0, 0]),
        ConfigError::PhaseFactors
    );
    assert_eq!(
        broken(|c| c.load_model.power_factor_min = 2 * UNIT),
        ConfigError::PowerFactorRange
    );
    assert_eq!(
        broken(|c| c.load_model.profile = LoadProfile::Fixed(2 * UNIT)),
        ConfigError::FixedFactor
    );
    let mut meter = VirtualMeter::default();
    assert_eq!(meter.set_load_model(0, 0, 0).unwrap_err(), ConfigError::LoadModel);
}

#[test]
fn a_configuration_is_kept() {
    let mut meter = VirtualMeter::default();
    let config = steady(300_000_000, 12_345_000_000, 2 * UNIT);
    meter.apply_simulation_config(config).unwrap();
    assert_eq!(meter.simulation_config(), config);
}

#[test]
fn meters_are_made_from_an_address() {
    let meter = create_meter("123456789012", LoadProfile::Industrial).unwrap();
    assert_eq!(meter.address(), [0x12, 0x90, 0x78, 0x56, 0x34, 0x12]);
    assert_eq!(meter.load_model_config().profile, LoadProfile::Industrial);
    assert!(create_meter("12", LoadProfile::Industrial).is_err());
    assert_eq!(create_default_meter().address(), [0x12, 0x34, 0x56, 0x78, 0x90, 0x12]);
}

#[test]
fn registers_are_stored_when_it_is_time() {
    let mut meter = VirtualMeter::with_persistence(VirtualMeterConfig::default());
    assert!(meter.check_energy_flush(299, 5).is_none());
    let requests = meter.check_energy_flush(300, 5).unwrap();
    assert_eq!(requests.len(), 2);
    let mut silent = VirtualMeter::new(VirtualMeterConfig::default());
    assert!(silent.check_energy_flush(300, 5).is_none());
    assert!(silent.force_flush_energy(0).is_empty());
}

#[test]
fn a_pending_freeze_is_taken_and_stored() {
    let mut meter = VirtualMeter::with_persistence(VirtualMeterConfig::default());
    meter.state_mut().pending_freeze_triggers.push(FreezeType::Daily);
    meter.state_mut().pending_freeze_triggers.push(FreezeType::Instant(1));
    let requests = meter.process_pending_freeze();
    assert_eq!(requests.len(), 2);
    assert!(meter.state().pending_freeze_triggers.is_empty());
    assert!(meter.state().get_freeze_snapshot(FreezeTrigger::Daily, 1).is_some());
    assert!(meter.state().get_freeze_snapshot(FreezeTrigger::Instant, 1).is_some());
}

#[test]
fn the_present_load_model_is_stored_with_the_clock() {
    let mut meter = VirtualMeter::with_persistence(VirtualMeterConfig::default());
    let config = steady(730_000_000, 5 * UNIT, UNIT);
    meter.apply_simulation_config(config).unwrap();
    meter.set_load_profile(LoadProfile::Commercial);
    let stored = meter.force_flush_energy(7).into_iter().find_map(|request| match request {
        PersistRequest::SaveVirtualTime(row) => Some(row.simulation_config),
        _ => None,
    });
    let load_model = LoadModelConfig { profile: LoadProfile::Commercial, ..config.load_model };
    assert_eq!(stored, Some(SimulationConfig { load_model, ..config }));
}
