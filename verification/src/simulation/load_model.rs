//! The load that a meter is simulated under.

use crate::quantity::Quantity;
use crate::time::DateTime;
use vstd::prelude::*;

verus! {

/// How the load changes over the day.
#[derive(Debug, Clone, Copy, PartialEq, Eq, Structural)]
pub enum LoadProfile {
    Residential,
    Industrial,
    Commercial,
    /// A constant share of the rated current, 0 to 1
    Fixed(Quantity),
}

/// The share of the rated current that flows in an hour of the day.
pub open spec fn load_factor(profile: LoadProfile, hour: u32) -> Quantity {
    match profile {
        LoadProfile::Fixed(factor) => factor,
        LoadProfile::Residential => if hour <= 5 {
            200_000_000
        } else if hour <= 8 {
            700_000_000
        } else if hour <= 16 {
            400_000_000
        } else if hour <= 21 {
            1_000_000_000
        } else {
            300_000_000
        },
        LoadProfile::Industrial => if hour <= 5 {
            300_000_000
        } else if hour <= 7 {
            600_000_000
        } else if hour <= 17 {
            1_000_000_000
        } else if hour <= 21 {
            700_000_000
        } else if hour <= 23 {
            400_000_000
        } else {
            300_000_000
        },
        LoadProfile::Commercial => if hour <= 7 {
            100_000_000
        } else if hour <= 11 {
            800_000_000
        } else if hour <= 13 {
            1_000_000_000
        } else if hour <= 17 {
            700_000_000
        } else if hour <= 20 {
            900_000_000
        } else if hour <= 23 {
            400_000_000
        } else {
            100_000_000
        },
    }
}

impl LoadProfile {
    /// The share of the rated current that flows in an hour of the day.
    pub fn get_load_factor(&self, hour: u32) -> (r: Quantity)
        ensures
            r == load_factor(*self, hour),
    {
        match self {
            LoadProfile::Fixed(factor) => *factor,
            LoadProfile::Residential => if hour <= 5 {
                200_000_000
            } else if hour <= 8 {
                700_000_000
            } else if hour <= 16 {
                400_000_000
            } else if hour <= 21 {
                1_000_000_000
            } else {
                300_000_000
            },
            LoadProfile::Industrial => if hour <= 5 {
                300_000_000
            } else if hour <= 7 {
                600_000_000
            } else if hour <= 17 {
                1_000_000_000
            } else if hour <= 21 {
                700_000_000
            } else if hour <= 23 {
                400_000_000
            } else {
                300_000_000
            },
            LoadProfile::Commercial => if hour <= 7 {
                100_000_000
            } else if hour <= 11 {
                800_000_000
            } else if hour <= 13 {
                1_000_000_000
            } else if hour <= 17 {
                700_000_000
            } else if hour <= 20 {
                900_000_000
            } else if hour <= 23 {
                400_000_000
            } else {
                100_000_000
            },
        }
    }
}

/// The profile and how far the measured values stray from the rated ones.
#[derive(Debug, Clone, Copy, PartialEq, Eq)]
pub struct LoadModelConfig {
    pub profile: LoadProfile,
    pub voltage_noise_v: Quantity,
    pub frequency_noise_hz: Quantity,
    pub power_factor_noise: Quantity,
    pub power_factor_min: Quantity,
    pub power_factor_max: Quantity,
    pub phase_current_factors: [Quantity; 3],
}

impl LoadModelConfig {
    /// A household with small fluctuations.
    pub open spec fn is_default(self) -> bool {
        &&& self.profile == LoadProfile::Residential
        &&& self.voltage_noise_v == 2_000_000_000
        &&& self.frequency_noise_hz == 50_000_000
        &&& self.power_factor_noise == 2_000_000
        &&& self.power_factor_min == 850_000_000
        &&& self.power_factor_max == 990_000_000
        &&& self.phase_current_factors@ == seq![1_000_000_000i64, 980_000_000, 1_020_000_000]
    }

    /// The share of the rated current that flows at `time`.
    pub fn get_load_factor(&self, time: &DateTime) -> (r: Quantity)
        ensures
            r == load_factor(self.profile, time.cal().hour),
    {
        self.profile.get_load_factor(time.hour())
    }
}

impl Default for LoadModelConfig {
    fn default() -> (r: LoadModelConfig)
        ensures
            r.is_default(),
    {
        let r = LoadModelConfig {
            profile: LoadProfile::Residential,
            voltage_noise_v: 2_000_000_000,
            frequency_noise_hz: 50_000_000,
            power_factor_noise: 2_000_000,
            power_factor_min: 850_000_000,
            power_factor_max: 990_000_000,
            phase_current_factors: [1_000_000_000, 980_000_000, 1_020_000_000],
        };
        assert(r.phase_current_factors@ =~= seq![1_000_000_000i64, 980_000_000, 1_020_000_000]);
        r
    }
}

/// What the physics of a meter is set up with.
#[derive(Debug, Clone, Copy, PartialEq, Eq)]
pub struct PhysicsConfig {
    pub load_model: LoadModelConfig,
}

impl Default for PhysicsConfig {
    fn default() -> (r: PhysicsConfig)
        ensures
            r.load_model.is_default(),
    {
        PhysicsConfig { load_model: LoadModelConfig::default() }
    }
}

/// Everything that the simulation of a meter is set up with.
#[derive(Debug, Clone, Copy, PartialEq, Eq)]
pub struct SimulationConfig {
    pub load_model: LoadModelConfig,
    /// V
    pub rated_voltage: Quantity,
    /// A
    pub rated_current: Quantity,
    /// Hz
    pub rated_frequency: Quantity,
    pub power_factor: Quantity,
    /// pulses per kWh
    pub meter_constant: u32,
    pub demand_period_minutes: u16,
    pub time_scale: Quantity,
}

/// Why a configuration is refused: the first rule that it breaks.
#[derive(Debug, Clone, Copy, PartialEq, Eq, Structural)]
pub enum ConfigError {
    /// rated voltage must be 100 to 1000 V
    RatedVoltage,
    /// rated current must be 0.1 to 10000 A
    RatedCurrent,
    /// rated frequency must be 45 to 65 Hz
    RatedFrequency,
    /// power factor must be 0 to 1
    PowerFactor,
    /// meter constant must be positive
    MeterConstant,
    /// demand period must be 1 to 120 minutes
    DemandPeriod,
    /// time scale must be 0.01 to 10000
    TimeScale,
    /// noise values cannot be negative
    Noise,
    /// phase factors must be 0 to 3
    PhaseFactors,
    /// power factor range must satisfy 0 <= min <= max <= 1
    PowerFactorRange,
    /// fixed load factor must be 0 to 1
    FixedFactor,
    /// voltage, current and power factor of a load model must be 100 to 1000 V, 0 to
    /// 10000 A and 0 to 1
    LoadModel,
}

pub open spec fn within(v: Quantity, low: int, high: int) -> bool {
    low <= v <= high
}

/// The first rule that a configuration breaks, if any.
pub open spec fn config_error(c: SimulationConfig) -> Option<ConfigError> {
    let m = c.load_model;
    if !within(c.rated_voltage, 100_000_000_000, 1_000_000_000_000) {
        Some(ConfigError::RatedVoltage)
    } else if !within(c.rated_current, 100_000_000, 10_000_000_000_000) {
        Some(ConfigError::RatedCurrent)
    } else if !within(c.rated_frequency, 45_000_000_000, 65_000_000_000) {
        Some(ConfigError::RatedFrequency)
    } else if !within(c.power_factor, 0, 1_000_000_000) {
        Some(ConfigError::PowerFactor)
    } else if c.meter_constant == 0 {
        Some(ConfigError::MeterConstant)
    } else if !(1 <= c.demand_period_minutes <= 120) {
        Some(ConfigError::DemandPeriod)
    } else if !within(c.time_scale, 10_000_000, 10_000_000_000_000) {
        Some(ConfigError::TimeScale)
    } else if m.voltage_noise_v < 0 || m.frequency_noise_hz < 0 || m.power_factor_noise < 0 {
        Some(ConfigError::Noise)
    } else if !(within(m.phase_current_factors@[0], 0, 3_000_000_000) && within(
        m.phase_current_factors@[1],
        0,
        3_000_000_000,
    ) && within(m.phase_current_factors@[2], 0, 3_000_000_000)) {
        Some(ConfigError::PhaseFactors)
    } else if !(0 <= m.power_factor_min <= m.power_factor_max <= 1_000_000_000) {
        Some(ConfigError::PowerFactorRange)
    } else if m.profile matches LoadProfile::Fixed(f) && !within(f, 0, 1_000_000_000) {
        Some(ConfigError::FixedFactor)
    } else {
        None
    }
}

fn in_range(v: Quantity, low: Quantity, high: Quantity) -> (r: bool)
    ensures
        r == within(v, low as int, high as int),
{
    low <= v && v <= high
}

impl SimulationConfig {
    /// Checks the configuration against its rules, in the order of `ConfigError`.
    pub fn validate(&self) -> (r: Result<(), ConfigError>)
        ensures
            r is Ok <==> config_error(*self) is None,
            r matches Err(e) ==> config_error(*self) == Some(e),
    {
        let m = &self.load_model;
        if !in_range(self.rated_voltage, 100_000_000_000, 1_000_000_000_000) {
            return Err(ConfigError::RatedVoltage);
        }
        if !in_range(self.rated_current, 100_000_000, 10_000_000_000_000) {
            return Err(ConfigError::RatedCurrent);
        }
        if !in_range(self.rated_frequency, 45_000_000_000, 65_000_000_000) {
            return Err(ConfigError::RatedFrequency);
        }
        if !in_range(self.power_factor, 0, 1_000_000_000) {
            return Err(ConfigError::PowerFactor);
        }
        if self.meter_constant == 0 {
            return Err(ConfigError::MeterConstant);
        }
        if self.demand_period_minutes < 1 || self.demand_period_minutes > 120 {
            return Err(ConfigError::DemandPeriod);
        }
        if !in_range(self.time_scale, 10_000_000, 10_000_000_000_000) {
            return Err(ConfigError::TimeScale);
        }
        if m.voltage_noise_v < 0 || m.frequency_noise_hz < 0 || m.power_factor_noise < 0 {
            return Err(ConfigError::Noise);
        }
        if !(in_range(m.phase_current_factors[0], 0, 3_000_000_000) && in_range(
            m.phase_current_factors[1],
            0,
            3_000_000_000,
        ) && in_range(m.phase_current_factors[2], 0, 3_000_000_000)) {
            return Err(ConfigError::PhaseFactors);
        }
        if !(0 <= m.power_factor_min && m.power_factor_min <= m.power_factor_max
            && m.power_factor_max <= 1_000_000_000) {
            return Err(ConfigError::PowerFactorRange);
        }
        match m.profile {
            LoadProfile::Fixed(f) => if in_range(f, 0, 1_000_000_000) {
                Ok(())
            } else {
                Err(ConfigError::FixedFactor)
            },
            _ => Ok(()),
        }
    }
}

impl Default for SimulationConfig {
    fn default() -> (r: SimulationConfig)
        ensures
            r.load_model.is_default(),
            r.rated_voltage == 220_000_000_000,
            r.rated_current == 60_000_000_000,
            r.rated_frequency == 50_000_000_000,
            r.power_factor == 950_000_000,
            r.meter_constant == 1600,
            r.demand_period_minutes == 15,
            r.time_scale == 1_000_000_000,
    {
        SimulationConfig {
            load_model: LoadModelConfig::default(),
            rated_voltage: 220_000_000_000,
            rated_current: 60_000_000_000,
            rated_frequency: 50_000_000_000,
            power_factor: 950_000_000,
            meter_constant: 1600,
            demand_period_minutes: 15,
            time_scale: 1_000_000_000,
        }
    }
}

/// The default configuration keeps all rules.
pub proof fn law_default_config_is_valid(c: SimulationConfig)
    requires
        c.load_model.is_default(),
        c.rated_voltage == 220_000_000_000,
        c.rated_current == 60_000_000_000,
        c.rated_frequency == 50_000_000_000,
        c.power_factor == 950_000_000,
        c.meter_constant == 1600,
        c.demand_period_minutes == 15,
        c.time_scale == 1_000_000_000,
    ensures
        config_error(c) is None,
{
}

} // verus!
