//! Messages between meters and what surrounds them.

use crate::quantity::Quantity;
use crate::simulation::load_model::SimulationConfig;
use vstd::prelude::*;

verus! {

/// A command as the bytes of its frame.
#[derive(Debug, Clone)]
pub struct ProtocolCommand {
    pub frame: Vec<u8>,
}

/// A change that the register of meters has to follow.
#[derive(Debug, Clone, Copy, PartialEq, Eq)]
pub enum RegistryMsg {
    UpdateAddress { old: [u8; 6], new: [u8; 6] },
}

/// A command that acts on a meter directly, past the access rules of the protocol.
#[derive(Debug, Clone)]
pub enum AdminCommand {
    GetSnapshot,
    SetVirtualTime { year: u16, month: u8, day: u8, hour: u8, minute: u8, second: u8 },
    /// Kinds are 1 forward active, 2 reverse active, 3 forward reactive, 4 reverse reactive.
    SetEnergy { energy_type: u8, rate: Option<u8>, value: Quantity },
    SetLoadModel { voltage: Quantity, current: Quantity, power_factor: Quantity },
    ApplySimulationConfig { config: SimulationConfig },
    /// Kinds are 0 timed and 1 instant.
    TriggerFreeze { freeze_type: u8 },
    ChangePassword { level: u8, new_password: [u8; 4] },
    SetBaudrate { baudrate: u8 },
    ClearMaxDemand,
    ClearMeter,
    /// Start hour, start minute and rate of each slot.
    SetTouConfig { time_slots: Vec<(u8, u8, u8)> },
    ApplyFreezeConfig {
        timed_mode: u8,
        instant_mode: u8,
        appointment_mode: u8,
        hourly_mode: u8,
        daily_mode: u8,
        daily_time: [u8; 2],
        hourly_start: [u8; 5],
        hourly_interval_min: u8,
        appointment_time: [u8; 5],
    },
    /// A day of 0 stands for no settlement.
    ApplySettlementDays { days: [u8; 3], hours: [u8; 3] },
    ApplyLoadRecordConfig { mode_word: u8, start_time: [u8; 4], intervals: [u16; 6] },
    /// Faults of one phase are 01 to 04, 0B and 0C, with phase 1 to 3. Faults of the whole
    /// meter are 05 to 0A and 0F, records 30 to 32, with phase 0.
    InjectFault { event_type: u8, phase: u8, active: bool },
    ForceFlushEnergy,
    GetAddress,
    Shutdown,
    SaveState,
    LoadFreezeHistory,
    LoadLoadProfileHistory { max_records: u32 },
}

/// A step of the common clock.
#[derive(Debug, Clone, Copy, PartialEq, Eq, Structural)]
pub struct TickMsg {
    /// real time since the last step, in nanoseconds
    pub wall_elapsed_nanos: u64,
    /// simulated time per real time
    pub time_scale: Quantity,
}

} // verus!
