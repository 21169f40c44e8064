//! Rows of the store and requests to write them.

use crate::quantity::Quantity;
use crate::simulation::freeze::FreezeData;
use crate::simulation::load_model::SimulationConfig;
use crate::simulation::load_record::LoadRecordData;
use crate::time::DateTime;
use vstd::prelude::*;

verus! {

/// The settings of a meter as they were stored.
#[derive(Debug, Clone)]
pub struct PersistedMeterSettings {
    pub simulation: SimulationConfig,
    pub timed_freeze_mode: u8,
    pub instant_freeze_mode: u8,
    pub appointment_freeze_mode: u8,
    pub hourly_freeze_mode: u8,
    pub daily_freeze_mode: u8,
    pub daily_freeze_time: [u8; 2],
    pub hourly_freeze_start: [u8; 5],
    pub hourly_freeze_interval_min: u8,
    pub appointment_freeze_time: [u8; 5],
    pub settlement_days: [u8; 3],
    pub settlement_hours: [u8; 3],
    pub load_record_mode_word: u8,
    pub load_record_start_time: [u8; 4],
    pub load_record_intervals: [u16; 8],
    /// `None` if it was never stored
    pub baudrate: Option<u8>,
    /// `None` if they were never stored
    pub passwords: Option<[[u8; 4]; 10]>,
    /// `None` if they were never stored
    pub tou_time_slots: Option<Vec<(u8, u8, u8)>>,
}

/// A stored clock and the real time at which it was stored, if that is known.
#[derive(Debug, Clone, Copy, PartialEq, Eq, Structural)]
pub struct RestoredVirtualTime {
    pub virtual_time: DateTime,
    pub synced_at_ms: Option<i64>,
}

/// A snapshot as a row of the store.
#[derive(Debug, Clone)]
pub struct FreezeSnapshotRow {
    pub meter_address: String,
    /// identifier byte of the trigger
    pub trigger_type: u8,
    /// FFH for a whole snapshot
    pub category: u8,
    /// 1 for the newest
    pub occurrence_idx: u8,
    pub snapshot_time: DateTime,
    pub payload: FreezeData,
}

/// An event as a row of the store.
#[derive(Debug, Clone)]
pub struct EventRecordRow {
    pub meter_address: String,
    pub event_kind: u8,
    pub sub_kind: u8,
    pub occurrence_idx: u8,
    pub start_time: DateTime,
    pub end_time: Option<DateTime>,
    pub payload: Vec<u8>,
}

/// The energy registers that are stored together.
#[derive(Debug, Clone)]
pub struct EnergyRegisterRow {
    pub meter_address: String,
    pub timestamp: DateTime,
    pub combined_active_positive: Quantity,
    pub combined_active_negative: Quantity,
    pub combined_reactive_positive: Quantity,
    pub combined_reactive_negative: Quantity,
    pub rate1_active_positive: Quantity,
    pub rate2_active_positive: Quantity,
    pub rate3_active_positive: Quantity,
    pub rate4_active_positive: Quantity,
}

/// A maximum demand as a row of the store.
#[derive(Debug, Clone)]
pub struct MaxDemandRow {
    pub meter_address: String,
    pub demand_kind: u8,
    pub rate_index: u8,
    pub value_fp: i64,
    pub occurred_at: DateTime,
}

/// An energy of a settlement slot.
#[derive(Debug, Clone, Copy, PartialEq, Eq, Structural)]
pub struct SettlementEnergy {
    pub settlement_day: u8,
    pub energy_kind: u8,
    pub rate_index: u8,
    pub value: Quantity,
}

/// The energies of the settlement slots of a meter.
#[derive(Debug, Clone)]
pub struct SettlementEnergiesRow {
    pub meter_address: String,
    pub energies: Vec<SettlementEnergy>,
}

/// An energy of a settlement slot as it was read from the store.
#[derive(Debug, Clone, Copy, PartialEq, Eq, Structural)]
pub struct SettlementEnergyDbRow {
    pub settlement_day: u8,
    pub energy_kind: u8,
    pub rate_index: u8,
    pub value: Quantity,
    pub updated_at_ms: i64,
}

/// One value of a load record.
#[derive(Debug, Clone)]
pub struct LoadProfileSampleRow {
    pub meter_address: String,
    pub sample_time: DateTime,
    pub data_type: u8,
    pub channel: u8,
    pub value: Quantity,
}

/// A load record as a row of the store.
#[derive(Debug, Clone)]
pub struct LoadRecordRow {
    pub meter_address: String,
    /// 1 to 6
    pub class_id: u8,
    pub sample_time: DateTime,
    pub payload: LoadRecordData,
}

/// A clock and the configuration it ran under. The real time belongs to the moment at which
/// the clock was read.
#[derive(Debug)]
pub struct VirtualTimeRow {
    pub address: String,
    pub virtual_time: DateTime,
    pub synced_at_ms: i64,
    pub time_scale: Quantity,
    pub simulation_config: SimulationConfig,
}

/// Something to be stored.
#[derive(Debug)]
pub enum PersistRequest {
    WriteFreezeSnapshot(FreezeSnapshotRow),
    WriteEventRecord(EventRecordRow),
    WriteEnergyRegister(EnergyRegisterRow),
    UpdateMaxDemand(MaxDemandRow),
    WriteLoadRecord(LoadRecordRow),
    WriteSettlementEnergies(SettlementEnergiesRow),
    SaveVirtualTime(VirtualTimeRow),
}

} // verus!
