//! Commands of the administration.

use crate::actor::messages::AdminCommand;
use crate::persistence::types::{PersistRequest, PersistedMeterSettings};
use crate::protocol::format::{address_text, format_address};
use crate::quantity::{scaled, Quantity};
use crate::simulation::commands::{is_baud_code, valid_baud_code};
use crate::simulation::config::{FreezeConfig, LoadRecordConfig, PasswordConfig};
use crate::simulation::freeze::FreezeType;
use crate::simulation::load_model::{config_error, ConfigError, SimulationConfig};
use crate::simulation::physics_engine::EngineModel;
use crate::simulation::state::{
    demand_cleared, energy_key, rate_number, settled_demands, EnergyType, MeterState,
};
use crate::simulation::tariff::{TimeSlot, TimeSlotTable, TouConfig};
use crate::simulation::virtual_meter::{
    flush_requests, settled_down, with_config, MeterModel, VirtualMeter,
};
use crate::time::{Calendar, DateTime};
use vstd::prelude::*;

verus! {

/// Why a command of the administration is refused.
#[derive(Debug, Clone, Copy, PartialEq, Eq, Structural)]
pub enum AdminError {
    /// No such date or time of day.
    InvalidDateTime,
    /// Kinds of energy are 1 to 4.
    EnergyType,
    /// The simulation cannot run with these values.
    Config(ConfigError),
    /// Access levels are 0 to 9.
    PasswordLevel,
    /// There is no such baud rate.
    BaudCode,
    /// A day table has up to 14 slots.
    TooManySlots,
    /// Settlement days are 1 to 28, or 0 for none.
    SettlementDay,
    /// Settlement hours are 0 to 23.
    SettlementHour,
    /// A fault of one phase has phase 1 to 3.
    FaultPhase,
    /// A fault of the whole meter has phase 0.
    SystemPhase,
    /// There is no such fault.
    FaultType,
    /// Kinds of freezes are 0 and 1.
    FreezeKind,
    /// The registers are stored by the steps of the meter, not on demand.
    FlushOnDemand,
    /// The state is stored when the meter is shut down, not on demand.
    SaveOnDemand,
}

/// What a command of the administration is answered.
#[derive(Debug)]
pub enum AdminReply {
    /// The values of the meter are asked for.
    Snapshot,
    TimeSet { time: DateTime },
    EnergySet { energy_type: u8, rate: Option<u8>, value: Quantity },
    LoadModelSet { voltage: Quantity, current: Quantity, power_factor: Quantity },
    ConfigApplied,
    PasswordUpdated { level: u8 },
    BaudrateSet { baudrate: u8 },
    DemandCleared,
    MeterCleared,
    TouUpdated,
    FreezeConfigApplied,
    SettlementApplied,
    LoadRecordApplied,
    FaultInjected { event_type: u8, phase: u8, active: bool },
    FreezeTriggered { freeze_type: u8 },
    Address { text: String },
    /// The meter stops; the requests are to be stored.
    ShuttingDown { requests: Vec<PersistRequest> },
    /// The history of snapshots is asked for.
    FreezeHistory,
    /// The latest load records are asked for.
    LoadProfileHistory { max_records: u32 },
}

/// Settings that a command has changed and that are to be stored.
#[derive(Debug, Clone, Copy, PartialEq, Eq)]
pub enum ChangedSettings {
    Simulation { config: SimulationConfig },
    Freeze,
    SettlementDays,
    LoadRecord,
}

/// A fault of one phase: voltage loss, under- and overvoltage, phase loss, current loss and
/// overcurrent.
pub open spec fn is_phase_fault(event_type: u8) -> bool {
    1 <= event_type <= 4 || event_type == 0x0B || event_type == 0x0C
}

/// A fault or a record of the whole meter.
pub open spec fn is_system_fault(event_type: u8) -> bool {
    5 <= event_type <= 0x0A || event_type == 0x0F || 0x30 <= event_type <= 0x32
}

pub open spec fn load_model_allowed(voltage: Quantity, current: Quantity, power_factor: Quantity) -> bool {
    100_000_000_000 <= voltage <= 1_000_000_000_000 && 0 <= current <= 10_000_000_000_000 && 0
        <= power_factor <= 1_000_000_000
}

/// Why a command is refused.
pub open spec fn admin_error(cmd: AdminCommand) -> Option<AdminError> {
    match cmd {
        AdminCommand::SetVirtualTime { year, month, day, hour, minute, second } => if (Calendar {
            year: year as i32,
            month: month as u32,
            day: day as u32,
            hour: hour as u32,
            minute: minute as u32,
            second: second as u32,
        }).valid() {
            None
        } else {
            Some(AdminError::InvalidDateTime)
        },
        AdminCommand::SetEnergy { energy_type, .. } => if 1 <= energy_type <= 4 {
            None
        } else {
            Some(AdminError::EnergyType)
        },
        AdminCommand::SetLoadModel { voltage, current, power_factor } => if load_model_allowed(
            voltage,
            current,
            power_factor,
        ) {
            None
        } else {
            Some(AdminError::Config(ConfigError::LoadModel))
        },
        AdminCommand::ApplySimulationConfig { config } => match config_error(config) {
            Some(e) => Some(AdminError::Config(e)),
            None => None,
        },
        AdminCommand::ChangePassword { level, .. } => if level <= 9 {
            None
        } else {
            Some(AdminError::PasswordLevel)
        },
        AdminCommand::SetBaudrate { baudrate } => if is_baud_code(baudrate) {
            None
        } else {
            Some(AdminError::BaudCode)
        },
        AdminCommand::SetTouConfig { time_slots } => if time_slots@.len() <= 14 {
            None
        } else {
            Some(AdminError::TooManySlots)
        },
        AdminCommand::ApplySettlementDays { days, hours } => if exists|i: int|
            0 <= i < 3 && #[trigger] days@[i] > 28 {
            Some(AdminError::SettlementDay)
        } else if exists|i: int| 0 <= i < 3 && #[trigger] hours@[i] > 23 {
            Some(AdminError::SettlementHour)
        } else {
            None
        },
        AdminCommand::InjectFault { event_type, phase, .. } => if is_phase_fault(event_type) {
            if 1 <= phase <= 3 {
                None
            } else {
                Some(AdminError::FaultPhase)
            }
        } else if is_system_fault(event_type) {
            if phase == 0 {
                None
            } else {
                Some(AdminError::SystemPhase)
            }
        } else {
            Some(AdminError::FaultType)
        },
        AdminCommand::TriggerFreeze { freeze_type } => if freeze_type <= 1 {
            None
        } else {
            Some(AdminError::FreezeKind)
        },
        AdminCommand::ForceFlushEnergy => Some(AdminError::FlushOnDemand),
        AdminCommand::SaveState => Some(AdminError::SaveOnDemand),
        _ => None,
    }
}

/// The kind of energy with a number of 1 to 4.
pub open spec fn energy_kind(energy_type: u8) -> EnergyType {
    if energy_type == 1 {
        EnergyType::ForwardActive
    } else if energy_type == 2 {
        EnergyType::ReverseActive
    } else if energy_type == 3 {
        EnergyType::ForwardReactive
    } else {
        EnergyType::ReverseReactive
    }
}

/// A slot from its start hour, start minute and rate.
pub open spec fn slot_of(t: (u8, u8, u8)) -> TimeSlot {
    TimeSlot { start_hour: t.0, start_minute: t.1, rate_number: t.2 }
}

/// The password of one access level has been set.
pub open spec fn password_set(p0: PasswordConfig, p1: PasswordConfig, level: u8, bytes: Seq<u8>) -> bool {
    &&& p1.passwords@ == p0.passwords@.update(level as int, p1.passwords@[level as int])
    &&& p1.passwords@[level as int]@ == seq![level] + bytes
}

/// What an accepted command does to the state. Commands that only ask leave it as it is.
pub open spec fn administered(s0: MeterState, s1: MeterState, cmd: AdminCommand, now: DateTime) -> bool {
    match cmd {
        AdminCommand::SetVirtualTime { year, month, day, hour, minute, second } => {
            &&& s1 == (MeterState { virtual_time: s1.virtual_time, ..s0 })
            &&& s1.virtual_time.subsec_nanos() == 0
            &&& s1.virtual_time.cal() == (Calendar {
                year: year as i32,
                month: month as u32,
                day: day as u32,
                hour: hour as u32,
                minute: minute as u32,
                second: second as u32,
            })
        },
        AdminCommand::SetEnergy { energy_type, rate, value } => {
            &&& s1 == (MeterState { energy_registers: s1.energy_registers, ..s0 })
            &&& s1.energy_registers@ == s0.energy_registers@.insert(
                energy_key(energy_kind(energy_type), rate_number(rate)),
                value,
            )
        },
        AdminCommand::SetLoadModel { voltage, current, power_factor } => s1 == (MeterState {
            rated_voltage: scaled(voltage, 3) as u32,
            rated_current: scaled(current, 3) as u32,
            power_factor,
            ..s0
        }),
        AdminCommand::ApplySimulationConfig { config } => s1 == with_config(s0, config),
        AdminCommand::ChangePassword { level, new_password } => {
            &&& s1 == (MeterState { password_config: s1.password_config, ..s0 })
            &&& password_set(
                s0.password_config,
                s1.password_config,
                level,
                new_password@.skip(1),
            )
        },
        AdminCommand::SetBaudrate { baudrate } => s1 == (MeterState { baudrate, ..s0 }),
        AdminCommand::ClearMaxDemand => demand_cleared(s0, s1, now),
        AdminCommand::ClearMeter => {
            &&& s1.energy_registers@ == Map::<u32, Quantity>::empty()
            &&& s1.demand_registers@ == settled_demands(s0.demand_registers@)
            &&& s1 == (MeterState {
                energy_registers: s1.energy_registers,
                demand_registers: s1.demand_registers,
                max_demand: 0,
                max_demand_time: now,
                ..s0
            })
        },
        AdminCommand::SetTouConfig { time_slots } => {
            &&& s1.tou_config.day_table_1.slots@ == time_slots@.map_values(
                |t: (u8, u8, u8)| slot_of(t),
            )
            &&& s1 == (MeterState {
                tou_config: TouConfig {
                    day_table_1: s1.tou_config.day_table_1,
                    ..s0.tou_config
                },
                num_time_slots: time_slots@.len() as u8,
                ..s0
            })
        },
        AdminCommand::ApplyFreezeConfig {
            timed_mode,
            instant_mode,
            appointment_mode,
            hourly_mode,
            daily_mode,
            daily_time,
            hourly_start,
            hourly_interval_min,
            appointment_time,
        } => s1 == (MeterState {
            freeze_config: FreezeConfig {
                timed_freeze_mode: timed_mode,
                instant_freeze_mode: instant_mode,
                appointment_freeze_mode: appointment_mode,
            },
            hourly_freeze_mode: hourly_mode,
            daily_freeze_mode: daily_mode,
            daily_freeze_time: daily_time,
            hourly_freeze_start: hourly_start,
            hourly_freeze_interval_min: hourly_interval_min,
            appointment_freeze_time: appointment_time,
            appointment_freeze_fired: false,
            ..s0
        }),
        AdminCommand::ApplySettlementDays { days, hours } => s1 == (MeterState {
            settlement_days: days,
            settlement_hours: hours,
            ..s0
        }),
        AdminCommand::ApplyLoadRecordConfig { mode_word, start_time, intervals } => {
            &&& s1.load_record_config.intervals@ == intervals@
                + s0.load_record_config.intervals@.skip(6)
            &&& s1 == (MeterState {
                load_record_config: LoadRecordConfig {
                    mode_word,
                    intervals: s1.load_record_config.intervals,
                },
                load_record_start_time: start_time,
                ..s0
            })
        },
        AdminCommand::TriggerFreeze { freeze_type } => {
            &&& s1.pending_freeze_triggers@ == s0.pending_freeze_triggers@.push(
                if freeze_type == 0 {
                    FreezeType::Timed
                } else {
                    FreezeType::Instant(0)
                },
            )
            &&& s1 == (MeterState { pending_freeze_triggers: s1.pending_freeze_triggers, ..s0 })
        },
        _ => s1 == s0,
    }
}

/// What an accepted command does to the simulation.
pub open spec fn engine_administered(e0: EngineModel, e1: EngineModel, cmd: AdminCommand) -> bool {
    match cmd {
        AdminCommand::ApplySimulationConfig { config } => e1 == (EngineModel {
            load_model: config.load_model,
            ..e0
        }),
        AdminCommand::InjectFault { event_type, phase, active } => {
            &&& e1 == (EngineModel { forced: e1.forced, ..e0 })
            &&& forall|k: (u8, u8)| #[trigger]
                e1.forced.contains(k) <==> (if k == (event_type, phase) {
                    active
                } else {
                    e0.forced.contains(k)
                })
        },
        _ => e1 == e0,
    }
}

/// What an accepted command is answered.
pub open spec fn admin_answered(
    m0: MeterModel,
    m1: MeterModel,
    cmd: AdminCommand,
    now: DateTime,
    reply: AdminReply,
) -> bool {
    match cmd {
        AdminCommand::GetSnapshot => reply is Snapshot,
        AdminCommand::SetVirtualTime { .. } => reply == (AdminReply::TimeSet {
            time: m1.state.virtual_time,
        }),
        AdminCommand::SetEnergy { energy_type, rate, value } => reply == (AdminReply::EnergySet {
            energy_type,
            rate,
            value,
        }),
        AdminCommand::SetLoadModel { voltage, current, power_factor } => reply == (
        AdminReply::LoadModelSet { voltage, current, power_factor }),
        AdminCommand::ApplySimulationConfig { .. } => reply is ConfigApplied,
        AdminCommand::ChangePassword { level, .. } => reply == (AdminReply::PasswordUpdated {
            level,
        }),
        AdminCommand::SetBaudrate { baudrate } => reply == (AdminReply::BaudrateSet { baudrate }),
        AdminCommand::ClearMaxDemand => reply is DemandCleared,
        AdminCommand::ClearMeter => reply is MeterCleared,
        AdminCommand::SetTouConfig { .. } => reply is TouUpdated,
        AdminCommand::ApplyFreezeConfig { .. } => reply is FreezeConfigApplied,
        AdminCommand::ApplySettlementDays { .. } => reply is SettlementApplied,
        AdminCommand::ApplyLoadRecordConfig { .. } => reply is LoadRecordApplied,
        AdminCommand::InjectFault { event_type, phase, active } => reply == (
        AdminReply::FaultInjected { event_type, phase, active }),
        AdminCommand::TriggerFreeze { freeze_type } => reply == (AdminReply::FreezeTriggered {
            freeze_type,
        }),
        AdminCommand::GetAddress => reply matches AdminReply::Address { text } && text@
            == address_text(m0.state.address@),
        AdminCommand::Shutdown => reply matches AdminReply::ShuttingDown { requests } && (
        if m0.persistent {
            flush_requests(requests@, m0, (now.total_nanos() / 1_000_000) as i64)
        } else {
            requests@.len() == 0
        }),
        AdminCommand::LoadFreezeHistory => reply is FreezeHistory,
        AdminCommand::LoadLoadProfileHistory { max_records } => reply == (
        AdminReply::LoadProfileHistory { max_records }),
        AdminCommand::ForceFlushEnergy => false,
        AdminCommand::SaveState => false,
    }
}

/// What a command of the administration comes to. A refused one changes nothing.
pub open spec fn admin_done(
    m0: MeterModel,
    m1: MeterModel,
    cmd: AdminCommand,
    now: DateTime,
    r: Result<AdminReply, AdminError>,
) -> bool {
    match r {
        Err(e) => admin_error(cmd) == Some(e) && m1 == m0,
        Ok(reply) => {
            &&& admin_error(cmd) is None
            &&& administered(m0.state, m1.state, cmd, now)
            &&& engine_administered(m0.engine, m1.engine, cmd)
            &&& m1 == (MeterModel { state: m1.state, engine: m1.engine, ..m0 })
            &&& admin_answered(m0, m1, cmd, now, reply)
        },
    }
}

/// The settings that an accepted command changes and that are to be stored.
pub open spec fn changed_settings(cmd: AdminCommand) -> Option<ChangedSettings> {
    match cmd {
        AdminCommand::ApplySimulationConfig { config } => Some(
            ChangedSettings::Simulation { config },
        ),
        AdminCommand::ApplyFreezeConfig { .. } => Some(ChangedSettings::Freeze),
        AdminCommand::ApplySettlementDays { .. } => Some(ChangedSettings::SettlementDays),
        AdminCommand::ApplyLoadRecordConfig { .. } => Some(ChangedSettings::LoadRecord),
        _ => None,
    }
}

impl AdminCommand {
    /// The settings to store when the command is accepted.
    pub fn settings_to_store(&self) -> (r: Option<ChangedSettings>)
        ensures
            r == changed_settings(*self),
    {
        match self {
            AdminCommand::ApplySimulationConfig { config } => Some(
                ChangedSettings::Simulation { config: *config },
            ),
            AdminCommand::ApplyFreezeConfig { .. } => Some(ChangedSettings::Freeze),
            AdminCommand::ApplySettlementDays { .. } => Some(ChangedSettings::SettlementDays),
            AdminCommand::ApplyLoadRecordConfig { .. } => Some(ChangedSettings::LoadRecord),
            _ => None,
        }
    }
}

fn any_above(values: &[u8; 3], limit: u8) -> (r: bool)
    ensures
        r == exists|i: int| 0 <= i < 3 && #[trigger] values@[i] > limit,
{
    assert(values@[0] > limit || values@[1] > limit || values@[2] > limit <==> exists|i: int|
        0 <= i < 3 && #[trigger] values@[i] > limit);
    values[0] > limit || values[1] > limit || values[2] > limit
}

fn slots_of(time_slots: &Vec<(u8, u8, u8)>) -> (r: Vec<TimeSlot>)
    ensures
        r@ == time_slots@.map_values(|t: (u8, u8, u8)| slot_of(t)),
{
    let mut out: Vec<TimeSlot> = Vec::new();
    for i in 0..time_slots.len()
        invariant
            out@.len() == i,
            forall|j: int| 0 <= j < i ==> #[trigger] out@[j] == slot_of(time_slots@[j]),
    {
        let slot: (u8, u8, u8) = time_slots[i];
        out.push(TimeSlot { start_hour: slot.0, start_minute: slot.1, rate_number: slot.2 });
    }
    assert(out@ =~= time_slots@.map_values(|t: (u8, u8, u8)| slot_of(t)));
    out
}

/// Carries out a command of the administration at time `now`.
pub fn administer(meter: &mut VirtualMeter, cmd: AdminCommand, now: DateTime) -> (r: Result<
    AdminReply,
    AdminError,
>)
    ensures
        old(meter).wf() ==> final(meter).wf(),
        admin_done(old(meter)@, final(meter)@, cmd, now, r),
{
    match cmd {
        AdminCommand::GetSnapshot => Ok(AdminReply::Snapshot),
        AdminCommand::SetVirtualTime { year, month, day, hour, minute, second } => {
            match DateTime::with_ymd_and_hms(
                year as i32,
                month as u32,
                day as u32,
                hour as u32,
                minute as u32,
                second as u32,
            ) {
                Some(time) => {
                    meter.state_mut().virtual_time = time;
                    Ok(AdminReply::TimeSet { time })
                },
                None => Err(AdminError::InvalidDateTime),
            }
        },
        AdminCommand::SetEnergy { energy_type, rate, value } => {
            let kind: EnergyType = match energy_type {
                1 => EnergyType::ForwardActive,
                2 => EnergyType::ReverseActive,
                3 => EnergyType::ForwardReactive,
                4 => EnergyType::ReverseReactive,
                _ => {
                    return Err(AdminError::EnergyType);
                },
            };
            meter.state_mut().set_energy(kind, rate, value);
            Ok(AdminReply::EnergySet { energy_type, rate, value })
        },
        AdminCommand::SetLoadModel { voltage, current, power_factor } => {
            match meter.set_load_model(voltage, current, power_factor) {
                Ok(_) => Ok(AdminReply::LoadModelSet { voltage, current, power_factor }),
                Err(e) => Err(AdminError::Config(e)),
            }
        },
        AdminCommand::ApplySimulationConfig { config } => {
            match meter.apply_simulation_config(config) {
                Ok(_) => Ok(AdminReply::ConfigApplied),
                Err(e) => Err(AdminError::Config(e)),
            }
        },
        AdminCommand::ChangePassword { level, new_password } => {
            if level > 9 {
                return Err(AdminError::PasswordLevel);
            }
            let password: [u8; 3] = [new_password[1], new_password[2], new_password[3]];
            assert(password@ =~= new_password@.skip(1));
            meter.state_mut().password_config.set_password(level, &password);
            Ok(AdminReply::PasswordUpdated { level })
        },
        AdminCommand::SetBaudrate { baudrate } => {
            if !valid_baud_code(baudrate) {
                return Err(AdminError::BaudCode);
            }
            meter.state_mut().baudrate = baudrate;
            Ok(AdminReply::BaudrateSet { baudrate })
        },
        AdminCommand::ClearMaxDemand => {
            meter.state_mut().clear_demand(now);
            Ok(AdminReply::DemandCleared)
        },
        AdminCommand::ClearMeter => {
            let state = meter.state_mut();
            state.energy_registers.clear();
            state.clear_demand(now);
            Ok(AdminReply::MeterCleared)
        },
        AdminCommand::SetTouConfig { time_slots } => {
            if time_slots.len() > 14 {
                return Err(AdminError::TooManySlots);
            }
            let slots = slots_of(&time_slots);
            let state = meter.state_mut();
            state.num_time_slots = slots.len() as u8;
            state.tou_config.day_table_1 = TimeSlotTable { slots };
            Ok(AdminReply::TouUpdated)
        },
        AdminCommand::ApplyFreezeConfig {
            timed_mode,
            instant_mode,
            appointment_mode,
            hourly_mode,
            daily_mode,
            daily_time,
            hourly_start,
            hourly_interval_min,
            appointment_time,
        } => {
            let state = meter.state_mut();
            state.freeze_config = FreezeConfig {
                timed_freeze_mode: timed_mode,
                instant_freeze_mode: instant_mode,
                appointment_freeze_mode: appointment_mode,
            };
            state.hourly_freeze_mode = hourly_mode;
            state.daily_freeze_mode = daily_mode;
            state.daily_freeze_time = daily_time;
            state.hourly_freeze_start = hourly_start;
            state.hourly_freeze_interval_min = hourly_interval_min;
            state.appointment_freeze_time = appointment_time;
            state.appointment_freeze_fired = false;
            Ok(AdminReply::FreezeConfigApplied)
        },
        AdminCommand::ApplySettlementDays { days, hours } => {
            if any_above(&days, 28) {
                return Err(AdminError::SettlementDay);
            }
            if any_above(&hours, 23) {
                return Err(AdminError::SettlementHour);
            }
            let state = meter.state_mut();
            state.settlement_days = days;
            state.settlement_hours = hours;
            Ok(AdminReply::SettlementApplied)
        },
        AdminCommand::ApplyLoadRecordConfig { mode_word, start_time, intervals } => {
            let kept: [u16; 8] = meter.state().load_record_config.intervals;
            let all: [u16; 8] = [
                intervals[0],
                intervals[1],
                intervals[2],
                intervals[3],
                intervals[4],
                intervals[5],
                kept[6],
                kept[7],
            ];
            assert(all@ =~= intervals@ + kept@.skip(6));
            let state = meter.state_mut();
            state.load_record_config = LoadRecordConfig { mode_word, intervals: all };
            state.load_record_start_time = start_time;
            Ok(AdminReply::LoadRecordApplied)
        },
        AdminCommand::InjectFault { event_type, phase, active } => {
            if (1 <= event_type && event_type <= 4) || event_type == 0x0B || event_type == 0x0C {
                if phase < 1 || phase > 3 {
                    return Err(AdminError::FaultPhase);
                }
            } else if (5 <= event_type && event_type <= 0x0A) || event_type == 0x0F || (0x30
                <= event_type && event_type <= 0x32) {
                if phase != 0 {
                    return Err(AdminError::SystemPhase);
                }
            } else {
                return Err(AdminError::FaultType);
            }
            meter.set_forced_fault(event_type, phase, active);
            Ok(AdminReply::FaultInjected { event_type, phase, active })
        },
        AdminCommand::TriggerFreeze { freeze_type } => {
            if freeze_type > 1 {
                return Err(AdminError::FreezeKind);
            }
            let kind = if freeze_type == 0 {
                FreezeType::Timed
            } else {
                FreezeType::Instant(0)
            };
            meter.state_mut().pending_freeze_triggers.push(kind);
            Ok(AdminReply::FreezeTriggered { freeze_type })
        },
        AdminCommand::ForceFlushEnergy => Err(AdminError::FlushOnDemand),
        AdminCommand::GetAddress => Ok(
            AdminReply::Address { text: format_address(&meter.address()) },
        ),
        AdminCommand::Shutdown => {
            let requests = meter.force_flush_energy(now.timestamp_millis());
            Ok(AdminReply::ShuttingDown { requests })
        },
        AdminCommand::SaveState => Err(AdminError::SaveOnDemand),
        AdminCommand::LoadFreezeHistory => Ok(AdminReply::FreezeHistory),
        AdminCommand::LoadLoadProfileHistory { max_records } => Ok(
            AdminReply::LoadProfileHistory { max_records },
        ),
    }
}

/// Stored settings of freezes and settlement days are taken over as the commands that set
/// them would set them.
pub proof fn law_restored_settings_are_as_applied(
    m: MeterModel,
    settings: PersistedMeterSettings,
    frozen: MeterState,
    settled: MeterState,
    now: DateTime,
)
    requires
        administered(
            m.state,
            frozen,
            AdminCommand::ApplyFreezeConfig {
                timed_mode: settings.timed_freeze_mode,
                instant_mode: settings.instant_freeze_mode,
                appointment_mode: settings.appointment_freeze_mode,
                hourly_mode: settings.hourly_freeze_mode,
                daily_mode: settings.daily_freeze_mode,
                daily_time: settings.daily_freeze_time,
                hourly_start: settings.hourly_freeze_start,
                hourly_interval_min: settings.hourly_freeze_interval_min,
                appointment_time: settings.appointment_freeze_time,
            },
            now,
        ),
        administered(
            frozen,
            settled,
            AdminCommand::ApplySettlementDays {
                days: settings.settlement_days,
                hours: settings.settlement_hours,
            },
            now,
        ),
    ensures
        ({
            let restored = settled_down(m, settings).state;
            &&& restored.freeze_config == settled.freeze_config
            &&& restored.hourly_freeze_mode == settled.hourly_freeze_mode
            &&& restored.daily_freeze_mode == settled.daily_freeze_mode
            &&& restored.daily_freeze_time == settled.daily_freeze_time
            &&& restored.hourly_freeze_start == settled.hourly_freeze_start
            &&& restored.hourly_freeze_interval_min == settled.hourly_freeze_interval_min
            &&& restored.appointment_freeze_time == settled.appointment_freeze_time
            &&& restored.appointment_freeze_fired == settled.appointment_freeze_fired
            &&& restored.settlement_days == settled.settlement_days
            &&& restored.settlement_hours == settled.settlement_hours
        }),
{
}

} // verus!
