//! A new meter.

use crate::quantity::Quantity;
use crate::simulation::config::{
    DerivedStatusWords, DisplayConfig, FreezeConfig, LimitConfig, LoadRecordConfig,
    NameplateConfig, PasswordConfig,
};
use crate::simulation::event::{EventRingBuffer, EventSummary};
use crate::simulation::freeze::{FreezeRingBuffer, FreezeSnapshot, FreezeTrigger, FreezeType};
use crate::simulation::load_record::{LoadProfileSamplingState, LoadRecordSample};
use crate::simulation::state::{
    energy_key, local_now_as_utc, make_energy_key, DemandValue, EnergyType, MeterState,
};
use crate::simulation::tariff::TouConfig;
use crate::table::Table;
use crate::time::DateTime;
use vstd::prelude::*;

verus! {

/// The forward active registers of a new meter: the total and rates 1 to 4, all zero.
pub open spec fn new_registers() -> Map<u32, Quantity> {
    Map::empty().insert(energy_key(EnergyType::ForwardActive, 0), 0 as Quantity).insert(
        energy_key(EnergyType::ForwardActive, 1),
        0,
    ).insert(energy_key(EnergyType::ForwardActive, 2), 0).insert(
        energy_key(EnergyType::ForwardActive, 3),
        0,
    ).insert(energy_key(EnergyType::ForwardActive, 4), 0)
}

pub open spec fn zeros(n: nat) -> Seq<Quantity> {
    Seq::new(n, |i: int| 0 as Quantity)
}

pub open spec fn zero_bytes(n: nat) -> Seq<u8> {
    Seq::new(n, |i: int| 0u8)
}

/// The identity, tariff and clock parameters of a new meter.
pub open spec fn new_parameters(s: MeterState) -> bool {
    &&& s.address@ == seq![0x12u8, 0x34, 0x56, 0x78, 0x90, 0x12]
    &&& s.meter_constant == 1600
    &&& s.baudrate == 0x10
    &&& s.rated_voltage == 220000
    &&& s.rated_current == 60000
    &&& s.rated_frequency == 50
    &&& s.demand_period_minutes == 15
    &&& s.sliding_window_minutes == 1
    &&& s.calibration_pulse_constant == 3200
    &&& s.comm_speed_feature@ == seq![0x10u8, 0x10, 0x10, 0x10, 0x10]
    &&& s.num_rates == 4
    &&& s.num_time_slots == 5
    &&& s.settlement_days@ == seq![1u8, 0, 0]
    &&& s.settlement_hours@ == seq![0u8, 0, 0]
    &&& s.tou_config.is_default()
    &&& s.weekly_rest_day_word == 0x07
    &&& s.active_combination_word == 0
    &&& s.reactive_combination_1 == 0
    &&& s.reactive_combination_2 == 0
    &&& s.freeze_config == (FreezeConfig {
        timed_freeze_mode: 0,
        instant_freeze_mode: 0,
        appointment_freeze_mode: 0,
    })
    &&& s.load_record_config.mode_word == 0
    &&& s.load_record_config.intervals@ == Seq::new(8, |i: int| 0u16)
    &&& forall|l: int, k: int|
        0 <= l < 10 && 0 <= k < 4 ==> (#[trigger] s.password_config.passwords@[l]@[k]) == 0
    &&& s.operator_code@ == zero_bytes(4)
    &&& s.derived_status == DerivedStatusWords::zero()
    &&& s.load_record_start_time@ == zero_bytes(4)
    &&& s.calibration_pulse_width_ms == 80
    &&& s.timezone_switch_time@ == zero_bytes(5)
    &&& s.daytable_switch_time@ == zero_bytes(5)
    &&& s.price_switch_time@ == zero_bytes(5)
    &&& s.ladder_switch_time@ == zero_bytes(5)
    &&& s.num_time_zones == 1
    &&& s.num_day_tables == 1
    &&& s.num_public_holidays == 0
    &&& s.harmonic_analysis_orders == 21
    &&& s.num_ladders == 0
    &&& s.display_config == (DisplayConfig {
        cycle_screen_count: 5,
        screen_period_seconds: 5,
        energy_decimals: 2,
        demand_decimals: 4,
        key_screen_count: 3,
        ct_ratio: 1,
        pt_ratio: 1,
    })
    &&& s.nameplate.is_default()
    &&& s.rest_day_table_no == 1
    &&& s.hourly_freeze_mode == 0
    &&& s.daily_freeze_mode == 0
    &&& s.appointment_freeze_time@ == zero_bytes(5)
    &&& s.appointment_freeze_fired == false
    &&& s.last_settlement_rollover is None
    &&& s.operation_feature_word_1 == 0
    &&& s.active_report_mode@ == zero_bytes(8)
    &&& s.hourly_freeze_start@ == zero_bytes(5)
    &&& s.hourly_freeze_interval_min == 60
    &&& s.daily_freeze_time@ == zero_bytes(2)
    &&& s.wireless_signal == 0
    &&& s.limits.is_default()
    &&& s.simulation_time_scale == 1_000_000_000
}

/// The measured values of a new meter.
pub open spec fn new_measurements(s: MeterState) -> bool {
    &&& s.energy_registers@ == new_registers()
    &&& s.settlement_energies@ == Map::<u32, Quantity>::empty()
    &&& s.phase_forward_active@ == zeros(3)
    &&& s.settlement_phase_energies@ == Map::<u32, Quantity>::empty()
    &&& s.demand_registers@ == Map::<u32, DemandValue>::empty()
    &&& s.voltage_a == 220_000_000_000
    &&& s.voltage_b == 220_000_000_000
    &&& s.voltage_c == 220_000_000_000
    &&& s.current_a == 10_000_000_000
    &&& s.current_b == 10_000_000_000
    &&& s.current_c == 10_000_000_000
    &&& s.power_factor == 950_000_000
    &&& s.frequency == 50_000_000_000
    &&& s.active_power_total == 0
    &&& s.active_power_a == 0
    &&& s.active_power_b == 0
    &&& s.active_power_c == 0
    &&& s.reactive_power_total == 0
    &&& s.reactive_power_a == 0
    &&& s.reactive_power_b == 0
    &&& s.reactive_power_c == 0
    &&& s.apparent_power_total == 0
    &&& s.voltage_thd@ == zeros(3)
    &&& s.current_thd@ == zeros(3)
    &&& forall|p: int, k: int|
        0 <= p < 3 && 0 <= k < 22 ==> (#[trigger] s.voltage_harmonics@[p]@[k]) == 0
    &&& forall|p: int, k: int|
        0 <= p < 3 && 0 <= k < 22 ==> (#[trigger] s.current_harmonics@[p]@[k]) == 0
    &&& s.neutral_current == 0
    &&& s.meter_temperature == 25_000_000_000
    &&& s.clock_battery_voltage == 3_600_000_000
    &&& s.outage_battery_voltage == 3_600_000_000
    &&& s.battery_work_minutes == 0
    &&& s.current_step_price == 0
    &&& s.remaining_energy == 0
    &&& s.remaining_amount == 0
    &&& s.max_demand == 0
}

/// A meter without snapshots, events, samples or pending freezes. Each trigger has room
/// for as many snapshots as it keeps.
pub open spec fn new_histories(s: MeterState) -> bool {
    &&& forall|t: FreezeTrigger|
        s.freeze_snapshots@.contains_key(#[trigger] t.di2() as u32) && s.freeze_snapshots@[t.di2() as u32].room()
            == t.history() && s.freeze_snapshots@[t.di2() as u32]@ == Seq::<FreezeSnapshot>::empty()
    &&& s.event_records@ == Map::<u32, EventRingBuffer>::empty()
    &&& s.event_summary@ == Map::<u32, EventSummary>::empty()
    &&& s.load_profile_state.last_sample_times@ == Seq::new(6, |i: int| None::<DateTime>)
    &&& s.recent_load_records@ == Map::<u32, Vec<LoadRecordSample>>::empty()
    &&& s.pending_freeze_triggers@ == Seq::<FreezeType>::empty()
}

/// A new meter whose clock shows `virtual_time` and whose maximum demand is dated `now`.
pub open spec fn new_meter(s: MeterState, virtual_time: DateTime, now: DateTime) -> bool {
    &&& new_parameters(s)
    &&& new_measurements(s)
    &&& new_histories(s)
    &&& s.virtual_time == virtual_time
    &&& s.max_demand_time == now
}

fn empty_rings() -> (r: Table<FreezeRingBuffer>)
    ensures
        forall|t: FreezeTrigger|
            r@.contains_key(#[trigger] t.di2() as u32) && r@[t.di2() as u32].room() == t.history()
                && r@[t.di2() as u32]@ == Seq::<FreezeSnapshot>::empty(),
{
    let mut map: Table<FreezeRingBuffer> = Table::new();
    map.insert(0x00, FreezeRingBuffer::new(12));
    map.insert(0x01, FreezeRingBuffer::new(3));
    map.insert(0x02, FreezeRingBuffer::new(3));
    map.insert(0x03, FreezeRingBuffer::new(3));
    map.insert(0x04, FreezeRingBuffer::new(62));
    map.insert(0x06, FreezeRingBuffer::new(62));
    map.insert(0x07, FreezeRingBuffer::new(3));
    map
}

impl MeterState {
    /// A new meter whose clock shows `virtual_time` and whose maximum demand is dated `now`.
    pub fn new_at(virtual_time: DateTime, now: DateTime) -> (r: MeterState)
        ensures
            new_meter(r, virtual_time, now),
    {
        let mut registers: Table<Quantity> = Table::new();
        registers.insert(make_energy_key(EnergyType::ForwardActive, 0), 0);
        registers.insert(make_energy_key(EnergyType::ForwardActive, 1), 0);
        registers.insert(make_energy_key(EnergyType::ForwardActive, 2), 0);
        registers.insert(make_energy_key(EnergyType::ForwardActive, 3), 0);
        registers.insert(make_energy_key(EnergyType::ForwardActive, 4), 0);
        let r = MeterState {
            address: [0x12, 0x34, 0x56, 0x78, 0x90, 0x12],
            meter_constant: 1600,
            baudrate: 0x10,
            rated_voltage: 220000,
            rated_current: 60000,
            rated_frequency: 50,
            demand_period_minutes: 15,
            sliding_window_minutes: 1,
            calibration_pulse_constant: 3200,
            comm_speed_feature: [0x10; 5],
            num_rates: 4,
            num_time_slots: 5,
            settlement_days: [1, 0, 0],
            settlement_hours: [0; 3],
            tou_config: TouConfig::default(),
            weekly_rest_day_word: 0x07,
            active_combination_word: 0x00,
            reactive_combination_1: 0x00,
            reactive_combination_2: 0x00,
            freeze_config: FreezeConfig::default(),
            load_record_config: LoadRecordConfig::default(),
            password_config: PasswordConfig::default(),
            operator_code: [0; 4],
            derived_status: DerivedStatusWords::default(),
            virtual_time,
            energy_registers: registers,
            settlement_energies: Table::new(),
            phase_forward_active: [0; 3],
            settlement_phase_energies: Table::new(),
            demand_registers: Table::new(),
            voltage_a: 220_000_000_000,
            voltage_b: 220_000_000_000,
            voltage_c: 220_000_000_000,
            current_a: 10_000_000_000,
            current_b: 10_000_000_000,
            current_c: 10_000_000_000,
            power_factor: 950_000_000,
            frequency: 50_000_000_000,
            active_power_total: 0,
            active_power_a: 0,
            active_power_b: 0,
            active_power_c: 0,
            reactive_power_total: 0,
            reactive_power_a: 0,
            reactive_power_b: 0,
            reactive_power_c: 0,
            apparent_power_total: 0,
            voltage_thd: [0; 3],
            current_thd: [0; 3],
            voltage_harmonics: [[0; 22]; 3],
            current_harmonics: [[0; 22]; 3],
            neutral_current: 0,
            meter_temperature: 25_000_000_000,
            clock_battery_voltage: 3_600_000_000,
            outage_battery_voltage: 3_600_000_000,
            battery_work_minutes: 0,
            current_step_price: 0,
            remaining_energy: 0,
            remaining_amount: 0,
            load_record_start_time: [0; 4],
            max_demand: 0,
            max_demand_time: now,
            calibration_pulse_width_ms: 80,
            timezone_switch_time: [0; 5],
            daytable_switch_time: [0; 5],
            price_switch_time: [0; 5],
            ladder_switch_time: [0; 5],
            num_time_zones: 1,
            num_day_tables: 1,
            num_public_holidays: 0,
            harmonic_analysis_orders: 21,
            num_ladders: 0,
            display_config: DisplayConfig::default(),
            nameplate: NameplateConfig::default(),
            rest_day_table_no: 1,
            hourly_freeze_mode: 0,
            daily_freeze_mode: 0,
            appointment_freeze_time: [0; 5],
            appointment_freeze_fired: false,
            last_settlement_rollover: None,
            operation_feature_word_1: 0,
            active_report_mode: [0; 8],
            hourly_freeze_start: [0; 5],
            hourly_freeze_interval_min: 60,
            daily_freeze_time: [0; 2],
            wireless_signal: 0,
            limits: LimitConfig::default(),
            freeze_snapshots: empty_rings(),
            event_records: Table::new(),
            event_summary: Table::new(),
            load_profile_state: LoadProfileSamplingState::default(),
            recent_load_records: Table::new(),
            pending_freeze_triggers: Vec::new(),
            simulation_time_scale: 1_000_000_000,
        };
        proof {
            assert(r.comm_speed_feature@ =~= seq![0x10u8, 0x10, 0x10, 0x10, 0x10]);
            assert(r.settlement_hours@ =~= seq![0u8, 0, 0]);
            assert(r.settlement_days@ =~= seq![1u8, 0, 0]);
            assert(r.operator_code@ =~= zero_bytes(4));
            assert(r.load_record_start_time@ =~= zero_bytes(4));
            assert(r.timezone_switch_time@ =~= zero_bytes(5));
            assert(r.appointment_freeze_time@ =~= zero_bytes(5));
            assert(r.active_report_mode@ =~= zero_bytes(8));
            assert(r.daily_freeze_time@ =~= zero_bytes(2));
            assert(r.phase_forward_active@ =~= zeros(3));
            assert(new_parameters(r));
            assert(new_measurements(r));
            assert(new_histories(r));
        }
        r
    }
}

impl Default for MeterState {
    /// A new meter whose clock shows the local time.
    fn default() -> (r: MeterState)
        ensures
            new_meter(r, r.virtual_time, r.max_demand_time),
    {
        MeterState::new_at(local_now_as_utc(), DateTime::now())
    }
}

} // verus!
