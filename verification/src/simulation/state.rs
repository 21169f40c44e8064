//! The state of a meter: everything that can be read, written or simulated.

use crate::angle::{angle_of_cosine, arc_cosine};
use crate::quantity::{clamped, difference, sum, Quantity};
use crate::simulation::config::{
    DerivedStatusWords, DisplayConfig, FreezeConfig, LimitConfig, LoadRecordConfig,
    NameplateConfig, PasswordConfig,
};
use crate::simulation::event::{EventRingBuffer, EventSummary};
use crate::simulation::freeze::{FreezeRingBuffer, FreezeType};
use crate::simulation::load_record::{LoadProfileSamplingState, LoadRecordSample};
use crate::simulation::tariff::TouConfig;
use crate::table::{has_key, Table};
use crate::time::{lemma_dates_ordered, month_index, Calendar, DateTime};
use vstd::prelude::*;

verus! {

/// Kind of energy. Reactive energies are combined reactive 1 and 2 in the protocol.
#[derive(Debug, Clone, Copy, PartialEq, Eq, Structural, Hash)]
pub enum EnergyType {
    /// 00-01-xx
    ForwardActive,
    /// 00-02-xx
    ReverseActive,
    /// 00-03-xx
    ForwardReactive,
    /// 00-04-xx
    ReverseReactive,
    /// 00-00-xx: forward less reverse active energy, made up when it is read
    CombinedActive,
    /// 00-05-xx
    Quadrant1Reactive,
    /// 00-06-xx
    Quadrant2Reactive,
    /// 00-07-xx
    Quadrant3Reactive,
    /// 00-08-xx
    Quadrant4Reactive,
    /// 00-09-xx
    ForwardApparent,
    /// 00-0A-xx
    ReverseApparent,
}

impl EnergyType {
    /// The number of the kind, 1 to 11.
    pub open spec fn number(self) -> u32 {
        match self {
            EnergyType::ForwardActive => 1,
            EnergyType::ReverseActive => 2,
            EnergyType::ForwardReactive => 3,
            EnergyType::ReverseReactive => 4,
            EnergyType::CombinedActive => 5,
            EnergyType::Quadrant1Reactive => 6,
            EnergyType::Quadrant2Reactive => 7,
            EnergyType::Quadrant3Reactive => 8,
            EnergyType::Quadrant4Reactive => 9,
            EnergyType::ForwardApparent => 10,
            EnergyType::ReverseApparent => 11,
        }
    }

    /// The number of the kind, 1 to 11.
    pub fn to_u32(&self) -> (r: u32)
        ensures
            r == self.number(),
            1 <= r <= 11,
    {
        match self {
            EnergyType::ForwardActive => 1,
            EnergyType::ReverseActive => 2,
            EnergyType::ForwardReactive => 3,
            EnergyType::ReverseReactive => 4,
            EnergyType::CombinedActive => 5,
            EnergyType::Quadrant1Reactive => 6,
            EnergyType::Quadrant2Reactive => 7,
            EnergyType::Quadrant3Reactive => 8,
            EnergyType::Quadrant4Reactive => 9,
            EnergyType::ForwardApparent => 10,
            EnergyType::ReverseApparent => 11,
        }
    }
}

/// A demand and when it occurred.
#[derive(Debug, Clone, Copy, PartialEq, Eq, Structural)]
pub struct DemandValue {
    pub value: Quantity,
    pub time: DateTime,
}

/// Keys of one settlement slot lie this far from those of the next: energies.
pub const ENERGY_SLOT: u32 = 0x1_0000;

/// Keys of one settlement slot lie this far from those of the next: phase energies.
pub const PHASE_SLOT: u32 = 0x100;

/// Keys of one settlement slot lie this far from those of the next: demands.
pub const DEMAND_SLOT: u32 = 0x100_0000;

/// Key of an energy register. Rate 0 is the total.
pub open spec fn energy_key(t: EnergyType, rate: u8) -> u32 {
    (t.number() * 256 + rate) as u32
}

/// Key of an energy in settlement slot `settlement`.
pub open spec fn settlement_key(settlement: u8, t: EnergyType, rate: u8) -> u32 {
    (settlement * 0x1_0000 + t.number() * 256 + rate) as u32
}

/// Key of the energy of a phase in a settlement slot.
pub open spec fn phase_key(settlement: u8, phase: u8) -> u32 {
    (settlement * 256 + phase) as u32
}

/// Key of a demand register.
pub open spec fn demand_key(settlement: u8, phase: u8, t: EnergyType, rate: u8) -> u32 {
    (settlement * 0x100_0000 + phase * 0x1_0000 + t.number() * 256 + rate) as u32
}

/// Key of the events of one kind.
pub open spec fn event_key(event_type: u8, sub_type: u8) -> u32 {
    (event_type * 256 + sub_type) as u32
}

pub fn make_energy_key(t: EnergyType, rate: u8) -> (r: u32)
    ensures
        r == energy_key(t, rate),
{
    t.to_u32() * 256 + rate as u32
}

pub fn make_settlement_key(settlement: u8, t: EnergyType, rate: u8) -> (r: u32)
    ensures
        r == settlement_key(settlement, t, rate),
{
    settlement as u32 * 0x1_0000 + t.to_u32() * 256 + rate as u32
}

pub fn make_phase_key(settlement: u8, phase: u8) -> (r: u32)
    ensures
        r == phase_key(settlement, phase),
{
    settlement as u32 * 256 + phase as u32
}

pub fn make_demand_key(settlement: u8, phase: u8, t: EnergyType, rate: u8) -> (r: u32)
    ensures
        r == demand_key(settlement, phase, t, rate),
{
    settlement as u32 * 0x100_0000 + phase as u32 * 0x1_0000 + t.to_u32() * 256 + rate as u32
}

pub fn make_event_key(event_type: u8, sub_type: u8) -> (r: u32)
    ensures
        r == event_key(event_type, sub_type),
{
    event_type as u32 * 256 + sub_type as u32
}

/// The number of a rate, 0 standing for the total.
pub open spec fn rate_number(rate: Option<u8>) -> u8 {
    match rate {
        Some(n) => n,
        None => 0,
    }
}

/// The value under a key, zero if there is none.
pub open spec fn value_or_zero(m: Map<u32, Quantity>, key: u32) -> Quantity {
    if m.contains_key(key) {
        m[key]
    } else {
        0
    }
}

/// Everything a meter knows.
#[derive(Debug, Clone)]
pub struct MeterState {
    pub address: [u8; 6],
    // running parameters, 04-00-04-xx
    /// pulses per kWh
    pub meter_constant: u32,
    pub baudrate: u8,
    /// mV
    pub rated_voltage: u32,
    /// mA
    pub rated_current: u32,
    /// Hz
    pub rated_frequency: u8,
    pub demand_period_minutes: u16,
    pub sliding_window_minutes: u16,
    pub calibration_pulse_constant: u32,
    pub comm_speed_feature: [u8; 5],
    // tariff parameters
    /// up to 63
    pub num_rates: u8,
    /// up to 14
    pub num_time_slots: u8,
    /// settlement days: 0 for none, else 1 to 28
    pub settlement_days: [u8; 3],
    /// hours of the settlement days, 0 to 23
    pub settlement_hours: [u8; 3],
    pub tou_config: TouConfig,
    pub weekly_rest_day_word: u8,
    // energy combination words, 04-00-06-xx
    pub active_combination_word: u8,
    pub reactive_combination_1: u8,
    pub reactive_combination_2: u8,
    pub freeze_config: FreezeConfig,
    pub load_record_config: LoadRecordConfig,
    pub password_config: PasswordConfig,
    pub operator_code: [u8; 4],
    pub derived_status: DerivedStatusWords,
    /// The clock of the meter: it shows local time, carried as if it were UTC.
    pub virtual_time: DateTime,
    /// kWh or kvarh, by `energy_key`
    pub energy_registers: Table<Quantity>,
    /// by `settlement_key`, slots 1 to 12
    pub settlement_energies: Table<Quantity>,
    /// forward active energy of phases A, B, C
    pub phase_forward_active: [Quantity; 3],
    /// by `phase_key`
    pub settlement_phase_energies: Table<Quantity>,
    /// by `demand_key`; settlement 0 is the present period, phase 0 all phases
    pub demand_registers: Table<DemandValue>,
    // instantaneous values
    pub voltage_a: Quantity,
    pub voltage_b: Quantity,
    pub voltage_c: Quantity,
    pub current_a: Quantity,
    pub current_b: Quantity,
    pub current_c: Quantity,
    pub power_factor: Quantity,
    /// Hz
    pub frequency: Quantity,
    pub active_power_total: Quantity,
    pub active_power_a: Quantity,
    pub active_power_b: Quantity,
    pub active_power_c: Quantity,
    pub reactive_power_total: Quantity,
    pub reactive_power_a: Quantity,
    pub reactive_power_b: Quantity,
    pub reactive_power_c: Quantity,
    pub apparent_power_total: Quantity,
    // power quality, percent
    pub voltage_thd: [Quantity; 3],
    pub current_thd: [Quantity; 3],
    /// by phase and harmonic 1 to 21; entry 0 is not used
    pub voltage_harmonics: [[Quantity; 22]; 3],
    pub current_harmonics: [[Quantity; 22]; 3],
    pub neutral_current: Quantity,
    /// degrees Celsius
    pub meter_temperature: Quantity,
    pub clock_battery_voltage: Quantity,
    pub outage_battery_voltage: Quantity,
    pub battery_work_minutes: u32,
    pub current_step_price: Quantity,
    pub remaining_energy: Quantity,
    pub remaining_amount: Quantity,
    /// MMDDhhmm
    pub load_record_start_time: [u8; 4],
    pub max_demand: Quantity,
    pub max_demand_time: DateTime,
    // further parameters
    pub calibration_pulse_width_ms: u16,
    pub timezone_switch_time: [u8; 5],
    pub daytable_switch_time: [u8; 5],
    pub price_switch_time: [u8; 5],
    pub ladder_switch_time: [u8; 5],
    /// up to 14
    pub num_time_zones: u8,
    /// up to 8
    pub num_day_tables: u8,
    /// up to 254
    pub num_public_holidays: u16,
    pub harmonic_analysis_orders: u8,
    pub num_ladders: u8,
    pub display_config: DisplayConfig,
    pub nameplate: NameplateConfig,
    pub rest_day_table_no: u8,
    pub hourly_freeze_mode: u8,
    pub daily_freeze_mode: u8,
    /// YYMMDDhhmm
    pub appointment_freeze_time: [u8; 5],
    pub appointment_freeze_fired: bool,
    pub last_settlement_rollover: Option<DateTime>,
    pub operation_feature_word_1: u16,
    pub active_report_mode: [u8; 8],
    /// YYMMDDhhmm
    pub hourly_freeze_start: [u8; 5],
    pub hourly_freeze_interval_min: u8,
    /// hhmm
    pub daily_freeze_time: [u8; 2],
    pub wireless_signal: u8,
    pub limits: LimitConfig,
    /// by the identifier byte of the trigger
    pub freeze_snapshots: Table<FreezeRingBuffer>,
    /// by `event_key`
    pub event_records: Table<EventRingBuffer>,
    /// by `event_key`
    pub event_summary: Table<EventSummary>,
    pub load_profile_state: LoadProfileSamplingState,
    /// by class, the last five samples, the newest first
    pub recent_load_records: Table<Vec<LoadRecordSample>>,
    /// Freezes that are due and not yet taken. Several can be due at one moment.
    pub pending_freeze_triggers: Vec<FreezeType>,
    /// Factor by which this meter's clock runs faster than the simulation's.
    pub simulation_time_scale: Quantity,
}

/// The present local time, carried as if it were UTC: the meter shows the digits of the
/// local clock and never converts them.
pub fn local_now_as_utc() -> (r: DateTime)
    ensures
        r.valid(),
{
    DateTime::local_now()
}

impl MeterState {
    /// The energy of a register; rate 0 is the total. Registers that were never written
    /// are zero.
    pub open spec fn energy(self, t: EnergyType, rate: u8) -> Quantity {
        value_or_zero(self.energy_registers@, energy_key(t, rate))
    }

    /// The energy of a settlement slot, slot 0 being the present period.
    pub open spec fn slot_energy(self, settlement: u8, t: EnergyType, rate: u8) -> Quantity {
        if settlement == 0 {
            self.energy(t, rate)
        } else {
            value_or_zero(self.settlement_energies@, settlement_key(settlement, t, rate))
        }
    }

    /// The energy that is read for a settlement slot: combined active energy is forward
    /// less reverse active energy.
    pub open spec fn settled_energy(self, settlement: u8, t: EnergyType, rate: u8) -> Quantity {
        if t == EnergyType::CombinedActive {
            clamped(
                self.slot_energy(settlement, EnergyType::ForwardActive, rate) - self.slot_energy(
                    settlement,
                    EnergyType::ReverseActive,
                    rate,
                ),
            )
        } else {
            self.slot_energy(settlement, t, rate)
        }
    }

    /// The demand of a register. Without one, the total forward active demand falls back to
    /// the maximum demand; every other kind, rate or phase falls back to zero at the present
    /// time.
    pub open spec fn demand(
        self,
        settlement: u8,
        phase: u8,
        t: EnergyType,
        rate: u8,
    ) -> DemandValue {
        let key = demand_key(settlement, phase, t, rate);
        if self.demand_registers@.contains_key(key) {
            self.demand_registers@[key]
        } else if t == EnergyType::ForwardActive && phase == 0 && rate == 0 {
            DemandValue { value: self.max_demand, time: self.max_demand_time }
        } else {
            DemandValue { value: 0, time: self.virtual_time }
        }
    }

    /// The forward active energy of a phase in a settlement slot.
    pub open spec fn phase_energy(self, settlement: u8, phase: u8) -> Quantity {
        if settlement == 0 {
            self.phase_forward_active@[phase as int]
        } else {
            value_or_zero(self.settlement_phase_energies@, phase_key(settlement, phase))
        }
    }

    /// The energy of a register; no rate means the total.
    pub fn get_energy(&self, energy_type: EnergyType, rate: Option<u8>) -> (r: Quantity)
        ensures
            r == self.energy(energy_type, rate_number(rate)),
    {
        let rate_num: u8 = rate.unwrap_or(0);
        match self.energy_registers.get(make_energy_key(energy_type, rate_num)) {
            Some(v) => *v,
            None => 0,
        }
    }

    /// Sets an energy register.
    pub fn set_energy(&mut self, energy_type: EnergyType, rate: Option<u8>, value: Quantity)
        ensures
            final(self).energy_registers@ == old(self).energy_registers@.insert(
                energy_key(energy_type, rate_number(rate)),
                value,
            ),
            *final(self) == (MeterState {
                energy_registers: final(self).energy_registers,
                ..*old(self)
            }),
    {
        let rate_num: u8 = rate.unwrap_or(0);
        self.energy_registers.insert(make_energy_key(energy_type, rate_num), value);
    }

    /// Adds to an energy register. It stops at the largest quantity.
    pub fn add_energy(&mut self, energy_type: EnergyType, rate: Option<u8>, delta: Quantity)
        ensures
            final(self).energy_registers@ == old(self).energy_registers@.insert(
                energy_key(energy_type, rate_number(rate)),
                clamped(old(self).energy(energy_type, rate_number(rate)) + delta),
            ),
            *final(self) == (MeterState {
                energy_registers: final(self).energy_registers,
                ..*old(self)
            }),
    {
        let current: Quantity = self.get_energy(energy_type, rate);
        self.set_energy(energy_type, rate, sum(current, delta));
    }

    fn get_slot_energy(&self, settlement: u8, energy_type: EnergyType, rate: Option<u8>) -> (r:
        Quantity)
        ensures
            r == self.slot_energy(settlement, energy_type, rate_number(rate)),
    {
        if settlement == 0 {
            return self.get_energy(energy_type, rate);
        }
        let rate_num: u8 = rate.unwrap_or(0);
        match self.settlement_energies.get(
            make_settlement_key(settlement, energy_type, rate_num),
        ) {
            Some(v) => *v,
            None => 0,
        }
    }

    /// The energy of a settlement slot, slot 0 being the present period.
    pub fn get_settlement_energy(
        &self,
        settlement: u8,
        energy_type: EnergyType,
        rate: Option<u8>,
    ) -> (r: Quantity)
        ensures
            r == self.settled_energy(settlement, energy_type, rate_number(rate)),
    {
        if energy_type == EnergyType::CombinedActive {
            difference(
                self.get_slot_energy(settlement, EnergyType::ForwardActive, rate),
                self.get_slot_energy(settlement, EnergyType::ReverseActive, rate),
            )
        } else {
            self.get_slot_energy(settlement, energy_type, rate)
        }
    }

    /// Whether the energy of a settlement slot is in memory. The present period always is.
    pub fn has_settlement_energy(
        &self,
        settlement: u8,
        energy_type: EnergyType,
        rate: Option<u8>,
    ) -> (r: bool)
        ensures
            r == (settlement == 0 || self.settlement_energies@.contains_key(
                settlement_key(settlement, energy_type, rate_number(rate)),
            )),
    {
        if settlement == 0 {
            return true;
        }
        let rate_num: u8 = rate.unwrap_or(0);
        self.settlement_energies.contains_key(
            make_settlement_key(settlement, energy_type, rate_num),
        )
    }

    /// Sets the energy of a settlement slot.
    pub fn set_settlement_energy(
        &mut self,
        settlement: u8,
        energy_type: EnergyType,
        rate: Option<u8>,
        value: Quantity,
    )
        ensures
            final(self).settlement_energies@ == old(self).settlement_energies@.insert(
                settlement_key(settlement, energy_type, rate_number(rate)),
                value,
            ),
            *final(self) == (MeterState {
                settlement_energies: final(self).settlement_energies,
                ..*old(self)
            }),
    {
        let rate_num: u8 = rate.unwrap_or(0);
        self.settlement_energies.insert(
            make_settlement_key(settlement, energy_type, rate_num),
            value,
        );
    }

    /// The demand of a register.
    pub fn get_demand(
        &self,
        settlement: u8,
        phase: u8,
        energy_type: EnergyType,
        rate: Option<u8>,
    ) -> (r: DemandValue)
        ensures
            r == self.demand(settlement, phase, energy_type, rate_number(rate)),
    {
        let rate_num: u8 = rate.unwrap_or(0);
        match self.demand_registers.get(
            make_demand_key(settlement, phase, energy_type, rate_num),
        ) {
            Some(v) => *v,
            None => if energy_type == EnergyType::ForwardActive && phase == 0 && rate_num == 0 {
                DemandValue { value: self.max_demand, time: self.max_demand_time }
            } else {
                DemandValue { value: 0, time: self.virtual_time }
            },
        }
    }

    /// Sets a demand register.
    pub fn set_demand(
        &mut self,
        settlement: u8,
        phase: u8,
        energy_type: EnergyType,
        rate: Option<u8>,
        value: DemandValue,
    )
        ensures
            final(self).demand_registers@ == old(self).demand_registers@.insert(
                demand_key(settlement, phase, energy_type, rate_number(rate)),
                value,
            ),
            *final(self) == (MeterState {
                demand_registers: final(self).demand_registers,
                ..*old(self)
            }),
    {
        let rate_num: u8 = rate.unwrap_or(0);
        self.demand_registers.insert(
            make_demand_key(settlement, phase, energy_type, rate_num),
            value,
        );
    }

    /// The forward active energy of a phase (0 to 2) in a settlement slot.
    pub fn get_phase_energy(&self, settlement: u8, phase: u8) -> (r: Quantity)
        requires
            settlement == 0 ==> phase < 3,
        ensures
            r == self.phase_energy(settlement, phase),
    {
        if settlement == 0 {
            self.phase_forward_active[phase as usize]
        } else {
            match self.settlement_phase_energies.get(make_phase_key(settlement, phase)) {
                Some(v) => *v,
                None => 0,
            }
        }
    }

    /// The angle between voltage and current, in degrees: the one whose cosine is the power
    /// factor.
    pub fn phase_angle_degrees(&self) -> (r: Quantity)
        ensures
            r == arc_cosine(self.power_factor),
    {
        angle_of_cosine(self.power_factor)
    }
}

/// A settlement moment: day `day` of some month at `hour` o'clock.
pub open spec fn settlement_moment(y: i32, m: u32, day: u8, hour: u8) -> Calendar {
    Calendar { year: y, month: m, day: day as u32, hour: hour as u32, minute: 0, second: 0 }
}

/// The moment exists, and the clock passed it after `last` and not after `now`.
pub open spec fn moment_in_span(c: Calendar, last: DateTime, now: DateTime) -> bool {
    c.valid() && last.total_nanos() < c.seconds() * 1_000_000_000 <= now.total_nanos()
}

/// Some month has a settlement moment after `last` and not after `now`.
pub open spec fn settlement_passed(day: u8, hour: u8, last: DateTime, now: DateTime) -> bool {
    exists|y: i32, m: u32| #[trigger]
        moment_in_span(settlement_moment(y, m, day, hour), last, now)
}

/// Whether a settlement moment lies after `last` and not after `now`. All months between
/// the two are tried.
fn settlement_crossed(day: u8, hour: u8, last: &DateTime, now: &DateTime) -> (r: bool)
    ensures
        r == settlement_passed(day, hour, *last, *now),
{
    let first = last.calendar();
    let end = now.calendar();
    let ghost first_index = month_index(first.year as int, first.month as int);
    let ghost end_index = month_index(end.year as int, end.month as int);
    let mut year: i32 = first.year;
    let mut month: u32 = first.month;
    proof {
        last.lemma_valid();
        now.lemma_valid();
    }
    loop
        invariant
            last.valid(),
            now.valid(),
            first == last.cal(),
            end == now.cal(),
            first.valid(),
            end.valid(),
            first.seconds() == last.secs(),
            end.seconds() == now.secs(),
            0 <= last.subsec_nanos() < 1_000_000_000,
            0 <= now.subsec_nanos() < 1_000_000_000,
            first_index == month_index(first.year as int, first.month as int),
            end_index == month_index(end.year as int, end.month as int),
            -262143 <= year <= 262142,
            1 <= month <= 12,
            first_index <= month_index(year as int, month as int),
            month_index(year as int, month as int) <= (if end_index < first_index {
                first_index
            } else {
                end_index
            }),
            forall|y: i32, m: u32|
                1 <= m <= 12 && first_index <= month_index(y as int, m as int) < month_index(
                    year as int,
                    month as int,
                ) ==> !(#[trigger] moment_in_span(
                    settlement_moment(y, m, day, hour),
                    *last,
                    *now,
                )),
        decreases
                (if end_index < first_index {
                    first_index
                } else {
                    end_index
                }) - month_index(year as int, month as int),
    {
        match DateTime::with_ymd_and_hms(year, month, day as u32, hour as u32, 0, 0) {
            Some(boundary) => {
                if last.is_before(&boundary) && !now.is_before(&boundary) {
                    assert(moment_in_span(
                        settlement_moment(year, month, day, hour),
                        *last,
                        *now,
                    ));
                    return true;
                }
            },
            None => {},
        }
        let ghost tried = month_index(year as int, month as int);
        let (next_year, next_month): (i32, u32) = if month == 12 {
            (year + 1, 1)
        } else {
            (year, month + 1)
        };
        assert(month_index(next_year as int, next_month as int) == tried + 1);
        assert forall|y: i32, m: u32|
            1 <= m <= 12 && first_index <= month_index(y as int, m as int) < tried + 1 implies !(
        #[trigger] moment_in_span(settlement_moment(y, m, day, hour), *last, *now)) by {
            if month_index(y as int, m as int) == tried {
                assert(y == year && m == month);
            }
        }
        assert(next_year <= 262142 ==> (Calendar {
            year: next_year,
            month: next_month,
            day: 1,
            hour: 0,
            minute: 0,
            second: 0,
        }).valid()) by {
            reveal(crate::time::days_in_month);
        }
        let past: bool = match DateTime::with_ymd_and_hms(next_year, next_month, 1, 0, 0, 0) {
            Some(start) => {
                proof {
                    start.lemma_valid();
                    if month_index(next_year as int, next_month as int) <= end_index {
                        lemma_month_start(start.cal(), end);
                    }
                }
                now.is_before(&start)
            },
            None => true,
        };
        if past {
            proof {
                lemma_no_other_month(
                    day,
                    hour,
                    *last,
                    *now,
                    next_year as int,
                    next_month as int,
                );
            }
            return false;
        }
        proof {
            let c = Calendar { year: next_year, month: next_month, day: 1, hour: 0, minute: 0, second: 0 };
            if end_index < tried + 1 {
                lemma_month_end(end, c);
            }
        }
        year = next_year;
        month = next_month;
    }
}

/// The first second of a month is not after any second of that month or a later one.
proof fn lemma_month_start(start: Calendar, c: Calendar)
    requires
        start.valid(),
        c.valid(),
        start.day == 1 && start.hour == 0 && start.minute == 0 && start.second == 0,
        month_index(start.year as int, start.month as int) <= month_index(
            c.year as int,
            c.month as int,
        ),
    ensures
        start.seconds() <= c.seconds(),
{
    reveal(Calendar::seconds);
    reveal(crate::time::days_in_month);
    if month_index(start.year as int, start.month as int) < month_index(
        c.year as int,
        c.month as int,
    ) {
        lemma_dates_ordered(
            start.year as int,
            start.month as int,
            1,
            c.year as int,
            c.month as int,
        );
    }
}

/// A second of an earlier month comes before the first second of a later one.
proof fn lemma_month_end(c: Calendar, start: Calendar)
    requires
        c.valid(),
        1 <= start.month <= 12,
        start.day == 1 && start.hour == 0 && start.minute == 0 && start.second == 0,
        month_index(c.year as int, c.month as int) < month_index(
            start.year as int,
            start.month as int,
        ),
    ensures
        c.seconds() < start.seconds(),
{
    reveal(Calendar::seconds);
    lemma_dates_ordered(
        c.year as int,
        c.month as int,
        c.day as int,
        start.year as int,
        start.month as int,
    );
}

proof fn lemma_no_other_month(
    day: u8,
    hour: u8,
    last: DateTime,
    now: DateTime,
    next_year: int,
    next_month: int,
)
    requires
        last.valid(),
        now.valid(),
        last.cal().valid(),
        last.cal().seconds() == last.secs(),
        1 <= next_month <= 12,
        -262143 <= next_year <= 262143,
        next_year <= 262142 ==> now.total_nanos() < (Calendar {
            year: next_year as i32,
            month: next_month as u32,
            day: 1,
            hour: 0,
            minute: 0,
            second: 0,
        }).seconds() * 1_000_000_000,
        forall|y: i32, m: u32|
            1 <= m <= 12 && month_index(last.cal().year as int, last.cal().month as int)
                <= month_index(y as int, m as int) < month_index(next_year, next_month) ==> !(
            #[trigger] moment_in_span(settlement_moment(y, m, day, hour), last, now)),
    ensures
        !settlement_passed(day, hour, last, now),
{
    last.lemma_valid();
    now.lemma_valid();
    let first = last.cal();
    let first_index = month_index(first.year as int, first.month as int);
    assert forall|y: i32, m: u32| !(#[trigger] moment_in_span(
        settlement_moment(y, m, day, hour),
        last,
        now,
    )) by {
        let c = settlement_moment(y, m, day, hour);
        if c.valid() {
            let index = month_index(y as int, m as int);
            if index < first_index {
                let start = Calendar { day: 1, hour: 0, minute: 0, second: 0, ..first };
                lemma_month_end(c, start);
                reveal(Calendar::seconds);
                reveal(crate::time::days_in_month);
                assert(start.seconds() <= first.seconds());
            } else if index >= month_index(next_year, next_month) {
                assert(next_year <= 262142);
                let start = Calendar {
                    year: next_year as i32,
                    month: next_month as u32,
                    day: 1,
                    hour: 0,
                    minute: 0,
                    second: 0,
                };
                reveal(crate::time::days_in_month);
                lemma_month_start(start, c);
            }
        }
    }
}

/// A map with every entry moved up by one settlement slot. Slot 12 is dropped.
pub open spec fn shifted<V>(m: Map<u32, V>, slot: int) -> Map<u32, V> {
    Map::new(
        |k: u32| slot <= k < 13 * slot && m.contains_key((k - slot) as u32),
        |k: u32| m[(k - slot) as u32],
    )
}

/// Moves every entry up by one settlement slot.
fn shift_slots<V: Copy>(table: &Table<V>, slot: u32) -> (r: Table<V>)
    requires
        0 < slot <= 0x100_0000,
    ensures
        r@ == shifted(table@, slot as int),
{
    let items = table.items();
    let mut out: Table<V> = Table::new();
    assert(items@.take(0) =~= Seq::<(u32, V)>::empty());
    for i in 0..items.len()
        invariant
            0 < slot <= 0x100_0000,
            forall|j: int|
                0 <= j < items@.len() ==> table@.contains_key((#[trigger] items@[j]).0)
                    && table@[items@[j].0] == items@[j].1,
            forall|k: u32|
                #[trigger] out@.contains_key(k) <==> slot <= k < 13 * slot && has_key(
                    items@.take(i as int),
                    (k - slot) as u32,
                ),
            forall|k: u32|
                #[trigger] out@.contains_key(k) ==> out@[k] == table@[(k - slot) as u32],
    {
        let key: u32 = items[i].0;
        let value: V = items[i].1;
        let ghost before = out@;
        if key < 12 * slot {
            out.insert(key + slot, value);
        }
        proof {
            let done = items@.take(i as int);
            let next = items@.take(i + 1);
            assert forall|k: u32| #[trigger] has_key(next, k) <==> has_key(done, k) || k == key by {
                if has_key(done, k) {
                    let p = crate::table::key_position(done, k);
                    assert(next[p].0 == k);
                }
                if k == key {
                    assert(next[i as int].0 == k);
                }
                if has_key(next, k) && k != key {
                    let p = crate::table::key_position(next, k);
                    assert(done[p].0 == k);
                }
            }
            assert(table@[items@[i as int].0] == items@[i as int].1);
            assert forall|k: u32| #[trigger] out@.contains_key(k) <==> slot <= k < 13 * slot
                && has_key(next, (k - slot) as u32) by {
                assert(before.contains_key(k) <==> slot <= k < 13 * slot && has_key(
                    done,
                    (k - slot) as u32,
                ));
            }
            assert forall|k: u32| #[trigger] out@.contains_key(k) implies out@[k] == table@[(k
                - slot) as u32] by {
                if k != key + slot || key >= 12 * slot {
                    assert(before.contains_key(k));
                }
            }
        }
    }
    proof {
        assert(items@.take(items@.len() as int) =~= items@);
        assert forall|k: u32| has_key(items@, k) <==> #[trigger] table@.contains_key(k) by {
            if has_key(items@, k) {
                let p = crate::table::key_position(items@, k);
                assert(items@[p].0 == k);
            }
        }
        assert(out@ =~= shifted(table@, slot as int));
    }
    out
}

/// The demand registers of the settlement slots, without those of the present period.
pub open spec fn settled_demands(m: Map<u32, DemandValue>) -> Map<u32, DemandValue> {
    Map::new(|k: u32| k >= 0x100_0000 && m.contains_key(k), |k: u32| m[k])
}

/// Leaves out the demand registers of the present period.
fn without_present(table: &Table<DemandValue>) -> (r: Table<DemandValue>)
    ensures
        r@ == settled_demands(table@),
{
    let items = table.items();
    let mut out: Table<DemandValue> = Table::new();
    for i in 0..items.len()
        invariant
            forall|j: int|
                0 <= j < items@.len() ==> table@.contains_key((#[trigger] items@[j]).0)
                    && table@[items@[j].0] == items@[j].1,
            forall|k: u32| #[trigger]
                out@.contains_key(k) ==> k >= DEMAND_SLOT && table@.contains_key(k) && out@[k]
                    == table@[k],
            forall|j: int|
                0 <= j < i && (#[trigger] items@[j]).0 >= DEMAND_SLOT ==> out@.contains_key(
                    items@[j].0,
                ),
    {
        let key: u32 = items[i].0;
        let value: DemandValue = items[i].1;
        assert(table@[items@[i as int].0] == items@[i as int].1);
        if key >= DEMAND_SLOT {
            out.insert(key, value);
        }
    }
    proof {
        assert forall|k: u32| k >= DEMAND_SLOT && #[trigger] table@.contains_key(
            k,
        ) implies out@.contains_key(k) by {
            let p = crate::table::key_position(items@, k);
            assert(items@[p].0 == k);
        }
        assert(out@ =~= settled_demands(table@));
    }
    out
}

/// The maximum demand was cleared: no demand of the present period is left, and the demands
/// of the settlement slots stay.
pub open spec fn demand_cleared(s0: MeterState, s1: MeterState, now: DateTime) -> bool {
    &&& s1.demand_registers@ == settled_demands(s0.demand_registers@)
    &&& s1 == (MeterState {
        max_demand: 0,
        max_demand_time: now,
        demand_registers: s1.demand_registers,
        ..s0
    })
}

impl MeterState {
    /// Clears the maximum demand at time `now`.
    pub fn clear_demand(&mut self, now: DateTime)
        ensures
            demand_cleared(*old(self), *final(self), now),
    {
        self.demand_registers = without_present(&self.demand_registers);
        self.max_demand = 0;
        self.max_demand_time = now;
    }
}

/// After a clearing every demand of the present period reads zero, and the registers of the
/// settlement slots read as before.
pub proof fn law_cleared_demand_reads_zero(
    s0: MeterState,
    s1: MeterState,
    now: DateTime,
    settlement: u8,
    phase: u8,
    t: EnergyType,
    rate: u8,
)
    requires
        demand_cleared(s0, s1, now),
    ensures
        s1.demand(0, phase, t, rate).value == 0,
        settlement >= 1 && s0.demand_registers@.contains_key(
            demand_key(settlement, phase, t, rate),
        ) ==> s1.demand(settlement, phase, t, rate) == s0.demand(settlement, phase, t, rate),
{
    assert(demand_key(0, phase, t, rate) < 0x100_0000);
    assert(settlement >= 1 ==> demand_key(settlement, phase, t, rate) >= 0x100_0000);
}

/// The energy registers as entries of settlement slot 1.
pub open spec fn as_first_slot(m: Map<u32, Quantity>) -> Map<u32, Quantity> {
    Map::new(
        |k: u32| 0x1_0000 <= k < 0x2_0000 && m.contains_key((k - 0x1_0000) as u32),
        |k: u32| m[(k - 0x1_0000) as u32],
    )
}

/// Copies the energy registers into settlement slot 1.
fn copy_to_first_slot(out: &mut Table<Quantity>, registers: &Table<Quantity>)
    ensures
        final(out)@ == old(out)@.union_prefer_right(as_first_slot(registers@)),
{
    let items = registers.items();
    let ghost start = out@;
    for i in 0..items.len()
        invariant
            forall|j: int|
                0 <= j < items@.len() ==> registers@.contains_key((#[trigger] items@[j]).0)
                    && registers@[items@[j].0] == items@[j].1,
            forall|k: u32|
                #[trigger] out@.contains_key(k) <==> start.contains_key(k) || (0x1_0000 <= k
                    < 0x2_0000 && has_key(items@.take(i as int), (k - 0x1_0000) as u32)),
            forall|k: u32| #[trigger]
                out@.contains_key(k) ==> out@[k] == (if 0x1_0000 <= k < 0x2_0000 && has_key(
                    items@.take(i as int),
                    (k - 0x1_0000) as u32,
                ) {
                    registers@[(k - 0x1_0000) as u32]
                } else {
                    start[k]
                }),
    {
        let key: u32 = items[i].0;
        let value: Quantity = items[i].1;
        let ghost before = out@;
        if key < ENERGY_SLOT {
            out.insert(key + ENERGY_SLOT, value);
        }
        proof {
            let done = items@.take(i as int);
            let next = items@.take(i + 1);
            assert forall|k: u32| #[trigger] has_key(next, k) <==> has_key(done, k) || k == key by {
                if has_key(done, k) {
                    let p = crate::table::key_position(done, k);
                    assert(next[p].0 == k);
                }
                if k == key {
                    assert(next[i as int].0 == k);
                }
                if has_key(next, k) && k != key {
                    let p = crate::table::key_position(next, k);
                    assert(done[p].0 == k);
                }
            }
            assert(registers@[items@[i as int].0] == items@[i as int].1);
            assert forall|k: u32| #[trigger] out@.contains_key(k) <==> start.contains_key(k) || (
            0x1_0000 <= k < 0x2_0000 && has_key(next, (k - 0x1_0000) as u32)) by {
                assert(before.contains_key(k) <==> start.contains_key(k) || (0x1_0000 <= k
                    < 0x2_0000 && has_key(done, (k - 0x1_0000) as u32)));
            }
            assert forall|k: u32| #[trigger] out@.contains_key(k) implies out@[k] == (if 0x1_0000
                <= k < 0x2_0000 && has_key(next, (k - 0x1_0000) as u32) {
                registers@[(k - 0x1_0000) as u32]
            } else {
                start[k]
            }) by {
                if k != key + 0x1_0000 || key >= 0x1_0000 {
                    assert(before.contains_key(k));
                }
            }
        }
    }
    proof {
        assert(items@.take(items@.len() as int) =~= items@);
        assert forall|k: u32| has_key(items@, k) <==> #[trigger] registers@.contains_key(k) by {
            if has_key(items@, k) {
                let p = crate::table::key_position(items@, k);
                assert(items@[p].0 == k);
            }
        }
        assert(out@ =~= start.union_prefer_right(as_first_slot(registers@)));
    }
}

/// When the clock was last compared with the settlement days; now, if it never was.
pub open spec fn last_settlement_check(s: MeterState) -> DateTime {
    match s.last_settlement_rollover {
        Some(t) => t,
        None => s.virtual_time,
    }
}

/// The clock passed one of the settlement days since it was last compared with them.
pub open spec fn rollover_due(s: MeterState) -> bool {
    exists|i: int| 0 <= i < 3 && #[trigger] settlement_passed(
        s.settlement_days@[i],
        s.settlement_hours@[i],
        last_settlement_check(s),
        s.virtual_time,
    )
}

/// What is left to say of a settlement when its time has come: every slot moves up, the
/// present period becomes slot 1, and the demands start again from zero.
pub open spec fn rolled_over(before: MeterState, after: MeterState) -> bool {
    &&& after.settlement_energies@ == shifted(
        before.settlement_energies@,
        0x1_0000,
    ).union_prefer_right(as_first_slot(before.energy_registers@))
    &&& after.settlement_phase_energies@ == shifted(
        before.settlement_phase_energies@,
        0x100,
    ).insert(phase_key(1, 0), before.phase_forward_active@[0]).insert(
        phase_key(1, 1),
        before.phase_forward_active@[1],
    ).insert(phase_key(1, 2), before.phase_forward_active@[2])
    &&& after.demand_registers@ == shifted(before.demand_registers@, 0x100_0000).insert(
        demand_key(1, 0, EnergyType::ForwardActive, 0),
        DemandValue { value: before.max_demand, time: before.max_demand_time },
    )
    &&& after == (MeterState {
        last_settlement_rollover: Some(before.virtual_time),
        settlement_energies: after.settlement_energies,
        settlement_phase_energies: after.settlement_phase_energies,
        demand_registers: after.demand_registers,
        max_demand: 0,
        max_demand_time: before.virtual_time,
        ..before
    })
}

impl MeterState {
    /// Settles the present period if the clock passed a settlement day. Energies go on
    /// counting; demands start again.
    pub fn settlement_rollover_if_due(&mut self) -> (r: bool)
        ensures
            r == rollover_due(*old(self)),
            r ==> rolled_over(*old(self), *final(self)),
            !r ==> *final(self) == (MeterState {
                last_settlement_rollover: Some(old(self).virtual_time),
                ..*old(self)
            }),
    {
        let now = self.virtual_time;
        let last = match self.last_settlement_rollover {
            Some(t) => t,
            None => now,
        };
        let mut due: bool = false;
        let days: [u8; 3] = self.settlement_days;
        let hours: [u8; 3] = self.settlement_hours;
        for i in 0..3
            invariant
                due == (exists|j: int| 0 <= j < i && #[trigger] settlement_passed(
                    days@[j],
                    hours@[j],
                    last,
                    now,
                )),
        {
            if settlement_crossed(days[i], hours[i], &last, &now) {
                assert(settlement_passed(days@[i as int], hours@[i as int], last, now));
                due = true;
            }
        }
        proof {
            let s = *old(self);
            assert(days == s.settlement_days && hours == s.settlement_hours);
            assert(last == last_settlement_check(s) && now == s.virtual_time);
            assert(due == exists|j: int| 0 <= j < 3 && #[trigger] settlement_passed(
                s.settlement_days@[j],
                s.settlement_hours@[j],
                last,
                now,
            ));
        }
        self.last_settlement_rollover = Some(now);
        if !due {
            return false;
        }
        let mut energies = shift_slots(&self.settlement_energies, ENERGY_SLOT);
        copy_to_first_slot(&mut energies, &self.energy_registers);
        self.settlement_energies = energies;
        let mut phases = shift_slots(&self.settlement_phase_energies, PHASE_SLOT);
        phases.insert(make_phase_key(1, 0), self.phase_forward_active[0]);
        phases.insert(make_phase_key(1, 1), self.phase_forward_active[1]);
        phases.insert(make_phase_key(1, 2), self.phase_forward_active[2]);
        self.settlement_phase_energies = phases;
        let mut demands = shift_slots(&self.demand_registers, DEMAND_SLOT);
        demands.insert(
            make_demand_key(1, 0, EnergyType::ForwardActive, 0),
            DemandValue { value: self.max_demand, time: self.max_demand_time },
        );
        self.demand_registers = demands;
        self.max_demand = 0;
        self.max_demand_time = now;
        true
    }
}

/// A settlement keeps every energy: what was read for a slot is read for the next one
/// afterwards, and the present energies stay as they are.
pub proof fn law_rollover_keeps_energies(
    before: MeterState,
    after: MeterState,
    settlement: u8,
    t: EnergyType,
    rate: u8,
)
    requires
        rolled_over(before, after),
        1 <= settlement <= 11,
    ensures
        after.energy(t, rate) == before.energy(t, rate),
        before.energy_registers@.contains_key(energy_key(t, rate)) ==> after.slot_energy(1, t, rate)
            == before.energy(t, rate),
        after.slot_energy((settlement + 1) as u8, t, rate) == before.slot_energy(
            settlement,
            t,
            rate,
        ),
        !after.settlement_energies@.contains_key(settlement_key(13, t, rate)),
{
    let up = settlement_key((settlement + 1) as u8, t, rate);
    assert(up - 0x1_0000 == settlement_key(settlement, t, rate));
    assert(!(0x1_0000 <= up < 0x2_0000));
    assert(settlement_key(1, t, rate) - 0x1_0000 == energy_key(t, rate));
    assert(0x1_0000 <= settlement_key(1, t, rate) < 0x2_0000);
}

/// A settlement keeps every demand: the present demands become those of slot 1, each slot
/// becomes the next, and the new period starts without demand.
pub proof fn law_rollover_keeps_demands(
    before: MeterState,
    after: MeterState,
    settlement: u8,
    phase: u8,
    t: EnergyType,
    rate: u8,
)
    requires
        rolled_over(before, after),
        settlement <= 11,
        before.demand_registers@.contains_key(demand_key(settlement, phase, t, rate)),
        !(settlement == 0 && phase == 0 && t == EnergyType::ForwardActive && rate == 0),
    ensures
        after.demand((settlement + 1) as u8, phase, t, rate) == before.demand(
            settlement,
            phase,
            t,
            rate,
        ),
        after.demand(1, 0, EnergyType::ForwardActive, 0) == (DemandValue {
            value: before.max_demand,
            time: before.max_demand_time,
        }),
        !after.demand_registers@.contains_key(demand_key(0, phase, t, rate)),
        after.demand(0, phase, t, rate).value == 0,
{
    let up = demand_key((settlement + 1) as u8, phase, t, rate);
    assert(up - 0x100_0000 == demand_key(settlement, phase, t, rate));
    let first = demand_key(1, 0, EnergyType::ForwardActive, 0);
    assert(up != first) by {
        if up == first {
            assert(settlement == 0);
            assert(phase == 0);
            assert(t.number() == 1);
        }
    }
    assert(demand_key(0, phase, t, rate) < 0x100_0000);
}

/// A settlement keeps the energy of each phase.
pub proof fn law_rollover_keeps_phases(
    before: MeterState,
    after: MeterState,
    settlement: u8,
    phase: u8,
)
    requires
        rolled_over(before, after),
        settlement <= 11,
        phase < 3,
    ensures
        after.phase_energy((settlement + 1) as u8, phase) == before.phase_energy(settlement, phase),
        after.phase_energy(0, phase) == before.phase_energy(0, phase),
{
    let up = phase_key((settlement + 1) as u8, phase);
    assert(up - 0x100 == phase_key(settlement, phase));
    if settlement == 0 {
        assert(up == phase_key(1, phase));
    } else {
        assert(up >= 0x200);
    }
}

/// A settlement takes place once: looked at again at the same moment, nothing is due.
pub proof fn law_rollover_once(s: MeterState)
    requires
        s.last_settlement_rollover == Some(s.virtual_time),
    ensures
        !rollover_due(s),
{
}

} // verus!
