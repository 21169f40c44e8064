//! Freezes: snapshots of the meter at chosen moments.

use crate::quantity::Quantity;
use crate::simulation::state::{EnergyType, MeterState};
use crate::time::DateTime;
use vstd::prelude::*;

verus! {

/// What made the meter take a snapshot: the third byte of its identifier.
#[derive(Debug, Clone, Copy, PartialEq, Eq, Structural, Hash)]
pub enum FreezeTrigger {
    /// 00: timed, by month, day or hour
    Timed,
    /// 01: on command
    Instant,
    /// 02: change of the zone tables
    TimeZoneSwitch,
    /// 03: change of the day tables
    DayTableSwitch,
    /// 04: hourly
    Hourly,
    /// 06: daily
    Daily,
    /// 07: change of the ladder tables
    LadderSwitch,
}

impl FreezeTrigger {
    pub open spec fn di2(self) -> u8 {
        match self {
            FreezeTrigger::Timed => 0x00,
            FreezeTrigger::Instant => 0x01,
            FreezeTrigger::TimeZoneSwitch => 0x02,
            FreezeTrigger::DayTableSwitch => 0x03,
            FreezeTrigger::Hourly => 0x04,
            FreezeTrigger::Daily => 0x06,
            FreezeTrigger::LadderSwitch => 0x07,
        }
    }

    /// How many snapshots of this kind the meter keeps.
    pub open spec fn history(self) -> u8 {
        match self {
            FreezeTrigger::Timed => 12,
            FreezeTrigger::Hourly => 62,
            FreezeTrigger::Daily => 62,
            _ => 3,
        }
    }

    /// The trigger with the given identifier byte, if there is one.
    pub fn from_di2(di2: u8) -> (r: Option<FreezeTrigger>)
        ensures
            r matches Some(t) ==> t.di2() == di2,
            r is None ==> forall|t: FreezeTrigger| #[trigger] t.di2() != di2,
    {
        match di2 {
            0x00 => Some(FreezeTrigger::Timed),
            0x01 => Some(FreezeTrigger::Instant),
            0x02 => Some(FreezeTrigger::TimeZoneSwitch),
            0x03 => Some(FreezeTrigger::DayTableSwitch),
            0x04 => Some(FreezeTrigger::Hourly),
            0x06 => Some(FreezeTrigger::Daily),
            0x07 => Some(FreezeTrigger::LadderSwitch),
            _ => None,
        }
    }

    /// The identifier byte of the trigger.
    pub fn to_di2(&self) -> (r: u8)
        ensures
            r == self.di2(),
    {
        match self {
            FreezeTrigger::Timed => 0x00,
            FreezeTrigger::Instant => 0x01,
            FreezeTrigger::TimeZoneSwitch => 0x02,
            FreezeTrigger::DayTableSwitch => 0x03,
            FreezeTrigger::Hourly => 0x04,
            FreezeTrigger::Daily => 0x06,
            FreezeTrigger::LadderSwitch => 0x07,
        }
    }

    /// How many snapshots of this kind the meter keeps.
    pub fn max_history_count(&self) -> (r: u8)
        ensures
            r == self.history(),
    {
        match self {
            FreezeTrigger::Timed => 12,
            FreezeTrigger::Instant => 3,
            FreezeTrigger::TimeZoneSwitch => 3,
            FreezeTrigger::DayTableSwitch => 3,
            FreezeTrigger::Hourly => 62,
            FreezeTrigger::Daily => 62,
            FreezeTrigger::LadderSwitch => 3,
        }
    }
}

/// The identifier byte tells the triggers apart.
pub proof fn law_trigger_code(a: FreezeTrigger, b: FreezeTrigger)
    requires
        a.di2() == b.di2(),
    ensures
        a == b,
{
}

/// Which part of a snapshot is meant: the second byte of its identifier.
#[derive(Debug, Clone, Copy, PartialEq, Eq, Structural, Hash)]
pub struct FreezeDataCategory(pub u8);

impl FreezeDataCategory {
    /// Time of the freeze.
    pub const TIME: u8 = 0x00;

    pub const FORWARD_ACTIVE: u8 = 0x01;

    pub const REVERSE_ACTIVE: u8 = 0x02;

    pub const FORWARD_REACTIVE: u8 = 0x03;

    pub const REVERSE_REACTIVE: u8 = 0x04;

    /// All parts.
    pub const BLOCK_ALL: u8 = 0xFF;
}

/// A freeze that is due.
#[derive(Debug, Clone, Copy, PartialEq, Eq, Structural)]
pub enum FreezeType {
    Timed,
    /// On command, numbered 1 to 63
    Instant(u8),
    Appointment,
    Hourly,
    Daily,
    /// Caused by an event of the given kind
    Event(u8),
}

/// What a snapshot holds.
#[derive(Debug, Clone)]
pub struct FreezeData {
    pub forward_active_total: Quantity,
    pub forward_active_rates: Vec<Quantity>,
    pub reverse_active_total: Quantity,
    pub reverse_active_rates: Vec<Quantity>,
    pub forward_reactive_total: Quantity,
    pub forward_reactive_rates: Vec<Quantity>,
    pub reverse_reactive_total: Quantity,
    pub reverse_reactive_rates: Vec<Quantity>,
    pub quadrant1_reactive_total: Quantity,
    pub quadrant1_reactive_rates: Vec<Quantity>,
    pub quadrant2_reactive_total: Quantity,
    pub quadrant2_reactive_rates: Vec<Quantity>,
    pub quadrant3_reactive_total: Quantity,
    pub quadrant3_reactive_rates: Vec<Quantity>,
    pub quadrant4_reactive_total: Quantity,
    pub quadrant4_reactive_rates: Vec<Quantity>,
    pub max_demand_active: Quantity,
    pub max_demand_active_time: DateTime,
    pub max_demand_active_rates: Vec<(Quantity, DateTime)>,
    pub max_demand_reactive: Quantity,
    pub max_demand_reactive_time: DateTime,
    pub max_demand_reactive_rates: Vec<(Quantity, DateTime)>,
    pub voltages: Option<[Quantity; 3]>,
    pub currents: Option<[Quantity; 3]>,
    pub active_power: Option<Quantity>,
    pub reactive_power: Option<Quantity>,
    pub power_factor: Option<Quantity>,
    pub frequency: Option<Quantity>,
}

/// The energies of rates 1 to the number of rates.
pub open spec fn rate_energies(s: MeterState, t: EnergyType) -> Seq<Quantity> {
    Seq::new(s.num_rates as nat, |i: int| s.energy(t, (i + 1) as u8))
}

/// The demands of rates 1 to the number of rates, with their times.
pub open spec fn rate_demands(s: MeterState, t: EnergyType) -> Seq<(Quantity, DateTime)> {
    Seq::new(
        s.num_rates as nat,
        |i: int| (s.demand(0, 0, t, (i + 1) as u8).value, s.demand(0, 0, t, (i + 1) as u8).time),
    )
}

impl FreezeData {
    /// Nothing frozen: all values zero or absent, all times `now`.
    pub open spec fn is_empty_at(self, now: DateTime, later: DateTime) -> bool {
        &&& self.forward_active_total == 0
        &&& self.forward_active_rates@.len() == 0
        &&& self.reverse_active_total == 0
        &&& self.reverse_active_rates@.len() == 0
        &&& self.forward_reactive_total == 0
        &&& self.forward_reactive_rates@.len() == 0
        &&& self.reverse_reactive_total == 0
        &&& self.reverse_reactive_rates@.len() == 0
        &&& self.quadrant1_reactive_total == 0
        &&& self.quadrant1_reactive_rates@.len() == 0
        &&& self.quadrant2_reactive_total == 0
        &&& self.quadrant2_reactive_rates@.len() == 0
        &&& self.quadrant3_reactive_total == 0
        &&& self.quadrant3_reactive_rates@.len() == 0
        &&& self.quadrant4_reactive_total == 0
        &&& self.quadrant4_reactive_rates@.len() == 0
        &&& self.max_demand_active == 0
        &&& self.max_demand_active_time == now
        &&& self.max_demand_active_rates@.len() == 0
        &&& self.max_demand_reactive == 0
        &&& self.max_demand_reactive_time == later
        &&& self.max_demand_reactive_rates@.len() == 0
        &&& self.voltages is None
        &&& self.currents is None
        &&& self.active_power is None
        &&& self.reactive_power is None
        &&& self.power_factor is None
        &&& self.frequency is None
    }

    /// The data are those of the state: all totals and rates of the energies and demands,
    /// and the instantaneous values.
    pub open spec fn captures(self, s: MeterState) -> bool {
        &&& self.forward_active_total == s.energy(EnergyType::ForwardActive, 0)
        &&& self.forward_active_rates@ == rate_energies(s, EnergyType::ForwardActive)
        &&& self.reverse_active_total == s.energy(EnergyType::ReverseActive, 0)
        &&& self.reverse_active_rates@ == rate_energies(s, EnergyType::ReverseActive)
        &&& self.forward_reactive_total == s.energy(EnergyType::ForwardReactive, 0)
        &&& self.forward_reactive_rates@ == rate_energies(s, EnergyType::ForwardReactive)
        &&& self.reverse_reactive_total == s.energy(EnergyType::ReverseReactive, 0)
        &&& self.reverse_reactive_rates@ == rate_energies(s, EnergyType::ReverseReactive)
        &&& self.quadrant1_reactive_total == s.energy(EnergyType::Quadrant1Reactive, 0)
        &&& self.quadrant1_reactive_rates@ == rate_energies(s, EnergyType::Quadrant1Reactive)
        &&& self.quadrant2_reactive_total == s.energy(EnergyType::Quadrant2Reactive, 0)
        &&& self.quadrant2_reactive_rates@ == rate_energies(s, EnergyType::Quadrant2Reactive)
        &&& self.quadrant3_reactive_total == s.energy(EnergyType::Quadrant3Reactive, 0)
        &&& self.quadrant3_reactive_rates@ == rate_energies(s, EnergyType::Quadrant3Reactive)
        &&& self.quadrant4_reactive_total == s.energy(EnergyType::Quadrant4Reactive, 0)
        &&& self.quadrant4_reactive_rates@ == rate_energies(s, EnergyType::Quadrant4Reactive)
        &&& self.max_demand_active == s.max_demand
        &&& self.max_demand_active_time == s.max_demand_time
        &&& self.max_demand_active_rates@ == rate_demands(s, EnergyType::ForwardActive)
        &&& self.max_demand_reactive == s.demand(0, 0, EnergyType::ForwardReactive, 0).value
        &&& self.max_demand_reactive_time == s.demand(0, 0, EnergyType::ForwardReactive, 0).time
        &&& self.max_demand_reactive_rates@ == rate_demands(s, EnergyType::ForwardReactive)
        &&& self.voltages matches Some(v) && v@ == seq![s.voltage_a, s.voltage_b, s.voltage_c]
        &&& self.currents matches Some(v) && v@ == seq![s.current_a, s.current_b, s.current_c]
        &&& self.active_power == Some(s.active_power_total)
        &&& self.reactive_power == Some(s.reactive_power_total)
        &&& self.power_factor == Some(s.power_factor)
        &&& self.frequency == Some(s.frequency)
    }

    /// The data of the present state.
    pub fn from_meter_state(state: &MeterState) -> (r: FreezeData)
        ensures
            r.captures(*state),
    {
        let reactive = state.get_demand(0, 0, EnergyType::ForwardReactive, None);
        let voltages: [Quantity; 3] = [state.voltage_a, state.voltage_b, state.voltage_c];
        let currents: [Quantity; 3] = [state.current_a, state.current_b, state.current_c];
        assert(voltages@ =~= seq![state.voltage_a, state.voltage_b, state.voltage_c]);
        assert(currents@ =~= seq![state.current_a, state.current_b, state.current_c]);
        FreezeData {
            forward_active_total: state.get_energy(EnergyType::ForwardActive, None),
            forward_active_rates: collect_rate_energies(state, EnergyType::ForwardActive),
            reverse_active_total: state.get_energy(EnergyType::ReverseActive, None),
            reverse_active_rates: collect_rate_energies(state, EnergyType::ReverseActive),
            forward_reactive_total: state.get_energy(EnergyType::ForwardReactive, None),
            forward_reactive_rates: collect_rate_energies(state, EnergyType::ForwardReactive),
            reverse_reactive_total: state.get_energy(EnergyType::ReverseReactive, None),
            reverse_reactive_rates: collect_rate_energies(state, EnergyType::ReverseReactive),
            quadrant1_reactive_total: state.get_energy(EnergyType::Quadrant1Reactive, None),
            quadrant1_reactive_rates: collect_rate_energies(state, EnergyType::Quadrant1Reactive),
            quadrant2_reactive_total: state.get_energy(EnergyType::Quadrant2Reactive, None),
            quadrant2_reactive_rates: collect_rate_energies(state, EnergyType::Quadrant2Reactive),
            quadrant3_reactive_total: state.get_energy(EnergyType::Quadrant3Reactive, None),
            quadrant3_reactive_rates: collect_rate_energies(state, EnergyType::Quadrant3Reactive),
            quadrant4_reactive_total: state.get_energy(EnergyType::Quadrant4Reactive, None),
            quadrant4_reactive_rates: collect_rate_energies(state, EnergyType::Quadrant4Reactive),
            max_demand_active: state.max_demand,
            max_demand_active_time: state.max_demand_time,
            max_demand_active_rates: collect_rate_demands(state, EnergyType::ForwardActive),
            max_demand_reactive: reactive.value,
            max_demand_reactive_time: reactive.time,
            max_demand_reactive_rates: collect_rate_demands(state, EnergyType::ForwardReactive),
            voltages: Some(voltages),
            currents: Some(currents),
            active_power: Some(state.active_power_total),
            reactive_power: Some(state.reactive_power_total),
            power_factor: Some(state.power_factor),
            frequency: Some(state.frequency),
        }
    }
}

impl Default for FreezeData {
    fn default() -> (r: FreezeData)
        ensures
            exists|now: DateTime, later: DateTime| #[trigger] r.is_empty_at(now, later),
    {
        let now = DateTime::now();
        let later = DateTime::now();
        let r = FreezeData {
            forward_active_total: 0,
            forward_active_rates: Vec::new(),
            reverse_active_total: 0,
            reverse_active_rates: Vec::new(),
            forward_reactive_total: 0,
            forward_reactive_rates: Vec::new(),
            reverse_reactive_total: 0,
            reverse_reactive_rates: Vec::new(),
            quadrant1_reactive_total: 0,
            quadrant1_reactive_rates: Vec::new(),
            quadrant2_reactive_total: 0,
            quadrant2_reactive_rates: Vec::new(),
            quadrant3_reactive_total: 0,
            quadrant3_reactive_rates: Vec::new(),
            quadrant4_reactive_total: 0,
            quadrant4_reactive_rates: Vec::new(),
            max_demand_active: 0,
            max_demand_active_time: now,
            max_demand_active_rates: Vec::new(),
            max_demand_reactive: 0,
            max_demand_reactive_time: later,
            max_demand_reactive_rates: Vec::new(),
            voltages: None,
            currents: None,
            active_power: None,
            reactive_power: None,
            power_factor: None,
            frequency: None,
        };
        assert(r.is_empty_at(now, later));
        r
    }
}

fn collect_rate_energies(state: &MeterState, t: EnergyType) -> (r: Vec<Quantity>)
    ensures
        r@ == rate_energies(*state, t),
{
    let mut out: Vec<Quantity> = Vec::new();
    for i in 0..state.num_rates
        invariant
            out@ == rate_energies(*state, t).take(i as int),
    {
        out.push(state.get_energy(t, Some(i + 1)));
        assert(out@ =~= rate_energies(*state, t).take(i + 1));
    }
    assert(rate_energies(*state, t).take(state.num_rates as int) =~= rate_energies(*state, t));
    out
}

fn collect_rate_demands(state: &MeterState, t: EnergyType) -> (r: Vec<(Quantity, DateTime)>)
    ensures
        r@ == rate_demands(*state, t),
{
    let mut out: Vec<(Quantity, DateTime)> = Vec::new();
    for i in 0..state.num_rates
        invariant
            out@ == rate_demands(*state, t).take(i as int),
    {
        let demand = state.get_demand(0, 0, t, Some(i + 1));
        out.push((demand.value, demand.time));
        assert(out@ =~= rate_demands(*state, t).take(i + 1));
    }
    assert(rate_demands(*state, t).take(state.num_rates as int) =~= rate_demands(*state, t));
    out
}

/// A snapshot.
#[derive(Debug, Clone)]
pub struct FreezeSnapshot {
    pub snapshot_time: DateTime,
    pub trigger_type: FreezeTrigger,
    /// 1 for the newest snapshot of its kind
    pub occurrence_index: u8,
    pub data: FreezeData,
}

/// The last snapshots of one kind, the newest first.
#[derive(Debug, Clone)]
pub struct FreezeRingBuffer {
    capacity: usize,
    snapshots: Vec<FreezeSnapshot>,
}

/// Snapshots numbered from 1 in the order in which they stand. Numbers are bytes.
pub open spec fn renumbered(snapshots: Seq<FreezeSnapshot>) -> Seq<FreezeSnapshot> {
    Seq::new(
        snapshots.len(),
        |i: int| FreezeSnapshot { occurrence_index: ((i + 1) % 256) as u8, ..snapshots[i] },
    )
}

/// What a buffer holds after one more snapshot: it comes first, and the oldest leaves if
/// there is no room for it.
pub open spec fn frozen(
    snapshots: Seq<FreezeSnapshot>,
    capacity: nat,
    snapshot: FreezeSnapshot,
) -> Seq<FreezeSnapshot> {
    let all = seq![snapshot] + snapshots;
    renumbered(
        if all.len() > capacity {
            all.drop_last()
        } else {
            all
        },
    )
}

impl View for FreezeRingBuffer {
    type V = Seq<FreezeSnapshot>;

    closed spec fn view(&self) -> Seq<FreezeSnapshot> {
        self.snapshots@
    }
}

impl FreezeRingBuffer {
    pub closed spec fn room(self) -> nat {
        self.capacity as nat
    }

    /// An empty buffer with room for `capacity` snapshots.
    pub fn new(capacity: usize) -> (r: FreezeRingBuffer)
        ensures
            r.room() == capacity,
            r@ == Seq::<FreezeSnapshot>::empty(),
    {
        FreezeRingBuffer { capacity, snapshots: Vec::new() }
    }

    /// Adds a snapshot as the newest and numbers all anew. Returns the newest number.
    pub fn push(&mut self, snapshot: FreezeSnapshot) -> (r: u8)
        ensures
            r == 1,
            final(self).room() == old(self).room(),
            final(self)@ == frozen(old(self)@, old(self).room(), snapshot),
    {
        self.snapshots.insert(0, snapshot);
        let ghost all = seq![snapshot] + old(self)@;
        assert(self.snapshots@ =~= all);
        if self.snapshots.len() > self.capacity {
            self.snapshots.pop();
        }
        let ghost kept = self.snapshots@;
        assert(kept =~= (if all.len() > old(self).room() {
            all.drop_last()
        } else {
            all
        }));
        let n: usize = self.snapshots.len();
        for i in 0..n
            invariant
                n == self.snapshots@.len(),
                n == kept.len(),
                self.capacity == old(self).capacity,
                forall|j: int|
                    0 <= j < i ==> (#[trigger] self.snapshots@[j]) == renumbered(kept)[j],
                forall|j: int| i <= j < n ==> (#[trigger] self.snapshots@[j]) == kept[j],
        {
            let number: u8 = ((i % 256 + 1) % 256) as u8;
            let s = &mut self.snapshots[i];
            s.occurrence_index = number;
        }
        assert(self.snapshots@ =~= renumbered(kept));
        1
    }

    /// The snapshot with the given number, 1 being the newest. No number above the
    /// capacity, taken as a byte, is served.
    pub fn get(&self, index: u8) -> (r: Option<&FreezeSnapshot>)
        ensures
            r is Some <==> 1 <= index <= self.room() % 256 && index <= self@.len(),
            r matches Some(s) ==> *s == self@[index - 1],
    {
        if index == 0 || index as usize > self.capacity % 256 {
            return None;
        }
        let i: usize = (index - 1) as usize;
        if i < self.snapshots.len() {
            Some(&self.snapshots[i])
        } else {
            None
        }
    }

    /// All snapshots, the newest first.
    pub fn get_all(&self) -> (r: &Vec<FreezeSnapshot>)
        ensures
            r@ == self@,
    {
        &self.snapshots
    }

    pub fn len(&self) -> (r: usize)
        ensures
            r == self@.len(),
    {
        self.snapshots.len()
    }

    pub fn is_empty(&self) -> (r: bool)
        ensures
            r == (self@.len() == 0),
    {
        self.snapshots.len() == 0
    }

    pub fn clear(&mut self)
        ensures
            final(self).room() == old(self).room(),
            final(self)@ == Seq::<FreezeSnapshot>::empty(),
    {
        self.snapshots.clear();
    }
}

impl Default for FreezeRingBuffer {
    /// Room for twelve snapshots.
    fn default() -> (r: FreezeRingBuffer)
        ensures
            r.room() == 12,
            r@ == Seq::<FreezeSnapshot>::empty(),
    {
        FreezeRingBuffer::new(12)
    }
}

/// What a buffer holds after many snapshots.
pub open spec fn frozen_all(capacity: nat, stream: Seq<FreezeSnapshot>) -> Seq<FreezeSnapshot>
    decreases stream.len(),
{
    if stream.len() == 0 {
        seq![]
    } else {
        frozen(frozen_all(capacity, stream.drop_last()), capacity, stream.last())
    }
}

/// A buffer holds the last snapshots that were put in, the newest first, numbered from 1.
pub proof fn law_freeze_ring_keeps_latest(capacity: nat, stream: Seq<FreezeSnapshot>)
    ensures
        frozen_all(capacity, stream).len() == (if stream.len() <= capacity {
            stream.len()
        } else {
            capacity
        }),
        forall|i: int|
            0 <= i < frozen_all(capacity, stream).len() ==> (#[trigger] frozen_all(
                capacity,
                stream,
            )[i]) == (FreezeSnapshot {
                occurrence_index: ((i + 1) % 256) as u8,
                ..stream[stream.len() - 1 - i]
            }),
    decreases stream.len(),
{
    if stream.len() > 0 {
        let before = frozen_all(capacity, stream.drop_last());
        law_freeze_ring_keeps_latest(capacity, stream.drop_last());
        let all = seq![stream.last()] + before;
        let after = frozen_all(capacity, stream);
        assert forall|i: int| 0 <= i < after.len() implies (#[trigger] after[i]) == (
        FreezeSnapshot {
            occurrence_index: ((i + 1) % 256) as u8,
            ..stream[stream.len() - 1 - i]
        }) by {
            if i > 0 {
                assert(all[i] == before[i - 1]);
            }
        }
    }
}

} // verus!
