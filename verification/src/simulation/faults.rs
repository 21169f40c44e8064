//! Faults: when they begin and end, and what is recorded of them.

use crate::bytes::append;
use crate::quantity::{difference, clamped, scale, scaled, Quantity};
use crate::protocol::format::{bcd_digits, u64_to_bcd};
use crate::simulation::event::EventRecord;
use crate::simulation::measurement::from_thousandths;
use crate::simulation::state::{event_key, make_event_key, EnergyType, MeterState};
use crate::table::Table;
use crate::time::DateTime;
use vstd::prelude::*;

verus! {

/// Energies when a fault began: forward and reverse active, combined reactive 1 and 2.
pub type Baseline = [Quantity; 4];

pub open spec fn phase_voltage_of(s: MeterState, phase: u8) -> Quantity {
    if phase == 1 {
        s.voltage_a
    } else if phase == 2 {
        s.voltage_b
    } else {
        s.voltage_c
    }
}

pub open spec fn phase_current_of(s: MeterState, phase: u8) -> Quantity {
    if phase == 1 {
        s.current_a
    } else if phase == 2 {
        s.current_b
    } else {
        s.current_c
    }
}

/// Below 70 percent of the rated voltage.
pub open spec fn voltage_lost(s: MeterState, phase: u8) -> bool {
    phase_voltage_of(s, phase) * 10 < from_thousandths(s.rated_voltage) * 7
}

/// Below 10 percent of the rated voltage.
pub open spec fn phase_lost(s: MeterState, phase: u8) -> bool {
    phase_voltage_of(s, phase) * 10 < from_thousandths(s.rated_voltage)
}

/// The measured values show the fault: loss of voltage (01, below 70 percent of the rated
/// value), undervoltage (02, from there to 90 percent), overvoltage (03, above 120
/// percent), loss of a phase (04, below 10 percent), loss of current (0B, below 5 percent)
/// and overcurrent (0C, above 120 percent) in phases 1 to 3; loss of all voltages (05) and
/// power failure (0F, loss of all phases) for the meter as a whole.
pub open spec fn fault_shows(s: MeterState, event_type: u8, sub_type: u8) -> bool {
    let v = phase_voltage_of(s, sub_type);
    let i = phase_current_of(s, sub_type);
    let vn = from_thousandths(s.rated_voltage);
    let rated = from_thousandths(s.rated_current);
    if 1 <= sub_type <= 3 {
        match event_type {
            0x01u8 => voltage_lost(s, sub_type),
            0x02u8 => !voltage_lost(s, sub_type) && v * 10 < vn * 9,
            0x03u8 => v * 10 > vn * 12,
            0x04u8 => phase_lost(s, sub_type),
            0x0Bu8 => i * 20 < rated,
            0x0Cu8 => i * 10 > rated * 12,
            _ => false,
        }
    } else if sub_type == 0 {
        match event_type {
            0x05u8 => voltage_lost(s, 1) && voltage_lost(s, 2) && voltage_lost(s, 3),
            0x0Fu8 => phase_lost(s, 1) && phase_lost(s, 2) && phase_lost(s, 3),
            _ => false,
        }
    } else {
        false
    }
}

/// The fault is there: the measured values show it, or it is injected.
pub open spec fn fault_present(
    s: MeterState,
    forced: Seq<(u8, u8)>,
    event_type: u8,
    sub_type: u8,
) -> bool {
    fault_shows(s, event_type, sub_type) || forced.contains((event_type, sub_type))
}

/// Voltage, current, active and reactive power and power factor of a phase.
pub open spec fn phase_digits(s: MeterState, sub_type: u8) -> Seq<u8> {
    let (p, q) = if sub_type == 1 {
        (s.active_power_a, s.reactive_power_a)
    } else if sub_type == 2 {
        (s.active_power_b, s.reactive_power_b)
    } else {
        (s.active_power_c, s.reactive_power_c)
    };
    bcd_digits(scaled(phase_voltage_of(s, sub_type), 1), 2) + bcd_digits(
        scaled(phase_current_of(s, sub_type), 3),
        3,
    ) + bcd_digits(scaled(p, 4), 3) + bcd_digits(scaled(q, 4), 3) + bcd_digits(
        scaled(s.power_factor, 3),
        2,
    )
}

/// Where the values of a phase stand in the data of a fault: behind 16 bytes for the totals
/// and 16 of the phase's own increments, 29 bytes per phase.
pub open spec fn phase_offset(sub_type: u8) -> nat {
    if sub_type <= 1 {
        32
    } else if sub_type == 2 {
        61
    } else {
        90
    }
}

pub open spec fn zero_run(n: nat) -> Seq<u8> {
    Seq::new(n, |i: int| 0u8)
}

/// The 119 bytes of data of a fault that begins: zeros but for the values of its phase.
pub open spec fn fault_data(s: MeterState, sub_type: u8) -> Seq<u8> {
    zero_run(phase_offset(sub_type)) + phase_digits(s, sub_type) + zero_run(
        (106 - phase_offset(sub_type)) as nat,
    )
}

/// The present energies.
pub open spec fn energies_now(s: MeterState) -> Seq<Quantity> {
    seq![
        s.energy(EnergyType::ForwardActive, 0),
        s.energy(EnergyType::ReverseActive, 0),
        s.energy(EnergyType::ForwardReactive, 0),
        s.energy(EnergyType::ReverseReactive, 0),
    ]
}

/// How far the energies have come since a baseline.
pub open spec fn increments_since(s: MeterState, base: Seq<Quantity>) -> Seq<Quantity> {
    Seq::new(4, |i: int| clamped(energies_now(s)[i] - base[i]))
}

/// Nothing is different for one kind of event.
pub open spec fn kind_untouched(
    f0: Map<u32, Baseline>,
    s0: MeterState,
    f1: Map<u32, Baseline>,
    s1: MeterState,
    event_type: u8,
    sub_type: u8,
) -> bool {
    let key = event_key(event_type, sub_type);
    &&& f1.contains_key(key) == f0.contains_key(key)
    &&& f0.contains_key(key) ==> f1[key] == f0[key]
    &&& s1.event_records@.contains_key(key) == s0.event_records@.contains_key(key)
    &&& s0.event_records@.contains_key(key) ==> s1.event_records@[key] == s0.event_records@[key]
    &&& s1.event_summary@.contains_key(key) == s0.event_summary@.contains_key(key)
    &&& s0.event_summary@.contains_key(key) ==> s1.event_summary@[key] == s0.event_summary@[key]
}

/// What becomes of one kind of fault. `f0` and `f1` hold the active faults with the energies
/// at their beginning, before and after. A fault that begins is recorded with the values of
/// its phase; one that ends is finalized with the energies since its beginning; one that
/// goes on, or still is not there, changes nothing.
pub open spec fn fault_step(
    f0: Map<u32, Baseline>,
    s0: MeterState,
    f1: Map<u32, Baseline>,
    s1: MeterState,
    event_type: u8,
    sub_type: u8,
    present: bool,
) -> bool {
    let key = event_key(event_type, sub_type);
    let records0 = s0.events(event_type, sub_type);
    if present == f0.contains_key(key) {
        kind_untouched(f0, s0, f1, s1, event_type, sub_type)
    } else if present {
        &&& f1.contains_key(key)
        &&& f1[key]@ == energies_now(s0)
        &&& s1.event_records@.contains_key(key)
        &&& s1.event_records@[key].room() == s0.event_room(event_type, sub_type)
        &&& exists|record: EventRecord| #[trigger]
            fault_record(record, s0, event_type, sub_type) && s1.event_records@[key]@
                == crate::simulation::event::pushed(
                records0,
                s0.event_room(event_type, sub_type),
                record,
            )
        &&& s1.event_summary@.contains_key(key) == s0.event_summary@.contains_key(key)
        &&& s0.event_summary@.contains_key(key) ==> s1.event_summary@[key]
            == s0.event_summary@[key]
    } else {
        &&& !f1.contains_key(key)
        &&& kind_finalized(
            s0,
            s1,
            event_type,
            sub_type,
            s0.virtual_time,
            increments_since(s0, f0[key]@),
        )
    }
}

/// The record of a fault that begins now.
pub open spec fn fault_record(
    record: EventRecord,
    s: MeterState,
    event_type: u8,
    sub_type: u8,
) -> bool {
    &&& record.event_type == event_type
    &&& record.sub_type == sub_type
    &&& record.start_time == s.virtual_time
    &&& record.end_time is None
    &&& record.data@ == fault_data(s, sub_type)
}

/// What finalizing an event means for its own kind.
pub open spec fn kind_finalized(
    s0: MeterState,
    s1: MeterState,
    event_type: u8,
    sub_type: u8,
    end_time: DateTime,
    increments: Seq<Quantity>,
) -> bool {
    let key = event_key(event_type, sub_type);
    let records = s0.events(event_type, sub_type);
    match crate::simulation::event::latest_open(records) {
        None => {
            &&& s1.event_records@.contains_key(key) == s0.event_records@.contains_key(key)
            &&& s0.event_records@.contains_key(key) ==> s1.event_records@[key]
                == s0.event_records@[key]
            &&& s1.event_summary@.contains_key(key) == s0.event_summary@.contains_key(key)
            &&& s0.event_summary@.contains_key(key) ==> s1.event_summary@[key]
                == s0.event_summary@[key]
        },
        Some(i) => {
            &&& s1.event_records@.contains_key(key)
            &&& s1.event_records@[key].room() == s0.event_room(event_type, sub_type)
            &&& s1.event_records@[key]@[i].data@ == crate::simulation::event::with_increments(
                records[i].data@,
                increments,
            )
            &&& s1.event_records@[key]@ == records.update(
                i,
                EventRecord {
                    end_time: Some(end_time),
                    data: s1.event_records@[key]@[i].data,
                    ..records[i]
                },
            )
            &&& s1.event_summary@.contains_key(key)
            &&& s1.event_summary@[key] == s0.totals(event_type, sub_type).with_event(
                crate::simulation::event::minutes_between(records[i].start_time, end_time),
            )
        },
    }
}

/// Only events and their totals differ.
pub open spec fn only_events_differ(s0: MeterState, s1: MeterState) -> bool {
    s1 == (MeterState {
        event_records: s1.event_records,
        event_summary: s1.event_summary,
        ..s0
    })
}

fn write_phase_digits(state: &MeterState, sub_type: u8) -> (r: Vec<u8>)
    ensures
        r@ == phase_digits(*state, sub_type),
        r@.len() == 13,
{
    let (v, i, p, q): (Quantity, Quantity, Quantity, Quantity) = match sub_type {
        0x01 => (
            state.voltage_a,
            state.current_a,
            state.active_power_a,
            state.reactive_power_a,
        ),
        0x02 => (
            state.voltage_b,
            state.current_b,
            state.active_power_b,
            state.reactive_power_b,
        ),
        _ => (
            state.voltage_c,
            state.current_c,
            state.active_power_c,
            state.reactive_power_c,
        ),
    };
    let mut data = u64_to_bcd(scale(v, 1), 2);
    append(&mut data, u64_to_bcd(scale(i, 3), 3).as_slice());
    append(&mut data, u64_to_bcd(scale(p, 4), 3).as_slice());
    append(&mut data, u64_to_bcd(scale(q, 4), 3).as_slice());
    append(&mut data, u64_to_bcd(scale(state.power_factor, 3), 2).as_slice());
    data
}

fn append_zeros(out: &mut Vec<u8>, n: usize)
    ensures
        final(out)@ == old(out)@ + zero_run(n as nat),
{
    let ghost before = out@;
    for i in 0..n
        invariant
            out@ == before + zero_run(i as nat),
    {
        out.push(0);
        assert(out@ =~= before + zero_run((i + 1) as nat));
    }
}

fn write_fault_data(state: &MeterState, sub_type: u8) -> (r: Vec<u8>)
    ensures
        r@ == fault_data(*state, sub_type),
        r@.len() == 119,
{
    let offset: usize = if sub_type <= 1 {
        32
    } else if sub_type == 2 {
        61
    } else {
        90
    };
    let mut data: Vec<u8> = Vec::new();
    append_zeros(&mut data, offset);
    let values = write_phase_digits(state, sub_type);
    append(&mut data, values.as_slice());
    append_zeros(&mut data, 106 - offset);
    assert(data@ =~= fault_data(*state, sub_type));
    data
}

fn present_energies(state: &MeterState) -> (r: Baseline)
    ensures
        r@ == energies_now(*state),
{
    let r: Baseline = [
        state.get_energy(EnergyType::ForwardActive, None),
        state.get_energy(EnergyType::ReverseActive, None),
        state.get_energy(EnergyType::ForwardReactive, None),
        state.get_energy(EnergyType::ReverseReactive, None),
    ];
    assert(r@ =~= energies_now(*state));
    r
}

/// Begins or ends a fault.
pub fn transition_fault(
    faults: &mut Table<Baseline>,
    state: &mut MeterState,
    event_type: u8,
    sub_type: u8,
    active: bool,
)
    ensures
        fault_step(
            old(faults)@,
            *old(state),
            final(faults)@,
            *final(state),
            event_type,
            sub_type,
            active,
        ),
        forall|e: u8, t: u8|
            (e, t) != (event_type, sub_type) ==> #[trigger] kind_untouched(
                old(faults)@,
                *old(state),
                final(faults)@,
                *final(state),
                e,
                t,
            ),
        only_events_differ(*old(state), *final(state)),
{
    let key: u32 = make_event_key(event_type, sub_type);
    let now = state.virtual_time;
    if active {
        if !faults.contains_key(key) {
            let data = write_fault_data(state, sub_type);
            faults.insert(key, present_energies(state));
            state.add_event_record(event_type, sub_type, now, data);
            proof {
                let record = EventRecord {
                    event_type,
                    sub_type,
                    start_time: now,
                    end_time: None,
                    data,
                };
                assert(fault_record(record, *old(state), event_type, sub_type));
            }
        }
    } else if faults.contains_key(key) {
        let base: Baseline = match faults.remove(key) {
            Some(b) => b,
            None => [0; 4],
        };
        let present: Baseline = present_energies(state);
        let increments: [Quantity; 4] = [
            difference(present[0], base[0]),
            difference(present[1], base[1]),
            difference(present[2], base[2]),
            difference(present[3], base[3]),
        ];
        assert(increments@ =~= increments_since(*old(state), base@));
        state.finalize_fault_event(event_type, sub_type, now, increments);
    }
}

fn voltage_of(state: &MeterState, phase: u8) -> (r: Quantity)
    ensures
        r == phase_voltage_of(*state, phase),
{
    if phase == 1 {
        state.voltage_a
    } else if phase == 2 {
        state.voltage_b
    } else {
        state.voltage_c
    }
}

fn current_of(state: &MeterState, phase: u8) -> (r: Quantity)
    ensures
        r == phase_current_of(*state, phase),
{
    if phase == 1 {
        state.current_a
    } else if phase == 2 {
        state.current_b
    } else {
        state.current_c
    }
}

fn lost_voltage(state: &MeterState, phase: u8) -> (r: bool)
    ensures
        r == voltage_lost(*state, phase),
{
    (voltage_of(state, phase) as i128) * 10 < state.rated_voltage as i128 * 7_000_000
}

fn lost_phase(state: &MeterState, phase: u8) -> (r: bool)
    ensures
        r == phase_lost(*state, phase),
{
    (voltage_of(state, phase) as i128) * 10 < state.rated_voltage as i128 * 1_000_000
}

/// Whether the measured values show a fault.
pub fn shows_fault(state: &MeterState, event_type: u8, sub_type: u8) -> (r: bool)
    ensures
        r == fault_shows(*state, event_type, sub_type),
{
    let v: i128 = voltage_of(state, sub_type) as i128;
    let i: i128 = current_of(state, sub_type) as i128;
    let vn: i128 = state.rated_voltage as i128 * 1_000_000;
    let rated: i128 = state.rated_current as i128 * 1_000_000;
    if 1 <= sub_type && sub_type <= 3 {
        match event_type {
            0x01 => lost_voltage(state, sub_type),
            0x02 => !lost_voltage(state, sub_type) && v * 10 < vn * 9,
            0x03 => v * 10 > vn * 12,
            0x04 => lost_phase(state, sub_type),
            0x0B => i * 20 < rated,
            0x0C => i * 10 > rated * 12,
            _ => false,
        }
    } else if sub_type == 0 {
        match event_type {
            0x05 => lost_voltage(state, 1) && lost_voltage(state, 2) && lost_voltage(state, 3),
            0x0F => lost_phase(state, 1) && lost_phase(state, 2) && lost_phase(state, 3),
            _ => false,
        }
    } else {
        false
    }
}

fn listed(list: &Vec<(u8, u8)>, event_type: u8, sub_type: u8) -> (r: bool)
    ensures
        r == list@.contains((event_type, sub_type)),
{
    for i in 0..list.len()
        invariant
            forall|j: int| 0 <= j < i ==> list@[j] != (event_type, sub_type),
    {
        if list[i].0 == event_type && list[i].1 == sub_type {
            assert(list@[i as int] == (event_type, sub_type));
            return true;
        }
    }
    false
}

fn list_once(list: &mut Vec<(u8, u8)>, event_type: u8, sub_type: u8)
    requires
        old(list)@.no_duplicates(),
    ensures
        final(list)@.no_duplicates(),
        final(list)@.contains((event_type, sub_type)),
        forall|k: (u8, u8)|
            old(list)@.contains(k) ==> #[trigger] final(list)@.contains(k),
{
    if !listed(list, event_type, sub_type) {
        let ghost before = list@;
        list.push((event_type, sub_type));
        proof {
            assert(list@[before.len() as int] == (event_type, sub_type));
            assert forall|k: (u8, u8)| before.contains(k) implies #[trigger] list@.contains(k) by {
                let j = choose|j: int| 0 <= j < before.len() && before[j] == k;
                assert(list@[j] == k);
            }
            assert forall|i: int, j: int|
                0 <= i < list@.len() && 0 <= j < list@.len() && i != j implies list@[i]
                != list@[j] by {
                if i < before.len() && j < before.len() {
                    assert(before[i] != before[j]);
                } else if i < before.len() {
                    assert(before.contains(before[i]));
                } else {
                    assert(before.contains(before[j]));
                }
            }
        }
    }
}

/// Every kind of fault that may be there, is injected, or is active, once.
fn candidates(forced: &Vec<(u8, u8)>, faults: &Table<Baseline>) -> (r: Vec<(u8, u8)>)
    ensures
        r@.no_duplicates(),
        forall|e: u8, t: u8|
            (1 <= e <= 0x0F && t <= 3) || forced@.contains((e, t)) || faults@.contains_key(
                event_key(e, t),
            ) ==> #[trigger] r@.contains((e, t)),
{
    let mut list: Vec<(u8, u8)> = Vec::new();
    for e in 1..0x10u8
        invariant
            list@.no_duplicates(),
            forall|a: u8, b: u8| 1 <= a < e && b <= 3 ==> #[trigger] list@.contains((a, b)),
    {
        for t in 0..4u8
            invariant
                1 <= e <= 0x0F,
                list@.no_duplicates(),
                forall|a: u8, b: u8| 1 <= a < e && b <= 3 ==> #[trigger] list@.contains((a, b)),
                forall|b: u8| b < t ==> #[trigger] list@.contains((e, b)),
        {
            list_once(&mut list, e, t);
        }
    }
    for i in 0..forced.len()
        invariant
            list@.no_duplicates(),
            forall|a: u8, b: u8| 1 <= a <= 0x0F && b <= 3 ==> #[trigger] list@.contains((a, b)),
            forall|j: int| 0 <= j < i ==> #[trigger] list@.contains(forced@[j]),
    {
        list_once(&mut list, forced[i].0, forced[i].1);
        assert(list@.contains(forced@[i as int]));
    }
    let items = faults.items();
    for i in 0..items.len()
        invariant
            list@.no_duplicates(),
            forall|a: u8, b: u8| 1 <= a <= 0x0F && b <= 3 ==> #[trigger] list@.contains((a, b)),
            forall|j: int| 0 <= j < forced@.len() ==> #[trigger] list@.contains(forced@[j]),
            forall|j: int|
                0 <= j < i && (#[trigger] items@[j]).0 < 0x1_0000 ==> list@.contains(
                    ((items@[j].0 / 256) as u8, (items@[j].0 % 256) as u8),
                ),
    {
        let key: u32 = items[i].0;
        if key < 0x1_0000 {
            list_once(&mut list, (key / 256) as u8, (key % 256) as u8);
        }
    }
    proof {
        assert forall|e: u8, t: u8|
            (1 <= e <= 0x0F && t <= 3) || forced@.contains((e, t)) || faults@.contains_key(
                event_key(e, t),
            ) implies #[trigger] list@.contains((e, t)) by {
            if forced@.contains((e, t)) {
                let j = choose|j: int| 0 <= j < forced@.len() && forced@[j] == (e, t);
                assert(list@.contains(forced@[j]));
            }
            if faults@.contains_key(event_key(e, t)) {
                let key = event_key(e, t);
                let j = crate::table::key_position(items@, key);
                assert(items@[j].0 == key);
                assert((key / 256) as u8 == e && (key % 256) as u8 == t);
            }
        }
    }
    list
}

proof fn lemma_kind_untouched_trans(
    f0: Map<u32, Baseline>,
    s0: MeterState,
    f1: Map<u32, Baseline>,
    s1: MeterState,
    f2: Map<u32, Baseline>,
    s2: MeterState,
    e: u8,
    t: u8,
    present: bool,
)
    requires
        only_events_differ(s0, s1),
        only_events_differ(s1, s2),
    ensures
        kind_untouched(f0, s0, f1, s1, e, t) && kind_untouched(f1, s1, f2, s2, e, t)
            ==> kind_untouched(f0, s0, f2, s2, e, t),
        fault_step(f0, s0, f1, s1, e, t, present) && kind_untouched(f1, s1, f2, s2, e, t)
            ==> fault_step(f0, s0, f2, s2, e, t, present),
        kind_untouched(f0, s0, f1, s1, e, t) && fault_step(f1, s1, f2, s2, e, t, present)
            ==> fault_step(f0, s0, f2, s2, e, t, present),
{
    let key = event_key(e, t);
    if kind_untouched(f0, s0, f1, s1, e, t) && fault_step(f1, s1, f2, s2, e, t, present) {
        assert(energies_now(s0) == energies_now(s1));
        assert(fault_data(s0, t) == fault_data(s1, t));
        if present != f0.contains_key(key) && present {
            let record = choose|record: EventRecord| #[trigger]
                fault_record(record, s1, e, t) && s2.event_records@[key]@
                    == crate::simulation::event::pushed(
                    s1.events(e, t),
                    s1.event_room(e, t),
                    record,
                );
            assert(fault_record(record, s0, e, t));
        }
        if present != f0.contains_key(key) && !present {
            assert(increments_since(s0, f0[key]@) == increments_since(s1, f1[key]@));
        }
    }
    if fault_step(f0, s0, f1, s1, e, t, present) && kind_untouched(f1, s1, f2, s2, e, t) {
        if present != f0.contains_key(key) && present {
            let record = choose|record: EventRecord| #[trigger]
                fault_record(record, s0, e, t) && s1.event_records@[key]@
                    == crate::simulation::event::pushed(
                    s0.events(e, t),
                    s0.event_room(e, t),
                    record,
                );
            assert(fault_record(record, s0, e, t));
        }
    }
}

/// Begins and ends faults so that exactly those that are there are active. An injected
/// fault lasts until its injection ends and the measured values do not show it.
pub fn detect_events(faults: &mut Table<Baseline>, forced: &Vec<(u8, u8)>, state: &mut MeterState)
    ensures
        forall|e: u8, t: u8| #[trigger]
            fault_step(
                old(faults)@,
                *old(state),
                final(faults)@,
                *final(state),
                e,
                t,
                fault_present(*old(state), forced@, e, t),
            ),
        only_events_differ(*old(state), *final(state)),
{
    let list = candidates(forced, faults);
    let ghost f0 = faults@;
    let ghost s0 = *state;
    for i in 0..list.len()
        invariant
            list@.no_duplicates(),
            only_events_differ(s0, *state),
            forall|j: int|
                0 <= j < i ==> #[trigger] fault_step(
                    f0,
                    s0,
                    faults@,
                    *state,
                    list@[j].0,
                    list@[j].1,
                    fault_present(s0, forced@, list@[j].0, list@[j].1),
                ),
            forall|e: u8, t: u8|
                !list@.take(i as int).contains((e, t)) ==> #[trigger] kind_untouched(
                    f0,
                    s0,
                    faults@,
                    *state,
                    e,
                    t,
                ),
    {
        let (e, t) = list[i];
        let present: bool = shows_fault(state, e, t) || listed(forced, e, t);
        let ghost f1 = faults@;
        let ghost s1 = *state;
        proof {
            assert(fault_shows(s1, e, t) == fault_shows(s0, e, t));
            assert(!list@.take(i as int).contains((e, t))) by {
                if list@.take(i as int).contains((e, t)) {
                    let j = choose|j: int| 0 <= j < i && list@.take(i as int)[j] == (e, t);
                    assert(list@[j] == list@[i as int]);
                }
            }
            assert(kind_untouched(f0, s0, f1, s1, e, t));
        }
        transition_fault(faults, state, e, t, present);
        proof {
            lemma_kind_untouched_trans(f0, s0, f1, s1, faults@, *state, e, t, present);
            assert forall|j: int| 0 <= j < i + 1 implies #[trigger] fault_step(
                f0,
                s0,
                faults@,
                *state,
                list@[j].0,
                list@[j].1,
                fault_present(s0, forced@, list@[j].0, list@[j].1),
            ) by {
                if j < i {
                    let (a, b) = list@[j];
                    assert(list@[j] != list@[i as int]);
                    assert((a, b) != (e, t));
                    assert(fault_step(f0, s0, f1, s1, a, b, fault_present(s0, forced@, a, b)));
                    assert(kind_untouched(f1, s1, faults@, *state, a, b));
                    lemma_kind_untouched_trans(
                        f0,
                        s0,
                        f1,
                        s1,
                        faults@,
                        *state,
                        a,
                        b,
                        fault_present(s0, forced@, a, b),
                    );
                }
            }
            assert forall|a: u8, b: u8|
                !list@.take(i + 1).contains((a, b)) implies #[trigger] kind_untouched(
                f0,
                s0,
                faults@,
                *state,
                a,
                b,
            ) by {
                assert(list@.take(i + 1)[i as int] == (e, t));
                assert((a, b) != (e, t));
                assert(!list@.take(i as int).contains((a, b))) by {
                    if list@.take(i as int).contains((a, b)) {
                        let j = choose|j: int| 0 <= j < i && list@.take(i as int)[j] == (a, b);
                        assert(list@.take(i + 1)[j] == (a, b));
                    }
                }
                assert(kind_untouched(f0, s0, f1, s1, a, b));
                assert(kind_untouched(f1, s1, faults@, *state, a, b));
                lemma_kind_untouched_trans(f0, s0, f1, s1, faults@, *state, a, b, false);
            }
        }
    }
    proof {
        assert(list@.take(list@.len() as int) =~= list@);
        assert forall|e: u8, t: u8| #[trigger]
            fault_step(f0, s0, faults@, *state, e, t, fault_present(s0, forced@, e, t)) by {
            if list@.contains((e, t)) {
                let j = choose|j: int| 0 <= j < list@.len() && list@[j] == (e, t);
                assert(fault_step(
                    f0,
                    s0,
                    faults@,
                    *state,
                    list@[j].0,
                    list@[j].1,
                    fault_present(s0, forced@, list@[j].0, list@[j].1),
                ));
            } else {
                assert(!fault_shows(s0, e, t));
                assert(kind_untouched(f0, s0, faults@, *state, e, t));
            }
        }
    }
}

/// After the faults were gone through, exactly those that are there are active.
pub proof fn law_active_faults_are_present(
    f0: Map<u32, Baseline>,
    s0: MeterState,
    f1: Map<u32, Baseline>,
    s1: MeterState,
    forced: Seq<(u8, u8)>,
    event_type: u8,
    sub_type: u8,
)
    requires
        fault_step(
            f0,
            s0,
            f1,
            s1,
            event_type,
            sub_type,
            fault_present(s0, forced, event_type, sub_type),
        ),
    ensures
        f1.contains_key(event_key(event_type, sub_type)) <==> fault_present(
            s0,
            forced,
            event_type,
            sub_type,
        ),
{
}

/// A fault that goes on is not recorded again, whether it shows or is injected.
pub proof fn law_lasting_fault_recorded_once(
    f0: Map<u32, Baseline>,
    s0: MeterState,
    f1: Map<u32, Baseline>,
    s1: MeterState,
    forced: Seq<(u8, u8)>,
    event_type: u8,
    sub_type: u8,
)
    requires
        f0.contains_key(event_key(event_type, sub_type)),
        fault_present(s0, forced, event_type, sub_type),
        fault_step(
            f0,
            s0,
            f1,
            s1,
            event_type,
            sub_type,
            fault_present(s0, forced, event_type, sub_type),
        ),
    ensures
        s1.events(event_type, sub_type) == s0.events(event_type, sub_type),
{
}

} // verus!
