//! Snapshots and events of a meter, and what is restored after a restart.

use crate::persistence::types::FreezeSnapshotRow;
use crate::quantity::Quantity;
use crate::simulation::event::{
    latest_open, minutes_between, pushed, with_increments, EventRecord, EventRingBuffer,
    EventSummary,
};
use crate::simulation::freeze::{frozen, FreezeData, FreezeSnapshot, FreezeTrigger};
use crate::simulation::state::{
    energy_key, event_key, make_energy_key, make_event_key, EnergyType, MeterState,
};
use crate::time::DateTime;
use vstd::prelude::*;

verus! {

/// How many records of one kind of event are kept.
pub const EVENT_HISTORY: usize = 10;

/// References to the elements of a vector, in their order.
fn references<T>(v: &Vec<T>) -> (r: Vec<&T>)
    ensures
        r@.len() == v@.len(),
        forall|i: int| 0 <= i < v@.len() ==> *(#[trigger] r@[i]) == v@[i],
{
    let mut out: Vec<&T> = Vec::new();
    for i in 0..v.len()
        invariant
            out@.len() == i,
            forall|j: int| 0 <= j < i ==> *(#[trigger] out@[j]) == v@[j],
    {
        out.push(&v[i]);
    }
    out
}

/// The meter took a snapshot of its state: it stands first among those of its trigger,
/// and nothing else changed.
pub open spec fn took_snapshot(
    before: MeterState,
    after: MeterState,
    trigger: FreezeTrigger,
) -> bool {
    let key = trigger.di2() as u32;
    if before.freeze_snapshots@.contains_key(key) {
        let old_ring = before.freeze_snapshots@[key];
        let new_ring = after.freeze_snapshots@[key];
        &&& after.freeze_snapshots@ == before.freeze_snapshots@.insert(key, new_ring)
        &&& new_ring.room() == old_ring.room()
        &&& exists|data: FreezeData| #[trigger]
            data.captures(before) && new_ring@ == frozen(
                old_ring@,
                old_ring.room(),
                FreezeSnapshot {
                    snapshot_time: before.virtual_time,
                    trigger_type: trigger,
                    occurrence_index: 1,
                    data,
                },
            )
        &&& after == (MeterState { freeze_snapshots: after.freeze_snapshots, ..before })
    } else {
        after == before
    }
}

impl MeterState {
    /// The snapshots of a trigger, the newest first.
    pub open spec fn snapshots(self, trigger: FreezeTrigger) -> Seq<FreezeSnapshot> {
        if self.freeze_snapshots@.contains_key(trigger.di2() as u32) {
            self.freeze_snapshots@[trigger.di2() as u32]@
        } else {
            seq![]
        }
    }

    /// The records of one kind of event, the oldest first.
    pub open spec fn events(self, event_type: u8, sub_type: u8) -> Seq<EventRecord> {
        if self.event_records@.contains_key(event_key(event_type, sub_type)) {
            self.event_records@[event_key(event_type, sub_type)]@
        } else {
            seq![]
        }
    }

    /// How many records of one kind of event have room.
    pub open spec fn event_room(self, event_type: u8, sub_type: u8) -> nat {
        if self.event_records@.contains_key(event_key(event_type, sub_type)) {
            self.event_records@[event_key(event_type, sub_type)].room()
        } else {
            10
        }
    }

    /// The totals of one kind of event.
    pub open spec fn totals(self, event_type: u8, sub_type: u8) -> EventSummary {
        if self.event_summary@.contains_key(event_key(event_type, sub_type)) {
            self.event_summary@[event_key(event_type, sub_type)]
        } else {
            EventSummary { total_count: 0, total_duration_minutes: 0 }
        }
    }

    /// Takes a snapshot of the present state. Returns its number, which is 1.
    pub fn create_freeze_snapshot(&mut self, trigger: FreezeTrigger) -> (r: u8)
        ensures
            r == 1,
            took_snapshot(*old(self), *final(self), trigger),
    {
        let data = FreezeData::from_meter_state(self);
        self.store_snapshot(trigger, data);
        1
    }

    fn store_snapshot(&mut self, trigger: FreezeTrigger, data: FreezeData)
        requires
            data.captures(*old(self)),
        ensures
            took_snapshot(*old(self), *final(self), trigger),
    {
        let key: u32 = trigger.to_di2() as u32;
        if self.freeze_snapshots.contains_key(key) {
            let snapshot = FreezeSnapshot {
                snapshot_time: self.virtual_time,
                trigger_type: trigger,
                occurrence_index: 1,
                data,
            };
            let removed = self.freeze_snapshots.remove(key);
            if let Some(mut ring) = removed {
                ring.push(snapshot);
                self.freeze_snapshots.insert(key, ring);
                assert(self.freeze_snapshots@ =~= old(self).freeze_snapshots@.insert(key, ring));
                assert(data.captures(*old(self)));
            }
        }
    }

    /// Takes a snapshot and returns its number with the row to be stored. The address of
    /// the row is left empty.
    pub fn create_freeze_snapshot_with_persist(&mut self, trigger: FreezeTrigger) -> (r: (
        u8,
        FreezeSnapshotRow,
    ))
        ensures
            r.0 == 1,
            took_snapshot(*old(self), *final(self), trigger),
            r.1.meter_address@ == Seq::<char>::empty(),
            r.1.trigger_type == trigger.di2(),
            r.1.category == 0xFF,
            r.1.occurrence_idx == 1,
            r.1.snapshot_time == old(self).virtual_time,
            r.1.payload.captures(*old(self)),
    {
        let data = FreezeData::from_meter_state(self);
        let payload = FreezeData::from_meter_state(self);
        let row = FreezeSnapshotRow {
            meter_address: String::new(),
            trigger_type: trigger.to_di2(),
            category: 0xFF,
            occurrence_idx: 1,
            snapshot_time: self.virtual_time,
            payload,
        };
        self.store_snapshot(trigger, data);
        (1, row)
    }

    /// The snapshot of a trigger with the given number, 1 being the newest.
    pub fn get_freeze_snapshot(&self, trigger: FreezeTrigger, occurrence_index: u8) -> (r: Option<
        &FreezeSnapshot,
    >)
        ensures
            r is Some <==> self.freeze_snapshots@.contains_key(trigger.di2() as u32) && 1
                <= occurrence_index <= self.freeze_snapshots@[trigger.di2() as u32].room() % 256
                && occurrence_index <= self.snapshots(trigger).len(),
            r matches Some(s) ==> *s == self.snapshots(trigger)[occurrence_index - 1],
    {
        if occurrence_index == 0 {
            return None;
        }
        match self.freeze_snapshots.get(trigger.to_di2() as u32) {
            Some(ring) => ring.get(occurrence_index),
            None => None,
        }
    }

    /// All snapshots of a trigger, the newest first.
    pub fn get_all_freeze_snapshots(&self, trigger: FreezeTrigger) -> (r: Vec<&FreezeSnapshot>)
        ensures
            r@.len() == self.snapshots(trigger).len(),
            forall|i: int|
                0 <= i < r@.len() ==> *(#[trigger] r@[i]) == self.snapshots(trigger)[i],
    {
        match self.freeze_snapshots.get(trigger.to_di2() as u32) {
            Some(ring) => references(ring.get_all()),
            None => Vec::new(),
        }
    }

    /// Forgets the snapshots of a trigger.
    pub fn clear_freeze_snapshots(&mut self, trigger: FreezeTrigger)
        ensures
            final(self).snapshots(trigger).len() == 0,
            final(self).freeze_snapshots@.dom() == old(self).freeze_snapshots@.dom(),
            forall|k: u32|
                k != trigger.di2() && #[trigger] old(self).freeze_snapshots@.contains_key(k)
                    ==> final(self).freeze_snapshots@[k] == old(self).freeze_snapshots@[k],
            old(self).freeze_snapshots@.contains_key(trigger.di2() as u32) ==> {
                let key = trigger.di2() as u32;
                final(self).freeze_snapshots@[key].room() == old(self).freeze_snapshots@[key].room()
            },
            *final(self) == (MeterState {
                freeze_snapshots: final(self).freeze_snapshots,
                ..*old(self)
            }),
    {
        let key: u32 = trigger.to_di2() as u32;
        let removed = self.freeze_snapshots.remove(key);
        if let Some(mut ring) = removed {
            ring.clear();
            self.freeze_snapshots.insert(key, ring);
        }
        assert(self.freeze_snapshots@.dom() =~= old(self).freeze_snapshots@.dom());
    }
}

/// A record was added to those of its kind, and nothing else changed.
pub open spec fn added_event(before: MeterState, after: MeterState, record: EventRecord) -> bool {
    let key = event_key(record.event_type, record.sub_type);
    let room = before.event_room(record.event_type, record.sub_type);
    &&& after.event_records@ == before.event_records@.insert(key, after.event_records@[key])
    &&& after.event_records@[key].room() == room
    &&& after.event_records@[key]@ == pushed(
        before.events(record.event_type, record.sub_type),
        room,
        record,
    )
    &&& after == (MeterState { event_records: after.event_records, ..before })
}

/// The newest event of its kind that still lasted was ended and counted. Nothing changed
/// if there was none.
pub open spec fn ended_event(
    before: MeterState,
    after: MeterState,
    event_type: u8,
    sub_type: u8,
    end_time: DateTime,
) -> bool {
    let key = event_key(event_type, sub_type);
    let records = before.events(event_type, sub_type);
    match latest_open(records) {
        None => after == before,
        Some(i) => {
            &&& after.event_records@ == before.event_records@.insert(key, after.event_records@[key])
            &&& after.event_records@[key].room() == before.event_room(event_type, sub_type)
            &&& after.event_records@[key]@ == records.update(
                i,
                EventRecord { end_time: Some(end_time), ..records[i] },
            )
            &&& after.event_summary@ == before.event_summary@.insert(
                key,
                before.totals(event_type, sub_type).with_event(
                    minutes_between(records[i].start_time, end_time),
                ),
            )
            &&& after == (MeterState {
                event_records: after.event_records,
                event_summary: after.event_summary,
                ..before
            })
        },
    }
}

/// Like `ended_event`, and the energy increments were written to the data of the event.
pub open spec fn finalized_event(
    before: MeterState,
    after: MeterState,
    event_type: u8,
    sub_type: u8,
    end_time: DateTime,
    increments: Seq<Quantity>,
) -> bool {
    let key = event_key(event_type, sub_type);
    let records = before.events(event_type, sub_type);
    match latest_open(records) {
        None => after == before,
        Some(i) => {
            &&& after.event_records@ == before.event_records@.insert(key, after.event_records@[key])
            &&& after.event_records@[key].room() == before.event_room(event_type, sub_type)
            &&& after.event_records@[key]@[i].data@ == with_increments(records[i].data@, increments)
            &&& after.event_records@[key]@ == records.update(
                i,
                EventRecord {
                    end_time: Some(end_time),
                    data: after.event_records@[key]@[i].data,
                    ..records[i]
                },
            )
            &&& after.event_summary@ == before.event_summary@.insert(
                key,
                before.totals(event_type, sub_type).with_event(
                    minutes_between(records[i].start_time, end_time),
                ),
            )
            &&& after == (MeterState {
                event_records: after.event_records,
                event_summary: after.event_summary,
                ..before
            })
        },
    }
}

proof fn lemma_latest_open_bound(records: Seq<EventRecord>)
    ensures
        latest_open(records) matches Some(i) ==> 0 <= i < records.len()
            && records[i].end_time is None,
    decreases records.len(),
{
    if records.len() > 0 && records.last().end_time is Some {
        lemma_latest_open_bound(records.drop_last());
    }
}

impl MeterState {
    /// Adds a record of an event that has begun.
    pub fn add_event_record(
        &mut self,
        event_type: u8,
        sub_type: u8,
        start_time: DateTime,
        data: Vec<u8>,
    )
        ensures
            added_event(
                *old(self),
                *final(self),
                EventRecord { event_type, sub_type, start_time, end_time: None, data },
            ),
    {
        let key: u32 = make_event_key(event_type, sub_type);
        let record = EventRecord::new(event_type, sub_type, start_time, data);
        let mut ring = match self.event_records.remove(key) {
            Some(ring) => ring,
            None => EventRingBuffer::new(EVENT_HISTORY),
        };
        ring.push(record);
        self.event_records.insert(key, ring);
        assert(self.event_records@ =~= old(self).event_records@.insert(key, ring));
    }

    fn count_event(&mut self, event_type: u8, sub_type: u8, duration_minutes: u32)
        ensures
            final(self).event_summary@ == old(self).event_summary@.insert(
                event_key(event_type, sub_type),
                old(self).totals(event_type, sub_type).with_event(duration_minutes),
            ),
            *final(self) == (MeterState {
                event_summary: final(self).event_summary,
                ..*old(self)
            }),
    {
        let key: u32 = make_event_key(event_type, sub_type);
        let mut summary = match self.event_summary.get(key) {
            Some(s) => *s,
            None => EventSummary::new(),
        };
        summary.add_event(duration_minutes);
        self.event_summary.insert(key, summary);
    }

    /// Ends the newest event of its kind that still lasts, and counts it.
    pub fn end_event_record(&mut self, event_type: u8, sub_type: u8, end_time: DateTime)
        ensures
            ended_event(*old(self), *final(self), event_type, sub_type, end_time),
    {
        let key: u32 = make_event_key(event_type, sub_type);
        let open: Option<usize> = match self.event_records.get(key) {
            Some(ring) => ring.find_open(),
            None => None,
        };
        if let Some(i) = open {
            let removed = self.event_records.remove(key);
            if let Some(mut ring) = removed {
                ring.close(i, end_time);
                let minutes: u32 = ring.get_all()[i].duration_minutes_at(&end_time);
                self.event_records.insert(key, ring);
                assert(self.event_records@ =~= old(self).event_records@.insert(key, ring));
                self.count_event(event_type, sub_type, minutes);
            }
        }
    }

    /// Ends the newest event of its kind that still lasts, writes the energy increments to
    /// the first 16 bytes of its data, and counts it.
    pub fn finalize_fault_event(
        &mut self,
        event_type: u8,
        sub_type: u8,
        end_time: DateTime,
        energy_increments: [Quantity; 4],
    )
        ensures
            finalized_event(
                *old(self),
                *final(self),
                event_type,
                sub_type,
                end_time,
                energy_increments@,
            ),
    {
        let key: u32 = make_event_key(event_type, sub_type);
        let open: Option<usize> = match self.event_records.get(key) {
            Some(ring) => ring.find_open(),
            None => None,
        };
        if let Some(i) = open {
            let removed = self.event_records.remove(key);
            if let Some(mut ring) = removed {
                ring.set_increments(i, &energy_increments);
                ring.close(i, end_time);
                let minutes: u32 = ring.get_all()[i].duration_minutes_at(&end_time);
                self.event_records.insert(key, ring);
                assert(self.event_records@ =~= old(self).event_records@.insert(key, ring));
                assert(ring@ =~= old(self).events(event_type, sub_type).update(
                    i as int,
                    EventRecord {
                        end_time: Some(end_time),
                        data: ring@[i as int].data,
                        ..old(self).events(event_type, sub_type)[i as int]
                    },
                ));
                self.count_event(event_type, sub_type, minutes);
            }
        }
    }

    /// The record of an event with the given number, 1 being the newest.
    pub fn get_event_record(&self, event_type: u8, sub_type: u8, occurrence_index: u8) -> (r:
        Option<&EventRecord>)
        ensures
            r is Some <==> 1 <= occurrence_index <= self.events(event_type, sub_type).len(),
            r matches Some(rec) ==> *rec == self.events(event_type, sub_type)[self.events(
                event_type,
                sub_type,
            ).len() - occurrence_index],
    {
        match self.event_records.get(make_event_key(event_type, sub_type)) {
            Some(ring) => ring.get(occurrence_index),
            None => None,
        }
    }

    /// All records of one kind of event, the oldest first.
    pub fn get_all_event_records(&self, event_type: u8, sub_type: u8) -> (r: Vec<&EventRecord>)
        ensures
            r@.len() == self.events(event_type, sub_type).len(),
            forall|i: int|
                0 <= i < r@.len() ==> *(#[trigger] r@[i]) == self.events(event_type, sub_type)[i],
    {
        match self.event_records.get(make_event_key(event_type, sub_type)) {
            Some(ring) => references(ring.get_all()),
            None => Vec::new(),
        }
    }

    /// The totals of one kind of event, if an event of it has ended.
    pub fn get_event_summary(&self, event_type: u8, sub_type: u8) -> (r: Option<&EventSummary>)
        ensures
            r is Some <==> self.event_summary@.contains_key(event_key(event_type, sub_type)),
            r matches Some(s) ==> *s == self.event_summary@[event_key(event_type, sub_type)],
    {
        self.event_summary.get(make_event_key(event_type, sub_type))
    }

    /// Forgets all events and their totals.
    pub fn clear_all_events(&mut self)
        ensures
            final(self).event_records@ == Map::<u32, EventRingBuffer>::empty(),
            final(self).event_summary@ == Map::<u32, EventSummary>::empty(),
            *final(self) == (MeterState {
                event_records: final(self).event_records,
                event_summary: final(self).event_summary,
                ..*old(self)
            }),
    {
        self.event_records.clear();
        self.event_summary.clear();
    }

    /// Sets the clock to a stored time.
    pub fn restore_virtual_time(&mut self, virtual_time: DateTime)
        ensures
            *final(self) == (MeterState { virtual_time, ..*old(self) }),
    {
        self.virtual_time = virtual_time;
    }

    /// Replaces all energy registers by stored ones, given as kind, rate and value. Kinds
    /// other than 1 to 4 are skipped.
    pub fn restore_energy_registers(&mut self, rows: &Vec<(u8, u8, Quantity)>)
        ensures
            final(self).energy_registers@ == restored_registers(rows@),
            *final(self) == (MeterState {
                energy_registers: final(self).energy_registers,
                ..*old(self)
            }),
    {
        self.energy_registers.clear();
        assert(rows@.take(0) =~= Seq::<(u8, u8, Quantity)>::empty());
        for i in 0..rows.len()
            invariant
                self.energy_registers@ == restored_registers(rows@.take(i as int)),
                *self == (MeterState { energy_registers: self.energy_registers, ..*old(self) }),
        {
            let (kind, rate, value) = rows[i];
            proof {
                let next = rows@.take(i + 1);
                assert(next.drop_last() =~= rows@.take(i as int));
                assert(next.last() == rows@[i as int]);
            }
            if let Some(t) = energy_type_of_kind(kind) {
                self.energy_registers.insert(make_energy_key(t, rate), value);
            }
        }
        assert(rows@.take(rows@.len() as int) =~= rows@);
    }
}

/// The kind of energy with the given number in the store.
pub open spec fn stored_kind(kind: u8) -> Option<EnergyType> {
    match kind {
        0x01u8 => Some(EnergyType::ForwardActive),
        0x02u8 => Some(EnergyType::ReverseActive),
        0x03u8 => Some(EnergyType::ForwardReactive),
        0x04u8 => Some(EnergyType::ReverseReactive),
        _ => None,
    }
}

/// The kind of energy with the given number in the store.
pub fn energy_type_of_kind(kind: u8) -> (r: Option<EnergyType>)
    ensures
        r == stored_kind(kind),
{
    match kind {
        0x01 => Some(EnergyType::ForwardActive),
        0x02 => Some(EnergyType::ReverseActive),
        0x03 => Some(EnergyType::ForwardReactive),
        0x04 => Some(EnergyType::ReverseReactive),
        _ => None,
    }
}

/// The registers that stored rows stand for. A later row overrides an earlier one.
pub open spec fn restored_registers(rows: Seq<(u8, u8, Quantity)>) -> Map<u32, Quantity>
    decreases rows.len(),
{
    if rows.len() == 0 {
        Map::empty()
    } else {
        let rest = restored_registers(rows.drop_last());
        let (kind, rate, value) = rows.last();
        match stored_kind(kind) {
            Some(t) => rest.insert(energy_key(t, rate), value),
            None => rest,
        }
    }
}

/// An event that was added is the newest of its kind; other kinds are untouched.
pub proof fn law_added_event_is_newest(
    before: MeterState,
    after: MeterState,
    record: EventRecord,
    event_type: u8,
    sub_type: u8,
)
    requires
        added_event(before, after, record),
    ensures
        after.events(record.event_type, record.sub_type).last() == record,
        (event_type, sub_type) != (record.event_type, record.sub_type) ==> after.events(
            event_type,
            sub_type,
        ) == before.events(event_type, sub_type),
{
}

/// Ending an event leaves the number of records as it was and raises the count of its
/// kind by one, as long as the counter has room.
pub proof fn law_ended_event_is_counted(
    before: MeterState,
    after: MeterState,
    event_type: u8,
    sub_type: u8,
    end_time: DateTime,
)
    requires
        ended_event(before, after, event_type, sub_type, end_time),
        latest_open(before.events(event_type, sub_type)) is Some,
        before.totals(event_type, sub_type).total_count < u32::MAX,
    ensures
        after.events(event_type, sub_type).len() == before.events(event_type, sub_type).len(),
        after.totals(event_type, sub_type).total_count == before.totals(
            event_type,
            sub_type,
        ).total_count + 1,
{
    lemma_latest_open_bound(before.events(event_type, sub_type));
}

} // verus!
