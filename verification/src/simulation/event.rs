//! Event records, their ring buffers and their totals.

use crate::protocol::format::{bcd_digits, u64_to_bcd};
use crate::quantity::{scale, scaled, Quantity};
use crate::time::DateTime;
use vstd::prelude::*;

verus! {

/// Kind of event: the third byte of its identifier.
#[derive(Debug, Clone, Copy, PartialEq, Eq, Structural, Hash)]
pub enum EventType {
    /// 01: loss of voltage
    VoltageFault,
    /// 02
    UnderVoltage,
    /// 03
    OverVoltage,
    /// 04
    PhaseLoss,
    /// 05
    TotalVoltageLoss,
    /// 06
    AuxiliaryPowerLoss,
    /// 07
    VoltageReverseSequence,
    /// 08
    CurrentReverseSequence,
    /// 09
    VoltageImbalance,
    /// 0A
    CurrentImbalance,
    /// 0B: loss of current
    CurrentFault,
    /// 0E
    OverCurrent,
    /// 0F
    PowerDown,
    /// 30: programming record
    ProgrammingRecord,
    /// 31: clock setting record
    TimeSyncRecord,
    /// 32: clearing record
    ClearRecord,
}

impl EventType {
    pub open spec fn code(self) -> u8 {
        match self {
            EventType::VoltageFault => 0x01,
            EventType::UnderVoltage => 0x02,
            EventType::OverVoltage => 0x03,
            EventType::PhaseLoss => 0x04,
            EventType::TotalVoltageLoss => 0x05,
            EventType::AuxiliaryPowerLoss => 0x06,
            EventType::VoltageReverseSequence => 0x07,
            EventType::CurrentReverseSequence => 0x08,
            EventType::VoltageImbalance => 0x09,
            EventType::CurrentImbalance => 0x0A,
            EventType::CurrentFault => 0x0B,
            EventType::OverCurrent => 0x0E,
            EventType::PowerDown => 0x0F,
            EventType::ProgrammingRecord => 0x30,
            EventType::TimeSyncRecord => 0x31,
            EventType::ClearRecord => 0x32,
        }
    }

    /// The third byte of the identifier of such events.
    pub fn to_u8(&self) -> (r: u8)
        ensures
            r == self.code(),
    {
        match self {
            EventType::VoltageFault => 0x01,
            EventType::UnderVoltage => 0x02,
            EventType::OverVoltage => 0x03,
            EventType::PhaseLoss => 0x04,
            EventType::TotalVoltageLoss => 0x05,
            EventType::AuxiliaryPowerLoss => 0x06,
            EventType::VoltageReverseSequence => 0x07,
            EventType::CurrentReverseSequence => 0x08,
            EventType::VoltageImbalance => 0x09,
            EventType::CurrentImbalance => 0x0A,
            EventType::CurrentFault => 0x0B,
            EventType::OverCurrent => 0x0E,
            EventType::PowerDown => 0x0F,
            EventType::ProgrammingRecord => 0x30,
            EventType::TimeSyncRecord => 0x31,
            EventType::ClearRecord => 0x32,
        }
    }
}

/// One event.
#[derive(Debug, Clone)]
pub struct EventRecord {
    pub event_type: u8,
    pub sub_type: u8,
    pub start_time: DateTime,
    /// `None` while the event lasts.
    pub end_time: Option<DateTime>,
    pub data: Vec<u8>,
}

/// Whole minutes from `start` to `end`, none if `end` comes first, as a 32-bit number.
pub open spec fn minutes_between(start: DateTime, end: DateTime) -> u32 {
    let nanos = end.total_nanos() - start.total_nanos();
    if nanos < 0 {
        0
    } else {
        ((nanos / 60_000_000_000) % 0x1_0000_0000) as u32
    }
}

fn count_minutes(start: &DateTime, end: &DateTime) -> (r: u32)
    ensures
        r == minutes_between(*start, *end),
{
    let nanos: i128 = end.nanos_since(start);
    if nanos < 0 {
        0
    } else {
        ((nanos as u128 / 60_000_000_000) % 0x1_0000_0000) as u32
    }
}

impl EventRecord {
    /// A record of an event that has begun.
    pub fn new(event_type: u8, sub_type: u8, start_time: DateTime, data: Vec<u8>) -> (r:
        EventRecord)
        ensures
            r == (EventRecord { event_type, sub_type, start_time, end_time: None, data }),
    {
        EventRecord { event_type, sub_type, start_time, end_time: None, data }
    }

    /// Marks the event as over.
    pub fn end_event(&mut self, end_time: DateTime)
        ensures
            *final(self) == (EventRecord { end_time: Some(end_time), ..*old(self) }),
    {
        self.end_time = Some(end_time);
    }

    /// How long the event lasted, in minutes, up to `now` if it still lasts.
    pub fn duration_minutes_at(&self, now: &DateTime) -> (r: u32)
        ensures
            r == minutes_between(
                self.start_time,
                match self.end_time {
                    Some(end) => end,
                    None => *now,
                },
            ),
    {
        match self.end_time {
            Some(end) => count_minutes(&self.start_time, &end),
            None => count_minutes(&self.start_time, now),
        }
    }

    /// How long the event lasted, in minutes, up to the present if it still lasts.
    pub fn duration_minutes(&self) -> (r: u32)
        ensures
            self.end_time matches Some(end) ==> r == minutes_between(self.start_time, end),
            self.end_time is None ==> exists|now: DateTime| #[trigger]
                now.valid() && r == minutes_between(self.start_time, now),
    {
        let now = DateTime::now();
        self.duration_minutes_at(&now)
    }
}

/// How often an event has occurred and how long it lasted in all.
#[derive(Debug, Clone, Copy, PartialEq, Eq, Structural)]
pub struct EventSummary {
    pub total_count: u32,
    pub total_duration_minutes: u32,
}

/// The sum, held at the largest 32-bit number.
pub open spec fn saturated(n: int) -> u32 {
    if n > u32::MAX {
        u32::MAX
    } else {
        n as u32
    }
}

impl EventSummary {
    pub fn new() -> (r: EventSummary)
        ensures
            r == (EventSummary { total_count: 0, total_duration_minutes: 0 }),
    {
        EventSummary { total_count: 0, total_duration_minutes: 0 }
    }

    /// The totals after one more event.
    pub open spec fn with_event(self, duration_minutes: u32) -> EventSummary {
        EventSummary {
            total_count: saturated(self.total_count + 1),
            total_duration_minutes: saturated(self.total_duration_minutes + duration_minutes),
        }
    }

    /// Counts one more event. Both totals stop at the largest 32-bit number.
    pub fn add_event(&mut self, duration_minutes: u32)
        ensures
            *final(self) == old(self).with_event(duration_minutes),
    {
        self.total_count = self.total_count.saturating_add(1);
        self.total_duration_minutes = self.total_duration_minutes.saturating_add(duration_minutes);
    }
}

/// Four energy increments, each as four bytes of digits of hundredths.
pub open spec fn increment_bytes(inc: Seq<Quantity>) -> Seq<u8> {
    bcd_digits(scaled(inc[0], 2), 4) + bcd_digits(scaled(inc[1], 2), 4) + bcd_digits(
        scaled(inc[2], 2),
        4,
    ) + bcd_digits(scaled(inc[3], 2), 4)
}

/// Event data with its first 16 bytes replaced by energy increments.
pub open spec fn with_increments(data: Seq<u8>, inc: Seq<Quantity>) -> Seq<u8> {
    if data.len() <= 16 {
        increment_bytes(inc)
    } else {
        increment_bytes(inc) + data.skip(16)
    }
}

/// The newest event of a buffer that still lasts, as a position.
pub open spec fn latest_open(records: Seq<EventRecord>) -> Option<int>
    decreases records.len(),
{
    if records.len() == 0 {
        None
    } else if records.last().end_time is None {
        Some(records.len() - 1)
    } else {
        latest_open(records.drop_last())
    }
}

/// The last events of one kind, the newest at the end.
#[derive(Debug, Clone)]
pub struct EventRingBuffer {
    capacity: usize,
    records: Vec<EventRecord>,
}

/// What a buffer holds after one more record: the oldest leaves if it was full.
pub open spec fn pushed(records: Seq<EventRecord>, capacity: nat, record: EventRecord) -> Seq<
    EventRecord,
> {
    if records.len() >= capacity && records.len() > 0 {
        records.skip(1).push(record)
    } else {
        records.push(record)
    }
}

/// What a buffer holds after many records.
pub open spec fn pushed_all(capacity: nat, stream: Seq<EventRecord>) -> Seq<EventRecord>
    decreases stream.len(),
{
    if stream.len() == 0 {
        seq![]
    } else {
        pushed(pushed_all(capacity, stream.drop_last()), capacity, stream.last())
    }
}

/// A buffer holds the last records that were put in, as many as it has room for.
pub proof fn law_ring_keeps_latest(capacity: nat, stream: Seq<EventRecord>)
    requires
        capacity >= 1,
    ensures
        pushed_all(capacity, stream) == (if stream.len() <= capacity {
            stream
        } else {
            stream.skip(stream.len() - capacity)
        }),
    decreases stream.len(),
{
    if stream.len() > 0 {
        law_ring_keeps_latest(capacity, stream.drop_last());
        let kept = if stream.len() <= capacity {
            stream
        } else {
            stream.skip(stream.len() - capacity)
        };
        assert(pushed_all(capacity, stream) =~= kept);
    } else {
        assert(pushed_all(capacity, stream) =~= stream);
    }
}

impl View for EventRingBuffer {
    type V = Seq<EventRecord>;

    closed spec fn view(&self) -> Seq<EventRecord> {
        self.records@
    }
}

impl EventRingBuffer {
    pub closed spec fn room(self) -> nat {
        self.capacity as nat
    }

    /// An empty buffer with room for `capacity` records.
    pub fn new(capacity: usize) -> (r: EventRingBuffer)
        ensures
            r.room() == capacity,
            r@ == Seq::<EventRecord>::empty(),
    {
        EventRingBuffer { capacity, records: Vec::new() }
    }

    /// Adds a record. The oldest leaves if the buffer is full.
    pub fn push(&mut self, record: EventRecord)
        ensures
            final(self).room() == old(self).room(),
            final(self)@ == pushed(old(self)@, old(self).room(), record),
    {
        if self.records.len() >= self.capacity && self.records.len() > 0 {
            self.records.remove(0);
            assert(self.records@ =~= old(self)@.skip(1));
        }
        self.records.push(record);
    }

    /// The record with the given number, 1 being the newest.
    pub fn get(&self, occurrence_index: u8) -> (r: Option<&EventRecord>)
        ensures
            r is Some <==> 1 <= occurrence_index <= self@.len(),
            r matches Some(rec) ==> *rec == self@[self@.len() - occurrence_index],
    {
        if occurrence_index == 0 || occurrence_index as usize > self.records.len() {
            return None;
        }
        Some(&self.records[self.records.len() - occurrence_index as usize])
    }

    /// All records, the oldest first.
    pub fn get_all(&self) -> (r: &Vec<EventRecord>)
        ensures
            r@ == self@,
    {
        &self.records
    }

    pub fn len(&self) -> (r: usize)
        ensures
            r == self@.len(),
    {
        self.records.len()
    }

    pub fn clear(&mut self)
        ensures
            final(self).room() == old(self).room(),
            final(self)@ == Seq::<EventRecord>::empty(),
    {
        self.records.clear();
    }

    /// The newest event that still lasts, as a position.
    pub fn find_open(&self) -> (r: Option<usize>)
        ensures
            r is Some <==> latest_open(self@) is Some,
            r matches Some(i) ==> latest_open(self@) == Some(i as int) && i < self@.len()
                && self@[i as int].end_time is None,
    {
        let mut i: usize = self.records.len();
        assert(self.records@.take(i as int) =~= self.records@);
        while i > 0
            invariant
                i <= self.records@.len(),
                latest_open(self@) == latest_open(self.records@.take(i as int)),
            decreases i,
        {
            let ghost part = self.records@.take(i as int);
            assert(part.last() == self.records@[i - 1]);
            assert(part.drop_last() =~= self.records@.take(i - 1));
            if self.records[i - 1].end_time.is_none() {
                return Some(i - 1);
            }
            i = i - 1;
        }
        None
    }

    /// Ends the event at position `i`.
    pub fn close(&mut self, i: usize, end_time: DateTime)
        requires
            i < old(self)@.len(),
        ensures
            final(self).room() == old(self).room(),
            final(self)@ == old(self)@.update(
                i as int,
                EventRecord { end_time: Some(end_time), ..old(self)@[i as int] },
            ),
    {
        let record = &mut self.records[i];
        record.end_event(end_time);
        assert(self.records@ =~= old(self)@.update(
            i as int,
            EventRecord { end_time: Some(end_time), ..old(self)@[i as int] },
        ));
    }

    /// Writes energy increments into the data of the event at position `i`.
    pub fn set_increments(&mut self, i: usize, increments: &[Quantity; 4])
        requires
            i < old(self)@.len(),
        ensures
            final(self).room() == old(self).room(),
            final(self)@[i as int].data@ == with_increments(old(self)@[i as int].data@, increments@),
            final(self)@ == old(self)@.update(
                i as int,
                EventRecord { data: final(self)@[i as int].data, ..old(self)@[i as int] },
            ),
    {
        let ghost before = self.records@[i as int].data@;
        let mut data: Vec<u8> = Vec::new();
        for k in 0..4
            invariant
                data@.len() == 4 * k,
                k == 0 ==> data@ == Seq::<u8>::empty(),
                k == 1 ==> data@ == bcd_digits(scaled(increments@[0], 2), 4),
                k == 2 ==> data@ == bcd_digits(scaled(increments@[0], 2), 4) + bcd_digits(
                    scaled(increments@[1], 2),
                    4,
                ),
                k == 3 ==> data@ == bcd_digits(scaled(increments@[0], 2), 4) + bcd_digits(
                    scaled(increments@[1], 2),
                    4,
                ) + bcd_digits(scaled(increments@[2], 2), 4),
                k == 4 ==> data@ == increment_bytes(increments@),
        {
            let digits = u64_to_bcd(scale(increments[k], 2), 4);
            let ghost so_far = data@;
            crate::bytes::append(&mut data, digits.as_slice());
            assert(data@ =~= so_far + digits@);
            assert(k == 0 ==> data@ =~= digits@);
        }
        let n: usize = self.records[i].data.len();
        for j in 16..(if n < 16 { 16 } else { n })
            invariant
                n == self.records@[i as int].data@.len(),
                i < self.records@.len(),
                self.records@[i as int].data@ == before,
                increment_bytes(increments@).len() == 16,
                data@ == (if j == 16 {
                    increment_bytes(increments@)
                } else {
                    increment_bytes(increments@) + before.subrange(16, j as int)
                }),
        {
            data.push(self.records[i].data[j]);
            assert(data@ =~= increment_bytes(increments@) + before.subrange(16, j + 1));
        }
        assert(before.len() > 16 ==> before.subrange(16, n as int) =~= before.skip(16));
        let record = &mut self.records[i];
        record.data = data;
        assert(self.records@ =~= old(self)@.update(
            i as int,
            EventRecord { data: self.records@[i as int].data, ..old(self)@[i as int] },
        ));
    }
}

} // verus!
