//! Time-of-use tables: which rate applies at which time of day.

use crate::time::{Calendar, DateTime};
use vstd::prelude::*;

verus! {

/// A time of day from which a rate applies.
#[derive(Debug, Clone, Copy, PartialEq, Eq, Structural)]
pub struct TimeSlot {
    /// 0 to 23
    pub start_hour: u8,
    /// 0 to 59
    pub start_minute: u8,
    /// 1 to 63
    pub rate_number: u8,
}

impl TimeSlot {
    /// Minutes from midnight to the start of the slot.
    pub open spec fn start(self) -> int {
        self.start_hour * 60 + self.start_minute
    }
}

/// A day table: up to 14 slots.
#[derive(Debug, Clone)]
pub struct TimeSlotTable {
    pub slots: Vec<TimeSlot>,
}

/// How many slots, counted from the first, have started before any has not.
pub open spec fn started_slots(slots: Seq<TimeSlot>, minutes: int) -> nat
    decreases slots.len(),
{
    if slots.len() == 0 || slots[0].start() > minutes {
        0
    } else {
        1 + started_slots(slots.skip(1), minutes)
    }
}

/// The rate at a time of day: that of the last of the started slots, or 1 if the first
/// slot has not started.
pub open spec fn rate_at(slots: Seq<TimeSlot>, minutes: int) -> u8 {
    let n = started_slots(slots, minutes);
    if n == 0 {
        1
    } else {
        slots[n - 1].rate_number
    }
}

/// Minutes from midnight.
pub open spec fn minute_of_day(c: Calendar) -> int {
    c.hour * 60 + c.minute
}

proof fn lemma_started_slots(slots: Seq<TimeSlot>, minutes: int, n: int)
    requires
        0 <= n <= slots.len(),
        forall|i: int| 0 <= i < n ==> (#[trigger] slots[i]).start() <= minutes,
        n < slots.len() ==> slots[n].start() > minutes,
    ensures
        started_slots(slots, minutes) == n,
    decreases slots.len(),
{
    if n > 0 {
        assert(slots[0].start() <= minutes);
        let rest = slots.skip(1);
        assert forall|i: int| 0 <= i < n - 1 implies (#[trigger] rest[i]).start() <= minutes by {
            assert(rest[i] == slots[i + 1]);
        }
        lemma_started_slots(rest, minutes, n - 1);
    }
}

impl TimeSlotTable {
    /// The rate that applies at `time`.
    pub fn get_rate_at_time(&self, time: &DateTime) -> (r: u8)
        ensures
            r == rate_at(self.slots@, minute_of_day(time.cal())),
    {
        let c = time.calendar();
        let minutes: u32 = c.hour * 60 + c.minute;
        let mut rate: u8 = 1;
        let mut i: usize = 0;
        while i < self.slots.len()
            invariant_except_break
                i <= self.slots@.len(),
                forall|j: int| 0 <= j < i ==> (#[trigger] self.slots@[j]).start() <= minutes,
                rate == (if i == 0 {
                    1
                } else {
                    self.slots@[i - 1].rate_number
                }),
            ensures
                i <= self.slots@.len(),
                forall|j: int| 0 <= j < i ==> (#[trigger] self.slots@[j]).start() <= minutes,
                i < self.slots@.len() ==> self.slots@[i as int].start() > minutes,
                rate == (if i == 0 {
                    1
                } else {
                    self.slots@[i - 1].rate_number
                }),
            decreases self.slots@.len() - i,
        {
            let slot = self.slots[i];
            let start: u32 = slot.start_hour as u32 * 60 + slot.start_minute as u32;
            if start > minutes {
                break ;
            }
            rate = slot.rate_number;
            i = i + 1;
        }
        proof {
            lemma_started_slots(self.slots@, minutes as int, i as int);
        }
        rate
    }
}

/// In a table whose slots follow each other in time, the rate is that of the last slot
/// that has started: every later slot starts after the given time.
pub proof fn law_rate_of_latest_slot(slots: Seq<TimeSlot>, minutes: int, k: int)
    requires
        0 <= k < slots.len(),
        forall|i: int, j: int|
            0 <= i < j < slots.len() ==> (#[trigger] slots[i]).start() < (
            #[trigger] slots[j]).start(),
        slots[k].start() <= minutes,
        k + 1 < slots.len() ==> minutes < slots[k + 1].start(),
    ensures
        rate_at(slots, minutes) == slots[k].rate_number,
{
    assert forall|i: int| 0 <= i < k + 1 implies (#[trigger] slots[i]).start() <= minutes by {
        if i < k {
            assert(slots[i].start() < slots[k].start());
        }
    }
    lemma_started_slots(slots, minutes, k + 1);
}

/// The slots of a new meter: rate 4 from midnight, 2 from 8:00, 3 from 12:00, 1 from
/// 18:00 and 4 again from 22:00.
pub open spec fn default_slots() -> Seq<TimeSlot> {
    seq![
        TimeSlot { start_hour: 0, start_minute: 0, rate_number: 4 },
        TimeSlot { start_hour: 8, start_minute: 0, rate_number: 2 },
        TimeSlot { start_hour: 12, start_minute: 0, rate_number: 3 },
        TimeSlot { start_hour: 18, start_minute: 0, rate_number: 1 },
        TimeSlot { start_hour: 22, start_minute: 0, rate_number: 4 },
    ]
}

impl Default for TimeSlotTable {
    fn default() -> (r: TimeSlotTable)
        ensures
            r.slots@ == default_slots(),
    {
        let slots: Vec<TimeSlot> = vec![
            TimeSlot { start_hour: 0, start_minute: 0, rate_number: 4 },
            TimeSlot { start_hour: 8, start_minute: 0, rate_number: 2 },
            TimeSlot { start_hour: 12, start_minute: 0, rate_number: 3 },
            TimeSlot { start_hour: 18, start_minute: 0, rate_number: 1 },
            TimeSlot { start_hour: 22, start_minute: 0, rate_number: 4 },
        ];
        assert(slots@ =~= default_slots());
        TimeSlotTable { slots }
    }
}

/// A part of the year and the day table it uses.
#[derive(Debug, Clone, Copy, PartialEq, Eq, Structural)]
pub struct TimeZone {
    /// 1 to 12
    pub start_month: u8,
    /// 1 to 31
    pub start_day: u8,
    /// 1 to 8
    pub day_table_id: u8,
}

/// A zone table: up to 14 zones.
#[derive(Debug, Clone)]
pub struct TimeZoneTable {
    pub zones: Vec<TimeZone>,
}

/// One zone from 1 January, with the first day table.
pub open spec fn default_zones() -> Seq<TimeZone> {
    seq![TimeZone { start_month: 1, start_day: 1, day_table_id: 1 }]
}

impl Default for TimeZoneTable {
    fn default() -> (r: TimeZoneTable)
        ensures
            r.zones@ == default_zones(),
    {
        let zones: Vec<TimeZone> = vec![
            TimeZone { start_month: 1, start_day: 1, day_table_id: 1 },
        ];
        assert(zones@ =~= default_zones());
        TimeZoneTable { zones }
    }
}

/// Two sets of zone and day tables, and when the meter changes between them.
#[derive(Debug, Clone)]
pub struct TouConfig {
    pub time_zone_table_1: TimeZoneTable,
    pub time_zone_table_2: TimeZoneTable,
    pub day_table_1: TimeSlotTable,
    pub day_table_2: TimeSlotTable,
    pub time_zone_switch_datetime: Option<DateTime>,
    pub day_table_switch_datetime: Option<DateTime>,
}

impl TouConfig {
    pub open spec fn is_default(self) -> bool {
        &&& self.time_zone_table_1.zones@ == default_zones()
        &&& self.time_zone_table_2.zones@ == default_zones()
        &&& self.day_table_1.slots@ == default_slots()
        &&& self.day_table_2.slots@ == default_slots()
        &&& self.time_zone_switch_datetime is None
        &&& self.day_table_switch_datetime is None
    }
}

impl Default for TouConfig {
    fn default() -> (r: TouConfig)
        ensures
            r.is_default(),
    {
        TouConfig {
            time_zone_table_1: TimeZoneTable::default(),
            time_zone_table_2: TimeZoneTable::default(),
            day_table_1: TimeSlotTable::default(),
            day_table_2: TimeSlotTable::default(),
            time_zone_switch_datetime: None,
            day_table_switch_datetime: None,
        }
    }
}

} // verus!
