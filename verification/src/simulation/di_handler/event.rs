//! Event records (03-xx-xx-xx).

use crate::bytes::append;
use crate::simulation::di_handler::encoding::{bcd_of, clock_bytes, encode_datetime, to_bcd};
use crate::simulation::di_handler::read_error::{result_bytes, ReadError};
use crate::simulation::di_handler::DIHandler;
use crate::simulation::event::{EventRecord, EventSummary};
use crate::simulation::state::{event_key, MeterState};
use vstd::prelude::*;

verus! {

/// A total as six decimal digits, the lowest pair first; above 999999 it stays there.
pub open spec fn total_bytes(n: u32) -> Seq<u8> {
    let v = if n > 999999 {
        999999
    } else {
        n as int
    };
    seq![bcd_of((v % 100) as u8), bcd_of((v / 100 % 100) as u8), bcd_of((v / 10000 % 100) as u8)]
}

/// How often and how many minutes.
pub open spec fn summary_bytes(summary: EventSummary) -> Seq<u8> {
    total_bytes(summary.total_count) + total_bytes(summary.total_duration_minutes)
}

/// Bytes filled up with zeros, or cut, to a length of `n`.
pub open spec fn resized(data: Seq<u8>, n: nat) -> Seq<u8> {
    Seq::new(
        n,
        |i: int|
            if i < data.len() {
                data[i]
            } else {
                0
            },
    )
}

/// Start, end (zeros while the event lasts) and data. Faults (01 to 0F) always have 119
/// bytes of data.
pub open spec fn record_bytes(record: EventRecord, event_type: u8) -> Seq<u8> {
    clock_bytes(record.start_time.cal()) + (match record.end_time {
        Some(end) => clock_bytes(end.cal()),
        None => seq![0u8, 0, 0, 0, 0, 0],
    }) + (if 0x01 <= event_type <= 0x0F {
        resized(record.data@, 119)
    } else {
        record.data@
    })
}

/// What an event identifier reads: 00 in the first byte the totals, 01 to 0A the record
/// with that number.
pub open spec fn event_read(di: Seq<u8>, s: MeterState) -> Result<Seq<u8>, ReadError> {
    let (event_type, sub_type, number) = (di[2], di[1], di[0]);
    let records = s.events(event_type, sub_type);
    if number == 0 {
        if s.event_summary@.contains_key(event_key(event_type, sub_type)) {
            Ok(summary_bytes(s.event_summary@[event_key(event_type, sub_type)]))
        } else {
            Err(ReadError::NoEventSummary { event_type, sub_type })
        }
    } else if number <= 0x0A {
        if number <= records.len() {
            Ok(record_bytes(records[records.len() - number], event_type))
        } else {
            Err(ReadError::NoEventRecord { event_type, sub_type, occurrence: number })
        }
    } else {
        Err(ReadError::EventIndex { di0: number })
    }
}

fn write_total(n: u32) -> (r: Vec<u8>)
    ensures
        r@ == total_bytes(n),
{
    let v: u32 = if n > 999999 {
        999999
    } else {
        n
    };
    let r: Vec<u8> = vec![
        to_bcd((v % 100) as u8),
        to_bcd((v / 100 % 100) as u8),
        to_bcd((v / 10000 % 100) as u8),
    ];
    assert(r@ =~= total_bytes(n));
    r
}

impl DIHandler {
    /// Reads the totals or a record of a kind of event.
    pub fn handle_event_record_read(&self, di: [u8; 4], state: &MeterState) -> (r: Result<
        Vec<u8>,
        ReadError,
    >)
        ensures
            result_bytes(r) == event_read(di@, *state),
    {
        if di[0] == 0x00 {
            self.read_event_summary(di[2], di[1], state)
        } else if di[0] <= 0x0A {
            self.read_event_detail(di[2], di[1], di[0], state)
        } else {
            Err(ReadError::EventIndex { di0: di[0] })
        }
    }

    fn read_event_summary(&self, event_type: u8, sub_type: u8, state: &MeterState) -> (r: Result<
        Vec<u8>,
        ReadError,
    >)
        ensures
            result_bytes(r) == event_read(seq![0u8, sub_type, event_type, 3], *state),
    {
        match state.get_event_summary(event_type, sub_type) {
            Some(summary) => {
                let mut data = write_total(summary.total_count);
                let minutes = write_total(summary.total_duration_minutes);
                append(&mut data, minutes.as_slice());
                Ok(data)
            },
            None => Err(ReadError::NoEventSummary { event_type, sub_type }),
        }
    }

    fn read_event_detail(
        &self,
        event_type: u8,
        sub_type: u8,
        occurrence: u8,
        state: &MeterState,
    ) -> (r: Result<Vec<u8>, ReadError>)
        requires
            1 <= occurrence <= 0x0A,
        ensures
            result_bytes(r) == event_read(seq![occurrence, sub_type, event_type, 3], *state),
    {
        let record = match state.get_event_record(event_type, sub_type, occurrence) {
            Some(record) => record,
            None => {
                return Err(ReadError::NoEventRecord { event_type, sub_type, occurrence });
            },
        };
        let mut data = encode_datetime(&record.start_time);
        match record.end_time {
            Some(end) => {
                let time = encode_datetime(&end);
                append(&mut data, time.as_slice());
            },
            None => {
                let none: [u8; 6] = [0; 6];
                append(&mut data, none.as_slice());
                assert(none@ =~= seq![0u8, 0, 0, 0, 0, 0]);
            },
        }
        if 0x01 <= event_type && event_type <= 0x0F {
            let tail = resize_to(&record.data, 119);
            append(&mut data, tail.as_slice());
        } else {
            append(&mut data, record.data.as_slice());
        }
        Ok(data)
    }
}

fn resize_to(data: &Vec<u8>, n: usize) -> (r: Vec<u8>)
    ensures
        r@ == resized(data@, n as nat),
{
    let mut out: Vec<u8> = Vec::new();
    for i in 0..n
        invariant
            out@ == resized(data@, i as nat),
    {
        out.push(
            if i < data.len() {
                data[i]
            } else {
                0
            },
        );
        assert(out@ =~= resized(data@, (i + 1) as nat));
    }
    out
}

} // verus!
