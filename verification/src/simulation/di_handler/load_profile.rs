//! Load records (06-xx-xx-xx): which records a request means and how they are written.

use crate::bytes::append;
use crate::protocol::codec::byte_sum;
use crate::protocol::format::{bcd_byte_value, digit_pair, is_bcd};
use crate::simulation::di_handler::encoding::{
    bcd_to_decimal, clock_bytes, current_bytes, encode_bcd_current, encode_bcd_energy,
    encode_bcd_frequency, encode_bcd_power, encode_bcd_power_factor, encode_bcd_voltage,
    encode_datetime, encode_datetime_ymd_hm, energy_bytes, frequency_bytes, power_bytes,
    power_factor_bytes, voltage_bytes, year_first_bytes, year_first_fields,
};
use crate::simulation::di_handler::read_error::{result_bytes, ReadError, RecordBlock};
use crate::simulation::di_handler::DIHandler;
use crate::simulation::load_record::{
    DemandBlock, EnergyBlock, LoadRecordData, LoadRecordSample, PfBlock, PqBlock, QuadrantBlock,
    VifBlock,
};
use crate::time::{Calendar, DateTime};
use vstd::prelude::*;

verus! {

/// How many records a curve holds at most.
pub const CURVE_RECORDS: u32 = 100;

/// The records that a request means.
#[derive(Debug, Clone, Copy, PartialEq, Eq, Structural)]
pub enum RecordQuery {
    /// The first record of a class.
    Earliest { class_id: u8 },
    /// The record of a class nearest to a time.
    AtTime { class_id: u8, time: DateTime },
    /// The last record of a class.
    Latest { class_id: u8 },
    /// The records of the first class from one time to another, the earliest first.
    Curve { start: DateTime, end: DateTime, max_records: u32 },
}

#[verifier::opaque]
pub open spec fn vif_bytes(v: VifBlock) -> Seq<u8> {
    voltage_bytes(v.voltage_a) + voltage_bytes(v.voltage_b) + voltage_bytes(v.voltage_c)
        + current_bytes(v.current_a) + current_bytes(v.current_b) + current_bytes(v.current_c)
        + frequency_bytes(v.frequency)
}

#[verifier::opaque]
pub open spec fn pq_bytes(v: PqBlock) -> Seq<u8> {
    power_bytes(v.active_total) + power_bytes(v.active_a) + power_bytes(v.active_b) + power_bytes(
        v.active_c,
    ) + power_bytes(v.reactive_total) + power_bytes(v.reactive_a) + power_bytes(v.reactive_b)
        + power_bytes(v.reactive_c)
}

#[verifier::opaque]
pub open spec fn pf_bytes(v: PfBlock) -> Seq<u8> {
    power_factor_bytes(v.total) + power_factor_bytes(v.a) + power_factor_bytes(v.b)
        + power_factor_bytes(v.c)
}

#[verifier::opaque]
pub open spec fn energy_block_bytes(v: EnergyBlock) -> Seq<u8> {
    energy_bytes(v.forward_active) + energy_bytes(v.reverse_active) + energy_bytes(
        v.combined_reactive1,
    ) + energy_bytes(v.combined_reactive2)
}

#[verifier::opaque]
pub open spec fn quadrant_bytes(v: QuadrantBlock) -> Seq<u8> {
    energy_bytes(v.q1) + energy_bytes(v.q2) + energy_bytes(v.q3) + energy_bytes(v.q4)
}

#[verifier::opaque]
pub open spec fn demand_block_bytes(v: DemandBlock) -> Seq<u8> {
    power_bytes(v.active) + power_bytes(v.reactive)
}

/// A block, if it is there, and the separator AAH if it or the next block is there.
#[verifier::opaque]
pub open spec fn with_separator(block: Option<Seq<u8>>, next: bool) -> Seq<u8> {
    (match block {
        Some(b) => b,
        None => Seq::<u8>::empty(),
    }) + (if block is Some || next {
        seq![0xAAu8]
    } else {
        Seq::<u8>::empty()
    })
}

pub open spec fn vif_part(d: LoadRecordData) -> Option<Seq<u8>> {
    match d.vif {
        Some(v) => Some(vif_bytes(v)),
        None => None,
    }
}

pub open spec fn pq_part(d: LoadRecordData) -> Option<Seq<u8>> {
    match d.pq {
        Some(v) => Some(pq_bytes(v)),
        None => None,
    }
}

pub open spec fn pf_part(d: LoadRecordData) -> Option<Seq<u8>> {
    match d.pf {
        Some(v) => Some(pf_bytes(v)),
        None => None,
    }
}

pub open spec fn energy_part(d: LoadRecordData) -> Option<Seq<u8>> {
    match d.energy {
        Some(v) => Some(energy_block_bytes(v)),
        None => None,
    }
}

pub open spec fn quadrant_part(d: LoadRecordData) -> Option<Seq<u8>> {
    match d.quadrant {
        Some(v) => Some(quadrant_bytes(v)),
        None => None,
    }
}

pub open spec fn demand_part(d: LoadRecordData) -> Option<Seq<u8>> {
    match d.demand {
        Some(v) => Some(demand_block_bytes(v)),
        None => None,
    }
}

/// The time of a record and its blocks, in the order of the mode word's bits.
pub open spec fn record_payload(time: DateTime, d: LoadRecordData) -> Seq<u8> {
    year_first_bytes(time.cal()) + with_separator(vif_part(d), d.pq is Some) + with_separator(
        pq_part(d),
        d.pf is Some,
    ) + with_separator(pf_part(d), d.energy is Some) + with_separator(
        energy_part(d),
        d.quadrant is Some,
    ) + with_separator(quadrant_part(d), d.demand is Some) + with_separator(demand_part(d), false)
}

/// A block without its checksum: A0H twice, the number of bytes that follow, and the payload.
pub open spec fn block_head(payload: Seq<u8>) -> Seq<u8> {
    seq![0xA0u8, 0xA0u8, ((payload.len() + 2) % 256) as u8] + payload
}

/// A block: its head, the sum of all its bytes modulo 256, and E5H.
pub open spec fn block_of(payload: Seq<u8>) -> Seq<u8> {
    block_head(payload) + seq![(byte_sum(block_head(payload)) % 256) as u8, 0xE5u8]
}

/// A record as a block.
pub open spec fn record_block(time: DateTime, d: LoadRecordData) -> Seq<u8> {
    block_of(record_payload(time, d))
}

/// Puts a payload into a block.
fn close_block(payload: &[u8]) -> (r: Vec<u8>)
    ensures
        r@ == block_of(payload@),
{
    let mut block: Vec<u8> = vec![0xA0, 0xA0];
    let count: u8 = ((payload.len() % 256 + 2) % 256) as u8;
    block.push(count);
    append(&mut block, payload);
    assert(block@ =~= block_head(payload@));
    let sum: u8 = sum_bytes(&block);
    block.push(sum);
    block.push(0xE5);
    assert(block@ =~= block_of(payload@));
    block
}

fn join_vif(v: &VifBlock) -> (r: Vec<u8>)
    ensures
        r@ == vif_bytes(*v),
{
    proof {
        reveal(vif_bytes);
    }
    let mut data = encode_bcd_voltage(v.voltage_a);
    append(&mut data, encode_bcd_voltage(v.voltage_b).as_slice());
    append(&mut data, encode_bcd_voltage(v.voltage_c).as_slice());
    append(&mut data, encode_bcd_current(v.current_a).as_slice());
    append(&mut data, encode_bcd_current(v.current_b).as_slice());
    append(&mut data, encode_bcd_current(v.current_c).as_slice());
    append(&mut data, encode_bcd_frequency(v.frequency).as_slice());
    data
}

fn join_pq(v: &PqBlock) -> (r: Vec<u8>)
    ensures
        r@ == pq_bytes(*v),
{
    proof {
        reveal(pq_bytes);
    }
    let mut data = encode_bcd_power(v.active_total);
    append(&mut data, encode_bcd_power(v.active_a).as_slice());
    append(&mut data, encode_bcd_power(v.active_b).as_slice());
    append(&mut data, encode_bcd_power(v.active_c).as_slice());
    append(&mut data, encode_bcd_power(v.reactive_total).as_slice());
    append(&mut data, encode_bcd_power(v.reactive_a).as_slice());
    append(&mut data, encode_bcd_power(v.reactive_b).as_slice());
    append(&mut data, encode_bcd_power(v.reactive_c).as_slice());
    data
}

fn join_pf(v: &PfBlock) -> (r: Vec<u8>)
    ensures
        r@ == pf_bytes(*v),
{
    proof {
        reveal(pf_bytes);
    }
    let mut data = encode_bcd_power_factor(v.total);
    append(&mut data, encode_bcd_power_factor(v.a).as_slice());
    append(&mut data, encode_bcd_power_factor(v.b).as_slice());
    append(&mut data, encode_bcd_power_factor(v.c).as_slice());
    data
}

fn join_energy(v: &EnergyBlock) -> (r: Vec<u8>)
    ensures
        r@ == energy_block_bytes(*v),
{
    proof {
        reveal(energy_block_bytes);
    }
    let mut data = encode_bcd_energy(v.forward_active);
    append(&mut data, encode_bcd_energy(v.reverse_active).as_slice());
    append(&mut data, encode_bcd_energy(v.combined_reactive1).as_slice());
    append(&mut data, encode_bcd_energy(v.combined_reactive2).as_slice());
    data
}

fn join_quadrant(v: &QuadrantBlock) -> (r: Vec<u8>)
    ensures
        r@ == quadrant_bytes(*v),
{
    proof {
        reveal(quadrant_bytes);
    }
    let mut data = encode_bcd_energy(v.q1);
    append(&mut data, encode_bcd_energy(v.q2).as_slice());
    append(&mut data, encode_bcd_energy(v.q3).as_slice());
    append(&mut data, encode_bcd_energy(v.q4).as_slice());
    data
}

fn join_demand(v: &DemandBlock) -> (r: Vec<u8>)
    ensures
        r@ == demand_block_bytes(*v),
{
    proof {
        reveal(demand_block_bytes);
    }
    let mut data = encode_bcd_power(v.active);
    append(&mut data, encode_bcd_power(v.reactive).as_slice());
    data
}

/// Appends a block and its separator.
fn append_block(payload: &mut Vec<u8>, block: Option<Vec<u8>>, next: bool)
    ensures
        final(payload)@ == old(payload)@ + with_separator(
            match block {
                Some(b) => Some(b@),
                None => None,
            },
            next,
        ),
{
    proof {
        reveal(with_separator);
    }
    match block {
        Some(b) => {
            append(payload, b.as_slice());
            payload.push(0xAA);
            assert(payload@ =~= old(payload)@ + with_separator(Some(b@), next));
        },
        None => {
            if next {
                payload.push(0xAA);
            }
            assert(payload@ =~= old(payload)@ + with_separator(None, next));
        },
    }
}

/// The time of a record and its blocks.
fn join_blocks(sample_time: &DateTime, data: &LoadRecordData) -> (r: Vec<u8>)
    ensures
        r@ == record_payload(*sample_time, *data),
{
    let mut payload = encode_datetime_ymd_hm(sample_time);
    let ghost p0 = payload@;
    let vif = match &data.vif {
        Some(v) => Some(join_vif(v)),
        None => None,
    };
    append_block(&mut payload, vif, data.pq.is_some());
    let ghost p1 = payload@;
    assert(p1 == p0 + with_separator(vif_part(*data), data.pq is Some));
    let pq = match &data.pq {
        Some(v) => Some(join_pq(v)),
        None => None,
    };
    append_block(&mut payload, pq, data.pf.is_some());
    let ghost p2 = payload@;
    assert(p2 == p1 + with_separator(pq_part(*data), data.pf is Some));
    let pf = match &data.pf {
        Some(v) => Some(join_pf(v)),
        None => None,
    };
    append_block(&mut payload, pf, data.energy.is_some());
    let ghost p3 = payload@;
    assert(p3 == p2 + with_separator(pf_part(*data), data.energy is Some));
    let energy = match &data.energy {
        Some(v) => Some(join_energy(v)),
        None => None,
    };
    append_block(&mut payload, energy, data.quadrant.is_some());
    let ghost p4 = payload@;
    assert(p4 == p3 + with_separator(energy_part(*data), data.quadrant is Some));
    let quadrant = match &data.quadrant {
        Some(v) => Some(join_quadrant(v)),
        None => None,
    };
    append_block(&mut payload, quadrant, data.demand.is_some());
    let ghost p5 = payload@;
    assert(p5 == p4 + with_separator(quadrant_part(*data), data.demand is Some));
    let demand = match &data.demand {
        Some(v) => Some(join_demand(v)),
        None => None,
    };
    append_block(&mut payload, demand, false);
    assert(payload@ == p5 + with_separator(demand_part(*data), false));
    payload
}

fn sum_bytes(bytes: &Vec<u8>) -> (r: u8)
    ensures
        r == byte_sum(bytes@) % 256,
{
    let mut sum: u8 = 0;
    for i in 0..bytes.len()
        invariant
            sum == byte_sum(bytes@.take(i as int)) % 256,
    {
        proof {
            let next = bytes@.take(i + 1);
            assert(next.drop_last() =~= bytes@.take(i as int));
            assert(next.last() == bytes@[i as int]);
        }
        sum = sum.wrapping_add(bytes[i]);
    }
    assert(bytes@.take(bytes@.len() as int) =~= bytes@);
    sum
}

/// The values of a curve: which block of the record, and its bytes.
pub open spec fn curve_value(di1: u8, di0: u8, d: LoadRecordData) -> Result<Seq<u8>, ReadError> {
    match (di1, di0) {
        (0x01u8, 0x01u8) => of_vif(d, RecordBlock::Voltage, |v: VifBlock| voltage_bytes(v.voltage_a)),
        (0x01u8, 0x02u8) => of_vif(d, RecordBlock::Voltage, |v: VifBlock| voltage_bytes(v.voltage_b)),
        (0x01u8, 0x03u8) => of_vif(d, RecordBlock::Voltage, |v: VifBlock| voltage_bytes(v.voltage_c)),
        (0x02u8, 0x01u8) => of_vif(d, RecordBlock::Current, |v: VifBlock| current_bytes(v.current_a)),
        (0x02u8, 0x02u8) => of_vif(d, RecordBlock::Current, |v: VifBlock| current_bytes(v.current_b)),
        (0x02u8, 0x03u8) => of_vif(d, RecordBlock::Current, |v: VifBlock| current_bytes(v.current_c)),
        (0x03u8, 0x00u8) => of_pq(d, RecordBlock::ActivePower, |v: PqBlock| power_bytes(v.active_total)),
        (0x03u8, 0x01u8) => of_pq(d, RecordBlock::ActivePower, |v: PqBlock| power_bytes(v.active_a)),
        (0x03u8, 0x02u8) => of_pq(d, RecordBlock::ActivePower, |v: PqBlock| power_bytes(v.active_b)),
        (0x03u8, 0x03u8) => of_pq(d, RecordBlock::ActivePower, |v: PqBlock| power_bytes(v.active_c)),
        (0x04u8, 0x00u8) => of_pq(
            d,
            RecordBlock::ReactivePower,
            |v: PqBlock| power_bytes(v.reactive_total),
        ),
        (0x04u8, 0x01u8) => of_pq(d, RecordBlock::ReactivePower, |v: PqBlock| power_bytes(v.reactive_a)),
        (0x04u8, 0x02u8) => of_pq(d, RecordBlock::ReactivePower, |v: PqBlock| power_bytes(v.reactive_b)),
        (0x04u8, 0x03u8) => of_pq(d, RecordBlock::ReactivePower, |v: PqBlock| power_bytes(v.reactive_c)),
        (0x05u8, 0x00u8) => of_pf(d, |v: PfBlock| power_factor_bytes(v.total)),
        (0x05u8, 0x01u8) => of_pf(d, |v: PfBlock| power_factor_bytes(v.a)),
        (0x05u8, 0x02u8) => of_pf(d, |v: PfBlock| power_factor_bytes(v.b)),
        (0x05u8, 0x03u8) => of_pf(d, |v: PfBlock| power_factor_bytes(v.c)),
        (0x06u8, 0x01u8) => of_energy(d, |v: EnergyBlock| energy_bytes(v.forward_active)),
        (0x06u8, 0x02u8) => of_energy(d, |v: EnergyBlock| energy_bytes(v.reverse_active)),
        (0x06u8, 0x03u8) => of_energy(d, |v: EnergyBlock| energy_bytes(v.combined_reactive1)),
        (0x06u8, 0x04u8) => of_energy(d, |v: EnergyBlock| energy_bytes(v.combined_reactive2)),
        (0x07u8, 0x01u8) => of_quadrant(d, |v: QuadrantBlock| energy_bytes(v.q1)),
        (0x07u8, 0x02u8) => of_quadrant(d, |v: QuadrantBlock| energy_bytes(v.q2)),
        (0x07u8, 0x03u8) => of_quadrant(d, |v: QuadrantBlock| energy_bytes(v.q3)),
        (0x07u8, 0x04u8) => of_quadrant(d, |v: QuadrantBlock| energy_bytes(v.q4)),
        (0x08u8, 0x01u8) => of_demand(d, |v: DemandBlock| power_bytes(v.active)),
        (0x08u8, 0x02u8) => of_demand(d, |v: DemandBlock| power_bytes(v.reactive)),
        _ => Err(ReadError::RecordItem { di1, di0 }),
    }
}

pub open spec fn of_vif(
    d: LoadRecordData,
    block: RecordBlock,
    f: spec_fn(VifBlock) -> Seq<u8>,
) -> Result<Seq<u8>, ReadError> {
    match d.vif {
        Some(v) => Ok(f(v)),
        None => Err(ReadError::NotRecorded { block }),
    }
}

pub open spec fn of_pq(
    d: LoadRecordData,
    block: RecordBlock,
    f: spec_fn(PqBlock) -> Seq<u8>,
) -> Result<Seq<u8>, ReadError> {
    match d.pq {
        Some(v) => Ok(f(v)),
        None => Err(ReadError::NotRecorded { block }),
    }
}

pub open spec fn of_pf(d: LoadRecordData, f: spec_fn(PfBlock) -> Seq<u8>) -> Result<
    Seq<u8>,
    ReadError,
> {
    match d.pf {
        Some(v) => Ok(f(v)),
        None => Err(ReadError::NotRecorded { block: RecordBlock::PowerFactor }),
    }
}

pub open spec fn of_energy(d: LoadRecordData, f: spec_fn(EnergyBlock) -> Seq<u8>) -> Result<
    Seq<u8>,
    ReadError,
> {
    match d.energy {
        Some(v) => Ok(f(v)),
        None => Err(ReadError::NotRecorded { block: RecordBlock::Energy }),
    }
}

pub open spec fn of_quadrant(d: LoadRecordData, f: spec_fn(QuadrantBlock) -> Seq<u8>) -> Result<
    Seq<u8>,
    ReadError,
> {
    match d.quadrant {
        Some(v) => Ok(f(v)),
        None => Err(ReadError::NotRecorded { block: RecordBlock::Quadrant }),
    }
}

pub open spec fn of_demand(d: LoadRecordData, f: spec_fn(DemandBlock) -> Seq<u8>) -> Result<
    Seq<u8>,
    ReadError,
> {
    match d.demand {
        Some(v) => Ok(f(v)),
        None => Err(ReadError::NotRecorded { block: RecordBlock::Demand }),
    }
}

/// The points of a curve: for each record its time and value. The first record without
/// the value makes the whole curve an error.
pub open spec fn curve_points(di1: u8, di0: u8, rows: Seq<LoadRecordSample>) -> Result<
    Seq<u8>,
    ReadError,
>
    decreases rows.len(),
{
    if rows.len() == 0 {
        Ok(seq![])
    } else {
        match curve_points(di1, di0, rows.drop_last()) {
            Err(e) => Err(e),
            Ok(before) => match curve_value(di1, di0, rows.last().data) {
                Err(e) => Err(e),
                Ok(value) => Ok(before + clock_bytes(rows.last().sample_time.cal()) + value),
            },
        }
    }
}

/// A curve: the number of points (255 at most), the time of the first, the identifier, and
/// the points.
pub open spec fn curve_bytes(di1: u8, di0: u8, rows: Seq<LoadRecordSample>) -> Result<
    Seq<u8>,
    ReadError,
> {
    if rows.len() == 0 {
        Err(ReadError::NoRecord)
    } else {
        match curve_points(di1, di0, rows) {
            Err(e) => Err(e),
            Ok(points) => Ok(
                seq![
                    (if rows.len() > 255 {
                        255
                    } else {
                        rows.len() as int
                    }) as u8,
                ] + clock_bytes(rows[0].sample_time.cal()) + seq![di0, di1, 0x10u8, 0x06u8]
                    + points,
            ),
        }
    }
}

/// The time that mm hh DD MM YY names.
pub open spec fn minute_first_fields(b: Seq<u8>) -> Calendar {
    Calendar {
        year: (2000 + bcd_byte_value(b[4])) as i32,
        month: bcd_byte_value(b[3]) as u32,
        day: bcd_byte_value(b[2]) as u32,
        hour: bcd_byte_value(b[1]) as u32,
        minute: bcd_byte_value(b[0]) as u32,
        second: 0,
    }
}

/// The first of five bytes that is not a pair of digits.
pub open spec fn bad_digits(b: Seq<u8>) -> Option<u8> {
    if !is_bcd(b[0]) {
        Some(b[0])
    } else if !is_bcd(b[1]) {
        Some(b[1])
    } else if !is_bcd(b[2]) {
        Some(b[2])
    } else if !is_bcd(b[3]) {
        Some(b[3])
    } else if !is_bcd(b[4]) {
        Some(b[4])
    } else {
        None
    }
}

pub open spec fn no_such_minute(c: Calendar) -> ReadError {
    ReadError::RecordTime {
        year: c.year,
        month: c.month,
        day: c.day,
        hour: c.hour,
        minute: c.minute,
    }
}

/// Why five bytes do not name a time, if they do not.
pub open spec fn time_error(b: Seq<u8>) -> Option<ReadError> {
    if b.len() != 5 {
        Some(ReadError::RecordTimeLength { actual: b.len() as usize })
    } else {
        match bad_digits(b) {
            Some(byte) => Some(ReadError::RecordDigits { byte }),
            None => if minute_first_fields(b).valid() {
                None
            } else {
                Some(no_such_minute(minute_first_fields(b)))
            },
        }
    }
}

/// Reads mm hh DD MM YY.
pub fn parse_load_profile_time(data: &[u8]) -> (r: Result<DateTime, ReadError>)
    ensures
        r is Ok <==> time_error(data@) is None,
        r matches Ok(t) ==> t.cal() == minute_first_fields(data@) && t.subsec_nanos() == 0,
        r matches Err(e) ==> time_error(data@) == Some(e),
{
    if data.len() != 5 {
        return Err(ReadError::RecordTimeLength { actual: data.len() });
    }
    let mm: u8 = time_digits(data[0])?;
    let hh: u8 = time_digits(data[1])?;
    let dd: u8 = time_digits(data[2])?;
    let month: u8 = time_digits(data[3])?;
    let yy: u8 = time_digits(data[4])?;
    let year: i32 = 2000 + yy as i32;
    match DateTime::with_ymd_and_hms(year, month as u32, dd as u32, hh as u32, mm as u32, 0) {
        Some(t) => Ok(t),
        None => Err(
            ReadError::RecordTime {
                year,
                month: month as u32,
                day: dd as u32,
                hour: hh as u32,
                minute: mm as u32,
            },
        ),
    }
}

fn time_digits(byte: u8) -> (r: Result<u8, ReadError>)
    ensures
        r is Ok <==> is_bcd(byte),
        r matches Ok(v) ==> v == bcd_byte_value(byte) && v <= 99,
        r matches Err(e) ==> e == (ReadError::RecordDigits { byte }),
{
    match digit_pair(byte) {
        Some(v) => Ok(v),
        None => Err(ReadError::RecordDigits { byte }),
    }
}

/// Reads YY MM DD hh mm from the first five bytes. Half bytes above 9 count as they are.
pub fn decode_bcd_datetime_ymd_hm(bcd: &[u8]) -> (r: Result<DateTime, ReadError>)
    ensures
        r is Ok <==> bcd@.len() >= 5 && year_first_fields(bcd@).valid(),
        r matches Ok(t) ==> t.cal() == year_first_fields(bcd@) && t.subsec_nanos() == 0,
        r matches Err(e) ==> e == (if bcd@.len() < 5 {
            ReadError::RecordTimeLength { actual: bcd@.len() as usize }
        } else {
            no_such_minute(year_first_fields(bcd@))
        }),
{
    if bcd.len() < 5 {
        return Err(ReadError::RecordTimeLength { actual: bcd.len() });
    }
    let year: i32 = 2000 + bcd_to_decimal(bcd[0]) as i32;
    let month: u32 = bcd_to_decimal(bcd[1]) as u32;
    let day: u32 = bcd_to_decimal(bcd[2]) as u32;
    let hour: u32 = bcd_to_decimal(bcd[3]) as u32;
    let minute: u32 = bcd_to_decimal(bcd[4]) as u32;
    match DateTime::with_ymd_and_hms(year, month, day, hour, minute, 0) {
        Some(t) => Ok(t),
        None => Err(ReadError::RecordTime { year, month, day, hour, minute }),
    }
}

/// Why a read of a load record is refused; `None` where it is carried out. A curve
/// (06-10-xx-xx) has two times of five digit pairs behind its identifier and names one
/// channel; a block (06-01-00-xx to 06-06-00-xx) is the first (00), the one nearest to the
/// time that follows (01) or the last (02) of its class.
pub open spec fn query_error(di: Seq<u8>, rest: Seq<u8>) -> Option<ReadError> {
    if di[2] == 0x10 {
        if rest.len() != 10 {
            Some(ReadError::RecordTimeLength { actual: rest.len() as usize })
        } else if time_error(rest.take(5)) is Some {
            time_error(rest.take(5))
        } else if time_error(rest.skip(5)) is Some {
            time_error(rest.skip(5))
        } else if di[0] == 0xFF {
            Some(ReadError::AllChannels)
        } else {
            None
        }
    } else if di[0] == 0x01 && rest.len() < 5 {
        Some(ReadError::RecordTimeLength { actual: rest.len() as usize })
    } else if di[1] != 0x00 {
        Some(ReadError::RecordSelector { di1: di[1] })
    } else if di[2] == 0x00 {
        Some(ReadError::AllClasses)
    } else if di[2] > 6 {
        Some(ReadError::RecordClass { di2: di[2] })
    } else if di[0] > 2 {
        Some(ReadError::RecordPosition { di0: di[0] })
    } else if di[0] == 0x01 && !year_first_fields(rest).valid() {
        Some(no_such_minute(year_first_fields(rest)))
    } else {
        None
    }
}

/// The records that an accepted read of a load record means.
pub open spec fn query_means(di: Seq<u8>, rest: Seq<u8>, q: RecordQuery) -> bool {
    if di[2] == 0x10 {
        &&& q matches RecordQuery::Curve { start, end, max_records }
        &&& start.cal() == minute_first_fields(rest.take(5))
        &&& start.subsec_nanos() == 0
        &&& end.cal() == minute_first_fields(rest.skip(5))
        &&& end.subsec_nanos() == 0
        &&& max_records == 100
    } else if di[0] == 0x00 {
        q == (RecordQuery::Earliest { class_id: di[2] })
    } else if di[0] == 0x01 {
        &&& q matches RecordQuery::AtTime { class_id, time }
        &&& class_id == di[2]
        &&& time.cal() == year_first_fields(rest)
        &&& time.subsec_nanos() == 0
    } else {
        q == (RecordQuery::Latest { class_id: di[2] })
    }
}

impl DIHandler {
    /// Works out which records a read of a load record means.
    pub fn plan_load_profile_read(&self, di: [u8; 4], rest: &[u8]) -> (r: Result<
        RecordQuery,
        ReadError,
    >)
        ensures
            r is Ok <==> query_error(di@, rest@) is None,
            r matches Ok(q) ==> query_means(di@, rest@, q),
            r matches Err(e) ==> query_error(di@, rest@) == Some(e),
    {
        let (di2, di1, di0): (u8, u8, u8) = (di[2], di[1], di[0]);
        if di2 == 0x10 {
            if rest.len() != 10 {
                return Err(ReadError::RecordTimeLength { actual: rest.len() });
            }
            let first = vstd::slice::slice_subrange(rest, 0, 5);
            let second = vstd::slice::slice_subrange(rest, 5, 10);
            assert(first@ =~= rest@.take(5));
            assert(second@ =~= rest@.skip(5));
            let start = parse_load_profile_time(first)?;
            let end = parse_load_profile_time(second)?;
            if di0 == 0xFF {
                return Err(ReadError::AllChannels);
            }
            return Ok(RecordQuery::Curve { start, end, max_records: CURVE_RECORDS });
        }
        if di0 == 0x01 && rest.len() < 5 {
            return Err(ReadError::RecordTimeLength { actual: rest.len() });
        }
        if di1 != 0x00 {
            return Err(ReadError::RecordSelector { di1 });
        }
        if di2 == 0x00 {
            return Err(ReadError::AllClasses);
        }
        if di2 > 6 {
            return Err(ReadError::RecordClass { di2 });
        }
        match di0 {
            0x00 => Ok(RecordQuery::Earliest { class_id: di2 }),
            0x01 => {
                let time = decode_bcd_datetime_ymd_hm(rest)?;
                Ok(RecordQuery::AtTime { class_id: di2, time })
            },
            0x02 => Ok(RecordQuery::Latest { class_id: di2 }),
            _ => Err(ReadError::RecordPosition { di0 }),
        }
    }

    /// Writes the answer to a read of a load record from the records that were found: the
    /// first one as a block, or all as a curve.
    pub fn answer_load_profile_read(&self, di: [u8; 4], rows: &Vec<LoadRecordSample>) -> (r: Result<
        Vec<u8>,
        ReadError,
    >)
        ensures
            result_bytes(r) == (if di@[2] == 0x10 {
                curve_bytes(di@[1], di@[0], rows@)
            } else if rows@.len() == 0 {
                Err(ReadError::NoRecord)
            } else {
                Ok(record_block(rows@[0].sample_time, rows@[0].data))
            }),
    {
        if di[2] == 0x10 {
            self.encode_curve(di[1], di[0], rows)
        } else if rows.len() == 0 {
            Err(ReadError::NoRecord)
        } else {
            Ok(self.encode_load_record_block(&rows[0].sample_time, &rows[0].data))
        }
    }

    fn encode_curve(&self, di1: u8, di0: u8, rows: &Vec<LoadRecordSample>) -> (r: Result<
        Vec<u8>,
        ReadError,
    >)
        ensures
            result_bytes(r) == curve_bytes(di1, di0, rows@),
    {
        if rows.len() == 0 {
            return Err(ReadError::NoRecord);
        }
        let count: u8 = if rows.len() > 255 {
            255
        } else {
            rows.len() as u8
        };
        let mut data: Vec<u8> = vec![count];
        append(&mut data, encode_datetime(&rows[0].sample_time).as_slice());
        let id: [u8; 4] = [di0, di1, 0x10, 0x06];
        append(&mut data, id.as_slice());
        let ghost lead = seq![count] + clock_bytes(rows@[0].sample_time.cal()) + seq![
            di0,
            di1,
            0x10u8,
            0x06u8,
        ];
        assert(data@ =~= lead);
        assert(rows@.take(0) =~= Seq::<LoadRecordSample>::empty());
        assert(data@ =~= lead + curve_points(di1, di0, rows@.take(0))->Ok_0);
        for i in 0..rows.len()
            invariant
                curve_points(di1, di0, rows@.take(i as int)) is Ok,
                data@ == lead + curve_points(di1, di0, rows@.take(i as int))->Ok_0,
        {
            proof {
                let next = rows@.take(i + 1);
                assert(next.drop_last() =~= rows@.take(i as int));
                assert(next.last() == rows@[i as int]);
            }
            let ghost before = curve_points(di1, di0, rows@.take(i as int))->Ok_0;
            append(&mut data, encode_datetime(&rows[i].sample_time).as_slice());
            match self.extract_curve_data_value(di1, di0, &rows[i].data) {
                Ok(value) => {
                    append(&mut data, value.as_slice());
                    assert(data@ =~= lead + (before + clock_bytes(
                        rows@[i as int].sample_time.cal(),
                    ) + value@));
                },
                Err(e) => {
                    proof {
                        lemma_curve_error(di1, di0, rows@, i + 1);
                    }
                    return Err(e);
                },
            }
        }
        assert(rows@.take(rows@.len() as int) =~= rows@);
        Ok(data)
    }

    /// Writes a record as a block.
    pub fn encode_load_record_block(&self, sample_time: &DateTime, data: &LoadRecordData) -> (r:
        Vec<u8>)
        ensures
            r@ == record_block(*sample_time, *data),
    {
        let payload = join_blocks(sample_time, data);
        close_block(payload.as_slice())
    }

    /// Writes one value of a record.
    pub fn extract_curve_data_value(&self, di1: u8, di0: u8, data: &LoadRecordData) -> (r: Result<
        Vec<u8>,
        ReadError,
    >)
        ensures
            result_bytes(r) == curve_value(di1, di0, *data),
    {
        match di1 {
            0x01 | 0x02 => {
                if di0 < 1 || di0 > 3 {
                    return Err(ReadError::RecordItem { di1, di0 });
                }
                let block = if di1 == 0x01 {
                    RecordBlock::Voltage
                } else {
                    RecordBlock::Current
                };
                match &data.vif {
                    None => Err(ReadError::NotRecorded { block }),
                    Some(v) => match (di1, di0) {
                        (0x01, 0x01) => Ok(encode_bcd_voltage(v.voltage_a)),
                        (0x01, 0x02) => Ok(encode_bcd_voltage(v.voltage_b)),
                        (0x01, _) => Ok(encode_bcd_voltage(v.voltage_c)),
                        (_, 0x01) => Ok(encode_bcd_current(v.current_a)),
                        (_, 0x02) => Ok(encode_bcd_current(v.current_b)),
                        _ => Ok(encode_bcd_current(v.current_c)),
                    },
                }
            },
            0x03 | 0x04 => {
                if di0 > 3 {
                    return Err(ReadError::RecordItem { di1, di0 });
                }
                let block = if di1 == 0x03 {
                    RecordBlock::ActivePower
                } else {
                    RecordBlock::ReactivePower
                };
                match &data.pq {
                    None => Err(ReadError::NotRecorded { block }),
                    Some(v) => match (di1, di0) {
                        (0x03, 0x00) => Ok(encode_bcd_power(v.active_total)),
                        (0x03, 0x01) => Ok(encode_bcd_power(v.active_a)),
                        (0x03, 0x02) => Ok(encode_bcd_power(v.active_b)),
                        (0x03, _) => Ok(encode_bcd_power(v.active_c)),
                        (_, 0x00) => Ok(encode_bcd_power(v.reactive_total)),
                        (_, 0x01) => Ok(encode_bcd_power(v.reactive_a)),
                        (_, 0x02) => Ok(encode_bcd_power(v.reactive_b)),
                        _ => Ok(encode_bcd_power(v.reactive_c)),
                    },
                }
            },
            0x05 => {
                if di0 > 3 {
                    return Err(ReadError::RecordItem { di1, di0 });
                }
                match &data.pf {
                    None => Err(ReadError::NotRecorded { block: RecordBlock::PowerFactor }),
                    Some(v) => match di0 {
                        0x00 => Ok(encode_bcd_power_factor(v.total)),
                        0x01 => Ok(encode_bcd_power_factor(v.a)),
                        0x02 => Ok(encode_bcd_power_factor(v.b)),
                        _ => Ok(encode_bcd_power_factor(v.c)),
                    },
                }
            },
            0x06 => {
                if di0 < 1 || di0 > 4 {
                    return Err(ReadError::RecordItem { di1, di0 });
                }
                match &data.energy {
                    None => Err(ReadError::NotRecorded { block: RecordBlock::Energy }),
                    Some(v) => match di0 {
                        0x01 => Ok(encode_bcd_energy(v.forward_active)),
                        0x02 => Ok(encode_bcd_energy(v.reverse_active)),
                        0x03 => Ok(encode_bcd_energy(v.combined_reactive1)),
                        _ => Ok(encode_bcd_energy(v.combined_reactive2)),
                    },
                }
            },
            0x07 => {
                if di0 < 1 || di0 > 4 {
                    return Err(ReadError::RecordItem { di1, di0 });
                }
                match &data.quadrant {
                    None => Err(ReadError::NotRecorded { block: RecordBlock::Quadrant }),
                    Some(v) => match di0 {
                        0x01 => Ok(encode_bcd_energy(v.q1)),
                        0x02 => Ok(encode_bcd_energy(v.q2)),
                        0x03 => Ok(encode_bcd_energy(v.q3)),
                        _ => Ok(encode_bcd_energy(v.q4)),
                    },
                }
            },
            0x08 => {
                if di0 < 1 || di0 > 2 {
                    return Err(ReadError::RecordItem { di1, di0 });
                }
                match &data.demand {
                    None => Err(ReadError::NotRecorded { block: RecordBlock::Demand }),
                    Some(v) => if di0 == 0x01 {
                        Ok(encode_bcd_power(v.active))
                    } else {
                        Ok(encode_bcd_power(v.reactive))
                    },
                }
            },
            _ => Err(ReadError::RecordItem { di1, di0 }),
        }
    }
}

proof fn lemma_curve_error(di1: u8, di0: u8, rows: Seq<LoadRecordSample>, n: int)
    requires
        0 <= n <= rows.len(),
        curve_points(di1, di0, rows.take(n)) is Err,
    ensures
        curve_points(di1, di0, rows) == curve_points(di1, di0, rows.take(n)),
    decreases rows.len(),
{
    if n == rows.len() {
        assert(rows.take(n) =~= rows);
    } else {
        assert(rows.drop_last().take(n) =~= rows.take(n));
        lemma_curve_error(di1, di0, rows.drop_last(), n);
    }
}

} // verus!
