use meter_core::simulation::di_handler::load_profile::RecordQuery;
use meter_core::simulation::di_handler::read_error::{ReadError, RecordBlock};
use meter_core::simulation::load_record::{
    DemandBlock, LoadRecordData, LoadRecordSample, PfBlock, VifBlock,
};
use meter_core::simulation::virtual_meter::{ReadPlan, VirtualMeter};
use meter_core::time::DateTime;

const UNIT: i64 = 1_000_000_000;

fn sample(minute: u32, voltage: i64) -> LoadRecordSample {
    LoadRecordSample {
        class_id: 1,
        sample_time: DateTime::with_ymd_and_hms(2025, 1, 31, 12, minute, 0).unwrap(),
        data: LoadRecordData {
            vif: Some(VifBlock {
                voltage_a: voltage,
                voltage_b: 0,
                voltage_c: 0,
                current_a: 1_234_000_000,
                current_b: 0,
                current_c: 0,
                frequency: 50 * UNIT,
            }),
            pq: None,
            pf: Some(PfBlock { total: 950_000_000, a: 0, b: 0, c: 0 }),
            energy: None,
            quadrant: None,
            demand: Some(DemandBlock { active: UNIT, reactive: 0 }),
        },
    }
}

#[test]
fn a_curve_lists_its_points() {
    let meter = VirtualMeter::default();
    let rows = vec![sample(0, 220 * UNIT), sample(15, 221_500_000_000)];
    assert_eq!(
        meter.answer_records([0x01, 0x01, 0x10, 0x06], &rows).unwrap(),
        vec![
            2, 0x00, 0x00, 0x12, 0x31, 0x01, 0x25, 0x01, 0x01, 0x10, 0x06, 0x00, 0x00, 0x12, 0x31,
            0x01, 0x25, 0x00, 0x22, 0x00, 0x15, 0x12, 0x31, 0x01, 0x25, 0x15, 0x22
        ]
    );
}

#[test]
fn curves_of_each_block() {
    let meter = VirtualMeter::default();
    let rows = vec![sample(0, 220 * UNIT)];
    let value = |di1: u8, di0: u8| {
        meter.answer_records([di0, di1, 0x10, 0x06], &rows).map(|bytes| bytes[17..].to_vec())
    };
    assert_eq!(value(0x02, 0x01).unwrap(), vec![0x34, 0x12, 0x00]);
    assert_eq!(value(0x05, 0x00).unwrap(), vec![0x50, 0x09]);
    assert_eq!(value(0x08, 0x01).unwrap(), vec![0x00, 0x00, 0x01]);
    assert_eq!(
        value(0x03, 0x00).unwrap_err(),
        ReadError::NotRecorded { block: RecordBlock::ActivePower }
    );
    assert_eq!(
        value(0x06, 0x01).unwrap_err(),
        ReadError::NotRecorded { block: RecordBlock::Energy }
    );
    assert_eq!(value(0x09, 0x01).unwrap_err(), ReadError::RecordItem { di1: 9, di0: 1 });
    assert_eq!(
        meter.answer_records([0x01, 0x01, 0x10, 0x06], &vec![]).unwrap_err(),
        ReadError::NoRecord
    );
}

#[test]
fn a_block_is_framed_and_summed() {
    let meter = VirtualMeter::default();
    let block = meter.answer_records([0x02, 0x00, 0x01, 0x06], &vec![sample(5, UNIT)]).unwrap();
    assert_eq!(&block[0..2], &[0xA0, 0xA0]);
    assert_eq!(block[2] as usize, block.len() - 3);
    assert_eq!(&block[3..8], &[0x25, 0x01, 0x31, 0x12, 0x05]);
    assert_eq!(*block.last().unwrap(), 0xE5);
    let sum = block[..block.len() - 2].iter().fold(0u8, |acc, b| acc.wrapping_add(*b));
    assert_eq!(block[block.len() - 2], sum);
}

#[test]
fn reads_of_records_become_queries() {
    let meter = VirtualMeter::default();
    let plan = |data: &[u8]| meter.plan_read(data, true);
    let query = |data: &[u8]| match plan(data) {
        Ok(ReadPlan::Records(q)) => q,
        other => panic!("{other:?}"),
    };
    assert_eq!(query(&[0x00, 0x00, 0x03, 0x06]), RecordQuery::Earliest { class_id: 3 });
    assert_eq!(query(&[0x02, 0x00, 0x06, 0x06]), RecordQuery::Latest { class_id: 6 });
    assert_eq!(
        query(&[0x01, 0x00, 0x02, 0x06, 0x25, 0x01, 0x31, 0x12, 0x05]),
        RecordQuery::AtTime {
            class_id: 2,
            time: DateTime::with_ymd_and_hms(2025, 1, 31, 12, 5, 0).unwrap()
        }
    );
    let curve = [0x01, 0x01, 0x10, 0x06, 0x00, 0x10, 0x31, 0x01, 0x25, 0x30, 0x11, 0x31, 0x01, 0x25];
    assert_eq!(
        query(&curve),
        RecordQuery::Curve {
            start: DateTime::with_ymd_and_hms(2025, 1, 31, 10, 0, 0).unwrap(),
            end: DateTime::with_ymd_and_hms(2025, 1, 31, 11, 30, 0).unwrap(),
            max_records: 100
        }
    );

    let refused = |data: &[u8]| match plan(data) {
        Err(e) => e,
        other => panic!("{other:?}"),
    };
    assert_eq!(refused(&[1, 2]), ReadError::TooShort);
    assert_eq!(refused(&[0x00, 0x01, 0x03, 0x06]), ReadError::RecordSelector { di1: 1 });
    assert_eq!(refused(&[0x00, 0x00, 0x00, 0x06]), ReadError::AllClasses);
    assert_eq!(refused(&[0x00, 0x00, 0x07, 0x06]), ReadError::RecordClass { di2: 7 });
    assert_eq!(refused(&[0x03, 0x00, 0x01, 0x06]), ReadError::RecordPosition { di0: 3 });
    assert_eq!(refused(&[0x01, 0x00, 0x01, 0x06]), ReadError::RecordTimeLength { actual: 0 });
    assert_eq!(refused(&curve[..13]), ReadError::RecordTimeLength { actual: 9 });
    let mut bad = curve;
    bad[5] = 0x1A;
    assert_eq!(refused(&bad), ReadError::RecordDigits { byte: 0x1A });
    bad[5] = 0x24;
    assert!(matches!(refused(&bad), ReadError::RecordTime { hour: 24, .. }));
    let mut all = curve;
    all[0] = 0xFF;
    assert_eq!(refused(&all), ReadError::AllChannels);
    assert_eq!(meter.plan_read(&curve, false).unwrap_err(), ReadError::NoStore);
    assert!(matches!(
        plan(&[13, 0x00, 0x00, 0x05]),
        Ok(ReadPlan::Frozen { trigger: 0, category: 0, occurrence: 13 })
    ));
}
