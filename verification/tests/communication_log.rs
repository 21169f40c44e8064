use meter_core::communication_log::{
    extract_address, CommunicationLogEntry, CommunicationLogService, Decoded, BROADCAST_ADDRESS,
    PARSE_PROTOCOL_ID, PARSE_REGION, PER_METER_CAP,
};
use meter_core::field_value::{flatten_value_tree, scalar_text, to_hex, FieldValue, FlatNode};
use std::sync::Arc;

fn text(s: &str) -> FieldValue {
    FieldValue::Text(s.to_string())
}

fn node(name: &str, raw: Vec<u8>, value: FieldValue) -> FieldValue {
    FieldValue::Node { name: name.to_string(), raw, value: Box::new(value) }
}

fn row(depth: usize, name: &str, raw: &[u8], value: &str) -> FlatNode {
    FlatNode { depth, name: name.to_string(), raw: raw.to_vec(), value: value.to_string() }
}

#[test]
fn trees_become_rows() {
    let bits = FieldValue::Bits {
        byte: vec![0x11],
        start: 0,
        end: 4,
        value: 17,
        meaning: Some(Box::new(text("读数据"))),
    };
    let tree = node(
        "报文",
        vec![],
        FieldValue::List(vec![
            node("起始符", vec![0x68], text("68H")),
            node(
                "控制码",
                vec![0x11],
                FieldValue::List(vec![node("功能码", vec![], bits), FieldValue::Skip]),
            ),
            FieldValue::Entries(vec![("wrap".to_string(), node("内层", vec![1], text("v")))]),
            FieldValue::Entries(vec![
                ("a".to_string(), FieldValue::Int(-5)),
                ("b".to_string(), FieldValue::Skip),
                ("c".to_string(), node("n", vec![], text("w"))),
            ]),
            FieldValue::Point(3),
        ]),
    );
    assert_eq!(
        flatten_value_tree(&tree),
        vec![
            row(0, "起始符", &[0x68], "68H"),
            row(0, "控制码", &[0x11], ""),
            row(1, "功能码", &[0x11], "读数据"),
            row(0, "内层", &[1], "v"),
            row(0, "a", &[], "-5"),
            row(0, "n", &[], "w"),
            row(0, "", &[], "3"),
        ]
    );
    let single = node("电能", vec![0x45], text("1"));
    assert_eq!(flatten_value_tree(&single), vec![row(0, "电能", &[0x45], "1")]);
}

#[test]
fn values_become_text() {
    assert_eq!(scalar_text(&FieldValue::Int(i64::MIN)), "-9223372036854775808");
    assert_eq!(scalar_text(&FieldValue::Decimal("1.5".to_string())), "1.5");
    assert_eq!(scalar_text(&FieldValue::Bytes(vec![0x0A, 0xFF])), "0A FF");
    let with_unit = FieldValue::WithUnit {
        value: Box::new(FieldValue::Decimal("123.45".to_string())),
        unit: "kWh".to_string(),
    };
    assert_eq!(scalar_text(&with_unit), "123.45 kWh");
    assert_eq!(scalar_text(&FieldValue::Invalid { reason: "x".to_string() }), "无效: x");
    let bits =
        FieldValue::Bits { byte: vec![], start: 1, end: 3, value: 2, meaning: None };
    assert_eq!(scalar_text(&bits), "D1~D3=2");
    assert_eq!(scalar_text(&FieldValue::List(vec![])), "");
    assert_eq!(to_hex(&[]), "");
    assert_eq!(to_hex(&[0x00]), "00");
    assert_eq!((PARSE_PROTOCOL_ID, PARSE_REGION), ("dlt645-2007", "南网"));
}

fn frame_to(address: [u8; 6]) -> Vec<u8> {
    let mut data = vec![0x68];
    data.extend_from_slice(&address);
    data
}

fn entry(address: [u8; 6], timestamp_ms: i64) -> CommunicationLogEntry {
    CommunicationLogEntry::new_at(timestamp_ms, "RX", "c".to_string(), &frame_to(address), None)
}

#[test]
fn addresses_are_taken_from_the_bytes() {
    assert_eq!(extract_address(&frame_to([1, 2, 3, 4, 5, 6])), Some([1, 2, 3, 4, 5, 6]));
    assert_eq!(extract_address(&[0x68, 1, 2, 3]), None);
    assert_eq!(extract_address(&[0x69, 1, 2, 3, 4, 5, 6]), None);
}

#[test]
fn only_whole_messages_are_kept_decoded() {
    let data = frame_to([1; 6]);
    let decoded = |consumed: usize| {
        Some(Decoded {
            consumed,
            tree: Some(Arc::new(FieldValue::Int(1))),
            summary: "s".to_string(),
        })
    };
    let whole = CommunicationLogEntry::new_at(0, "TX", "c".to_string(), &data, decoded(7));
    assert!(whole.parsed.is_some());
    assert_eq!(whole.summary, "s");
    let rest = CommunicationLogEntry::new_at(0, "TX", "c".to_string(), &data, decoded(6));
    assert!(rest.parsed.is_none());
    assert_eq!(rest.summary, "");
    let empty = CommunicationLogEntry::new_at(0, "TX", "c".to_string(), &[], decoded(0));
    assert!(empty.parsed.is_none());
}

#[test]
fn messages_are_shown_by_time_with_broadcasts() {
    let mut log = CommunicationLogService::new();
    log.record(entry([1; 6], 10));
    log.record(entry(BROADCAST_ADDRESS, 5));
    log.record(entry([2; 6], 7));
    log.record(entry(BROADCAST_ADDRESS, 10));
    log.record(CommunicationLogEntry::new_at(1, "RX", "c".to_string(), &[1, 2], None));
    let shown: Vec<(i64, Option<[u8; 6]>)> =
        log.entries_for([1; 6]).iter().map(|e| (e.timestamp_ms, e.address)).collect();
    assert_eq!(
        shown,
        vec![
            (5, Some(BROADCAST_ADDRESS)),
            (10, Some([1; 6])),
            (10, Some(BROADCAST_ADDRESS))
        ]
    );
    assert_eq!(log.entries_for([9; 6]).len(), 2);
}

#[test]
fn meters_keep_their_latest_messages() {
    let mut log = CommunicationLogService::new();
    log.record(entry([2; 6], 0));
    for t in 0..310 {
        log.record(entry([1; 6], t));
    }
    let shown = log.entries_for([1; 6]);
    assert_eq!(shown.len(), PER_METER_CAP);
    assert_eq!(shown[0].timestamp_ms, 10);
    assert_eq!(log.entries_for([2; 6]).len(), 1);
    for t in 400..405 {
        log.record(entry(BROADCAST_ADDRESS, t));
    }
    let shown = log.entries_for([1; 6]);
    assert_eq!(shown.len(), PER_METER_CAP);
    assert_eq!(shown[0].timestamp_ms, 15);
    assert_eq!(shown[299].timestamp_ms, 404);
}
