use qpack::interop_records::{parse_out_records, OutRecordError};

fn record(stream_id: u64, data: &[u8]) -> Vec<u8> {
    let mut out = stream_id.to_be_bytes().to_vec();
    out.extend_from_slice(&(data.len() as u32).to_be_bytes());
    out.extend_from_slice(data);
    out
}

#[test]
fn splits_records_in_file_order() {
    let mut file = record(0, &[0x3f, 0xe1, 0x1f]);
    file.extend(record(1, &[0x00, 0x00, 0xd1]));
    file.extend(record(0x0102_0304_0506_0708, &[]));
    let records = parse_out_records(&file).unwrap();
    assert_eq!(records.len(), 3);
    assert_eq!(records[0].stream_id, 0);
    assert_eq!(records[0].data, vec![0x3f, 0xe1, 0x1f]);
    assert_eq!(records[1].stream_id, 1);
    assert_eq!(records[1].data, vec![0x00, 0x00, 0xd1]);
    assert_eq!(records[2].stream_id, 0x0102_0304_0506_0708);
    assert!(records[2].data.is_empty());
}

#[test]
fn empty_file_has_no_records() {
    assert!(parse_out_records(&[]).unwrap().is_empty());
}

#[test]
fn record_longer_than_the_file_is_refused() {
    let mut file = record(1, &[1, 2, 3]);
    let mut truncated = record(2, &[4, 5, 6, 7]);
    truncated.truncate(14);
    file.extend(truncated);
    assert_eq!(
        parse_out_records(&file).map(|_| ()),
        Err(OutRecordError::Truncated { offset: 15, length: 4, remaining: 2 })
    );
}

#[test]
fn bytes_after_the_last_record_are_refused() {
    let mut file = record(1, &[1]);
    file.extend([0, 0, 0]);
    assert_eq!(parse_out_records(&file).map(|_| ()), Err(OutRecordError::Trailing(3)));
}
