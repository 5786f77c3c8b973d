use qpack::decoder_table::{encode_required_insert_count, DecoderDynamicTable, H3ErrorCode, PendingSectionAck, ThresholdState};
use qpack::decoder_instruction::encode_decoder_stream_update;
use qpack::decoder_instruction::{
    encode_insert_count_increment, encode_section_ack, DecoderInstruction,
};
use qpack::encoder_instruction::{
    encode_duplicate, encode_insert_with_literal_name, encode_insert_with_name_ref,
    encode_set_capacity, EncoderInstruction, StreamError,
};
use qpack::entry_name::EntryName;
use qpack::method::Method;
use qpack::static_table::{KnownHeaderName, PseudoHeaderName};

fn server() -> EntryName {
    EntryName::Known(KnownHeaderName::Server)
}

// --- Dynamic table: blocked-streams enforcement ---

#[test]
fn blocked_streams_not_triggered_for_zero_ric() {
    let mut table = DecoderDynamicTable::new(4096, 0);
    // RIC=0 means static-only; no blocking regardless of limit
    assert_eq!(table.try_reserve_blocked_stream(0), Ok(false));
}

#[test]
fn blocked_streams_enforced_at_limit() {
    let mut table = DecoderDynamicTable::new(4096, 0);
    // max_blocked=0, insert_count=0 < RIC=1 → at limit immediately
    assert!(table.try_reserve_blocked_stream(1).is_err());
}

#[test]
fn blocked_stream_guard_releases_slot_on_drop() {
    let mut table = DecoderDynamicTable::new(4096, 1);
    let reserved = table.try_reserve_blocked_stream(1).unwrap();
    assert!(reserved);
    // Limit reached: second reservation fails
    assert!(table.try_reserve_blocked_stream(1).is_err());
    table.release_blocked_stream();
    // Slot released: succeeds again
    assert_eq!(table.try_reserve_blocked_stream(1), Ok(true));
}

#[test]
fn blocked_streams_not_triggered_when_ric_already_met() {
    let mut table = DecoderDynamicTable::new(4096, 0);
    table.set_capacity(200).unwrap();
    // "server"(6) + "v"(1) + 32 = 39 bytes — fits easily
    table.insert(server(), b"v".to_vec()).unwrap();
    // insert_count=1 >= RIC=1, so no blocking needed even with max_blocked=0
    assert_eq!(table.try_reserve_blocked_stream(1), Ok(false));
}

#[test]
fn decode_rejects_blocked_stream_when_at_limit() {
    // 0x02 — encoded_ric=2, decodes to required_insert_count=1
    // 0x00 — S=0, delta_base=0 → base=1
    // 0x80 — indexed field line, dynamic, relative_index=0
    let encoded = [0x02u8, 0x00, 0x80];
    let mut table = DecoderDynamicTable::new(4096, 0); // max_blocked_streams=0
    assert_eq!(
        table.begin_decode(&encoded).map(|_| ()),
        Err(H3ErrorCode::QpackDecompressionFailed)
    );
}

// --- Dynamic table: eviction ---

#[test]
fn dynamic_table_evicts_oldest_entry() {
    // Entry size: "server"(6) + "val"(3) + 32 = 41 bytes; capacity=80 holds exactly one.
    let mut table = DecoderDynamicTable::new(200, usize::MAX);
    table.set_capacity(80).unwrap();
    table.insert(server(), b"first".to_vec()).unwrap(); // abs=0
    table.insert(server(), b"second".to_vec()).unwrap(); // abs=1, evicts abs=0

    let (_, value) = table.get(1).unwrap();
    assert_eq!(value, b"second".to_vec());
    assert!(table.get(0).is_none()); // evicted
}

#[test]
fn dynamic_table_evicts_multiple_entries_for_large_insert() {
    let mut table = DecoderDynamicTable::new(4096, usize::MAX);
    table.set_capacity(100).unwrap();
    let big_name = EntryName::from_wire(b"x-big-name").unwrap();
    table.insert(server(), b"val".to_vec()).unwrap(); // abs=0, 41 bytes
    table.insert(server(), b"val".to_vec()).unwrap(); // abs=1, 41 bytes — total 82
    table.insert(big_name, vec![b'x'; 30]).unwrap(); // abs=2, 72 bytes — evicts abs=0 and 1

    assert!(table.get(0).is_none());
    assert!(table.get(1).is_none());
    let (name, _) = table.get(2).unwrap();
    assert_eq!(name.as_bytes(), b"x-big-name");
}

#[test]
fn insert_and_get_pseudo_header() {
    let mut table = DecoderDynamicTable::new(4096, usize::MAX);
    table.set_capacity(200).unwrap();
    table
        .insert(EntryName::Pseudo(PseudoHeaderName::Method), b"GET".to_vec())
        .unwrap();
    let (name, value) = table.get(0).unwrap();
    assert!(name.same_as(&EntryName::Pseudo(PseudoHeaderName::Method)));
    assert_eq!(value, b"GET".to_vec());
}

#[test]
fn oversized_entry_and_capacity_are_refused() {
    let mut table = DecoderDynamicTable::new(100, 1);
    assert_eq!(table.set_capacity(101), Err(H3ErrorCode::QpackEncoderStreamError));
    table.set_capacity(40).unwrap();
    // 6 + 3 + 32 = 41 > 40
    assert_eq!(
        table.insert(server(), b"val".to_vec()),
        Err(H3ErrorCode::QpackEncoderStreamError)
    );
    assert_eq!(table.insert_count(), 0);
    assert_eq!(table.duplicate(0), Err(H3ErrorCode::QpackEncoderStreamError));
}

#[test]
fn shrinking_capacity_evicts() {
    let mut table = DecoderDynamicTable::new(4096, 1);
    table.set_capacity(4096).unwrap();
    table.insert(server(), b"a".to_vec()).unwrap();
    table.insert(server(), b"b".to_vec()).unwrap();
    table.set_capacity(39).unwrap();
    assert!(table.get(0).is_none());
    assert_eq!(table.get(1).unwrap().1, b"b".to_vec());
    table.set_capacity(0).unwrap();
    assert!(table.get(1).is_none());
}

#[test]
fn duplicate_copies_an_entry_to_the_front() {
    let mut table = DecoderDynamicTable::new(4096, 1);
    table.set_capacity(4096).unwrap();
    table.insert(server(), b"a".to_vec()).unwrap();
    table.insert(server(), b"b".to_vec()).unwrap();
    table.duplicate(1).unwrap(); // relative 1 = abs 0
    assert_eq!(table.insert_count(), 3);
    assert_eq!(table.get(2).unwrap().1, b"a".to_vec());
    assert!(table.name_at_relative(0).unwrap().same_as(&server()));
    assert!(table.name_at_relative(3).is_none());
}

// ---- Required Insert Count encoding (§4.5.1.1) ----

#[test]
fn encode_required_insert_count_formula() {
    // ric == 0 always encodes as 0 regardless of capacity.
    assert_eq!(encode_required_insert_count(0, 0), 0);
    assert_eq!(encode_required_insert_count(0, 4096), 0);

    // max_capacity 32 → max_entries 1, full_range 2.
    assert_eq!(encode_required_insert_count(1, 32), 2); // (1 % 2) + 1
    assert_eq!(encode_required_insert_count(2, 32), 1); // (2 % 2) + 1
    assert_eq!(encode_required_insert_count(3, 32), 2);

    // max_capacity 100 → max_entries 3, full_range 6.
    assert_eq!(encode_required_insert_count(5, 100), 6); // (5 % 6) + 1
    assert_eq!(encode_required_insert_count(6, 100), 1); // (6 % 6) + 1
    assert_eq!(encode_required_insert_count(13, 100), 2); // (13 % 6) + 1

    // max_capacity 4096 → max_entries 128, full_range 256.
    assert_eq!(encode_required_insert_count(1, 4096), 2);
    assert_eq!(encode_required_insert_count(256, 4096), 1);
    assert_eq!(encode_required_insert_count(300, 4096), 45); // (300 % 256) + 1
}

#[test]
fn required_insert_count_decodes_back() {
    let mut table = DecoderDynamicTable::new(4096, 0);
    table.set_capacity(4096).unwrap();
    for _ in 0..300 {
        table.insert(server(), b"v".to_vec()).unwrap();
    }
    for ric in [300u64, 299, 250, 173, 301, 400, 428] {
        let encoded = encode_required_insert_count(ric, 4096);
        assert_eq!(table.decode_required_insert_count(encoded), Ok(ric), "ric {ric}");
    }
    assert_eq!(table.decode_required_insert_count(0), Ok(0));
    assert!(table.decode_required_insert_count(257).is_err());
    let empty = DecoderDynamicTable::new(31, 0);
    assert!(empty.decode_required_insert_count(1).is_err());
}

// ---- Decoding with the dynamic table ----

fn decode_ready(
    table: &mut DecoderDynamicTable,
    encoded: &[u8],
) -> Result<qpack::headers::FieldSection, H3ErrorCode> {
    let start = table.begin_decode(encoded)?;
    assert_eq!(table.threshold_state(start.required_insert_count), ThresholdState::Ready);
    table.finish_decode(encoded, start, 4)
}

#[test]
fn decodes_dynamic_references_and_acknowledges() {
    // RFC 9204 B.2: the encoder inserted `:authority www.example.com` and
    // `:path /sample/path`, then referenced both (post-base).
    let mut table = DecoderDynamicTable::new(220, 1);
    for instruction in [
        &[0x3f, 0xbd, 0x01][..],
        &[
            0xc0, 0x0f, 0x77, 0x77, 0x77, 0x2e, 0x65, 0x78, 0x61, 0x6d, 0x70, 0x6c, 0x65, 0x2e,
            0x63, 0x6f, 0x6d,
        ][..],
        &[
            0xc1, 0x0c, 0x2f, 0x73, 0x61, 0x6d, 0x70, 0x6c, 0x65, 0x2f, 0x70, 0x61, 0x74, 0x68,
        ][..],
    ] {
        let (parsed, rest) = EncoderInstruction::parse(instruction, 220).unwrap();
        assert!(rest.is_empty());
        table.apply(parsed).unwrap();
    }
    assert_eq!(table.insert_count(), 2);
    // `0381 10 11`: RIC=2, Base=0, two post-base references.
    let section = decode_ready(&mut table, &[0x03, 0x81, 0x10, 0x11]).unwrap();
    let (pseudos, headers) = section.into_parts();
    assert_eq!(pseudos.authority.as_deref(), Some("www.example.com"));
    assert_eq!(pseudos.path.as_deref(), Some("/sample/path"));
    assert!(headers.is_empty());
    let (acks, count) = table.drain_pending_acks_and_count();
    assert_eq!(count, 2);
    assert_eq!(acks.len(), 1);
    assert_eq!(acks[0].stream_id, 4);
    assert_eq!(acks[0].required_insert_count, 2);
}

#[test]
fn waits_for_missing_inserts_then_decodes() {
    let mut table = DecoderDynamicTable::new(4096, 1);
    table.set_capacity(4096).unwrap();
    // RIC=1 (encoded 2), Base=1, indexed dynamic relative 0.
    let encoded = [0x02u8, 0x00, 0x80];
    let start = table.begin_decode(&encoded).unwrap();
    assert!(start.reserved);
    assert_eq!(table.currently_blocked_streams(), 1);
    assert_eq!(table.threshold_state(1), ThresholdState::Pending);
    table.insert(server(), b"late".to_vec()).unwrap();
    assert_eq!(table.threshold_state(1), ThresholdState::Ready);
    let (_, headers) = table.finish_decode(&encoded, start, 8).unwrap().into_parts();
    assert_eq!(table.currently_blocked_streams(), 0);
    assert_eq!(headers.get_values(&server()).unwrap(), &vec![b"late".to_vec()]);
}

#[test]
fn failed_encoder_stream_ends_the_wait_with_its_error() {
    let mut table = DecoderDynamicTable::new(4096, 1);
    let encoded = [0x02u8, 0x00, 0x80];
    let start = table.begin_decode(&encoded).unwrap();
    table.fail(H3ErrorCode::QpackEncoderStreamError);
    assert_eq!(
        table.threshold_state(1),
        ThresholdState::Failed(H3ErrorCode::QpackEncoderStreamError)
    );
    assert_eq!(
        table.finish_decode(&encoded, start, 8).map(|_| ()),
        Err(H3ErrorCode::QpackEncoderStreamError)
    );
    assert_eq!(table.currently_blocked_streams(), 0);
}

#[test]
fn duplicate_pseudo_headers_are_malformed() {
    let mut table = DecoderDynamicTable::new(4096, 1);
    // Two static :method GET lines, then a pseudo-header after a regular header.
    assert_eq!(
        decode_ready(&mut table, &[0x00, 0x00, 0xd1, 0xd1]).map(|_| ()),
        Err(H3ErrorCode::MessageError)
    );
    assert_eq!(
        decode_ready(&mut table, &[0x00, 0x00, 0xe0, 0xd1]).map(|_| ()),
        Err(H3ErrorCode::MessageError)
    );
    let (pseudos, _) = decode_ready(&mut table, &[0x00, 0x00, 0xd1, 0xe0]).unwrap().into_parts();
    assert_eq!(pseudos.method, Some(Method::Get));
}

#[test]
fn values_with_line_breaks_are_refused() {
    let mut table = DecoderDynamicTable::new(4096, 1);
    // :path (static 1) with literal value "a\r".
    assert_eq!(
        decode_ready(&mut table, &[0x00, 0x00, 0x51, 0x02, 0x61, 0x0d]).map(|_| ()),
        Err(H3ErrorCode::QpackDecompressionFailed)
    );
}

// ---- Encoder-stream instructions ----

fn parse_one(bytes: &[u8]) -> EncoderInstruction {
    let (instr, rest) = EncoderInstruction::parse(bytes, usize::MAX).expect("parse ok");
    assert!(rest.is_empty(), "trailing bytes after parse: {rest:?}");
    instr
}

#[test]
fn b2_set_capacity_220() {
    assert!(matches!(parse_one(&[0x3f, 0xbd, 0x01]), EncoderInstruction::SetCapacity(220)));
}

#[test]
fn b2_insert_name_ref_static_authority() {
    let bytes = [
        0xc0, 0x0f, 0x77, 0x77, 0x77, 0x2e, 0x65, 0x78, 0x61, 0x6d, 0x70, 0x6c, 0x65, 0x2e, 0x63,
        0x6f, 0x6d,
    ];
    match parse_one(&bytes) {
        EncoderInstruction::InsertWithStaticNameRef { name_index, value } => {
            assert_eq!(name_index, 0);
            assert_eq!(value, b"www.example.com".to_vec());
        }
        other => panic!("unexpected {other:?}"),
    }
}

#[test]
fn b2_insert_name_ref_static_path() {
    let bytes = [
        0xc1, 0x0c, 0x2f, 0x73, 0x61, 0x6d, 0x70, 0x6c, 0x65, 0x2f, 0x70, 0x61, 0x74, 0x68,
    ];
    match parse_one(&bytes) {
        EncoderInstruction::InsertWithStaticNameRef { name_index, value } => {
            assert_eq!(name_index, 1);
            assert_eq!(value, b"/sample/path".to_vec());
        }
        other => panic!("unexpected {other:?}"),
    }
}

#[test]
fn b3_insert_literal_name_custom_key() {
    let bytes = [
        0x4a, 0x63, 0x75, 0x73, 0x74, 0x6f, 0x6d, 0x2d, 0x6b, 0x65, 0x79, 0x0c, 0x63, 0x75, 0x73,
        0x74, 0x6f, 0x6d, 0x2d, 0x76, 0x61, 0x6c, 0x75, 0x65,
    ];
    match parse_one(&bytes) {
        EncoderInstruction::InsertWithLiteralName { name, value } => {
            assert!(name.same_as(&EntryName::from_wire(b"custom-key").unwrap()));
            assert_eq!(value, b"custom-value".to_vec());
        }
        other => panic!("unexpected {other:?}"),
    }
}

#[test]
fn b4_duplicate_relative_index_2() {
    assert!(matches!(
        parse_one(&[0x02]),
        EncoderInstruction::Duplicate { relative_index: 2 }
    ));
}

#[test]
fn b5_insert_name_ref_dynamic() {
    let bytes = [
        0x81, 0x0d, 0x63, 0x75, 0x73, 0x74, 0x6f, 0x6d, 0x2d, 0x76, 0x61, 0x6c, 0x75, 0x65, 0x32,
    ];
    match parse_one(&bytes) {
        EncoderInstruction::InsertWithDynamicNameRef { relative_index, value } => {
            assert_eq!(relative_index, 1);
            assert_eq!(value, b"custom-value2".to_vec());
        }
        other => panic!("unexpected {other:?}"),
    }
}

#[test]
fn encoder_instructions_read_back() {
    assert!(matches!(parse_one(&encode_set_capacity(220)), EncoderInstruction::SetCapacity(220)));
    assert_eq!(encode_set_capacity(220), vec![0x3f, 0xbd, 0x01]);
    assert!(matches!(
        parse_one(&encode_duplicate(2)),
        EncoderInstruction::Duplicate { relative_index: 2 }
    ));
    match parse_one(&encode_insert_with_name_ref(1, true, b"/sample/path")) {
        EncoderInstruction::InsertWithStaticNameRef { name_index: 1, value } => {
            assert_eq!(value, b"/sample/path".to_vec())
        }
        other => panic!("unexpected {other:?}"),
    }
    match parse_one(&encode_insert_with_name_ref(7, false, b"v")) {
        EncoderInstruction::InsertWithDynamicNameRef { relative_index: 7, value } => {
            assert_eq!(value, b"v".to_vec())
        }
        other => panic!("unexpected {other:?}"),
    }
    match parse_one(&encode_insert_with_literal_name(b"custom-key", b"custom-value")) {
        EncoderInstruction::InsertWithLiteralName { name, value } => {
            assert_eq!(name.as_bytes(), b"custom-key");
            assert_eq!(value, b"custom-value".to_vec());
        }
        other => panic!("unexpected {other:?}"),
    }
}

#[test]
fn incomplete_and_invalid_encoder_instructions() {
    assert_eq!(EncoderInstruction::parse(&[], 100).map(|_| ()), Err(StreamError::Incomplete));
    assert_eq!(
        EncoderInstruction::parse(&[0x3f], 100).map(|_| ()),
        Err(StreamError::Incomplete)
    );
    // Value longer than the limit is refused before it arrives.
    assert_eq!(
        EncoderInstruction::parse(&[0xc0, 0x0f], 10).map(|_| ()),
        Err(StreamError::Violation)
    );
    // Value with a NUL byte.
    assert_eq!(
        EncoderInstruction::parse(&[0xc0, 0x01, 0x00], 10).map(|_| ()),
        Err(StreamError::Violation)
    );
    // Literal name with an uppercase letter.
    assert_eq!(
        EncoderInstruction::parse(&[0x41, 0x41, 0x00], 10).map(|_| ()),
        Err(StreamError::Violation)
    );
}

// ---- Decoder-stream instructions ----

#[test]
fn decoder_instructions_round_trip() {
    let mut buf = Vec::new();
    encode_section_ack(4, &mut buf);
    assert_eq!(buf, vec![0x84]);
    encode_section_ack(200, &mut buf);
    assert_eq!(&buf[1..], &[0xFF, 0x49]);
    encode_insert_count_increment(1, &mut buf);
    let (first, rest) = DecoderInstruction::parse(&buf).unwrap();
    assert_eq!(first, DecoderInstruction::SectionAcknowledgement { stream_id: 4 });
    let (second, rest) = DecoderInstruction::parse(rest).unwrap();
    assert_eq!(second, DecoderInstruction::SectionAcknowledgement { stream_id: 200 });
    let (third, rest) = DecoderInstruction::parse(rest).unwrap();
    assert_eq!(third, DecoderInstruction::InsertCountIncrement { increment: 1 });
    assert!(rest.is_empty());
    assert_eq!(
        DecoderInstruction::parse(&[0x44]).unwrap().0,
        DecoderInstruction::StreamCancellation { stream_id: 4 }
    );
    assert_eq!(DecoderInstruction::parse(&[0xFF]).map(|_| ()), Err(StreamError::Incomplete));
}

// ---- The lenient decoder over the dynamic table ----

fn decode_lenient(
    table: &mut DecoderDynamicTable,
    encoded: &[u8],
) -> Result<qpack::headers::FieldSection, H3ErrorCode> {
    let start = table.begin_decode(encoded)?;
    qpack::headers::FieldSection::decode_with_dynamic_table(encoded, start, table, 4)
}

#[test]
fn lenient_decode_resolves_post_base_references_and_acknowledges() {
    let mut table = DecoderDynamicTable::new(220, 1);
    table.set_capacity(220).unwrap();
    table.insert(EntryName::Pseudo(PseudoHeaderName::Authority), b"www.example.com".to_vec()).unwrap();
    table.insert(EntryName::Pseudo(PseudoHeaderName::Path), b"/sample/path".to_vec()).unwrap();
    let (pseudos, headers) = decode_lenient(&mut table, &[0x03, 0x81, 0x10, 0x11]).unwrap().into_parts();
    assert_eq!(pseudos.authority.as_deref(), Some("www.example.com"));
    assert_eq!(pseudos.path.as_deref(), Some("/sample/path"));
    assert!(headers.is_empty());
    let (acks, _) = table.drain_pending_acks_and_count();
    assert_eq!(acks.len(), 1);
    assert_eq!(acks[0].required_insert_count, 2);
}

#[test]
fn lenient_decode_keeps_the_first_of_repeated_pseudo_headers() {
    let mut table = DecoderDynamicTable::new(4096, 1);
    // :method GET, then :method POST, then a pseudo-header after a regular header.
    let (pseudos, headers) =
        decode_lenient(&mut table, &[0x00, 0x00, 0xd1, 0xd4, 0xe0, 0xd7]).unwrap().into_parts();
    assert_eq!(pseudos.method, Some(Method::Get));
    assert_eq!(pseudos.scheme.as_deref(), Some("https"));
    assert_eq!(headers.len(), 1);
    // No dynamic reference: nothing to acknowledge.
    assert!(table.drain_pending_acks_and_count().0.is_empty());
}

#[test]
fn lenient_decode_takes_values_as_they_arrive() {
    let mut table = DecoderDynamicTable::new(4096, 1);
    // :path (static 1) with literal value "a\r" is kept rather than refused.
    let (pseudos, _) = decode_lenient(&mut table, &[0x00, 0x00, 0x51, 0x02, 0x61, 0x0d]).unwrap().into_parts();
    assert_eq!(pseudos.path.as_deref(), Some("a\r"));
}

#[test]
fn lenient_decode_dynamic_name_reference_with_literal_value() {
    let mut table = DecoderDynamicTable::new(4096, 1);
    table.set_capacity(4096).unwrap();
    table.insert(server(), b"early".to_vec()).unwrap();
    // RIC=1 (encoded 2), Base=1; literal with dynamic name ref relative 0, value "late".
    let (_, headers) =
        decode_lenient(&mut table, &[0x02, 0x00, 0x40, 0x04, b'l', b'a', b't', b'e']).unwrap().into_parts();
    assert_eq!(headers.get_values(&server()).unwrap(), &vec![b"late".to_vec()]);
}

#[test]
fn lenient_decode_failures() {
    let mut table = DecoderDynamicTable::new(4096, 1);
    table.set_capacity(4096).unwrap();
    table.insert(server(), b"x".to_vec()).unwrap();
    // A pre-base reference below the table: decompression failure.
    assert_eq!(
        decode_lenient(&mut table, &[0x02, 0x00, 0x81]).map(|_| ()),
        Err(H3ErrorCode::QpackDecompressionFailed)
    );
    // A static index out of range.
    assert_eq!(
        decode_lenient(&mut table, &[0x00, 0x00, 0xff, 0x64]).map(|_| ()),
        Err(H3ErrorCode::QpackDecompressionFailed)
    );
    // A failed encoder stream answers a dynamic reference with its own error, and the
    // blocked slot is given back.
    let encoded = [0x03u8, 0x00, 0x80];
    let start = table.begin_decode(&encoded).unwrap();
    assert!(start.reserved);
    table.fail(H3ErrorCode::QpackEncoderStreamError);
    assert_eq!(
        qpack::headers::FieldSection::decode_with_dynamic_table(&encoded, start, &mut table, 8).map(|_| ()),
        Err(H3ErrorCode::QpackEncoderStreamError)
    );
    assert_eq!(table.currently_blocked_streams(), 0);
}

#[test]
fn decoder_stream_update_acks_then_increments_the_rest() {
    // Two sections acknowledged (RIC 2 and 3) with 5 inserts received: the
    // acknowledgements cover 3, an Insert Count Increment of 2 covers the rest.
    let acks = vec![
        PendingSectionAck { stream_id: 4, required_insert_count: 2 },
        PendingSectionAck { stream_id: 8, required_insert_count: 3 },
    ];
    let (bytes, reported) = encode_decoder_stream_update(&acks, 5, 0);
    assert_eq!(bytes, vec![0x84, 0x88, 0x02]);
    assert_eq!(reported, 5);
    // The encoder reads back the acknowledgements, then the increment.
    let (first, rest) = DecoderInstruction::parse(&bytes).unwrap();
    let (second, rest) = DecoderInstruction::parse(rest).unwrap();
    let (third, rest) = DecoderInstruction::parse(rest).unwrap();
    assert!(rest.is_empty());
    assert_eq!(first, DecoderInstruction::SectionAcknowledgement { stream_id: 4 });
    assert_eq!(second, DecoderInstruction::SectionAcknowledgement { stream_id: 8 });
    assert_eq!(third, DecoderInstruction::InsertCountIncrement { increment: 2 });
    // Nothing new: nothing to send.
    let (bytes, reported) = encode_decoder_stream_update(&Vec::new(), 5, 5);
    assert!(bytes.is_empty());
    assert_eq!(reported, 5);
    // An acknowledgement that covers every insert needs no increment.
    let acks = vec![PendingSectionAck { stream_id: 12, required_insert_count: 7 }];
    let (bytes, reported) = encode_decoder_stream_update(&acks, 7, 5);
    assert_eq!(bytes, vec![0x8c]);
    assert_eq!(reported, 7);
}

#[test]
fn never_indexed_literals_keep_their_mark() {
    let mut table = DecoderDynamicTable::new(4096, 1);
    // `x-a: v` as a literal with the N bit set, then `x-a: w` without it.
    let encoded = [0x00, 0x00, 0x33, 0x78, 0x2d, 0x61, 0x01, 0x76, 0x23, 0x78, 0x2d, 0x61, 0x01, 0x77];
    let (_, headers) = decode_ready(&mut table, &encoded).unwrap().into_parts();
    let name = EntryName::Unknown(b"x-a".to_vec());
    assert_eq!(headers.get_values(&name), Some(&vec![b"v".to_vec(), b"w".to_vec()]));
    let marks = headers.never_indexed();
    assert_eq!(marks.len(), 1);
    assert!(marks[0].0 == name);
    assert_eq!(marks[0].1, 0);
}
