use qpack::decoder_table::{encode_required_insert_count, DecoderDynamicTable, H3ErrorCode};
use qpack::decoder_instruction::DecoderInstruction;
use qpack::encoder_instruction::EncoderInstruction;
use qpack::encoder_table::{EncoderDynamicTable, PrimingCandidate, SectionRefs};
use qpack::entry_name::EntryName;
use qpack::recent_pairs::RecentPairs;
use qpack::static_table::{KnownHeaderName, PseudoHeaderName};

fn qen(s: &str) -> EntryName {
    EntryName::from_wire(s.as_bytes()).unwrap()
}

fn fresh_table() -> EncoderDynamicTable {
    EncoderDynamicTable::new(RecentPairs::with_size(32))
}

fn new_table(max_capacity: u64) -> EncoderDynamicTable {
    new_table_with_blocked_streams(max_capacity, 0)
}

fn new_table_with_blocked_streams(max_capacity: u64, max_blocked_streams: u64) -> EncoderDynamicTable {
    let mut table = fresh_table();
    table.initialize_from_peer_settings(
        max_capacity as usize,
        Some(max_capacity),
        Some(max_blocked_streams),
        &Vec::new(),
    );
    table
}

fn insert(table: &mut EncoderDynamicTable, name: EntryName, value: &str) -> Result<u64, H3ErrorCode> {
    table.insert(&name, value.as_bytes(), None)
}

fn parse_all(bytes: &[u8]) -> Vec<EncoderInstruction> {
    let mut stream = bytes;
    let mut out = Vec::new();
    while !stream.is_empty() {
        let (instruction, rest) = EncoderInstruction::parse(stream, usize::MAX).unwrap();
        out.push(instruction);
        stream = rest;
    }
    out
}

fn drain_instructions(table: &mut EncoderDynamicTable) -> Vec<EncoderInstruction> {
    let bytes: Vec<u8> = table.drain_pending_ops().into_iter().flatten().collect();
    parse_all(&bytes)
}

fn apply_ops_to_decoder(table: &mut EncoderDynamicTable, max_capacity: u64) -> DecoderDynamicTable {
    let mut decoder = DecoderDynamicTable::new(max_capacity as usize, 0);
    for instruction in drain_instructions(table) {
        decoder.apply(instruction).unwrap();
    }
    decoder
}

fn name_at(decoder: &DecoderDynamicTable, relative_index: usize) -> Vec<u8> {
    decoder.name_at_relative(relative_index).unwrap().as_bytes().to_vec()
}

fn blocking_section(ric: u64) -> SectionRefs {
    SectionRefs { required_insert_count: ric, min_ref_abs_idx: None }
}

fn can_block_another_stream(table: &EncoderDynamicTable, stream_id: u64) -> bool {
    table.is_stream_blocking(stream_id) || table.currently_blocked_streams() < table.max_blocked_streams()
}

// ---- insert ----

#[test]
fn insert_literal_name_for_unknown_header_without_prior_entry() {
    let mut table = new_table(4096);
    let abs = insert(&mut table, qen("x-custom"), "hello").unwrap();
    assert_eq!(abs, 0);
    assert_eq!(table.insert_count(), 1);
    assert_eq!(
        drain_instructions(&mut table),
        vec![
            EncoderInstruction::SetCapacity(4096),
            EncoderInstruction::InsertWithLiteralName { name: qen("x-custom"), value: b"hello".to_vec() },
        ]
    );
}

#[test]
fn insert_roundtrips_through_decoder_as_literal_name() {
    let mut table = new_table(4096);
    insert(&mut table, qen("x-custom"), "hello").unwrap();
    let decoder = apply_ops_to_decoder(&mut table, 4096);
    assert_eq!(name_at(&decoder, 0), b"x-custom".to_vec());
}

#[test]
fn insert_rejects_entry_exceeding_capacity() {
    let mut table = new_table(64);
    let big = vec![b'x'; 64];
    assert!(table.insert(&qen("n"), &big, None).is_err());
}

#[test]
fn literal_name_inserts_evict_oldest_when_unpinned() {
    let mut table = new_table(70);
    insert(&mut table, qen("a"), "1").unwrap();
    insert(&mut table, qen("b"), "2").unwrap();
    assert_eq!(table.entry_count(), 2);
    insert(&mut table, qen("c"), "3").unwrap();
    assert_eq!(table.insert_count(), 3);
    assert_eq!(table.entry_count(), 2);
    assert_eq!(table.find_name(&qen("a")), None);
    assert!(table.find_name(&qen("b")).is_some());
    assert!(table.find_name(&qen("c")).is_some());
}

#[test]
fn insert_known_header_with_static_slot_chooses_static_name_ref() {
    let mut table = new_table(4096);
    insert(&mut table, EntryName::Known(KnownHeaderName::AcceptEncoding), "identity").unwrap();
    let instrs = drain_instructions(&mut table);
    assert!(matches!(
        instrs.as_slice(),
        [
            EncoderInstruction::SetCapacity(_),
            EncoderInstruction::InsertWithStaticNameRef { value, .. },
        ] if value == b"identity"
    ));
}

#[test]
fn insert_pseudo_header_with_static_slot_chooses_static_name_ref() {
    let mut table = new_table(4096);
    insert(&mut table, qen(":path"), "/api/users").unwrap();
    let instrs = drain_instructions(&mut table);
    assert!(matches!(
        instrs.as_slice(),
        [
            EncoderInstruction::SetCapacity(_),
            EncoderInstruction::InsertWithStaticNameRef { name_index: 1, value },
        ] if value == b"/api/users"
    ));
}

#[test]
fn insert_pseudo_header_without_static_slot_uses_literal_name() {
    let mut table = new_table(4096);
    insert(&mut table, qen(":protocol"), "webtransport").unwrap();
    let instrs = drain_instructions(&mut table);
    assert!(matches!(
        &instrs[..],
        [
            EncoderInstruction::SetCapacity(_),
            EncoderInstruction::InsertWithLiteralName { name, value },
        ] if name == &qen(":protocol") && value == b"webtransport"
    ));
}

#[test]
fn insert_second_value_for_unknown_name_chooses_dynamic_name_ref() {
    let mut table = new_table(4096);
    insert(&mut table, qen("x-custom"), "first").unwrap();
    let abs = insert(&mut table, qen("x-custom"), "second").unwrap();
    assert_eq!(abs, 1);
    let instrs = drain_instructions(&mut table);
    assert_eq!(instrs.len(), 3);
    assert!(matches!(instrs[0], EncoderInstruction::SetCapacity(_)));
    assert!(matches!(instrs[1], EncoderInstruction::InsertWithLiteralName { .. }));
    assert!(matches!(
        &instrs[2],
        EncoderInstruction::InsertWithDynamicNameRef { relative_index: 0, value } if value == b"second"
    ));
}

#[test]
fn dynamic_name_ref_insert_preserves_source_when_capacity_tight() {
    let mut table = new_table(34);
    insert(&mut table, qen("a"), "1").unwrap();
    assert!(insert(&mut table, qen("a"), "2").is_err());
    assert_eq!(table.entry_count(), 1);
    assert_eq!(table.find_pair(&qen("a"), b"1"), Some(0));
}

#[test]
fn second_insert_of_same_name_value_chooses_duplicate() {
    let mut table = new_table(4096);
    insert(&mut table, qen("x-custom"), "hello").unwrap();
    let second = insert(&mut table, qen("x-custom"), "hello").unwrap();
    assert_eq!(second, 1);
    assert_eq!(table.insert_count(), 2);
    assert_eq!(table.entry_count(), 2);
    let instrs = drain_instructions(&mut table);
    assert_eq!(instrs.len(), 3);
    assert!(matches!(instrs[2], EncoderInstruction::Duplicate { relative_index: 0 }));
}

#[test]
fn duplicate_is_chosen_even_when_static_name_ref_is_available() {
    let mut table = new_table(4096);
    insert(&mut table, EntryName::Known(KnownHeaderName::ContentType), "application/json").unwrap();
    insert(&mut table, EntryName::Known(KnownHeaderName::ContentType), "application/json").unwrap();
    let instrs = drain_instructions(&mut table);
    assert!(matches!(instrs[1], EncoderInstruction::InsertWithStaticNameRef { .. }));
    assert!(matches!(instrs[2], EncoderInstruction::Duplicate { relative_index: 0 }));
}

#[test]
fn duplicate_picks_matching_entry_across_multiple_names() {
    let mut table = new_table(4096);
    insert(&mut table, qen("a"), "1").unwrap();
    insert(&mut table, qen("b"), "1").unwrap();
    let third = insert(&mut table, qen("a"), "1").unwrap();
    assert_eq!(third, 2);
    let instrs = drain_instructions(&mut table);
    assert_eq!(instrs.len(), 4);
    assert_eq!(instrs[3], EncoderInstruction::Duplicate { relative_index: 1 });
}

#[test]
fn duplicate_source_remains_live_after_duplicate() {
    let mut table = new_table(4096);
    let first = insert(&mut table, qen("x-custom"), "hello").unwrap();
    let second = insert(&mut table, qen("x-custom"), "hello").unwrap();
    assert_eq!((first, second), (0, 1));
    assert_eq!(table.entry_count(), 2);
    assert_eq!(table.find_pair(&qen("x-custom"), b"hello"), Some(second));
}

#[test]
fn duplicate_fails_when_capacity_only_fits_one_entry() {
    let mut table = new_table(34);
    insert(&mut table, qen("a"), "1").unwrap();
    assert!(insert(&mut table, qen("a"), "1").is_err());
    assert_eq!(table.entry_count(), 1);
}

#[test]
fn duplicate_succeeds_when_capacity_fits_two_entries() {
    let mut table = new_table(68);
    insert(&mut table, qen("a"), "1").unwrap();
    insert(&mut table, qen("a"), "1").unwrap();
    assert_eq!(table.entry_count(), 2);
    let instrs = drain_instructions(&mut table);
    assert!(matches!(instrs[2], EncoderInstruction::Duplicate { relative_index: 0 }));
}

#[test]
fn roundtrip_static_name_ref_insert() {
    let mut table = new_table(4096);
    insert(&mut table, EntryName::Known(KnownHeaderName::AcceptEncoding), "identity").unwrap();
    let decoder = apply_ops_to_decoder(&mut table, 4096);
    assert_eq!(name_at(&decoder, 0), b"accept-encoding".to_vec());
}

#[test]
fn roundtrip_dynamic_name_ref_insert() {
    let mut table = new_table(4096);
    insert(&mut table, qen("x-custom"), "first").unwrap();
    insert(&mut table, qen("x-custom"), "second").unwrap();
    let decoder = apply_ops_to_decoder(&mut table, 4096);
    assert_eq!(name_at(&decoder, 0), b"x-custom".to_vec());
    assert_eq!(name_at(&decoder, 1), b"x-custom".to_vec());
}

#[test]
fn roundtrip_duplicate() {
    let mut table = new_table(4096);
    insert(&mut table, qen("x-custom"), "hello").unwrap();
    insert(&mut table, qen("x-custom"), "hello").unwrap();
    let decoder = apply_ops_to_decoder(&mut table, 4096);
    assert_eq!(name_at(&decoder, 0), b"x-custom".to_vec());
    assert_eq!(name_at(&decoder, 1), b"x-custom".to_vec());
}

#[test]
fn roundtrip_pseudo_header_without_static_slot() {
    let mut table = new_table(4096);
    insert(&mut table, EntryName::Pseudo(PseudoHeaderName::Protocol), "webtransport").unwrap();
    let decoder = apply_ops_to_decoder(&mut table, 4096);
    assert_eq!(name_at(&decoder, 0), b":protocol".to_vec());
}

// ---- pinning and acknowledgements ----

#[test]
fn pinned_entry_blocks_eviction() {
    let mut table = new_table(70);
    insert(&mut table, qen("a"), "1").unwrap();
    insert(&mut table, qen("b"), "2").unwrap();
    table.register_outstanding_section(4, SectionRefs { required_insert_count: 1, min_ref_abs_idx: Some(0) });
    assert!(insert(&mut table, qen("c"), "3").is_err());
    assert_eq!(table.entry_count(), 2);
}

#[test]
fn eviction_walks_past_older_unpinned_entries_to_reach_target() {
    let mut table = new_table(70);
    insert(&mut table, qen("a"), "1").unwrap();
    insert(&mut table, qen("b"), "2").unwrap();
    table.register_outstanding_section(4, SectionRefs { required_insert_count: 2, min_ref_abs_idx: Some(1) });
    assert!(insert(&mut table, qen("c"), "3").is_ok());
    assert_eq!(table.entry_count(), 2);
}

#[test]
fn section_ack_advances_known_received() {
    let mut table = new_table(4096);
    insert(&mut table, qen("a"), "1").unwrap();
    insert(&mut table, qen("b"), "2").unwrap();
    table.register_outstanding_section(4, SectionRefs { required_insert_count: 2, min_ref_abs_idx: Some(0) });
    table.on_section_ack(4).unwrap();
    assert_eq!(table.known_received_count(), 2);
}

#[test]
fn section_ack_without_outstanding_errors() {
    let mut table = fresh_table();
    assert!(table.on_section_ack(4).is_err());
}

#[test]
fn stream_cancel_drops_sections_without_advancing() {
    let mut table = fresh_table();
    table.register_outstanding_section(4, SectionRefs { required_insert_count: 3, min_ref_abs_idx: Some(0) });
    table.on_stream_cancel(4);
    assert_eq!(table.known_received_count(), 0);
    assert_eq!(table.eviction_floor(), None);
    assert!(table.on_section_ack(4).is_err());
}

#[test]
fn insert_count_increment_advances_and_bounds() {
    let mut table = new_table(4096);
    insert(&mut table, qen("a"), "1").unwrap();
    insert(&mut table, qen("b"), "2").unwrap();
    table.on_insert_count_increment(1).unwrap();
    assert_eq!(table.known_received_count(), 1);
    table.on_insert_count_increment(1).unwrap();
    assert_eq!(table.known_received_count(), 2);
    assert!(table.on_insert_count_increment(1).is_err());
}

#[test]
fn insert_count_increment_rejects_zero() {
    let mut table = fresh_table();
    assert!(table.on_insert_count_increment(0).is_err());
}

#[test]
fn fail_sets_failed_state() {
    let mut table = fresh_table();
    table.fail(H3ErrorCode::QpackEncoderStreamError);
    assert_eq!(table.failed(), Some(H3ErrorCode::QpackEncoderStreamError));
}

// ---- reverse lookups ----

#[test]
fn reverse_index_basic_lookup() {
    let mut table = new_table(4096);
    let abs = insert(&mut table, qen("x-custom"), "hello").unwrap();
    let name = qen("x-custom");
    assert_eq!(table.find_pair(&name, b"hello"), Some(abs));
    assert_eq!(table.find_name(&name), Some(abs));
    assert_eq!(table.find_pair(&name, b"other"), None);
    assert_eq!(table.find_name(&qen("x-missing")), None);
}

#[test]
fn reverse_index_duplicate_updates_to_newer_abs_idx() {
    let mut table = new_table(4096);
    insert(&mut table, qen("x-custom"), "v").unwrap();
    let second = insert(&mut table, qen("x-custom"), "v").unwrap();
    let name = qen("x-custom");
    assert_eq!(table.find_pair(&name, b"v"), Some(second));
    assert_eq!(table.find_name(&name), Some(second));
}

#[test]
fn reverse_index_staleness_preserves_newer_after_eviction() {
    let mut table = new_table(68);
    let first = insert(&mut table, qen("a"), "1").unwrap();
    let second = insert(&mut table, qen("a"), "1").unwrap();
    assert_ne!(first, second);
    insert(&mut table, qen("c"), "3").unwrap();
    assert_eq!(table.entry_count(), 2);
    let name_a = qen("a");
    assert_eq!(table.find_pair(&name_a, b"1"), Some(second));
    assert_eq!(table.find_name(&name_a), Some(second));
}

#[test]
fn reverse_index_removes_name_when_all_values_evicted() {
    let mut table = new_table(34);
    insert(&mut table, qen("a"), "1").unwrap();
    let b_abs = insert(&mut table, qen("b"), "2").unwrap();
    assert_eq!(table.entry_count(), 1);
    let name_a = qen("a");
    let name_b = qen("b");
    assert_eq!(table.find_pair(&name_a, b"1"), None);
    assert_eq!(table.find_name(&name_a), None);
    assert_eq!(table.find_pair(&name_b, b"2"), Some(b_abs));
    assert_eq!(table.find_name(&name_b), Some(b_abs));
}

// ---- blocked-streams budget, capacity ----

#[test]
fn blocked_streams_empty_budget_available() {
    let table = new_table_with_blocked_streams(4096, 2);
    assert_eq!(table.currently_blocked_streams(), 0);
    assert!(!table.is_stream_blocking(1));
    assert!(can_block_another_stream(&table, 1));
}

#[test]
fn blocked_streams_non_blocking_section_does_not_count() {
    let mut table = new_table_with_blocked_streams(4096, 0);
    table.register_outstanding_section(1, blocking_section(0));
    assert_eq!(table.currently_blocked_streams(), 0);
    assert!(!table.is_stream_blocking(1));
}

#[test]
fn blocked_streams_counts_distinct_streams() {
    let mut table = new_table_with_blocked_streams(4096, 3);
    table.register_outstanding_section(1, blocking_section(5));
    table.register_outstanding_section(2, blocking_section(7));
    assert_eq!(table.currently_blocked_streams(), 2);
    assert!(table.is_stream_blocking(1));
    assert!(table.is_stream_blocking(2));
    assert!(!table.is_stream_blocking(3));
}

#[test]
fn blocked_streams_per_stream_dedup() {
    let mut table = new_table_with_blocked_streams(4096, 1);
    table.register_outstanding_section(1, blocking_section(3));
    table.register_outstanding_section(1, blocking_section(5));
    table.register_outstanding_section(1, blocking_section(7));
    assert_eq!(table.currently_blocked_streams(), 1);
    assert!(can_block_another_stream(&table, 1));
    assert!(!can_block_another_stream(&table, 2));
}

#[test]
fn blocked_streams_budget_exhausted() {
    let mut table = new_table_with_blocked_streams(4096, 2);
    table.register_outstanding_section(1, blocking_section(5));
    table.register_outstanding_section(2, blocking_section(7));
    assert_eq!(table.currently_blocked_streams(), 2);
    assert!(can_block_another_stream(&table, 1));
    assert!(can_block_another_stream(&table, 2));
    assert!(!can_block_another_stream(&table, 3));
}

#[test]
fn encoder_required_insert_count_examples() {
    assert_eq!(encode_required_insert_count(0, 0), 0);
    assert_eq!(encode_required_insert_count(1, 32), 2);
    assert_eq!(encode_required_insert_count(300, 4096), 45);
}

#[test]
fn set_capacity_emits_wire_instruction() {
    let mut table = new_table(4096);
    table.set_capacity(1024).unwrap();
    assert_eq!(
        drain_instructions(&mut table),
        vec![EncoderInstruction::SetCapacity(4096), EncoderInstruction::SetCapacity(1024)]
    );
}

#[test]
fn set_capacity_rejects_above_max() {
    let mut table = new_table(4096);
    assert!(table.set_capacity(8192).is_err());
}

#[test]
fn drain_is_fifo() {
    let mut table = new_table(4096);
    table.set_capacity(256).unwrap();
    table.set_capacity(1024).unwrap();
    assert_eq!(
        drain_instructions(&mut table),
        vec![
            EncoderInstruction::SetCapacity(4096),
            EncoderInstruction::SetCapacity(256),
            EncoderInstruction::SetCapacity(1024),
        ]
    );
}

// ---- own cases ----

#[test]
fn set_capacity_refused_when_it_would_evict_a_pinned_entry() {
    let mut table = new_table(4096);
    insert(&mut table, qen("a"), "1").unwrap();
    table.register_outstanding_section(4, SectionRefs { required_insert_count: 1, min_ref_abs_idx: Some(0) });
    assert_eq!(table.set_capacity(0), Err(H3ErrorCode::QpackEncoderStreamError));
    assert_eq!(table.entry_count(), 1);
    assert_eq!(table.capacity(), 4096);
}

#[test]
fn acknowledging_the_last_section_frees_the_pin() {
    let mut table = new_table(4096);
    insert(&mut table, qen("a"), "1").unwrap();
    table.register_outstanding_section(4, SectionRefs { required_insert_count: 1, min_ref_abs_idx: Some(0) });
    assert_eq!(table.eviction_floor(), Some(0));
    table.on_section_ack(4).unwrap();
    assert_eq!(table.eviction_floor(), None);
    table.set_capacity(0).unwrap();
    assert_eq!(table.entry_count(), 0);
}

#[test]
fn negotiated_capacity_takes_the_lower_limit() {
    let mut table = fresh_table();
    table.initialize_from_peer_settings(1000, Some(4096), None, &Vec::new());
    assert_eq!(table.max_capacity(), 1000);
    assert_eq!(table.capacity(), 1000);
    assert_eq!(table.max_blocked_streams(), 0);
    let mut zero = fresh_table();
    zero.initialize_from_peer_settings(1000, None, Some(3), &Vec::new());
    assert_eq!(zero.max_capacity(), 0);
    assert_eq!(zero.max_blocked_streams(), 3);
    assert!(zero.drain_pending_ops().is_empty());
}

#[test]
fn priming_inserts_candidates_and_counts_their_bytes() {
    let mut table = fresh_table();
    let candidates = vec![
        PrimingCandidate { name: qen("x-a"), value: Some(b"1".to_vec()) },
        PrimingCandidate { name: qen("x-b"), value: None },
    ];
    table.initialize_from_peer_settings(4096, Some(4096), Some(0), &candidates);
    assert_eq!(table.insert_count(), 2);
    assert_eq!(table.primed_bytes(), (3 + 1 + 32) + (3 + 32));
    assert_eq!(table.find_pair(&qen("x-b"), b""), Some(1));
}

#[test]
fn priming_stops_at_the_first_candidate_that_does_not_fit() {
    let mut table = fresh_table();
    let candidates = vec![
        PrimingCandidate { name: qen("x-a"), value: Some(vec![b'v'; 100]) },
        PrimingCandidate { name: qen("x-b"), value: Some(b"1".to_vec()) },
    ];
    table.initialize_from_peer_settings(64, Some(64), Some(0), &candidates);
    assert_eq!(table.insert_count(), 0);
    assert_eq!(table.primed_bytes(), 0);
}

// ---- the peer's decoder stream, read from bytes ----

/// Read decoder-stream instructions from `wire` and apply each one, as the stream reader
/// does; a refused instruction fails the table.
fn run_reader(table: &mut EncoderDynamicTable, wire: &[u8]) -> Result<(), H3ErrorCode> {
    let mut stream = wire;
    while !stream.is_empty() {
        let (instruction, rest) = match DecoderInstruction::parse(stream) {
            Ok(parsed) => parsed,
            Err(_) => {
                table.fail(H3ErrorCode::QpackDecoderStreamError);
                return Err(H3ErrorCode::QpackDecoderStreamError);
            }
        };
        if let Err(code) = table.apply_decoder_instruction(instruction) {
            table.fail(code);
            return Err(code);
        }
        stream = rest;
    }
    Ok(())
}

fn make_table_with_two_entries() -> EncoderDynamicTable {
    let mut table = new_table(4096);
    insert(&mut table, qen("a"), "1").unwrap();
    insert(&mut table, qen("b"), "2").unwrap();
    table
}

fn push_section(table: &mut EncoderDynamicTable, stream_id: u64, ric: u64, min_ref: Option<u64>) {
    table.register_outstanding_section(stream_id, SectionRefs { required_insert_count: ric, min_ref_abs_idx: min_ref });
}

#[test]
fn parses_section_ack() {
    let mut table = make_table_with_two_entries();
    push_section(&mut table, 4, 2, Some(0));
    // Section Ack for stream ID 4: 0x80 | 4 = 0x84
    run_reader(&mut table, &[0x84]).unwrap();
    assert_eq!(table.known_received_count(), 2);
}

#[test]
fn parses_insert_count_increment() {
    let mut table = make_table_with_two_entries();
    // ICI increment=1: 0x00 | 1 = 0x01
    run_reader(&mut table, &[0x01]).unwrap();
    assert_eq!(table.known_received_count(), 1);
}

#[test]
fn parses_stream_cancellation() {
    let mut table = make_table_with_two_entries();
    push_section(&mut table, 4, 2, Some(0));
    // Stream Cancel stream_id=4: 0x40 | 4 = 0x44
    run_reader(&mut table, &[0x44]).unwrap();
    assert_eq!(table.known_received_count(), 0);
}

#[test]
fn parses_multiple_instructions() {
    let mut table = make_table_with_two_entries();
    push_section(&mut table, 4, 1, Some(0));
    // Section Ack stream 4, then ICI +1: expects total known_received = 2.
    run_reader(&mut table, &[0x84, 0x01]).unwrap();
    assert_eq!(table.known_received_count(), 2);
}

#[test]
fn multi_byte_varint() {
    let mut table = make_table_with_two_entries();
    push_section(&mut table, 200, 2, Some(0));
    // 7-bit prefix: first byte = 0x80 | 0x7F = 0xFF, then 200 - 127 = 73 = 0x49.
    run_reader(&mut table, &[0xFF, 0x49]).unwrap();
    assert_eq!(table.known_received_count(), 2);
}

#[test]
fn protocol_error_marks_table_failed() {
    let mut table = fresh_table();
    // Section Ack with no outstanding section is a protocol error.
    assert!(run_reader(&mut table, &[0x84]).is_err());
    assert!(table.failed().is_some());
}

#[test]
fn clean_eof_returns_ok() {
    let mut table = fresh_table();
    run_reader(&mut table, &[]).unwrap();
    assert!(table.failed().is_none());
}
