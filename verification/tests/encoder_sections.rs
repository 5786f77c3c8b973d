use qpack::decoder_table::DecoderDynamicTable;
use qpack::encoder_instruction::EncoderInstruction;
use qpack::encoder_plan::{encode_field_lines, hot_candidates, oldest_entry_hot, Planner};
use qpack::encoder_table::{EncoderDynamicTable, PrimingCandidate, SectionRefs};
use qpack::entry_name::EntryName;
use qpack::field_section::{FieldLineInstruction, FieldSectionPrefix};
use qpack::headers::FieldSection;
use qpack::recent_pairs::RecentPairs;
use qpack::static_table::{KnownHeaderName, PseudoHeaderName};

fn qen(s: &str) -> EntryName {
    EntryName::from_wire(s.as_bytes()).unwrap()
}

fn new_table_with_blocked_streams(max_capacity: u64, max_blocked_streams: u64) -> EncoderDynamicTable {
    let mut table = EncoderDynamicTable::new(RecentPairs::with_size(32));
    table.initialize_from_peer_settings(
        max_capacity as usize,
        Some(max_capacity),
        Some(max_blocked_streams),
        &Vec::new(),
    );
    table
}

fn new_table(max_capacity: u64) -> EncoderDynamicTable {
    new_table_with_blocked_streams(max_capacity, 0)
}

fn line(name: EntryName, value: &str) -> (EntryName, Vec<u8>, bool) {
    (name, value.as_bytes().to_vec(), false)
}

fn encode(table: &mut EncoderDynamicTable, lines: Vec<(EntryName, Vec<u8>, bool)>, stream_id: u64) -> Vec<u8> {
    let mut buf = Vec::new();
    encode_field_lines(table, &lines, &Vec::new(), stream_id, &mut buf);
    buf
}

fn parse_section(bytes: &[u8]) -> (FieldSectionPrefix, Vec<FieldLineInstruction>) {
    let (prefix, mut rest) = FieldSectionPrefix::parse(bytes).expect("prefix parses");
    let mut lines = Vec::new();
    while !rest.is_empty() {
        let (instr, tail) = FieldLineInstruction::parse(rest).expect("field line parses");
        lines.push(instr);
        rest = tail;
    }
    (prefix, lines)
}

fn drain_instructions(table: &mut EncoderDynamicTable) -> Vec<EncoderInstruction> {
    let bytes: Vec<u8> = table.drain_pending_ops().into_iter().flatten().collect();
    let mut stream = &bytes[..];
    let mut out = Vec::new();
    while !stream.is_empty() {
        let (instruction, rest) = EncoderInstruction::parse(stream, usize::MAX).unwrap();
        out.push(instruction);
        stream = rest;
    }
    out
}

fn outstanding(table: &EncoderDynamicTable, stream_id: u64) -> Vec<SectionRefs> {
    table.outstanding_sections(stream_id)
}

fn prefix_with_ric(encoded: usize) -> FieldSectionPrefix {
    FieldSectionPrefix { encoded_required_insert_count: encoded, base_is_negative: false, delta_base: 0 }
}

// ---- static table ----

#[test]
fn empty_field_section_emits_zero_prefix() {
    let mut table = new_table(4096);
    let bytes = encode(&mut table, vec![], 1);
    let (prefix, lines) = parse_section(&bytes);
    assert_eq!(prefix, FieldSectionPrefix::default());
    assert!(lines.is_empty());
    assert!(outstanding(&table, 1).is_empty());
}

#[test]
fn static_only_section_has_zero_prefix_and_registers_nothing() {
    let mut table = new_table(4096);
    let bytes = encode(
        &mut table,
        vec![
            line(EntryName::Pseudo(PseudoHeaderName::Method), "GET"),
            line(EntryName::Pseudo(PseudoHeaderName::Path), "/"),
            line(EntryName::Pseudo(PseudoHeaderName::Scheme), "https"),
        ],
        1,
    );
    let (prefix, lines) = parse_section(&bytes);
    assert_eq!(prefix, FieldSectionPrefix::default());
    assert!(lines.iter().all(|l| matches!(l, FieldLineInstruction::IndexedStatic { .. })));
    assert!(outstanding(&table, 1).is_empty());
}

#[test]
fn static_full_match_method_get() {
    let mut table = new_table(4096);
    let bytes = encode(&mut table, vec![line(EntryName::Pseudo(PseudoHeaderName::Method), "GET")], 1);
    let (prefix, lines) = parse_section(&bytes);
    assert_eq!(prefix, FieldSectionPrefix::default());
    assert_eq!(lines, vec![FieldLineInstruction::IndexedStatic { index: 17 }]);
}

#[test]
fn static_full_match_status_200() {
    let mut table = new_table(4096);
    let bytes = encode(&mut table, vec![line(EntryName::Pseudo(PseudoHeaderName::Status), "200")], 1);
    let (prefix, lines) = parse_section(&bytes);
    assert_eq!(prefix, FieldSectionPrefix::default());
    assert_eq!(lines, vec![FieldLineInstruction::IndexedStatic { index: 25 }]);
}

#[test]
fn static_full_match_path_slash_and_scheme_https() {
    let mut table = new_table(4096);
    let bytes = encode(
        &mut table,
        vec![
            line(EntryName::Pseudo(PseudoHeaderName::Path), "/"),
            line(EntryName::Pseudo(PseudoHeaderName::Scheme), "https"),
        ],
        1,
    );
    let (prefix, lines) = parse_section(&bytes);
    assert_eq!(prefix, FieldSectionPrefix::default());
    assert_eq!(
        lines,
        vec![FieldLineInstruction::IndexedStatic { index: 1 }, FieldLineInstruction::IndexedStatic { index: 23 }]
    );
}

#[test]
fn static_name_ref_unknown_method_patch() {
    let mut table = new_table(4096);
    let bytes = encode(&mut table, vec![line(EntryName::Pseudo(PseudoHeaderName::Method), "PATCH")], 1);
    let decoded = FieldSection::decode(&bytes).unwrap();
    let (pseudo, _) = decoded.into_parts();
    assert_eq!(pseudo.method, Some(qpack::method::Method::Patch));
}

#[test]
fn static_name_ref_content_type_custom_value() {
    let mut table = new_table(4096);
    let bytes = encode(&mut table, vec![line(EntryName::Known(KnownHeaderName::ContentType), "application/xml")], 1);
    let (prefix, lines) = parse_section(&bytes);
    assert_eq!(prefix, FieldSectionPrefix::default());
    let [FieldLineInstruction::LiteralStaticNameRef { value, never_indexed: false, .. }] = lines.as_slice() else {
        panic!("expected a single literal with static name ref, got {lines:?}");
    };
    assert_eq!(value.as_slice(), b"application/xml");
    assert!(outstanding(&table, 1).is_empty());
}

// ---- literal names and dynamic full matches ----

#[test]
fn literal_literal_name_unknown_header() {
    let mut table = new_table(4096);
    let bytes = encode(&mut table, vec![line(qen("x-custom"), "hello")], 1);
    let (prefix, lines) = parse_section(&bytes);
    assert_eq!(prefix, FieldSectionPrefix::default());
    let [FieldLineInstruction::LiteralLiteralName { name, value, never_indexed: false }] = lines.as_slice() else {
        panic!("expected a single literal-with-literal-name, got {lines:?}");
    };
    assert_eq!(name.as_bytes(), b"x-custom");
    assert_eq!(value.as_slice(), b"hello");
    assert!(outstanding(&table, 1).is_empty());
}

#[test]
fn literal_literal_name_protocol_with_no_dynamic_entry() {
    let mut table = new_table(4096);
    let bytes = encode(&mut table, vec![line(EntryName::Pseudo(PseudoHeaderName::Protocol), "webtransport")], 1);
    let (prefix, lines) = parse_section(&bytes);
    assert_eq!(prefix, FieldSectionPrefix::default());
    let [FieldLineInstruction::LiteralLiteralName { name, value, never_indexed: false }] = lines.as_slice() else {
        panic!("expected a single literal-with-literal-name, got {lines:?}");
    };
    assert_eq!(name.as_bytes(), b":protocol");
    assert_eq!(value.as_slice(), b"webtransport");
}

#[test]
fn dynamic_full_match_regular_header() {
    let mut encoder = new_table(4096);
    let abs = encoder.insert(&qen("x-custom"), b"hello", None).unwrap();
    assert_eq!(abs, 0);
    encoder.on_insert_count_increment(1).unwrap();
    let bytes = encode(&mut encoder, vec![line(qen("x-custom"), "hello")], 1);
    let (prefix, lines) = parse_section(&bytes);
    assert_eq!(prefix, prefix_with_ric(2));
    assert_eq!(lines, vec![FieldLineInstruction::IndexedDynamic { relative_index: 0 }]);
    let os = outstanding(&encoder, 1);
    assert_eq!(os.len(), 1);
    assert_eq!(os[0].required_insert_count, 1);
    assert_eq!(os[0].min_ref_abs_idx, Some(0));
}

#[test]
fn static_full_match_preferred_over_dynamic() {
    let mut encoder = new_table(4096);
    encoder.insert(&EntryName::Known(KnownHeaderName::ContentType), b"application/json", None).unwrap();
    encoder.on_insert_count_increment(1).unwrap();
    let bytes = encode(&mut encoder, vec![line(EntryName::Known(KnownHeaderName::ContentType), "application/json")], 1);
    let (prefix, lines) = parse_section(&bytes);
    assert_eq!(prefix.encoded_required_insert_count, 0);
    assert!(matches!(lines.as_slice(), [FieldLineInstruction::IndexedStatic { .. }]));
}

#[test]
fn dynamic_full_match_pseudo_method() {
    let mut encoder = new_table(4096);
    let abs = encoder.insert(&EntryName::Pseudo(PseudoHeaderName::Method), b"PATCH", None).unwrap();
    assert_eq!(abs, 0);
    encoder.on_insert_count_increment(1).unwrap();
    let bytes = encode(&mut encoder, vec![line(EntryName::Pseudo(PseudoHeaderName::Method), "PATCH")], 1);
    let (prefix, lines) = parse_section(&bytes);
    assert_eq!(prefix, prefix_with_ric(2));
    assert_eq!(lines, vec![FieldLineInstruction::IndexedDynamic { relative_index: 0 }]);
}

#[test]
fn dynamic_full_match_protocol() {
    let mut encoder = new_table(4096);
    encoder.insert(&EntryName::Pseudo(PseudoHeaderName::Protocol), b"webtransport", None).unwrap();
    encoder.on_insert_count_increment(1).unwrap();
    let bytes = encode(&mut encoder, vec![line(EntryName::Pseudo(PseudoHeaderName::Protocol), "webtransport")], 1);
    let (prefix, lines) = parse_section(&bytes);
    assert_eq!(prefix, prefix_with_ric(2));
    assert_eq!(lines, vec![FieldLineInstruction::IndexedDynamic { relative_index: 0 }]);
    let os = outstanding(&encoder, 1);
    assert_eq!(os.len(), 1);
    assert_eq!(os[0].required_insert_count, 1);
    assert_eq!(os[0].min_ref_abs_idx, Some(0));
}

#[test]
fn outstanding_section_tracks_ric_and_min_ref_across_multiple_refs() {
    let mut encoder = new_table(4096);
    let a = encoder.insert(&qen("x-a"), b"1", None).unwrap();
    let b = encoder.insert(&qen("x-b"), b"2", None).unwrap();
    let c = encoder.insert(&qen("x-c"), b"3", None).unwrap();
    assert_eq!((a, b, c), (0, 1, 2));
    encoder.on_insert_count_increment(3).unwrap();
    let _ = encode(&mut encoder, vec![line(qen("x-b"), "2"), line(qen("x-c"), "3")], 7);
    let os = outstanding(&encoder, 7);
    assert_eq!(os.len(), 1);
    assert_eq!(os[0].required_insert_count, 3);
    assert_eq!(os[0].min_ref_abs_idx, Some(1));
}

#[test]
fn outstanding_section_not_registered_when_section_is_static_only() {
    let mut encoder = new_table(4096);
    encoder.insert(&qen("x-a"), b"1", None).unwrap();
    encoder.on_insert_count_increment(1).unwrap();
    let _ = encode(&mut encoder, vec![line(EntryName::Pseudo(PseudoHeaderName::Method), "GET")], 9);
    assert!(outstanding(&encoder, 9).is_empty());
}

// ---- dynamic name references, warming inserts, budget ----

#[test]
fn dynamic_name_ref_header_with_different_value() {
    let mut encoder = new_table(4096);
    encoder.insert(&qen("x-custom"), b"hello", None).unwrap();
    encoder.on_insert_count_increment(1).unwrap();
    let bytes = encode(&mut encoder, vec![line(qen("x-custom"), "world")], 1);
    let (prefix, lines) = parse_section(&bytes);
    assert_eq!(prefix, prefix_with_ric(2));
    let [FieldLineInstruction::LiteralDynamicNameRef { relative_index: 0, value, never_indexed: false }] =
        lines.as_slice()
    else {
        panic!("expected literal-with-dynamic-name-ref, got {lines:?}");
    };
    assert_eq!(value.as_slice(), b"world");
    let os = outstanding(&encoder, 1);
    assert_eq!(os.len(), 1);
    assert_eq!(os[0].required_insert_count, 1);
    assert_eq!(os[0].min_ref_abs_idx, Some(0));
}

#[test]
fn budget_zero_warming_inserts_when_no_full_match() {
    let mut encoder = new_table_with_blocked_streams(4096, 0);
    encoder.insert(&qen("x-custom"), b"hello", None).unwrap();
    let _ = drain_instructions(&mut encoder);
    let headers = || vec![line(qen("x-custom"), "world")];
    let _ = encode(&mut encoder, headers(), 1);
    let _ = drain_instructions(&mut encoder);
    let bytes = encode(&mut encoder, headers(), 3);
    let (prefix, lines) = parse_section(&bytes);
    assert_eq!(prefix, FieldSectionPrefix::default());
    assert!(matches!(lines.as_slice(), [FieldLineInstruction::LiteralLiteralName { .. }]));
    assert!(outstanding(&encoder, 1).is_empty());
    let instrs = drain_instructions(&mut encoder);
    assert!(matches!(
        instrs.as_slice(),
        [EncoderInstruction::InsertWithDynamicNameRef { value, .. }] if value == b"world"
    ));
}

#[test]
fn budget_zero_warming_inserts_unknown_header_with_no_name_match() {
    let mut encoder = new_table_with_blocked_streams(4096, 0);
    let _ = drain_instructions(&mut encoder);
    let headers = || vec![line(qen("x-fresh"), "v1")];
    let _ = encode(&mut encoder, headers(), 1);
    let _ = drain_instructions(&mut encoder);
    let bytes = encode(&mut encoder, headers(), 3);
    let (prefix, lines) = parse_section(&bytes);
    assert_eq!(prefix, FieldSectionPrefix::default());
    assert!(matches!(lines.as_slice(), [FieldLineInstruction::LiteralLiteralName { .. }]));
    assert!(outstanding(&encoder, 1).is_empty());
    let instrs = drain_instructions(&mut encoder);
    assert!(matches!(
        instrs.as_slice(),
        [EncoderInstruction::InsertWithLiteralName { name, value }] if name == &qen("x-fresh") && value == b"v1"
    ));
}

#[test]
fn budget_zero_warming_inserts_known_header_uses_static_name_ref() {
    let mut encoder = new_table_with_blocked_streams(4096, 0);
    let _ = drain_instructions(&mut encoder);
    let headers = || vec![line(qen("content-type"), "application/x-trillium-test")];
    let _ = encode(&mut encoder, headers(), 1);
    let _ = drain_instructions(&mut encoder);
    let bytes = encode(&mut encoder, headers(), 3);
    let (prefix, lines) = parse_section(&bytes);
    assert_eq!(prefix, FieldSectionPrefix::default());
    assert!(matches!(lines.as_slice(), [FieldLineInstruction::LiteralStaticNameRef { .. }]));
    assert!(outstanding(&encoder, 1).is_empty());
    let instrs = drain_instructions(&mut encoder);
    assert!(matches!(
        instrs.as_slice(),
        [EncoderInstruction::InsertWithStaticNameRef { value, .. }] if value == b"application/x-trillium-test"
    ));
}

#[test]
fn warming_insert_referenceable_in_next_section_after_ack() {
    let mut encoder = new_table_with_blocked_streams(4096, 0);
    let _ = drain_instructions(&mut encoder);
    let h1 = || vec![line(qen("x-fresh"), "v1")];
    let bytes1 = encode(&mut encoder, h1(), 1);
    let (p1, _) = parse_section(&bytes1);
    assert_eq!(p1, FieldSectionPrefix::default());
    let _ = drain_instructions(&mut encoder);
    let bytes2 = encode(&mut encoder, h1(), 3);
    let (p2, _) = parse_section(&bytes2);
    assert_eq!(p2, FieldSectionPrefix::default());
    let _ = drain_instructions(&mut encoder);
    encoder.on_insert_count_increment(1).unwrap();
    let bytes3 = encode(&mut encoder, h1(), 5);
    let (p3, lines3) = parse_section(&bytes3);
    assert_ne!(p3.encoded_required_insert_count, 0);
    assert!(matches!(lines3.as_slice(), [FieldLineInstruction::IndexedDynamic { .. }]));
}

#[test]
fn sensitive_header_does_not_warming_insert() {
    let mut encoder = new_table_with_blocked_streams(4096, 0);
    let _ = drain_instructions(&mut encoder);
    let headers = || vec![line(EntryName::Known(KnownHeaderName::Authorization), "Bearer secret")];
    let _ = encode(&mut encoder, headers(), 1);
    let bytes = encode(&mut encoder, headers(), 1);
    let (prefix, lines) = parse_section(&bytes);
    assert_eq!(prefix, FieldSectionPrefix::default());
    assert!(matches!(lines.as_slice(), [FieldLineInstruction::LiteralStaticNameRef { .. }]));
    assert!(outstanding(&encoder, 1).is_empty());
    assert!(drain_instructions(&mut encoder).is_empty());
}

// ---- own cases ----

#[test]
fn never_indexed_line_stays_literal_even_with_a_full_match() {
    let mut encoder = new_table(4096);
    let bytes = encode(
        &mut encoder,
        vec![(EntryName::Pseudo(PseudoHeaderName::Method), b"GET".to_vec(), true)],
        1,
    );
    let (_, lines) = parse_section(&bytes);
    assert!(matches!(
        lines.as_slice(),
        [FieldLineInstruction::LiteralStaticNameRef { name_index: 17, never_indexed: true, .. }]
    ));
}

#[test]
fn unacknowledged_entry_is_referenced_when_a_blocked_slot_is_free() {
    let mut encoder = new_table_with_blocked_streams(4096, 1);
    encoder.insert(&qen("x-custom"), b"hello", None).unwrap();
    let bytes = encode(&mut encoder, vec![line(qen("x-custom"), "hello")], 4);
    let (prefix, lines) = parse_section(&bytes);
    assert_eq!(prefix, prefix_with_ric(2));
    assert_eq!(lines, vec![FieldLineInstruction::IndexedDynamic { relative_index: 0 }]);
    assert!(encoder.is_stream_blocking(4));
    // With the only slot taken, another stream falls back to a literal.
    let bytes = encode(&mut encoder, vec![line(qen("x-custom"), "hello")], 8);
    let (prefix, lines) = parse_section(&bytes);
    assert_eq!(prefix, FieldSectionPrefix::default());
    assert!(matches!(lines.as_slice(), [FieldLineInstruction::LiteralLiteralName { .. }]));
}

#[test]
fn planner_steps_match_the_whole_section_encoder() {
    let mut a = new_table(4096);
    let mut b = new_table(4096);
    let lines = vec![line(qen("x-one"), "1"), line(EntryName::Pseudo(PseudoHeaderName::Path), "/")];
    let mut whole = Vec::new();
    encode_field_lines(&mut a, &lines, &Vec::new(), 3, &mut whole);
    let mut planner = Planner::new(&b, 3);
    for (name, value, never_indexed) in &lines {
        planner.plan_header_line(&mut b, name, value, *never_indexed, false);
    }
    let (plan, made_inserts, _) = planner.finish();
    assert!(!made_inserts);
    assert_eq!(plan.section_ric, 0);
    let mut stepped = Vec::new();
    qpack::encoder_plan::write_section(&plan, b.max_capacity(), &mut stepped);
    assert_eq!(whole, stepped);
}

// ---- blocked streams budget ----

#[test]
fn blocked_budget_zero_falls_back_to_literal_when_unacknowledged() {
    let mut encoder = new_table_with_blocked_streams(4096, 0);
    encoder.insert(&qen("x-custom"), b"hello", None).unwrap();
    let bytes = encode(&mut encoder, vec![line(qen("x-custom"), "hello")], 1);
    let (prefix, lines) = parse_section(&bytes);
    assert_eq!(prefix, FieldSectionPrefix::default());
    assert!(
        matches!(lines.as_slice(), [FieldLineInstruction::LiteralLiteralName { .. }]),
        "expected fallback to literal-with-literal-name, got {lines:?}",
    );
    assert!(outstanding(&encoder, 1).is_empty());
}

#[test]
fn blocked_budget_already_blocking_stream_allows_additional_refs() {
    let mut encoder = new_table_with_blocked_streams(4096, 1);
    encoder.insert(&qen("x-a"), b"1", None).unwrap();
    encoder.insert(&qen("x-b"), b"2", None).unwrap();
    encoder.register_outstanding_section(1, SectionRefs { required_insert_count: 1, min_ref_abs_idx: Some(0) });
    let bytes = encode(&mut encoder, vec![line(qen("x-b"), "2")], 1);
    let (prefix, _) = parse_section(&bytes);
    assert_ne!(prefix.encoded_required_insert_count, 0);
    assert_eq!(outstanding(&encoder, 1).len(), 2);
}

#[test]
fn blocked_budget_new_stream_refused_when_full() {
    let mut encoder = new_table_with_blocked_streams(4096, 1);
    encoder.insert(&qen("x-a"), b"1", None).unwrap();
    encoder.register_outstanding_section(1, SectionRefs { required_insert_count: 1, min_ref_abs_idx: Some(0) });
    let bytes = encode(&mut encoder, vec![line(qen("x-a"), "1")], 2);
    let (prefix, _) = parse_section(&bytes);
    assert_eq!(prefix, FieldSectionPrefix::default());
    assert!(outstanding(&encoder, 2).is_empty());
}

#[test]
fn non_blocking_ref_allowed_when_budget_is_zero() {
    let mut encoder = new_table_with_blocked_streams(4096, 0);
    encoder.insert(&qen("x-custom"), b"hello", None).unwrap();
    encoder.on_insert_count_increment(1).unwrap();
    let bytes = encode(&mut encoder, vec![line(qen("x-custom"), "hello")], 1);
    let (prefix, lines) = parse_section(&bytes);
    assert_eq!(prefix, prefix_with_ric(2));
    assert_eq!(lines, vec![FieldLineInstruction::IndexedDynamic { relative_index: 0 }]);
}

#[test]
fn committed_to_blocking_covers_multiple_refs_in_same_section() {
    let mut encoder = new_table_with_blocked_streams(4096, 1);
    encoder.insert(&qen("x-a"), b"1", None).unwrap();
    encoder.insert(&qen("x-b"), b"2", None).unwrap();
    let bytes = encode(&mut encoder, vec![line(qen("x-a"), "1"), line(qen("x-b"), "2")], 1);
    let (prefix, lines) = parse_section(&bytes);
    assert_eq!(prefix.encoded_required_insert_count, 3);
    assert!(
        matches!(
            lines.as_slice(),
            [FieldLineInstruction::IndexedDynamic { .. }, FieldLineInstruction::IndexedDynamic { .. }],
        ),
        "expected two indexed dynamic refs, got {lines:?}",
    );
}

// ---- dynamic name references under a blocking budget ----

#[test]
fn dynamic_name_ref_already_blocking_stream_allows_ref() {
    // Capacity fits exactly one entry (8 + 5 + 32), so the warming insert would have to
    // evict the pinned source and falls through to a dynamic name reference.
    let mut encoder = new_table_with_blocked_streams(45, 1);
    encoder.insert(&qen("x-custom"), b"hello", None).unwrap();
    encoder.register_outstanding_section(1, SectionRefs { required_insert_count: 1, min_ref_abs_idx: Some(0) });
    let bytes = encode(&mut encoder, vec![line(qen("x-custom"), "world")], 1);
    let (prefix, lines) = parse_section(&bytes);
    assert_ne!(prefix.encoded_required_insert_count, 0);
    assert!(
        matches!(lines.as_slice(), [FieldLineInstruction::LiteralDynamicNameRef { .. }]),
        "expected literal-with-dynamic-name-ref, got {lines:?}",
    );
}

#[test]
fn static_name_ref_preferred_over_dynamic_name_ref() {
    let mut encoder = new_table(4096);
    encoder.insert(&EntryName::Known(KnownHeaderName::ContentType), b"application/json", None).unwrap();
    encoder.on_insert_count_increment(1).unwrap();
    let bytes = encode(&mut encoder, vec![line(EntryName::Known(KnownHeaderName::ContentType), "application/xml")], 1);
    let (prefix, lines) = parse_section(&bytes);
    assert_eq!(prefix, FieldSectionPrefix::default());
    let [FieldLineInstruction::LiteralStaticNameRef { value, never_indexed: false, .. }] = lines.as_slice() else {
        panic!("expected literal-with-static-name-ref, got {lines:?}");
    };
    assert_eq!(value.as_slice(), b"application/xml");
    assert!(outstanding(&encoder, 1).is_empty());
}

#[test]
fn dynamic_name_ref_protocol_pseudo() {
    let mut encoder = new_table(4096);
    encoder.insert(&EntryName::Pseudo(PseudoHeaderName::Protocol), b"webtransport", None).unwrap();
    encoder.on_insert_count_increment(1).unwrap();
    let bytes = encode(&mut encoder, vec![line(EntryName::Pseudo(PseudoHeaderName::Protocol), "connect-udp")], 1);
    let (prefix, lines) = parse_section(&bytes);
    assert_eq!(prefix, prefix_with_ric(2));
    let [FieldLineInstruction::LiteralDynamicNameRef { relative_index: 0, value, never_indexed: false }] =
        lines.as_slice()
    else {
        panic!("expected literal-with-dynamic-name-ref, got {lines:?}");
    };
    assert_eq!(value.as_slice(), b"connect-udp");
}

#[test]
fn committed_to_blocking_covers_full_match_then_name_ref() {
    // Capacity for exactly two entries (2 × (3 + 1 + 32)); once x-a's reference pins
    // abs 0, x-b's warming insert cannot evict and x-b falls through to a name reference.
    let mut encoder = new_table_with_blocked_streams(72, 1);
    encoder.insert(&qen("x-a"), b"1", None).unwrap();
    encoder.insert(&qen("x-b"), b"1", None).unwrap();
    let bytes = encode(&mut encoder, vec![line(qen("x-a"), "1"), line(qen("x-b"), "2")], 1);
    let (prefix, lines) = parse_section(&bytes);
    // max_capacity=72 → max_entries=2; RIC=2 → encoded_ric = (2 % 4) + 1 = 3.
    assert_eq!(prefix.encoded_required_insert_count, 3);
    let [FieldLineInstruction::IndexedDynamic { .. }, FieldLineInstruction::LiteralDynamicNameRef { .. }] =
        lines.as_slice()
    else {
        panic!("expected indexed-dynamic + literal-dynamic-name-ref, got {lines:?}");
    };
    let os = outstanding(&encoder, 1);
    assert_eq!(os.len(), 1);
    assert_eq!(os[0].required_insert_count, 2);
}

#[test]
fn section_prefix_encodes_nonzero_ric_with_delta_base_zero() {
    let mut encoder = new_table(4096);
    for i in 0..5u32 {
        encoder.insert(&qen("x-custom"), i.to_string().as_bytes(), None).unwrap();
    }
    encoder.on_insert_count_increment(5).unwrap();
    let bytes = encode(&mut encoder, vec![line(qen("x-custom"), "4")], 1);
    let (prefix, _) = parse_section(&bytes);
    // max_entries = 4096 / 32 = 128, so encoded_ric = (5 % 256) + 1 = 6.
    assert_eq!(prefix, prefix_with_ric(6));
}

// ---- through a decoder ----

fn roundtrip(
    encoder: &mut EncoderDynamicTable,
    decoder: &mut DecoderDynamicTable,
    lines: Vec<(EntryName, Vec<u8>, bool)>,
    stream_id: u64,
) -> FieldSection {
    let bytes = encode(encoder, lines, stream_id);
    for instruction in drain_instructions(encoder) {
        decoder.apply(instruction).unwrap();
    }
    let start = decoder.begin_decode(&bytes).unwrap();
    decoder.finish_decode(&bytes, start, stream_id).unwrap()
}

#[test]
fn roundtrip_dynamic_name_ref_through_reader() {
    let mut encoder = new_table(4096);
    let mut decoder = DecoderDynamicTable::new(4096, 0);
    encoder.insert(&qen("x-custom"), b"hello", None).unwrap();
    encoder.on_insert_count_increment(1).unwrap();
    let decoded = roundtrip(&mut encoder, &mut decoder, vec![line(qen("x-custom"), "world")], 1);
    let (_, headers) = decoded.into_parts();
    assert_eq!(headers.get_values(&qen("x-custom")), Some(&vec![b"world".to_vec()]));
}

#[test]
fn roundtrip_dynamic_full_match_through_reader() {
    let mut encoder = new_table(4096);
    let mut decoder = DecoderDynamicTable::new(4096, 0);
    encoder.insert(&qen("x-custom"), b"hello", None).unwrap();
    encoder.on_insert_count_increment(1).unwrap();
    let decoded = roundtrip(&mut encoder, &mut decoder, vec![line(qen("x-custom"), "hello")], 1);
    let (_, headers) = decoded.into_parts();
    assert_eq!(headers.get_values(&qen("x-custom")), Some(&vec![b"hello".to_vec()]));
}

#[test]
fn multi_value_header_emits_one_field_line_per_value() {
    let mut encoder = new_table(4096);
    let bytes = encode(&mut encoder, vec![line(qen("x-multi"), "first"), line(qen("x-multi"), "second")], 1);
    let mut decoder = DecoderDynamicTable::new(4096, 0);
    let start = decoder.begin_decode(&bytes).unwrap();
    let (_, headers) = decoder.finish_decode(&bytes, start, 1).unwrap().into_parts();
    assert_eq!(headers.get_values(&qen("x-multi")), Some(&vec![b"first".to_vec(), b"second".to_vec()]));
}

fn primed_table(capacity: u64) -> EncoderDynamicTable {
    let mut table = EncoderDynamicTable::new(RecentPairs::with_size(32));
    let candidates = vec![
        PrimingCandidate { name: EntryName::Known(KnownHeaderName::Server), value: Some(b"trillium".to_vec()) },
        PrimingCandidate { name: EntryName::Known(KnownHeaderName::UserAgent), value: Some(b"custom".to_vec()) },
    ];
    table.initialize_from_peer_settings(capacity as usize, Some(capacity), Some(0), &candidates);
    table
}

fn count_duplicates(ops: &[EncoderInstruction]) -> usize {
    ops.iter().filter(|op| matches!(op, EncoderInstruction::Duplicate { .. })).count()
}

#[test]
fn primed_table_refreshes_a_hot_oldest_entry() {
    let mut table = primed_table(160);
    assert!(table.entry_count() >= 2);
    let primed_count = table.insert_count();
    let _ = drain_instructions(&mut table);
    let hot = vec![(EntryName::Known(KnownHeaderName::Server), b"trillium".to_vec())];
    assert!(oldest_entry_hot(&table, &hot));
    let lines = vec![line(qen("x-w1"), "v"), line(qen("x-w1"), "v")];
    let mut buf = Vec::new();
    encode_field_lines(&mut table, &lines, &hot, 1, &mut buf);
    let ops = drain_instructions(&mut table);
    assert!(count_duplicates(&ops) >= 1, "expected a Duplicate, got {ops:?}");
    assert!(table.insert_count() >= primed_count + 2);
}

#[test]
fn primed_table_leaves_a_cold_oldest_entry() {
    let mut table = primed_table(160);
    let _ = drain_instructions(&mut table);
    let hot: Vec<(EntryName, Vec<u8>)> = Vec::new();
    assert!(!oldest_entry_hot(&table, &hot));
    let lines = vec![line(qen("x-w1"), "v"), line(qen("x-w1"), "v")];
    let mut buf = Vec::new();
    encode_field_lines(&mut table, &lines, &hot, 1, &mut buf);
    let ops = drain_instructions(&mut table);
    assert_eq!(count_duplicates(&ops), 0, "no Duplicate expected, got {ops:?}");
}

#[test]
fn hot_candidates_list_held_entries_oldest_first_then_lines() {
    let table = primed_table(4096);
    let lines = vec![line(qen("x-w1"), "v")];
    let candidates = hot_candidates(&table, &lines);
    assert_eq!(candidates.len(), 3);
    assert!(candidates[0].0 == EntryName::Known(KnownHeaderName::Server));
    assert_eq!(candidates[0].1, b"trillium".to_vec());
    assert!(candidates[1].0 == EntryName::Known(KnownHeaderName::UserAgent));
    assert!(candidates[2].0 == qen("x-w1"));
    assert_eq!(candidates[2].1, b"v".to_vec());
}
