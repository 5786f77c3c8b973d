use qpack::encoder_policy::{
    pick_literal_action, select_program, BudgetCtx, DynRef, EncStreamAction, EncoderProgram, HeaderBlockAction,
    IndexingAllowance, MatchState, TableAction,
};
use qpack::entry_name::EntryName;
use qpack::headers::{FieldSection, Headers, PseudoHeaders};
use qpack::method::Method;
use qpack::predictor::{name_hash, nameval_hash};
use qpack::priming_cost::{value_is_uncacheable, CostModel};
use qpack::qif::{build_field_lines, field_section_to_pairs, parse, status_code_str};
use qpack::recent_pairs::RecentPairs;
use qpack::shared_value::SharedValue;
use qpack::static_table::{KnownHeaderName, PseudoHeaderName};
use qpack::status::Status;
use qpack::strategy_counters::{classify_program, StrategyCounters};

fn budget(krc: u64, slot: bool) -> BudgetCtx {
    BudgetCtx { krc, committed_to_blocking: false, stream_already_blocking: false, blocked_slot_available: slot }
}

// ---- policy ----

#[test]
fn draining_full_match_is_duplicated_and_referenced() {
    let state = MatchState {
        dynamic_full: Some(3),
        dynamic_full_is_draining: true,
        dynamic_full_safe_to_dup: true,
        ..MatchState::default()
    };
    let program = select_program(&state, IndexingAllowance::Full, &budget(5, false), false);
    assert_eq!(
        program,
        EncoderProgram {
            enc_stream: EncStreamAction::Duplicate(3),
            table: TableAction::InsertNew,
            header_block: HeaderBlockAction::IndexedDynamic(DynRef::Existing(3)),
            never_indexed: false,
        }
    );
}

#[test]
fn unreferenceable_full_match_falls_back_to_static() {
    let state = MatchState { dynamic_full: Some(7), static_full: Some(17), ..MatchState::default() };
    let program = select_program(&state, IndexingAllowance::Never, &budget(0, false), false);
    assert_eq!(program.header_block, HeaderBlockAction::IndexedStatic(17));
    assert_eq!(program.enc_stream, EncStreamAction::Nothing);
}

#[test]
fn familiar_pair_with_a_slot_is_inserted_then_referenced() {
    let program = select_program(&MatchState::default(), IndexingAllowance::Full, &budget(0, true), true);
    assert_eq!(program.enc_stream, EncStreamAction::Insert);
    assert_eq!(program.header_block, HeaderBlockAction::IndexedDynamic(DynRef::NewlyInserted));
    assert!(program.never_indexed);
}

#[test]
fn familiar_pair_without_a_slot_warms_and_uses_a_literal() {
    let state = MatchState { static_name: Some(31), ..MatchState::default() };
    let program = select_program(&state, IndexingAllowance::Full, &budget(0, false), false);
    assert_eq!(program.enc_stream, EncStreamAction::Insert);
    assert_eq!(program.header_block, HeaderBlockAction::LiteralStaticNameRef { name_index: 31 });
}

#[test]
fn familiar_name_gets_a_name_only_insert() {
    let program = select_program(&MatchState::default(), IndexingAllowance::NameOnly, &budget(0, true), false);
    assert_eq!(program.enc_stream, EncStreamAction::InsertNameOnly);
    assert_eq!(program.header_block, HeaderBlockAction::LiteralDynamicNameRef { dyn_ref: DynRef::NewlyInserted });
}

#[test]
fn literal_picker_prefers_static_then_allowed_dynamic_names() {
    let both = MatchState { static_name: Some(2), dynamic_name: Some(0), ..MatchState::default() };
    assert_eq!(pick_literal_action(&both, &budget(1, false)), HeaderBlockAction::LiteralStaticNameRef { name_index: 2 });
    let dynamic = MatchState { dynamic_name: Some(4), ..MatchState::default() };
    assert_eq!(pick_literal_action(&dynamic, &budget(1, false)), HeaderBlockAction::LiteralLiteralName);
    assert_eq!(
        pick_literal_action(&dynamic, &budget(5, false)),
        HeaderBlockAction::LiteralDynamicNameRef { dyn_ref: DynRef::Existing(4) }
    );
    assert!(IndexingAllowance::Full.full());
    assert!(!IndexingAllowance::NameOnly.full());
}

// ---- strategy counters ----

#[test]
fn counters_classify_and_add() {
    let mut counters = StrategyCounters::default();
    let state = MatchState::default();
    let b = budget(0, false);
    let program = select_program(&state, IndexingAllowance::NameOnly, &b, false);
    classify_program(&state, IndexingAllowance::NameOnly, &b, &program, &mut counters);
    assert_eq!(counters.allowance_name_only, 1);
    assert_eq!(counters.literal_literal_name, 1);
    assert_eq!(counters.name_only_skipped_no_slot, 1);
    let mut total = StrategyCounters::default();
    total.add(&counters);
    total.add(&counters);
    assert_eq!(total.literal_literal_name, 2);
    assert_eq!(total.allowance_name_only, 2);
}

// ---- cost model ----

#[test]
fn cost_model_skips_what_the_static_table_already_covers() {
    let content_type = EntryName::Known(KnownHeaderName::ContentType);
    assert_eq!(CostModel::estimate(&content_type, Some(b"application/json")), None);
    assert_eq!(
        CostModel::estimate(&content_type, Some(b"text/x-custom")),
        Some(CostModel { insert_cost: 15, savings_per_ref: 13 })
    );
    assert_eq!(CostModel::estimate(&content_type, None), None);
    let custom = EntryName::Unknown(b"x-custom".to_vec());
    assert_eq!(CostModel::estimate(&custom, Some(b"v")), Some(CostModel { insert_cost: 12, savings_per_ref: 10 }));
    assert_eq!(CostModel::estimate(&custom, None), Some(CostModel { insert_cost: 11, savings_per_ref: 8 }));
}

#[test]
fn sensitive_names_and_date_values_are_not_cached() {
    assert!(value_is_uncacheable(&EntryName::Known(KnownHeaderName::Authorization)));
    assert!(value_is_uncacheable(&EntryName::Known(KnownHeaderName::Date)));
    assert!(value_is_uncacheable(&EntryName::Unknown(b"proxy-authorization".to_vec())));
    assert!(!value_is_uncacheable(&EntryName::Known(KnownHeaderName::ContentType)));
}

// ---- hashes and shared values ----

#[test]
fn predictor_hashes_match_the_ring_hash() {
    assert_eq!(nameval_hash(b"a", b"b"), RecentPairs::hash(b"a", b"b"));
    assert_ne!(nameval_hash(b"ab", b"c"), nameval_hash(b"a", b"bc"));
    assert_eq!(name_hash(b"x-custom"), name_hash(b"x-custom"));
}

#[test]
fn shared_values_keep_their_bytes() {
    let text = SharedValue::from_slice(b"hello");
    assert!(matches!(text, SharedValue::Utf8(_)));
    assert_eq!(text.as_bytes(), b"hello");
    let raw = SharedValue::from_vec(vec![0xff, 0x00]);
    assert!(matches!(raw, SharedValue::Bytes(_)));
    assert_eq!(raw.as_bytes(), &[0xff, 0x00]);
}

// ---- QIF ----

#[test]
fn qif_groups_split_on_blank_lines_and_skip_comments() {
    let groups = parse("# comment\n:method\tGET\r\nx-a\t1\n\n\nfoo\tbar\tbaz\nno-tab\n");
    assert_eq!(
        groups,
        vec![
            vec![(b":method".to_vec(), b"GET".to_vec()), (b"x-a".to_vec(), b"1".to_vec())],
            vec![(b"foo".to_vec(), b"bar\tbaz".to_vec())],
        ]
    );
    assert!(parse("").is_empty());
    assert_eq!(parse("a\tb"), vec![vec![(b"a".to_vec(), b"b".to_vec())]]);
}

#[test]
fn qif_lines_become_field_lines() {
    let group = vec![(b":path".to_vec(), b"/".to_vec()), (b"x-a".to_vec(), b"1".to_vec())];
    let lines = build_field_lines(&group).unwrap();
    assert_eq!(lines.len(), 2);
    assert_eq!(lines[0].0, EntryName::Pseudo(PseudoHeaderName::Path));
    assert_eq!(lines[1], (EntryName::Unknown(b"x-a".to_vec()), b"1".to_vec(), false));
    assert!(build_field_lines(&vec![(b"Bad Name".to_vec(), b"1".to_vec())]).is_err());
}

#[test]
fn field_sections_become_qif_pairs() {
    let mut pseudos = PseudoHeaders::default();
    pseudos.method = Some(Method::Get);
    pseudos.status = Some(Status::NotFound);
    pseudos.path = Some("/x".to_string());
    let mut headers = Headers::new();
    headers.append(EntryName::Known(KnownHeaderName::ContentType), b"text/plain".to_vec());
    headers.append(EntryName::Unknown(b"x-a".to_vec()), b"1".to_vec());
    headers.append(EntryName::Unknown(b"x-a".to_vec()), b"2".to_vec());
    let pairs = field_section_to_pairs(FieldSection::new(pseudos, headers));
    assert_eq!(
        pairs,
        vec![
            (b":method".to_vec(), b"GET".to_vec()),
            (b":status".to_vec(), b"404".to_vec()),
            (b":path".to_vec(), b"/x".to_vec()),
            (b"content-type".to_vec(), b"text/plain".to_vec()),
            (b"x-a".to_vec(), b"1".to_vec()),
            (b"x-a".to_vec(), b"2".to_vec()),
        ]
    );
    assert_eq!(status_code_str(Status::Okay), b"200".to_vec());
}
