use qpack::encoder_instruction::{
    encode_duplicate, encode_insert_with_literal_name, encode_insert_with_name_ref, encode_set_capacity,
    EncoderInstruction,
};
use qpack::field_section::{FieldLineInstruction, FieldSectionPrefix};
use qpack::static_table::KnownHeaderName;
use qpack::entry_name::EntryName;
use qpack::wire_histogram::{
    classify_encoder_stream, classify_header_block, histogram_from_out_bytes, parse_encoder_stream_for_dump,
    parse_header_block_for_dump, parse_out_groups, WireHistogram,
};

fn record(stream_id: u64, data: &[u8]) -> Vec<u8> {
    let mut out = stream_id.to_be_bytes().to_vec();
    out.extend_from_slice(&(data.len() as u32).to_be_bytes());
    out.extend_from_slice(data);
    out
}

fn encoder_stream() -> Vec<u8> {
    let mut bytes = encode_set_capacity(220);
    bytes.extend(encode_insert_with_literal_name(b"x-a", b"1"));
    bytes.extend(encode_insert_with_name_ref(0, true, b"www.example.com"));
    bytes.extend(encode_insert_with_name_ref(0, false, b"2"));
    bytes.extend(encode_duplicate(1));
    bytes
}

fn header_block() -> Vec<u8> {
    let mut bytes = Vec::new();
    FieldSectionPrefix { encoded_required_insert_count: 3, base_is_negative: false, delta_base: 0 }.encode(&mut bytes);
    FieldLineInstruction::IndexedStatic { index: 17 }.encode(&mut bytes);
    FieldLineInstruction::IndexedDynamic { relative_index: 0 }.encode(&mut bytes);
    FieldLineInstruction::IndexedPostBase { post_base_index: 0 }.encode(&mut bytes);
    FieldLineInstruction::LiteralLiteralName {
        name: EntryName::Known(KnownHeaderName::Server),
        value: b"v".to_vec(),
        never_indexed: false,
    }
    .encode(&mut bytes);
    bytes
}

#[test]
fn encoder_stream_instructions_are_read_until_the_bytes_end() {
    let instructions = parse_encoder_stream_for_dump(&encoder_stream());
    assert_eq!(instructions.len(), 5);
    assert!(matches!(instructions[0], EncoderInstruction::SetCapacity(220)));
    assert!(matches!(instructions[4], EncoderInstruction::Duplicate { relative_index: 1 }));
    // A truncated instruction ends the list.
    let mut cut = encoder_stream();
    cut.truncate(cut.len() - 1);
    cut.push(0xff);
    assert_eq!(parse_encoder_stream_for_dump(&cut).len(), 4);
}

#[test]
fn classifies_encoder_and_header_instructions() {
    let mut hist = WireHistogram::new();
    classify_encoder_stream(&encoder_stream(), &mut hist);
    classify_header_block(&header_block(), &mut hist);
    assert_eq!(hist.set_capacity, 1);
    assert_eq!(hist.insert_literal_name, 1);
    assert_eq!(hist.insert_static_name_ref, 1);
    assert_eq!(hist.insert_dynamic_name_ref, 1);
    assert_eq!(hist.duplicate, 1);
    assert_eq!(hist.indexed_static, 1);
    assert_eq!(hist.indexed_dynamic_pre_base, 1);
    assert_eq!(hist.indexed_post_base, 1);
    assert_eq!(hist.literal_literal_name, 1);
    assert_eq!(hist.inserts_total(), 3);
    assert_eq!(hist.indexed_dynamic_total(), 2);
    assert_eq!(hist.literal_dyn_name_total(), 0);
}

#[test]
fn header_block_with_a_bad_prefix_counts_nothing() {
    let mut hist = WireHistogram::new();
    classify_header_block(&[0x00], &mut hist);
    assert_eq!(hist.indexed_static, 0);
    assert!(parse_header_block_for_dump(&[0x00]).is_none());
    let (prefix, lines) = parse_header_block_for_dump(&header_block()).unwrap();
    assert_eq!(prefix.encoded_required_insert_count, 3);
    assert_eq!(lines.len(), 4);
}

#[test]
fn histogram_of_an_interop_file() {
    let mut file = record(0, &encoder_stream());
    file.extend(record(1, &header_block()));
    file.extend(record(2, &[0x00, 0x00, 0xd1]));
    let hist = histogram_from_out_bytes(&file);
    assert_eq!(hist.n_sections, 2);
    assert_eq!(hist.encoder_stream_bytes, encoder_stream().len() as u64);
    assert_eq!(hist.section_bytes, header_block().len() as u64 + 3);
    assert_eq!(hist.indexed_static, 2);
    assert_eq!(hist.duplicate, 1);
    // A truncated last record ends the walk without counting it.
    let mut truncated = file.clone();
    truncated.extend(record(3, &[0x00, 0x00, 0xd1]));
    truncated.truncate(truncated.len() - 1);
    assert_eq!(histogram_from_out_bytes(&truncated).n_sections, 2);
}

#[test]
fn histograms_add_bucket_by_bucket() {
    let mut a = WireHistogram::new();
    classify_encoder_stream(&encoder_stream(), &mut a);
    let mut b = WireHistogram::new();
    classify_header_block(&header_block(), &mut b);
    a.add(&b);
    assert_eq!(a.set_capacity, 1);
    assert_eq!(a.indexed_static, 1);
    assert_eq!(a.literal_literal_name, 1);
}

#[test]
fn groups_attach_encoder_records_to_the_next_header_block() {
    let mut file = record(0, &[0x3f, 0xbd, 0x01]);
    file.extend(record(0, &[0x00]));
    file.extend(record(1, &[0x00, 0x00, 0xd1]));
    file.extend(record(3, &[0x00, 0x00, 0xd4]));
    file.extend(record(0, &[0x01]));
    let groups = parse_out_groups(&file);
    assert_eq!(groups.len(), 2);
    assert_eq!(groups[0].enc_stream, vec![vec![0x3f, 0xbd, 0x01], vec![0x00]]);
    assert_eq!(groups[0].header_block, vec![0x00, 0x00, 0xd1]);
    assert!(groups[1].enc_stream.is_empty());
    assert_eq!(groups[1].header_block, vec![0x00, 0x00, 0xd4]);
}
