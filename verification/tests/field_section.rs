use qpack::entry_name::EntryName;
use qpack::field_section::{FieldLineInstruction, FieldSectionPrefix};
use qpack::instruction::QpackError;

fn fv(s: &[u8]) -> Vec<u8> {
    s.to_vec()
}

fn roundtrip(instr: FieldLineInstruction) {
    let mut buf = Vec::new();
    instr.encode(&mut buf);
    let (parsed, rest) = FieldLineInstruction::parse(&buf).expect("parse succeeds");
    assert!(rest.is_empty(), "instruction left trailing bytes");
    assert!(parsed.same_as(&instr), "{parsed:?} != {instr:?}");
}

#[test]
fn roundtrip_indexed_static() {
    roundtrip(FieldLineInstruction::IndexedStatic { index: 0 });
    roundtrip(FieldLineInstruction::IndexedStatic { index: 25 });
    roundtrip(FieldLineInstruction::IndexedStatic { index: 98 });
    // Large index to force multi-byte varint
    roundtrip(FieldLineInstruction::IndexedStatic { index: 10_000 });
}

#[test]
fn roundtrip_indexed_dynamic() {
    roundtrip(FieldLineInstruction::IndexedDynamic { relative_index: 0 });
    roundtrip(FieldLineInstruction::IndexedDynamic { relative_index: 62 });
    roundtrip(FieldLineInstruction::IndexedDynamic { relative_index: 63 });
    roundtrip(FieldLineInstruction::IndexedDynamic { relative_index: 5_000 });
}

#[test]
fn roundtrip_indexed_post_base() {
    roundtrip(FieldLineInstruction::IndexedPostBase { post_base_index: 0 });
    roundtrip(FieldLineInstruction::IndexedPostBase { post_base_index: 14 });
    roundtrip(FieldLineInstruction::IndexedPostBase { post_base_index: 15 });
    roundtrip(FieldLineInstruction::IndexedPostBase { post_base_index: 2_000 });
}

#[test]
fn roundtrip_literal_static_name_ref() {
    for never_indexed in [false, true] {
        roundtrip(FieldLineInstruction::LiteralStaticNameRef {
            name_index: 15, // :status
            value: fv(b"200"),
            never_indexed,
        });
        roundtrip(FieldLineInstruction::LiteralStaticNameRef {
            name_index: 0,
            value: fv(b""),
            never_indexed,
        });
        roundtrip(FieldLineInstruction::LiteralStaticNameRef {
            name_index: 500,
            value: fv(b"a value long enough to exercise multi-byte varint"),
            never_indexed,
        });
    }
}

#[test]
fn roundtrip_literal_dynamic_name_ref() {
    for never_indexed in [false, true] {
        roundtrip(FieldLineInstruction::LiteralDynamicNameRef {
            relative_index: 0,
            value: fv(b"v"),
            never_indexed,
        });
        roundtrip(FieldLineInstruction::LiteralDynamicNameRef {
            relative_index: 14,
            value: fv(b"v"),
            never_indexed,
        });
        roundtrip(FieldLineInstruction::LiteralDynamicNameRef {
            relative_index: 1_000,
            value: fv(b"longer value that might benefit from huffman"),
            never_indexed,
        });
    }
}

#[test]
fn roundtrip_literal_post_base_name_ref() {
    for never_indexed in [false, true] {
        roundtrip(FieldLineInstruction::LiteralPostBaseNameRef {
            post_base_index: 0,
            value: fv(b"v"),
            never_indexed,
        });
        roundtrip(FieldLineInstruction::LiteralPostBaseNameRef {
            post_base_index: 6,
            value: fv(b"v"),
            never_indexed,
        });
        roundtrip(FieldLineInstruction::LiteralPostBaseNameRef {
            post_base_index: 500,
            value: fv(b"longer value"),
            never_indexed,
        });
    }
}

#[test]
fn roundtrip_literal_literal_name() {
    for never_indexed in [false, true] {
        roundtrip(FieldLineInstruction::LiteralLiteralName {
            name: EntryName::from_wire(b"x-custom".as_slice()).unwrap(),
            value: fv(b"value"),
            never_indexed,
        });
        roundtrip(FieldLineInstruction::LiteralLiteralName {
            name: EntryName::from_wire(b"content-type".as_slice()).unwrap(),
            value: fv(b"application/json"),
            never_indexed,
        });
    }
}

#[test]
fn field_section_prefix_roundtrip() {
    for prefix in [
        FieldSectionPrefix {
            encoded_required_insert_count: 0,
            base_is_negative: false,
            delta_base: 0,
        },
        FieldSectionPrefix {
            encoded_required_insert_count: 5,
            base_is_negative: false,
            delta_base: 0,
        },
        FieldSectionPrefix {
            encoded_required_insert_count: 5,
            base_is_negative: true,
            delta_base: 3,
        },
        FieldSectionPrefix {
            encoded_required_insert_count: 1_000,
            base_is_negative: false,
            delta_base: 500,
        },
    ] {
        let mut buf = Vec::new();
        prefix.encode(&mut buf);
        let (parsed, rest) = FieldSectionPrefix::parse(&buf).unwrap();
        assert!(rest.is_empty());
        assert_eq!(parsed, prefix);
    }
}

#[test]
fn parse_multiple_field_lines() {
    let mut buf = Vec::new();
    FieldLineInstruction::IndexedStatic { index: 25 }.encode(&mut buf);
    FieldLineInstruction::LiteralStaticNameRef {
        name_index: 15,
        value: fv(b"200"),
        never_indexed: false,
    }
    .encode(&mut buf);
    FieldLineInstruction::IndexedDynamic { relative_index: 0 }.encode(&mut buf);

    let (a, rest) = FieldLineInstruction::parse(&buf).unwrap();
    let (b, rest) = FieldLineInstruction::parse(rest).unwrap();
    let (c, rest) = FieldLineInstruction::parse(rest).unwrap();
    assert!(rest.is_empty());
    assert!(a.same_as(&FieldLineInstruction::IndexedStatic { index: 25 }));
    assert!(b.same_as(&FieldLineInstruction::LiteralStaticNameRef {
        name_index: 15,
        value: fv(b"200"),
        never_indexed: false,
    }));
    assert!(c.same_as(&FieldLineInstruction::IndexedDynamic { relative_index: 0 }));
}

#[test]
fn parse_empty_input_is_error() {
    assert!(matches!(
        FieldLineInstruction::parse(&[]),
        Err(QpackError::UnexpectedEnd)
    ));
}

#[test]
fn parse_truncated_string_literal() {
    // LiteralLiteralName with name length 5 but only 2 bytes available after the header.
    let buf = [0x20 | 0x05, 97, 98];
    assert!(matches!(
        FieldLineInstruction::parse(&buf),
        Err(QpackError::UnexpectedEnd)
    ));
}

fn parse_all(bytes: &[u8]) -> (FieldSectionPrefix, Vec<FieldLineInstruction>) {
    let (prefix, mut rest) = FieldSectionPrefix::parse(bytes).expect("prefix parses");
    let mut lines = Vec::new();
    while !rest.is_empty() {
        let (instr, tail) = FieldLineInstruction::parse(rest).expect("field line parses");
        lines.push(instr);
        rest = tail;
    }
    (prefix, lines)
}

fn same_lines(a: &[FieldLineInstruction], b: &[FieldLineInstruction]) -> bool {
    a.len() == b.len() && a.iter().zip(b).all(|(x, y)| x.same_as(y))
}

#[test]
fn b1_literal_with_static_name_ref() {
    // Prefix: RIC=0, Base=0. Field line: Literal With Name Reference, T=1,
    // name_index=1 (`:path`), literal value "/index.html".
    let bytes = [
        0x00, 0x00, 0x51, 0x0b, 0x2f, 0x69, 0x6e, 0x64, 0x65, 0x78, 0x2e, 0x68, 0x74, 0x6d, 0x6c,
    ];
    let (prefix, lines) = parse_all(&bytes);
    assert_eq!(prefix, FieldSectionPrefix::default());
    assert!(same_lines(
        &lines,
        &[FieldLineInstruction::LiteralStaticNameRef {
            name_index: 1,
            value: fv(b"/index.html"),
            never_indexed: false,
        }],
    ));
}

#[test]
fn b2_post_base_indexed_with_negative_base() {
    // Prefix: encoded_ric=3, S=1, delta_base=1 → RIC=2, Base=0.
    // Two post-base indexed entries: post_base_index=0 and post_base_index=1.
    let bytes = [0x03, 0x81, 0x10, 0x11];
    let (prefix, lines) = parse_all(&bytes);
    assert_eq!(
        prefix,
        FieldSectionPrefix {
            encoded_required_insert_count: 3,
            base_is_negative: true,
            delta_base: 1,
        },
    );
    assert!(same_lines(
        &lines,
        &[
            FieldLineInstruction::IndexedPostBase { post_base_index: 0 },
            FieldLineInstruction::IndexedPostBase { post_base_index: 1 },
        ],
    ));
}

#[test]
fn b4_mixed_dynamic_and_static_indexed() {
    // Prefix: encoded_ric=5, S=0, delta_base=0 → RIC=4, Base=4.
    let bytes = [0x05, 0x00, 0x80, 0xc1, 0x81];
    let (prefix, lines) = parse_all(&bytes);
    assert_eq!(
        prefix,
        FieldSectionPrefix {
            encoded_required_insert_count: 5,
            base_is_negative: false,
            delta_base: 0,
        },
    );
    assert!(same_lines(
        &lines,
        &[
            FieldLineInstruction::IndexedDynamic { relative_index: 0 },
            FieldLineInstruction::IndexedStatic { index: 1 },
            FieldLineInstruction::IndexedDynamic { relative_index: 1 },
        ],
    ));
}
