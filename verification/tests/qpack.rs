use qpack::decoder::DecoderError;
use qpack::entry_name::EntryName;
use qpack::headers::{FieldSection, Headers, PseudoHeaders};
use qpack::method::Method;
use qpack::static_table::KnownHeaderName;
use qpack::status::Status;

fn roundtrip(pseudo_headers: PseudoHeaders, headers: Headers) -> (PseudoHeaders, Headers) {
    let mut buf = Vec::new();
    FieldSection::new(pseudo_headers, headers).encode(&mut buf);
    FieldSection::decode(&buf).expect("decode failed").into_parts()
}

fn decode(buf: &[u8]) -> Result<FieldSection, DecoderError> {
    FieldSection::decode(buf)
}

fn known(name: KnownHeaderName) -> EntryName {
    EntryName::Known(name)
}

fn named(name: &str) -> EntryName {
    EntryName::from_wire(name.as_bytes()).unwrap()
}

fn get_str(headers: &Headers, name: &EntryName) -> Option<String> {
    headers
        .get_values(name)
        .map(|values| String::from_utf8(values[0].clone()).unwrap())
}

#[test]
fn roundtrip_all_static_matches() {
    let mut headers = Headers::new();
    headers.insert(known(KnownHeaderName::AcceptEncoding), b"gzip, deflate, br".to_vec());

    let (pseudos, decoded_headers) = roundtrip(
        PseudoHeaders {
            method: Some(Method::Get),
            path: Some("/".to_string()),
            scheme: Some("https".to_string()),
            ..PseudoHeaders::default()
        },
        headers,
    );

    assert_eq!(pseudos.method, Some(Method::Get));
    assert_eq!(pseudos.path.as_deref(), Some("/"));
    assert_eq!(pseudos.scheme.as_deref(), Some("https"));
    assert_eq!(
        get_str(&decoded_headers, &known(KnownHeaderName::AcceptEncoding)).as_deref(),
        Some("gzip, deflate, br"),
    );
}

#[test]
fn roundtrip_name_ref_with_custom_value() {
    let mut headers = Headers::new();
    headers.insert(known(KnownHeaderName::ContentType), b"application/xml".to_vec());
    headers.insert(known(KnownHeaderName::Server), b"trillium".to_vec());

    let (pseudos, decoded_headers) = roundtrip(
        PseudoHeaders {
            status: Some(Status::Okay),
            ..PseudoHeaders::default()
        },
        headers,
    );

    assert_eq!(pseudos.status, Some(Status::Okay));
    assert_eq!(
        get_str(&decoded_headers, &known(KnownHeaderName::ContentType)).as_deref(),
        Some("application/xml"),
    );
    assert_eq!(
        get_str(&decoded_headers, &known(KnownHeaderName::Server)).as_deref(),
        Some("trillium"),
    );
}

#[test]
fn roundtrip_literal_name_and_value() {
    let mut headers = Headers::new();
    headers.insert(named("x-custom-header"), b"custom-value".to_vec());

    let (pseudos, decoded_headers) = roundtrip(
        PseudoHeaders {
            method: Some(Method::Post),
            ..PseudoHeaders::default()
        },
        headers,
    );

    assert_eq!(pseudos.method, Some(Method::Post));
    assert_eq!(
        get_str(&decoded_headers, &named("x-custom-header")).as_deref(),
        Some("custom-value"),
    );
}

#[test]
fn roundtrip_mixed() {
    let mut headers = Headers::new();
    headers.insert(known(KnownHeaderName::AcceptRanges), b"bytes".to_vec());
    headers.insert(known(KnownHeaderName::CacheControl), b"private".to_vec());
    headers.insert(named("x-request-id"), b"abc-123".to_vec());

    let (pseudos, decoded_headers) = roundtrip(
        PseudoHeaders {
            method: Some(Method::Get),
            path: Some("/".to_string()),
            authority: Some("example.com".to_string()),
            ..PseudoHeaders::default()
        },
        headers,
    );

    assert_eq!(pseudos.method, Some(Method::Get));
    assert_eq!(pseudos.path.as_deref(), Some("/"));
    assert_eq!(pseudos.authority.as_deref(), Some("example.com"));
    assert_eq!(
        get_str(&decoded_headers, &known(KnownHeaderName::AcceptRanges)).as_deref(),
        Some("bytes"),
    );
    assert_eq!(
        get_str(&decoded_headers, &known(KnownHeaderName::CacheControl)).as_deref(),
        Some("private"),
    );
    assert_eq!(
        get_str(&decoded_headers, &named("x-request-id")).as_deref(),
        Some("abc-123"),
    );
}

// RFC 9204 §B.1 — Literal Field Line with Name Reference
// :path = /index.html (name ref to static table index 1, no huffman)
#[test]
fn rfc9204_b1_decode() {
    let bytes = &[
        0x00, 0x00, // prefix: required insert count=0, delta base=0
        0x51, 0x0b, 0x2f, 0x69, 0x6e, 0x64, 0x65, 0x78, 0x2e, 0x68, 0x74, 0x6d, 0x6c,
    ];

    let (pseudos, headers) = decode(bytes).expect("decode failed").into_parts();
    assert_eq!(pseudos.path.as_deref(), Some("/index.html"));
    assert!(headers.is_empty());

    // Verify round-trip through our encoder
    let (pseudos2, _) = roundtrip(
        PseudoHeaders {
            path: Some("/index.html".to_string()),
            ..PseudoHeaders::default()
        },
        Headers::new(),
    );
    assert_eq!(pseudos2.path.as_deref(), Some("/index.html"));
}

#[test]
fn roundtrip_all_static_table_methods() {
    for method in [
        Method::Connect,
        Method::Delete,
        Method::Get,
        Method::Head,
        Method::Options,
        Method::Post,
        Method::Put,
    ] {
        let (pseudos, _) = roundtrip(
            PseudoHeaders {
                method: Some(method),
                ..PseudoHeaders::default()
            },
            Headers::new(),
        );
        assert_eq!(pseudos.method, Some(method), "method {method:?}");
    }
}

#[test]
fn roundtrip_non_standard_method() {
    let (pseudos, _) = roundtrip(
        PseudoHeaders {
            method: Some(Method::Patch),
            ..PseudoHeaders::default()
        },
        Headers::new(),
    );
    assert_eq!(pseudos.method, Some(Method::Patch));
}

#[test]
fn roundtrip_all_static_table_statuses() {
    for status in [
        Status::Continue,
        Status::EarlyHints,
        Status::Okay,
        Status::NoContent,
        Status::PartialContent,
        Status::Found,
        Status::NotModified,
        Status::BadRequest,
        Status::Forbidden,
        Status::NotFound,
        Status::MisdirectedRequest,
        Status::TooEarly,
        Status::InternalServerError,
        Status::ServiceUnavailable,
    ] {
        let (pseudos, _) = roundtrip(
            PseudoHeaders {
                status: Some(status),
                ..PseudoHeaders::default()
            },
            Headers::new(),
        );
        assert_eq!(pseudos.status, Some(status), "status {status:?}");
    }
}

#[test]
fn roundtrip_non_standard_status() {
    let (pseudos, _) = roundtrip(
        PseudoHeaders {
            status: Some(Status::ImATeapot),
            ..PseudoHeaders::default()
        },
        Headers::new(),
    );
    assert_eq!(pseudos.status, Some(Status::ImATeapot));
}

#[test]
fn roundtrip_empty_header_value() {
    let mut headers = Headers::new();
    headers.insert(known(KnownHeaderName::Server), Vec::new());
    let (_, decoded) = roundtrip(PseudoHeaders::default(), headers);
    assert_eq!(get_str(&decoded, &known(KnownHeaderName::Server)).as_deref(), Some(""));
}

#[test]
fn roundtrip_long_header_value() {
    let long_value = "x".repeat(300);
    let mut headers = Headers::new();
    headers.insert(named("x-long"), long_value.clone().into_bytes());
    let (_, decoded) = roundtrip(PseudoHeaders::default(), headers);
    assert_eq!(get_str(&decoded, &named("x-long")).as_deref(), Some(long_value.as_str()));
}

// --- Decoder error path tests ---

#[test]
fn tests_decode_empty_input() {
    assert!(decode(&[]).is_err());
}

#[test]
fn decode_truncated_prefix() {
    assert!(decode(&[0x00]).is_err());
}

#[test]
fn decode_nonzero_required_insert_count() {
    assert!(decode(&[0x01, 0x00]).is_err());
}

#[test]
fn decode_dynamic_table_indexed() {
    assert!(decode(&[0x00, 0x00, 0x10]).is_err());
}

#[test]
fn decode_dynamic_table_name_ref() {
    assert!(decode(&[0x00, 0x00, 0x00]).is_err());
}

#[test]
fn decode_static_index_out_of_range() {
    let buf = vec![0x00, 0x00, 0xFF, 0x24];
    assert!(decode(&buf).is_err());
}

#[test]
fn decode_truncated_string_value() {
    let buf = vec![
        0x00, 0x00, // prefix
        0x51, // literal with name ref, static, index 1
        0x05, // string length 5, no huffman
        0x2f, 0x61, // only 2 bytes of the promised 5
    ];
    assert!(decode(&buf).is_err());
}

// --- Each error, with the input that gives it ---

#[test]
fn decode_errors_are_the_documented_ones() {
    assert!(matches!(decode(&[]), Err(DecoderError::VarInt(_))));
    assert!(matches!(decode(&[0x01, 0x00]), Err(DecoderError::NonZeroInsertCount)));
    assert!(matches!(decode(&[0x00, 0x00, 0x10]), Err(DecoderError::DynamicTableUnsupported)));
    assert!(matches!(decode(&[0x00, 0x00, 0x80]), Err(DecoderError::DynamicTableUnsupported)));
    assert!(matches!(decode(&[0x00, 0x00, 0x40, 0x00]), Err(DecoderError::DynamicTableUnsupported)));
    assert!(matches!(decode(&[0x00, 0x00, 0xFF, 0x24]), Err(DecoderError::InvalidStaticIndex(99))));
    assert!(matches!(
        decode(&[0x00, 0x00, 0x51, 0x05, 0x2f, 0x61]),
        Err(DecoderError::UnexpectedEnd)
    ));
    // :method (static 15) with a value that is no method.
    assert!(matches!(
        decode(&[0x00, 0x00, 0x5f, 0x00, 0x03, 0x46, 0x4f, 0x4f]),
        Err(DecoderError::UnrecognizedMethod)
    ));
    // :status (static 24) with a value that is no status.
    assert!(matches!(
        decode(&[0x00, 0x00, 0x5f, 0x09, 0x03, 0x39, 0x39, 0x39]),
        Err(DecoderError::InvalidStatus)
    ));
    // :path (static 1) with bytes that are not UTF-8.
    assert!(matches!(
        decode(&[0x00, 0x00, 0x51, 0x01, 0xff]),
        Err(DecoderError::InvalidHeaderValue)
    ));
    // A literal name that is no token.
    assert!(matches!(
        decode(&[0x00, 0x00, 0x22, 0x61, 0x20, 0x00]),
        Err(DecoderError::InvalidHeaderName)
    ));
    // A Huffman string with bad padding (a full zero byte).
    assert!(matches!(
        decode(&[0x00, 0x00, 0x51, 0x81, 0x00]),
        Err(DecoderError::Huffman(_))
    ));
}

#[test]
fn decode_first_pseudo_header_wins() {
    // :method GET (17) then :method POST (20), :path / (1) twice.
    let (pseudos, _) = decode(&[0x00, 0x00, 0xd1, 0xd4, 0xc1, 0xc1]).unwrap().into_parts();
    assert_eq!(pseudos.method, Some(Method::Get));
    assert_eq!(pseudos.path.as_deref(), Some("/"));
}

#[test]
fn decode_repeated_header_appends_values() {
    // accept-ranges: bytes (32), then cache-control: private (41)... as literal under
    // static name 36 with value "a", then again under 36 with "b".
    let (_, headers) = decode(&[0x00, 0x00, 0xe0, 0x5f, 0x15, 0x01, 0x61, 0x5f, 0x15, 0x01, 0x62])
        .unwrap()
        .into_parts();
    assert_eq!(headers.len(), 2);
    let values = headers.get_values(&known(KnownHeaderName::CacheControl)).unwrap();
    assert_eq!(values, &vec![b"a".to_vec(), b"b".to_vec()]);
}

#[test]
fn literal_names_are_read_case_insensitively() {
    // Literal name "X-A" (3 bytes, raw) with value "1".
    let (_, headers) = decode(&[0x00, 0x00, 0x23, 0x58, 0x2d, 0x41, 0x01, 0x31])
        .unwrap()
        .into_parts();
    assert_eq!(get_str(&headers, &named("x-a")).as_deref(), Some("1"));
    // A known name written in capitals reads as the known name.
    let (_, headers) = decode(&[0x00, 0x00, 0x24, 0x48, 0x4f, 0x53, 0x54, 0x01, 0x68])
        .unwrap()
        .into_parts();
    assert_eq!(get_str(&headers, &known(KnownHeaderName::Host)).as_deref(), Some("h"));
}

#[test]
fn encode_uses_static_entries_exactly() {
    let mut buf = Vec::new();
    let pseudos = PseudoHeaders {
        method: Some(Method::Get),
        path: Some("/".to_string()),
        ..PseudoHeaders::default()
    };
    FieldSection::new(pseudos, Headers::new()).encode(&mut buf);
    assert_eq!(buf, vec![0x00, 0x00, 0xd1, 0xc1]);
    // A method without a static entry goes out as :method with a literal value.
    let mut buf = Vec::new();
    let pseudos = PseudoHeaders {
        method: Some(Method::Patch),
        ..PseudoHeaders::default()
    };
    FieldSection::new(pseudos, Headers::new()).encode(&mut buf);
    assert_eq!(buf, vec![0x00, 0x00, 0x5f, 0x00, 0x05, 0x50, 0x41, 0x54, 0x43, 0x48]);
}

#[test]
fn roundtrip_reads_unknown_names_back_in_lowercase() {
    let mut headers = Headers::new();
    headers.append(EntryName::Unknown(b"X-Custom".to_vec()), b"a".to_vec());
    headers.append(EntryName::Unknown(b"X-Custom".to_vec()), b"b".to_vec());
    headers.append(known(KnownHeaderName::Host), b"example.com".to_vec());
    let (_, decoded) = roundtrip(PseudoHeaders::default(), headers);
    let mut expected = Headers::new();
    expected.append(named("x-custom"), b"a".to_vec());
    expected.append(named("x-custom"), b"b".to_vec());
    expected.append(known(KnownHeaderName::Host), b"example.com".to_vec());
    assert_eq!(decoded, expected);
}

#[test]
fn roundtrip_gives_back_the_same_headers() {
    let mut headers = Headers::new();
    headers.append(known(KnownHeaderName::AcceptEncoding), b"gzip".to_vec());
    headers.append(named("x-trace"), b"1".to_vec());
    headers.append(known(KnownHeaderName::AcceptEncoding), b"br".to_vec());
    let mut expected = Headers::new();
    expected.append(known(KnownHeaderName::AcceptEncoding), b"gzip".to_vec());
    expected.append(named("x-trace"), b"1".to_vec());
    expected.append(known(KnownHeaderName::AcceptEncoding), b"br".to_vec());
    let (_, decoded) = roundtrip(PseudoHeaders::default(), headers);
    assert_eq!(decoded, expected);
}
