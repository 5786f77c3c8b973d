use qpack::entry_name::EntryName;
use qpack::headers::Headers;
use qpack::http_compat::{
    headers_from_http, headers_from_http_lines, headers_to_http, method_from_http, method_to_http,
    status_from_http, status_to_http, HeaderConversionError,
};
use qpack::static_table::KnownHeaderName;
use qpack::method::Method;
use qpack::status::Status;

#[test]
fn method_round_trip() {
    assert_eq!(method_to_http(Method::Delete).unwrap(), http::Method::DELETE);
    assert_eq!(method_from_http(&http::Method::DELETE).unwrap(), Method::Delete);

    assert_eq!(method_to_http(Method::BaselineControl).unwrap(), "BASELINE-CONTROL");
}

#[test]
fn status_round_trip() {
    assert_eq!(status_to_http(Status::Okay).unwrap(), http::StatusCode::OK);
    assert_eq!(status_from_http(&http::StatusCode::OK).unwrap(), Status::Okay);

    assert_eq!(status_to_http(Status::ImATeapot).unwrap(), 418);
}

#[test]
fn unknown_http_values_have_no_counterpart() {
    let query = http::Method::from_bytes(b"QUERY").unwrap();
    assert_eq!(method_from_http(&query), None);
    let code = http::StatusCode::from_u16(299).unwrap();
    assert_eq!(status_from_http(&code), None);
}

#[test]
fn every_method_and_status_converts_both_ways() {
    for method in Method::all() {
        let converted = method_to_http(method).unwrap();
        assert_eq!(converted.as_str(), method.as_str());
        assert_eq!(method_from_http(&converted), Some(method));
    }
    for code in 100..=599u16 {
        if let Some(status) = Status::from_code(code) {
            let converted = status_to_http(status).unwrap();
            assert_eq!(converted.as_u16(), code);
            assert_eq!(status_from_http(&converted), Some(status));
        }
    }
}

#[test]
fn status_codes_render_and_parse() {
    assert_eq!(Status::Okay.code(), b"200".to_vec());
    assert_eq!(Status::parse(b"404"), Some(Status::NotFound));
    assert_eq!(Status::parse(b"+200"), Some(Status::Okay));
    assert_eq!(Status::parse(b"0200"), Some(Status::Okay));
    assert_eq!(Status::parse(b"+"), None);
    assert_eq!(Status::parse(b""), None);
    assert_eq!(Status::parse(b"-200"), None);
    assert_eq!(Status::parse(b"70000"), None);
    assert_eq!(Status::parse(b"299"), None);
    assert_eq!(Method::parse(b"GET"), Some(Method::Get));
    assert_eq!(Method::parse(b"get"), None);
}

fn values_of<'a>(headers: &'a Headers, name: &EntryName) -> Vec<Vec<u8>> {
    headers.get_values(name).cloned().unwrap_or_default()
}

#[test]
fn headers_round_trip() {
    let mut trillium_headers = Headers::new();
    trillium_headers.append(EntryName::Known(KnownHeaderName::Host), b"foo.bar".to_vec());
    trillium_headers.append(EntryName::Known(KnownHeaderName::Cookie), b"cookie 1".to_vec());
    trillium_headers.append(EntryName::Known(KnownHeaderName::Cookie), b"cookie 2".to_vec());

    let http_header_map = headers_to_http(&trillium_headers).unwrap();
    assert_eq!(http_header_map.get(http::header::HOST).unwrap(), "foo.bar");
    assert_eq!(
        http_header_map.get_all(http::header::COOKIE).into_iter().collect::<Vec<_>>(),
        vec!["cookie 1", "cookie 2"]
    );

    let new_trillium_headers = headers_from_http(http_header_map);
    assert_eq!(new_trillium_headers, trillium_headers);
    assert_eq!(new_trillium_headers.len(), 2);
    assert_eq!(values_of(&new_trillium_headers, &EntryName::Known(KnownHeaderName::Host)), vec![b"foo.bar".to_vec()]);
    assert_eq!(
        values_of(&new_trillium_headers, &EntryName::Known(KnownHeaderName::Cookie)),
        vec![b"cookie 1".to_vec(), b"cookie 2".to_vec()]
    );
}

#[test]
fn header_value_with_a_control_byte_is_refused() {
    let mut headers = Headers::new();
    headers.append(EntryName::Known(KnownHeaderName::Host), b"bad\x01value".to_vec());
    assert!(matches!(headers_to_http(&headers), Err(HeaderConversionError::InvalidHeaderValue(_))));
}

#[test]
fn header_name_that_is_not_a_token_is_refused() {
    let mut headers = Headers::new();
    headers.append(EntryName::Unknown(b"bad name".to_vec()), b"v".to_vec());
    assert!(matches!(headers_to_http(&headers), Err(HeaderConversionError::InvalidHeaderName(_))));
}

#[test]
fn lines_without_a_name_continue_the_previous_name() {
    let lines = vec![
        (Some(b"x-custom".to_vec()), b"1".to_vec()),
        (None, b"2".to_vec()),
        (Some(b"Content-Type".to_vec()), b"text/plain".to_vec()),
    ];
    let headers = headers_from_http_lines(lines);
    assert_eq!(headers.len(), 2);
    assert_eq!(values_of(&headers, &EntryName::Unknown(b"x-custom".to_vec())), vec![b"1".to_vec(), b"2".to_vec()]);
    assert_eq!(values_of(&headers, &EntryName::Known(KnownHeaderName::ContentType)), vec![b"text/plain".to_vec()]);
}

#[test]
fn headers_to_http_lowercases_names_and_keeps_order() {
    let mut headers = Headers::new();
    headers.append(EntryName::Unknown(b"X-Trace".to_vec()), b"a".to_vec());
    headers.append(EntryName::Known(KnownHeaderName::Host), b"h".to_vec());
    headers.append(EntryName::Unknown(b"X-Trace".to_vec()), b"b".to_vec());
    let map = headers_to_http(&headers).unwrap();
    let items: Vec<(Option<String>, Vec<u8>)> = map
        .into_iter()
        .map(|(n, v)| (n.map(|n| n.as_str().to_string()), v.as_bytes().to_vec()))
        .collect();
    assert_eq!(
        items,
        vec![
            (Some("x-trace".to_string()), b"a".to_vec()),
            (None, b"b".to_vec()),
            (Some("host".to_string()), b"h".to_vec()),
        ]
    );
}

#[test]
fn replacing_values_drops_their_never_indexed_marks() {
    let mut headers = Headers::new();
    headers.append_marked(EntryName::Unknown(b"x-secret".to_vec()), b"1".to_vec(), true);
    headers.append_marked(EntryName::Unknown(b"x-secret".to_vec()), b"2".to_vec(), true);
    assert_eq!(headers.never_indexed().len(), 2);
    assert_eq!(headers.never_indexed()[1].1, 1);
    headers.insert(EntryName::Unknown(b"x-secret".to_vec()), b"3".to_vec());
    assert!(headers.never_indexed().is_empty());
}

#[test]
fn many_distinct_names_still_convert() {
    let mut headers = Headers::new();
    for i in 0..6000 {
        headers.append(EntryName::Unknown(format!("x-h{i}").into_bytes()), b"v".to_vec());
    }
    let map = headers_to_http(&headers).unwrap();
    assert_eq!(map.keys_len(), 6000);
}
