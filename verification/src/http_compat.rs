//! Conversion between this library's methods and statuses and those of the [`http`] crate.
use vstd::prelude::*;
use vstd::string::StringSliceAdditionalSpecFns;
use crate::decoder::{header_name_from_text, parse_header_name};
use crate::entry_name::{name_bytes, EntryName, EntryNameView};
use crate::header_name::{lowercase, valid_name};
use crate::headers::{headers_append, headers_wf, values_view, Headers, HeadersView};
use crate::method::{method_bytes, method_with_bytes, Method};
use crate::status::{status_code, status_with_code, Status};
use http::header::HeaderName as HttpHeaderName;
use http::header::HeaderValue as HttpHeaderValue;
use http::header::InvalidHeaderName;
use http::header::InvalidHeaderValue;
use http::header::MaxSizeReached;
use http::HeaderMap as HttpHeaderMap;
use http::Method as HttpMethod;
use http::StatusCode as HttpStatusCode;

verus! {

#[verifier::external_type_specification]
#[verifier::external_body]
pub struct ExHttpMethod(HttpMethod);

#[verifier::external_type_specification]
#[verifier::external_body]
pub struct ExHttpStatusCode(HttpStatusCode);

/// The name an `http` method carries: the bytes `http::Method::as_str` gives back.
pub uninterp spec fn http_method_name(method: HttpMethod) -> Seq<u8>;

/// `http::Method::from_bytes`: a method for any non-empty string of token characters
/// (RFC 9110 §9.1), nothing for anything else. The method carries exactly the bytes it
/// was made from (a standard method's name is those bytes; an extension keeps them).
#[verifier::external_body]
fn http_method_from_bytes(bytes: &[u8]) -> (method: Option<HttpMethod>)
    ensures
        method is Some <==> valid_name(bytes@),
        method matches Some(m) ==> http_method_name(m) == bytes@,
{
    HttpMethod::from_bytes(bytes).ok()
}

/// `http::Method::as_str`: the method's name.
#[verifier::external_body]
fn http_method_text(method: &HttpMethod) -> (text: &str)
    ensures
        text.spec_bytes() == http_method_name(*method),
{
    method.as_str()
}

/// The number an `http` status code carries: what `http::StatusCode::as_u16` gives back.
pub uninterp spec fn http_status_number(status: HttpStatusCode) -> u16;

/// `http::StatusCode::from_u16`: a status code carrying the number for the numbers 100 to
/// 999, nothing for anything else.
#[verifier::external_body]
fn http_status_from_u16(code: u16) -> (status: Option<HttpStatusCode>)
    ensures
        status is Some <==> 100 <= code <= 999,
        status matches Some(s) ==> http_status_number(s) == code,
{
    HttpStatusCode::from_u16(code).ok()
}

/// `http::StatusCode::as_u16`: the number of a status code.
#[verifier::external_body]
fn http_status_code_number(status: &HttpStatusCode) -> (code: u16)
    ensures
        code == http_status_number(*status),
{
    status.as_u16()
}

/// Every method's name is a token.
proof fn lemma_method_names_are_tokens(method: Method)
    ensures
        valid_name(method_bytes(method)),
{
}

/// The `http` method with this method's name. Every method has one.
pub fn method_to_http(method: Method) -> (converted: Option<HttpMethod>)
    ensures
        converted matches Some(m) && http_method_name(m) == method_bytes(method),
{
    proof {
        lemma_method_names_are_tokens(method);
    }
    http_method_from_bytes(method.as_str().as_bytes())
}

/// The method named as the `http` method is, if this library knows it (method names are
/// matched exactly).
pub fn method_from_http(method: &HttpMethod) -> (converted: Option<Method>)
    ensures
        converted == method_with_bytes(http_method_name(*method), 0),
{
    Method::parse(http_method_text(method).as_bytes())
}

/// The `http` status code with this status's number. Every status has one.
pub fn status_to_http(status: Status) -> (converted: Option<HttpStatusCode>)
    ensures
        converted matches Some(s) && http_status_number(s) == status_code(status),
{
    proof {
        crate::status::lemma_status_code_roundtrip(status);
    }
    http_status_from_u16(status.as_u16())
}

/// The status with the `http` status code's number, if this library knows it.
pub fn status_from_http(status: &HttpStatusCode) -> (converted: Option<Status>)
    ensures
        converted == status_with_code(http_status_number(*status)),
{
    Status::from_code(http_status_code_number(status))
}

/// A method carried over to `http` and back is the same method; so is a status.
pub proof fn lemma_http_roundtrip(method: Method, status: Status, http_method: HttpMethod, http_status: HttpStatusCode)
    requires
        http_method_name(http_method) == method_bytes(method),
        http_status_number(http_status) == status_code(status),
    ensures
        method_with_bytes(http_method_name(http_method), 0) == Some(method),
        status_with_code(http_status_number(http_status)) == Some(status),
{
    crate::method::lemma_method_bytes_roundtrip(method);
    crate::status::lemma_status_code_roundtrip(status);
}

#[verifier::external_type_specification]
#[verifier::external_body]
pub struct ExHttpHeaderName(HttpHeaderName);

#[verifier::external_type_specification]
#[verifier::external_body]
pub struct ExHttpHeaderValue(HttpHeaderValue);

#[verifier::external_type_specification]
#[verifier::external_body]
pub struct ExInvalidHeaderName(InvalidHeaderName);

#[verifier::external_type_specification]
#[verifier::external_body]
pub struct ExInvalidHeaderValue(InvalidHeaderValue);

#[verifier::external_type_specification]
#[verifier::external_body]
pub struct ExMaxSizeReached(MaxSizeReached);

#[verifier::external_type_specification]
#[verifier::external_body]
#[verifier::reject_recursive_types(T)]
pub struct ExHttpHeaderMap<T>(HttpHeaderMap<T>);

/// A failure to carry [`Headers`] over to an `http` header map.
#[derive(Debug)]
pub enum HeaderConversionError {
    /// A name is not a valid `http` header name.
    InvalidHeaderName(InvalidHeaderName),
    /// A value is not a valid `http` header value.
    InvalidHeaderValue(InvalidHeaderValue),
    /// The `http` header map holds as many names as it can.
    MaxSizeReached(MaxSizeReached),
}

/// The bytes `http` accepts in a header value: visible bytes and the ones above 127,
/// space and horizontal tab; not the other controls or DEL.
pub open spec fn http_value_byte(b: u8) -> bool {
    (b >= 32 && b != 127) || b == 9
}

/// A value `http` accepts.
pub open spec fn http_value_ok(value: Seq<u8>) -> bool {
    forall|i: int| 0 <= i < value.len() ==> http_value_byte(#[trigger] value[i])
}

/// A name `http` accepts: a non-empty token of at most 65535 bytes.
pub open spec fn http_name_ok(name: Seq<u8>) -> bool {
    valid_name(name) && name.len() <= 65535
}

/// The bytes an `http` header name carries: what `http::header::HeaderName::as_str` gives.
pub uninterp spec fn http_header_name_bytes(name: HttpHeaderName) -> Seq<u8>;

/// The bytes an `http` header value carries: what `http::header::HeaderValue::as_bytes`
/// gives.
pub uninterp spec fn http_header_value_bytes(value: HttpHeaderValue) -> Seq<u8>;

/// `http::header::HeaderName::from_bytes`: a header name for a non-empty token of at
/// most 65535 bytes, an error for anything else. The name carries the bytes it was made
/// from, lowercased.
#[verifier::external_body]
fn http_header_name_from_bytes(bytes: &[u8]) -> (name: Result<HttpHeaderName, InvalidHeaderName>)
    ensures
        name is Ok <==> http_name_ok(bytes@),
        name matches Ok(n) ==> http_header_name_bytes(n) == lowercase(bytes@),
{
    HttpHeaderName::from_bytes(bytes)
}

/// `http::header::HeaderValue::from_bytes`: a header value when every byte is
/// [`http_value_byte`], an error otherwise. The value carries exactly those bytes.
#[verifier::external_body]
fn http_header_value_from_bytes(bytes: &[u8]) -> (value: Result<HttpHeaderValue, InvalidHeaderValue>)
    ensures
        value is Ok <==> http_value_ok(bytes@),
        value matches Ok(v) ==> http_header_value_bytes(v) == bytes@,
{
    HttpHeaderValue::from_bytes(bytes)
}

/// `Clone::clone` of an `http` header name: a name with the same bytes.
#[verifier::external_body]
fn http_header_name_clone(name: &HttpHeaderName) -> (copy: HttpHeaderName)
    ensures
        http_header_name_bytes(copy) == http_header_name_bytes(*name),
{
    name.clone()
}

/// `http::HeaderMap::default`: a map with no items.
#[verifier::external_body]
fn http_header_map_default() -> (map: HttpHeaderMap<HttpHeaderValue>)
    ensures
        http_map_items(map) == Seq::<(Option<Seq<u8>>, Seq<u8>)>::empty(),
{
    HttpHeaderMap::default()
}

/// Where an item with no name of its own stops belonging to the name before it: the first
/// position from `j` on that starts a name, or the end.
pub open spec fn http_group_end(items: Seq<(Option<Seq<u8>>, Seq<u8>)>, j: int) -> int
    decreases items.len() - j,
{
    if j >= items.len() {
        items.len() as int
    } else if items[j].0 is Some {
        j
    } else {
        http_group_end(items, j + 1)
    }
}

/// The items of a map after a value is appended under a name: right after the name's last
/// value when the map holds the name, as a new name at the end otherwise.
pub open spec fn http_items_append(
    items: Seq<(Option<Seq<u8>>, Seq<u8>)>,
    name: Seq<u8>,
    value: Seq<u8>,
) -> Seq<(Option<Seq<u8>>, Seq<u8>)> {
    if exists|i: int| 0 <= i < items.len() && (#[trigger] items[i]).0 == Some(name) {
        let i = choose|i: int| 0 <= i < items.len() && (#[trigger] items[i]).0 == Some(name);
        items.insert(http_group_end(items, i + 1), (None, value))
    } else {
        items.push((Some(name), value))
    }
}

/// How many names a map's items hold: the items that carry a name.
pub open spec fn http_name_count(items: Seq<(Option<Seq<u8>>, Seq<u8>)>) -> nat
    decreases items.len(),
{
    if items.len() == 0 {
        0
    } else {
        http_name_count(items.drop_last()) + if items.last().0 is Some {
            1nat
        } else {
            0nat
        }
    }
}

/// The fewest names at which an `http` header map may refuse another value: its table of
/// at most 32768 slots grows when it is a fifth full on a run of collisions, or three
/// quarters full otherwise.
pub open spec fn http_map_name_limit() -> nat {
    6554
}

/// `http::HeaderMap::try_append`: appends the value under the name (after the name's
/// values when the map holds it, as a new name at the end otherwise), or refuses when the
/// map cannot grow its table, leaving its items as they were. It does not refuse while the
/// map holds fewer than [`http_map_name_limit`] names; which larger maps refuse rests on
/// the map's inner hash table and is not stated.
#[verifier::external_body]
fn http_header_map_append(
    map: &mut HttpHeaderMap<HttpHeaderValue>,
    name: HttpHeaderName,
    value: HttpHeaderValue,
) -> (appended: Result<bool, MaxSizeReached>)
    ensures
        http_name_count(http_map_items(*old(map))) < http_map_name_limit() ==> appended is Ok,
        appended is Ok ==> http_map_items(*final(map)) == http_items_append(
            http_map_items(*old(map)),
            http_header_name_bytes(name),
            http_header_value_bytes(value),
        ),
        appended is Err ==> http_map_items(*final(map)) == http_map_items(*old(map)),
{
    map.try_append(name, value)
}

/// The items an `http` header map yields, in its own order (each name's values together,
/// names in the order they entered the map): the bytes of the name, present on the first
/// value of a name only, and of the value.
pub uninterp spec fn http_map_items(map: HttpHeaderMap<HttpHeaderValue>) -> Seq<(Option<Seq<u8>>, Seq<u8>)>;

/// `IntoIterator::into_iter` of an `http` header map, each item given as the bytes of its
/// name and of its value: the map's items, in the order it yields them.
#[verifier::external_body]
fn http_header_map_lines(map: HttpHeaderMap<HttpHeaderValue>) -> (lines: Vec<(Option<Vec<u8>>, Vec<u8>)>)
    ensures
        http_lines_view(lines@) == http_map_items(map),
{
    map.into_iter().map(|(name, value)| (name.map(|n| n.as_str().as_bytes().to_vec()), value.as_bytes().to_vec())).collect()
}

/// Which check fails first when headers are carried over to `http`, names and values
/// in order, a name before its values: `Some(true)` for a name, `Some(false)` for a
/// value, `None` when none does.
pub open spec fn first_conversion_failure(headers: HeadersView, from: int) -> Option<bool>
    decreases headers.len() - from,
{
    if from < 0 || from >= headers.len() {
        None
    } else if !http_name_ok(name_bytes(headers[from].0)) {
        Some(true)
    } else if exists|j: int| 0 <= j < headers[from].1.len() && !http_value_ok(#[trigger] headers[from].1[j]) {
        Some(false)
    } else {
        first_conversion_failure(headers, from + 1)
    }
}

proof fn lemma_name_count_insert_nameless(
    items: Seq<(Option<Seq<u8>>, Seq<u8>)>,
    p: int,
    value: Seq<u8>,
)
    requires
        0 <= p <= items.len(),
    ensures
        http_name_count(items.insert(p, (None, value))) == http_name_count(items),
    decreases items.len(),
{
    let grown = items.insert(p, (None, value));
    if p == items.len() {
        assert(grown.drop_last() =~= items);
    } else {
        let init = items.drop_last();
        lemma_name_count_insert_nameless(init, p, value);
        assert(grown.drop_last() =~= init.insert(p, (None, value)));
        assert(grown.last() == items.last());
    }
}

proof fn lemma_group_end_bounds(items: Seq<(Option<Seq<u8>>, Seq<u8>)>, j: int)
    requires
        0 <= j <= items.len(),
    ensures
        j <= http_group_end(items, j) <= items.len(),
    decreases items.len() - j,
{
    if j < items.len() && items[j].0 is None {
        lemma_group_end_bounds(items, j + 1);
    }
}

/// Appending a value adds a name only when the map did not hold it, and the map holds the
/// name afterwards.
proof fn lemma_items_append_names(items: Seq<(Option<Seq<u8>>, Seq<u8>)>, name: Seq<u8>, value: Seq<u8>)
    ensures
        http_name_count(http_items_append(items, name, value)) <= http_name_count(items) + 1,
        (exists|i: int| 0 <= i < items.len() && (#[trigger] items[i]).0 == Some(name)) ==> http_name_count(
            http_items_append(items, name, value),
        ) == http_name_count(items),
        exists|i: int|
            0 <= i < http_items_append(items, name, value).len() && (#[trigger] http_items_append(
                items,
                name,
                value,
            )[i]).0 == Some(name),
{
    let after = http_items_append(items, name, value);
    if exists|i: int| 0 <= i < items.len() && (#[trigger] items[i]).0 == Some(name) {
        let i = choose|i: int| 0 <= i < items.len() && (#[trigger] items[i]).0 == Some(name);
        let p = http_group_end(items, i + 1);
        lemma_group_end_bounds(items, i + 1);
        lemma_name_count_insert_nameless(items, p, value);
        assert(after[i] == items[i]);
    } else {
        assert(after.drop_last() =~= items);
        assert(after[items.len() as int].0 == Some(name));
    }
}

/// The items of a map after each value is appended under the name, in order.
pub open spec fn http_values_appended(
    items: Seq<(Option<Seq<u8>>, Seq<u8>)>,
    name: Seq<u8>,
    values: Seq<Seq<u8>>,
) -> Seq<(Option<Seq<u8>>, Seq<u8>)>
    decreases values.len(),
{
    if values.len() == 0 {
        items
    } else {
        http_items_append(
            http_values_appended(items, name, values.drop_last()),
            name,
            values.last(),
        )
    }
}

/// The items of the `http` map that holds the headers: starting from no items, each name
/// in order, lowercased, with each of its values appended under it.
pub open spec fn http_headers_items(headers: HeadersView) -> Seq<(Option<Seq<u8>>, Seq<u8>)>
    decreases headers.len(),
{
    if headers.len() == 0 {
        Seq::empty()
    } else {
        http_values_appended(
            http_headers_items(headers.drop_last()),
            lowercase(name_bytes(headers.last().0)),
            headers.last().1,
        )
    }
}

/// Carry headers over to an `http` header map, each name with its values in order.
/// Refused with the first name or value `http` does not accept, or, before that, when the
/// map can take no more names.
pub fn headers_to_http(headers: &Headers) -> (result: Result<HttpHeaderMap<HttpHeaderValue>, HeaderConversionError>)
    requires
        headers.wf(),
    ensures
        match first_conversion_failure(headers@, 0) {
            None => result is Ok || result matches Err(HeaderConversionError::MaxSizeReached(_)),
            Some(true) => result matches Err(HeaderConversionError::InvalidHeaderName(_))
                || result matches Err(HeaderConversionError::MaxSizeReached(_)),
            Some(false) => result matches Err(HeaderConversionError::InvalidHeaderValue(_))
                || result matches Err(HeaderConversionError::MaxSizeReached(_)),
        },
        result matches Err(HeaderConversionError::MaxSizeReached(_)) ==> headers@.len()
            >= http_map_name_limit(),
        result matches Ok(map) ==> http_map_items(map) == http_headers_items(headers@),
{
    let mut map = http_header_map_default();
    let mut i: usize = 0;
    assert(headers@.take(0) =~= Seq::<(EntryNameView, Seq<Seq<u8>>)>::empty());
    while i < headers.len()
        invariant
            i <= headers@.len(),
            first_conversion_failure(headers@, 0) == first_conversion_failure(headers@, i as int),
            http_map_items(map) == http_headers_items(headers@.take(i as int)),
            http_name_count(http_map_items(map)) <= i,
        decreases headers@.len() - i,
    {
        let (name, values) = headers.entry(i);
        let http_name = match http_header_name_from_bytes(name.as_bytes()) {
            Ok(n) => n,
            Err(e) => {
                return Err(HeaderConversionError::InvalidHeaderName(e));
            },
        };
        let ghost start = http_headers_items(headers@.take(i as int));
        let ghost lower = lowercase(name_bytes(headers@[i as int].0));
        let mut k: usize = 0;
        assert(headers@[i as int].1.take(0) =~= Seq::<Seq<u8>>::empty());
        while k < values.len()
            invariant
                k <= values@.len(),
                i < headers@.len(),
                http_name_ok(name_bytes(headers@[i as int].0)),
                http_header_name_bytes(http_name) == lower,
                lower == lowercase(name_bytes(headers@[i as int].0)),
                first_conversion_failure(headers@, 0) == first_conversion_failure(headers@, i as int),
                values_view(values@) == headers@[i as int].1,
                forall|j: int| 0 <= j < k ==> http_value_ok(#[trigger] headers@[i as int].1[j]),
                http_map_items(map) == http_values_appended(
                    start,
                    lower,
                    headers@[i as int].1.take(k as int),
                ),
                k == 0 ==> http_name_count(http_map_items(map)) <= i,
                k > 0 ==> http_name_count(http_map_items(map)) <= i + 1 && exists|j: int|
                    0 <= j < http_map_items(map).len() && (#[trigger] http_map_items(map)[j]).0 == Some(
                        lower,
                    ),
            decreases values@.len() - k,
        {
            assert(values@[k as int]@ == headers@[i as int].1[k as int]);
            let value = match http_header_value_from_bytes(values[k].as_slice()) {
                Ok(v) => v,
                Err(e) => {
                    assert(!http_value_ok(headers@[i as int].1[k as int]));
                    return Err(HeaderConversionError::InvalidHeaderValue(e));
                },
            };
            let ghost before = http_map_items(map);
            let ghost value_bytes = http_header_value_bytes(value);
            proof {
                lemma_items_append_names(before, lower, value_bytes);
            }
            match http_header_map_append(&mut map, http_header_name_clone(&http_name), value) {
                Ok(_) => {},
                Err(e) => {
                    return Err(HeaderConversionError::MaxSizeReached(e));
                },
            }
            assert(headers@[i as int].1.take(k + 1).drop_last() =~= headers@[i as int].1.take(
                k as int,
            ));
            k = k + 1;
        }
        assert(headers@[i as int].1.take(k as int) =~= headers@[i as int].1);
        assert(headers@.take(i + 1).drop_last() =~= headers@.take(i as int));
        i = i + 1;
    }
    assert(headers@.take(i as int) =~= headers@);
    Ok(map)
}

/// The items of one name and its values: the name on the first value only.
pub open spec fn http_name_items(name: Seq<u8>, values: Seq<Seq<u8>>) -> Seq<(Option<Seq<u8>>, Seq<u8>)> {
    Seq::new(
        values.len(),
        |j: int|
            (
                if j == 0 {
                    Some(name)
                } else {
                    None
                },
                values[j],
            ),
    )
}

/// Each name in order, lowercased, on its first value, then the rest of its values.
pub open spec fn http_items_in_order(headers: HeadersView) -> Seq<(Option<Seq<u8>>, Seq<u8>)>
    decreases headers.len(),
{
    if headers.len() == 0 {
        Seq::empty()
    } else {
        http_items_in_order(headers.drop_last()) + http_name_items(
            lowercase(name_bytes(headers.last().0)),
            headers.last().1,
        )
    }
}

proof fn lemma_group_runs_to_end(items: Seq<(Option<Seq<u8>>, Seq<u8>)>, j: int)
    requires
        0 <= j,
        forall|k: int| j <= k < items.len() ==> (#[trigger] items[k]).0 is None,
    ensures
        http_group_end(items, j) == items.len(),
    decreases items.len() - j,
{
    if j < items.len() {
        lemma_group_runs_to_end(items, j + 1);
    }
}

proof fn lemma_names_in_order(headers: HeadersView, i: int)
    requires
        0 <= i < http_items_in_order(headers).len(),
        http_items_in_order(headers)[i].0 is Some,
    ensures
        exists|k: int|
            0 <= k < headers.len() && http_items_in_order(headers)[i].0 == Some(
                lowercase(name_bytes(#[trigger] headers[k].0)),
            ),
    decreases headers.len(),
{
    let prev = http_items_in_order(headers.drop_last());
    if i < prev.len() {
        lemma_names_in_order(headers.drop_last(), i);
        let k = choose|k: int|
            0 <= k < headers.drop_last().len() && prev[i].0 == Some(
                lowercase(name_bytes(#[trigger] headers.drop_last()[k].0)),
            );
        assert(headers.drop_last()[k] == headers[k]);
    } else {
        assert(headers[headers.len() - 1] == headers.last());
    }
}

proof fn lemma_values_appended_in_order(
    prev: Seq<(Option<Seq<u8>>, Seq<u8>)>,
    name: Seq<u8>,
    values: Seq<Seq<u8>>,
)
    requires
        forall|i: int| 0 <= i < prev.len() ==> (#[trigger] prev[i]).0 != Some(name),
    ensures
        http_values_appended(prev, name, values) == prev + http_name_items(name, values),
    decreases values.len(),
{
    if values.len() == 0 {
        assert(prev + http_name_items(name, values) =~= prev);
    } else {
        let before = values.drop_last();
        lemma_values_appended_in_order(prev, name, before);
        let items = prev + http_name_items(name, before);
        let v = values.last();
        if before.len() == 0 {
            assert(!(exists|i: int| 0 <= i < items.len() && (#[trigger] items[i]).0 == Some(name))) by {
                assert(items =~= prev);
            }
            assert(items.push((Some(name), v)) =~= prev + http_name_items(name, values));
        } else {
            let at = prev.len() as int;
            assert(items[at].0 == Some(name));
            let i = choose|i: int| 0 <= i < items.len() && (#[trigger] items[i]).0 == Some(name);
            assert(i == at) by {
                if i < at {
                    assert(items[i] == prev[i]);
                } else if i > at {
                    assert(items[i].0 is None);
                }
            }
            lemma_group_runs_to_end(items, i + 1);
            assert(items.insert(items.len() as int, (None, v)) =~= prev + http_name_items(name, values));
        }
    }
}

/// When the lowercased names differ, the `http` map that holds the headers yields each
/// name, lowercased, on its first value, then the rest of its values, names in order.
pub proof fn lemma_http_items_in_order(headers: HeadersView)
    requires
        forall|i: int, j: int|
            0 <= i < j < headers.len() ==> lowercase(name_bytes((#[trigger] headers[i]).0)) != lowercase(
                name_bytes((#[trigger] headers[j]).0),
            ),
    ensures
        http_headers_items(headers) == http_items_in_order(headers),
    decreases headers.len(),
{
    if headers.len() > 0 {
        let rest = headers.drop_last();
        assert forall|i: int, j: int|
            0 <= i < j < rest.len() implies lowercase(name_bytes((#[trigger] rest[i]).0)) != lowercase(
                name_bytes((#[trigger] rest[j]).0),
            ) by {
            assert(rest[i] == headers[i] && rest[j] == headers[j]);
        }
        lemma_http_items_in_order(rest);
        let prev = http_items_in_order(rest);
        let name = lowercase(name_bytes(headers.last().0));
        assert forall|i: int| 0 <= i < prev.len() implies (#[trigger] prev[i]).0 != Some(name) by {
            if prev[i].0 is Some {
                lemma_names_in_order(rest, i);
                let k = choose|k: int|
                    0 <= k < rest.len() && prev[i].0 == Some(lowercase(name_bytes(#[trigger] rest[k].0)));
                assert(rest[k] == headers[k]);
                assert(headers[headers.len() - 1] == headers.last());
            }
        }
        lemma_values_appended_in_order(prev, name, headers.last().1);
    }
}

/// Reading `http` map items into headers: an item with a name starts that name (held as a
/// known name when it is one), an item without one continues the last name, and each
/// value is appended under the current name.
pub open spec fn http_lines_to_headers(
    lines: Seq<(Option<Seq<u8>>, Seq<u8>)>,
    headers: HeadersView,
    current: Option<EntryNameView>,
) -> HeadersView
    decreases lines.len(),
{
    if lines.len() == 0 {
        headers
    } else {
        let name = match lines[0].0 {
            Some(bytes) => header_name_from_text(bytes),
            None => current,
        };
        let next = match name {
            Some(n) => headers_append(headers, n, lines[0].1),
            None => headers,
        };
        http_lines_to_headers(lines.drop_first(), next, name)
    }
}

proof fn lemma_items_in_order_front(headers: HeadersView)
    requires
        headers.len() > 0,
    ensures
        http_items_in_order(headers) == http_name_items(lowercase(name_bytes(headers[0].0)), headers[0].1)
            + http_items_in_order(headers.drop_first()),
    decreases headers.len(),
{
    if headers.len() == 1 {
        assert(headers.drop_last() =~= Seq::<(EntryNameView, Seq<Seq<u8>>)>::empty());
        assert(headers.drop_first() =~= Seq::<(EntryNameView, Seq<Seq<u8>>)>::empty());
        assert(headers.last() == headers[0]);
        assert(http_items_in_order(Seq::<(EntryNameView, Seq<Seq<u8>>)>::empty()) == Seq::<(Option<Seq<u8>>, Seq<u8>)>::empty());
        assert(http_items_in_order(headers) =~= http_name_items(lowercase(name_bytes(headers[0].0)), headers[0].1)
            + http_items_in_order(headers.drop_first()));
    } else {
        let init = headers.drop_last();
        lemma_items_in_order_front(init);
        assert(init[0] == headers[0]);
        assert(init.drop_first() =~= headers.drop_first().drop_last());
        assert(headers.drop_first().last() == headers.last());
        assert(http_items_in_order(headers) =~= http_name_items(lowercase(name_bytes(headers[0].0)), headers[0].1)
            + http_items_in_order(headers.drop_first()));
    }
}

proof fn lemma_lines_rest_of_name(
    name_text: Seq<u8>,
    name: EntryNameView,
    values: Seq<Seq<u8>>,
    rest: Seq<(Option<Seq<u8>>, Seq<u8>)>,
    acc: HeadersView,
    j: int,
)
    requires
        0 < j <= values.len(),
    ensures
        http_lines_to_headers(
            http_name_items(name_text, values).skip(j) + rest,
            crate::section_laws::append_values(acc, name, values.take(j)),
            Some(name),
        ) == http_lines_to_headers(rest, crate::section_laws::append_values(acc, name, values), Some(name)),
    decreases values.len() - j,
{
    let items = http_name_items(name_text, values);
    if j == values.len() {
        assert(items.skip(j) + rest =~= rest);
        assert(values.take(j) =~= values);
    } else {
        let lines = items.skip(j) + rest;
        assert(lines[0] == (Option::<Seq<u8>>::None, values[j]));
        assert(lines.drop_first() =~= items.skip(j + 1) + rest);
        assert(values.take(j + 1).drop_last() =~= values.take(j));
        assert(values.take(j + 1).last() == values[j]);
        lemma_lines_rest_of_name(name_text, name, values, rest, acc, j + 1);
    }
}

proof fn lemma_lines_of_name(
    name_text: Seq<u8>,
    name: EntryNameView,
    values: Seq<Seq<u8>>,
    rest: Seq<(Option<Seq<u8>>, Seq<u8>)>,
    acc: HeadersView,
    current: Option<EntryNameView>,
)
    requires
        values.len() > 0,
        header_name_from_text(name_text) == Some(name),
    ensures
        http_lines_to_headers(http_name_items(name_text, values) + rest, acc, current) == http_lines_to_headers(
            rest,
            crate::section_laws::append_values(acc, name, values),
            Some(name),
        ),
{
    let lines = http_name_items(name_text, values) + rest;
    assert(lines[0] == (Some(name_text), values[0]));
    assert(lines.drop_first() =~= http_name_items(name_text, values).skip(1) + rest);
    assert(values.take(1).drop_last() =~= Seq::<Seq<u8>>::empty());
    assert(crate::section_laws::append_values(acc, name, Seq::<Seq<u8>>::empty()) == acc);
    assert(values.take(1).last() == values[0]);
    lemma_lines_rest_of_name(name_text, name, values, rest, acc, 1);
}

proof fn lemma_lines_read_back_from(headers: HeadersView, k: int, current: Option<EntryNameView>)
    requires
        headers_wf(headers),
        0 <= k <= headers.len(),
        forall|i: int|
            0 <= i < headers.len() ==> header_name_from_text(lowercase(name_bytes((#[trigger] headers[i]).0)))
                == Some(headers[i].0),
    ensures
        http_lines_to_headers(http_items_in_order(headers.skip(k)), headers.take(k), current) == headers,
    decreases headers.len() - k,
{
    if k == headers.len() {
        assert(headers.skip(k) =~= Seq::<(EntryNameView, Seq<Seq<u8>>)>::empty());
        assert(http_items_in_order(headers.skip(k)) == Seq::<(Option<Seq<u8>>, Seq<u8>)>::empty());
        assert(headers.take(k) =~= headers);
    } else {
        let tail = headers.skip(k);
        lemma_items_in_order_front(tail);
        assert(tail[0] == headers[k]);
        assert(tail.drop_first() =~= headers.skip(k + 1));
        let entry = headers[k];
        lemma_lines_of_name(
            lowercase(name_bytes(entry.0)),
            entry.0,
            entry.1,
            http_items_in_order(headers.skip(k + 1)),
            headers.take(k),
            current,
        );
        assert forall|j: int| 0 <= j < headers.take(k).len() implies (#[trigger] headers.take(k)[j]).0 != entry.0 by {
            assert(headers.take(k)[j] == headers[j]);
        }
        crate::section_laws::lemma_append_values_new(headers.take(k), entry.0, entry.1);
        assert(headers.take(k).push(entry) =~= headers.take(k + 1));
        lemma_lines_read_back_from(headers, k + 1, Some(entry.0));
    }
}

/// Headers carried over to an `http` map read back as themselves: when every name reads
/// back as itself from its lowercased bytes (a known name, or an unknown name already in
/// lowercase), reading the items of the map that holds the headers gives the headers.
pub proof fn lemma_http_headers_round_trip(headers: HeadersView)
    requires
        headers_wf(headers),
        forall|i: int|
            0 <= i < headers.len() ==> header_name_from_text(lowercase(name_bytes((#[trigger] headers[i]).0)))
                == Some(headers[i].0),
    ensures
        http_lines_to_headers(http_headers_items(headers), Seq::empty(), None) == headers,
{
    assert forall|i: int, j: int|
        0 <= i < j < headers.len() implies lowercase(name_bytes((#[trigger] headers[i]).0)) != lowercase(
            name_bytes((#[trigger] headers[j]).0),
        ) by {
        if lowercase(name_bytes(headers[i].0)) == lowercase(name_bytes(headers[j].0)) {
            assert(headers[i].0 == headers[j].0);
        }
    }
    lemma_http_items_in_order(headers);
    assert(headers.skip(0) =~= headers);
    assert(headers.take(0) =~= Seq::<(EntryNameView, Seq<Seq<u8>>)>::empty());
    lemma_lines_read_back_from(headers, 0, None);
}

/// The values of the items an `http` map yields.
pub open spec fn http_lines_view(lines: Seq<(Option<Vec<u8>>, Vec<u8>)>) -> Seq<(Option<Seq<u8>>, Seq<u8>)> {
    lines.map_values(|l: (Option<Vec<u8>>, Vec<u8>)| (
        match l.0 {
            Some(n) => Some(n@),
            None => None,
        },
        l.1@,
    ))
}

/// Headers from the items of an `http` header map, in the order given.
pub fn headers_from_http_lines(lines: Vec<(Option<Vec<u8>>, Vec<u8>)>) -> (headers: Headers)
    ensures
        headers.wf(),
        headers@ == http_lines_to_headers(http_lines_view(lines@), Seq::empty(), None),
{
    let ghost all = http_lines_view(lines@);
    let mut headers = Headers::new();
    let mut current: Option<EntryName> = None;
    let mut i: usize = 0;
    assert(all.skip(0) =~= all);
    while i < lines.len()
        invariant
            headers.wf(),
            i <= lines@.len(),
            all == http_lines_view(lines@),
            current matches Some(c) ==> !(c@ is Pseudo),
            http_lines_to_headers(all, Seq::empty(), None) == http_lines_to_headers(
                all.skip(i as int),
                headers@,
                match current {
                    Some(c) => Some(c@),
                    None => None,
                },
            ),
        decreases lines@.len() - i,
    {
        proof {
            assert(all.skip(i as int).drop_first() =~= all.skip(i + 1));
        }
        let line = &lines[i];
        if let Some(name) = &line.0 {
            current = parse_header_name(name.as_slice());
        }
        if let Some(name) = &current {
            headers.append(name.clone(), vstd::slice::slice_to_vec(line.1.as_slice()));
        }
        i = i + 1;
    }
    assert(all.skip(i as int) =~= Seq::<(Option<Seq<u8>>, Seq<u8>)>::empty());
    headers
}

/// Headers from an `http` header map, in the order the map yields its items.
pub fn headers_from_http(map: HttpHeaderMap<HttpHeaderValue>) -> (headers: Headers)
    ensures
        headers.wf(),
        headers@ == http_lines_to_headers(http_map_items(map), Seq::empty(), None),
{
    headers_from_http_lines(http_header_map_lines(map))
}

} // verus!
