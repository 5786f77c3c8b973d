//! Encoding of field sections against the static table only (RFC 9204 §4.5 with a
//! Required Insert Count of zero).
use vstd::prelude::*;
use vstd::string::StringSliceAdditionalSpecFns;
use vstd::utf8::encode_utf8;
use crate::entry_name::{name_bytes, EntryNameView};
use crate::field_section::{
    encode_string_with_flags, field_line_encoding, push_with_flags, FieldLine,
    INDEXED_FIELD_LINE, INDEXED_STATIC_FLAG, LITERAL_WITH_LITERAL_NAME, LITERAL_WITH_NAME_REF,
    NAME_REF_STATIC_FLAG,
};
use crate::headers::{FieldSection, FieldSectionView, HeadersView, PseudoHeadersView, values_view};
use crate::instruction::{encode_string, string_literal};
use crate::method::{method_bytes, Method};
use crate::static_table::{spec_static_lookup, static_table_lookup, PseudoHeaderName, StaticLookup};
use crate::status::{decimal, status_code, Status};
use crate::varint::{self, encoding, with_flags};

verus! {

/// `/`
const SLASH: [u8; 1] = [47];
/// `http`
const HTTP: [u8; 4] = [104, 116, 116, 112];
/// `https`
const HTTPS: [u8; 5] = [104, 116, 116, 112, 115];
/// `:protocol`
const PROTOCOL: [u8; 9] = [58, 112, 114, 111, 116, 111, 99, 111, 108];

pub open spec fn slash_bytes() -> Seq<u8> {
    seq![47u8]
}

pub open spec fn http_bytes() -> Seq<u8> {
    seq![104u8, 116, 116, 112]
}

pub open spec fn https_bytes() -> Seq<u8> {
    seq![104u8, 116, 116, 112, 115]
}

pub open spec fn protocol_name_bytes() -> Seq<u8> {
    seq![58u8, 112, 114, 111, 116, 111, 99, 111, 108]
}

/// §4.5.2: the wire form of a reference to static entry `index`.
#[verifier::opaque]
pub open spec fn indexed_encoding(index: u8) -> Seq<u8> {
    field_line_encoding(FieldLine::IndexedStatic { index: index as usize })
}

/// §4.5.4: the wire form of static name `index` with a literal value.
#[verifier::opaque]
pub open spec fn name_ref_encoding(index: u8, value: Seq<u8>) -> Seq<u8> {
    field_line_encoding(
        FieldLine::LiteralStaticNameRef { name_index: index as usize, value, never_indexed: false },
    )
}

/// §4.5.6: the wire form of a literal name with a literal value.
#[verifier::opaque]
pub open spec fn literal_name_encoding(name: Seq<u8>, value: Seq<u8>) -> Seq<u8> {
    with_flags(string_literal(name, 3), LITERAL_WITH_LITERAL_NAME) + string_literal(value, 7)
}

/// The static entry that holds a method, for the methods that have one.
pub open spec fn static_method_index(method: Method) -> Option<u8> {
    match method {
        Method::Connect => Some(15),
        Method::Delete => Some(16),
        Method::Get => Some(17),
        Method::Head => Some(18),
        Method::Options => Some(19),
        Method::Post => Some(20),
        Method::Put => Some(21),
        _ => None,
    }
}

/// The static entry that holds a status, for the statuses that have one.
pub open spec fn static_status_index(status: Status) -> Option<u8> {
    match status {
        Status::EarlyHints => Some(24),
        Status::Okay => Some(25),
        Status::NotModified => Some(26),
        Status::NotFound => Some(27),
        Status::ServiceUnavailable => Some(28),
        Status::Continue => Some(63),
        Status::NoContent => Some(64),
        Status::PartialContent => Some(65),
        Status::Found => Some(66),
        Status::BadRequest => Some(67),
        Status::Forbidden => Some(68),
        Status::MisdirectedRequest => Some(69),
        Status::TooEarly => Some(70),
        Status::InternalServerError => Some(71),
        _ => None,
    }
}

/// `:method`: the static entry when there is one, else the `:method` name with the
/// method's name as value.
pub open spec fn method_encoding(method: Method) -> Seq<u8> {
    match static_method_index(method) {
        Some(i) => indexed_encoding(i),
        None => name_ref_encoding(15, method_bytes(method)),
    }
}

/// `:status`: the static entry when there is one, else the `:status` name with the code
/// in decimal as value.
pub open spec fn status_encoding(status: Status) -> Seq<u8> {
    match static_status_index(status) {
        Some(i) => indexed_encoding(i),
        None => name_ref_encoding(24, decimal(status_code(status) as nat)),
    }
}

/// The static entries that hold `:path`, `:scheme` and their value, for the values that
/// have one.
pub open spec fn pseudo_full_match(name: PseudoHeaderName, value: Seq<u8>) -> Option<u8> {
    if name == PseudoHeaderName::Path && value == slash_bytes() {
        Some(1)
    } else if name == PseudoHeaderName::Scheme && value == http_bytes() {
        Some(22)
    } else if name == PseudoHeaderName::Scheme && value == https_bytes() {
        Some(23)
    } else {
        None
    }
}

/// A pseudo-header with a text value: the static entry when there is one for the pair,
/// else the name (static entry `name_index`) with a literal value.
pub open spec fn pseudo_string_encoding(name: PseudoHeaderName, value: Seq<u8>, name_index: u8) -> Seq<u8> {
    match pseudo_full_match(name, value) {
        Some(i) => indexed_encoding(i),
        None => name_ref_encoding(name_index, value),
    }
}

/// One header line, as the static-table lookup of the pair decides.
pub open spec fn header_line_encoding(name: EntryNameView, value: Seq<u8>) -> Seq<u8> {
    match spec_static_lookup(name, Some(value)) {
        StaticLookup::FullMatch(i) => indexed_encoding(i),
        StaticLookup::NameMatch(i) => name_ref_encoding(i, value),
        StaticLookup::NoMatch => literal_name_encoding(name_bytes(name), value),
    }
}

/// A line for each value of one header name, in order.
pub open spec fn values_encoding(name: EntryNameView, values: Seq<Seq<u8>>) -> Seq<u8>
    decreases values.len(),
{
    if values.len() == 0 {
        Seq::empty()
    } else {
        values_encoding(name, values.drop_last()) + header_line_encoding(name, values.last())
    }
}

/// The lines of all headers, name by name.
pub open spec fn headers_encoding(headers: HeadersView) -> Seq<u8>
    decreases headers.len(),
{
    if headers.len() == 0 {
        Seq::empty()
    } else {
        headers_encoding(headers.drop_last()) + values_encoding(
            headers.last().0,
            headers.last().1,
        )
    }
}

/// `:method`, when present.
pub open spec fn method_line(method: Option<Method>) -> Seq<u8> {
    match method {
        Some(m) => method_encoding(m),
        None => Seq::empty(),
    }
}

/// `:status`, when present.
pub open spec fn status_line(status: Option<Status>) -> Seq<u8> {
    match status {
        Some(s) => status_encoding(s),
        None => Seq::empty(),
    }
}

/// A pseudo-header with a text value, when present.
pub open spec fn text_line(name: PseudoHeaderName, value: Option<Seq<char>>, name_index: u8) -> Seq<u8> {
    match value {
        Some(v) => pseudo_string_encoding(name, encode_utf8(v), name_index),
        None => Seq::empty(),
    }
}

/// `:protocol`, when present: it has no static entry, so its name is literal.
pub open spec fn protocol_line(value: Option<Seq<char>>) -> Seq<u8> {
    match value {
        Some(v) => literal_name_encoding(protocol_name_bytes(), encode_utf8(v)),
        None => Seq::empty(),
    }
}

/// The pseudo-header lines: method, status, path, scheme, authority, protocol, each when
/// present.
pub open spec fn pseudo_headers_encoding(pseudos: PseudoHeadersView) -> Seq<u8> {
    method_line(pseudos.method) + status_line(pseudos.status) + text_line(
        PseudoHeaderName::Path,
        pseudos.path,
        1,
    ) + text_line(PseudoHeaderName::Scheme, pseudos.scheme, 22) + text_line(
        PseudoHeaderName::Authority,
        pseudos.authority,
        0,
    ) + protocol_line(pseudos.protocol)
}

/// A static-only field section: a prefix with Required Insert Count and Delta Base zero,
/// the pseudo-header lines, then the header lines.
pub open spec fn field_section_encoding(section: FieldSectionView) -> Seq<u8> {
    encoding(0, 8) + encoding(0, 7) + pseudo_headers_encoding(section.pseudo_headers)
        + headers_encoding(section.headers)
}

/// §4.5.2: Indexed Field Line (static table)
fn encode_indexed(index: u8, buf: &mut Vec<u8>)
    ensures
        final(buf)@ == old(buf)@ + indexed_encoding(index),
{
    proof {
        crate::varint::lemma_encoding_first_byte(index as nat, 6);
        reveal(indexed_encoding);
    }
    push_with_flags(buf, varint::encode(index as usize, 6), INDEXED_FIELD_LINE | INDEXED_STATIC_FLAG);
}

/// §4.5.4: Literal Field Line with Name Reference (static table)
fn encode_literal_with_name_ref(index: u8, value: &[u8], buf: &mut Vec<u8>)
    ensures
        final(buf)@ == old(buf)@ + name_ref_encoding(index, value@),
{
    proof {
        crate::varint::lemma_encoding_first_byte(index as nat, 4);
        assert(0x40u8 | 0x10u8 | 0u8 == 0x40u8 | 0x10u8) by (bit_vector);
        reveal(name_ref_encoding);
    }
    let ghost start = buf@;
    push_with_flags(buf, varint::encode(index as usize, 4), LITERAL_WITH_NAME_REF | NAME_REF_STATIC_FLAG);
    encode_string(value, 7, buf);
    assert(buf@ =~= start + name_ref_encoding(index, value@));
}

/// §4.5.6: Literal Field Line with Literal Name
fn encode_literal_with_literal_name(name: &[u8], value: &[u8], buf: &mut Vec<u8>)
    ensures
        final(buf)@ == old(buf)@ + literal_name_encoding(name@, value@),
{
    let ghost start = buf@;
    proof {
        reveal(literal_name_encoding);
    }
    encode_string_with_flags(name, 3, LITERAL_WITH_LITERAL_NAME, buf);
    encode_string(value, 7, buf);
    assert(buf@ =~= start + literal_name_encoding(name@, value@));
}

fn encode_method(method: Method, buf: &mut Vec<u8>)
    ensures
        final(buf)@ == old(buf)@ + method_encoding(method),
{
    let index: Option<u8> = match method {
        Method::Connect => Some(15),
        Method::Delete => Some(16),
        Method::Get => Some(17),
        Method::Head => Some(18),
        Method::Options => Some(19),
        Method::Post => Some(20),
        Method::Put => Some(21),
        _ => None,
    };
    match index {
        Some(i) => encode_indexed(i, buf),
        None => encode_literal_with_name_ref(15, method.as_str().as_bytes(), buf),
    }
}

fn encode_status(status: Status, buf: &mut Vec<u8>)
    ensures
        final(buf)@ == old(buf)@ + status_encoding(status),
{
    let index: Option<u8> = match status {
        Status::EarlyHints => Some(24),
        Status::Okay => Some(25),
        Status::NotModified => Some(26),
        Status::NotFound => Some(27),
        Status::ServiceUnavailable => Some(28),
        Status::Continue => Some(63),
        Status::NoContent => Some(64),
        Status::PartialContent => Some(65),
        Status::Found => Some(66),
        Status::BadRequest => Some(67),
        Status::Forbidden => Some(68),
        Status::MisdirectedRequest => Some(69),
        Status::TooEarly => Some(70),
        Status::InternalServerError => Some(71),
        _ => None,
    };
    match index {
        Some(i) => encode_indexed(i, buf),
        None => {
            let code = status.code();
            encode_literal_with_name_ref(24, code.as_slice(), buf)
        },
    }
}

/// Encode a pseudo-header with a string value (:path, :scheme, :authority).
/// `name_match_index` is the static table index for name-only lookup.
fn encode_pseudo_string(name: PseudoHeaderName, value: &str, name_match_index: u8, buf: &mut Vec<u8>)
    ensures
        final(buf)@ == old(buf)@ + pseudo_string_encoding(
            name,
            value.spec_bytes(),
            name_match_index,
        ),
{
    let bytes = value.as_bytes();
    let slash: &[u8] = &SLASH;
    let http: &[u8] = &HTTP;
    let https: &[u8] = &HTTPS;
    assert(slash@ =~= slash_bytes());
    assert(http@ =~= http_bytes());
    assert(https@ =~= https_bytes());
    let full_match: Option<u8> = match name {
        PseudoHeaderName::Path => if crate::bytes::bytes_equal(bytes, slash) {
            Some(1)
        } else {
            None
        },
        PseudoHeaderName::Scheme => if crate::bytes::bytes_equal(bytes, http) {
            Some(22)
        } else if crate::bytes::bytes_equal(bytes, https) {
            Some(23)
        } else {
            None
        },
        _ => None,
    };
    match full_match {
        Some(i) => encode_indexed(i, buf),
        None => encode_literal_with_name_ref(name_match_index, bytes, buf),
    }
}

fn encode_by_lookup(lookup: StaticLookup, name: &[u8], value: &[u8], buf: &mut Vec<u8>)
    ensures
        final(buf)@ == old(buf)@ + match lookup {
            StaticLookup::FullMatch(i) => indexed_encoding(i),
            StaticLookup::NameMatch(i) => name_ref_encoding(i, value@),
            StaticLookup::NoMatch => literal_name_encoding(name@, value@),
        },
{
    match lookup {
        StaticLookup::FullMatch(index) => encode_indexed(index, buf),
        StaticLookup::NameMatch(index) => encode_literal_with_name_ref(index, value, buf),
        StaticLookup::NoMatch => encode_literal_with_literal_name(name, value, buf),
    }
}

fn encode_text_line(name: PseudoHeaderName, value: &Option<String>, name_index: u8, buf: &mut Vec<u8>)
    ensures
        final(buf)@ == old(buf)@ + text_line(name, crate::headers::text_view(*value), name_index),
{
    if let Some(text) = value {
        encode_pseudo_string(name, text.as_str(), name_index, buf);
    } else {
        assert(buf@ =~= old(buf)@ + Seq::<u8>::empty());
    }
}

fn encode_method_line(method: Option<Method>, buf: &mut Vec<u8>)
    ensures
        final(buf)@ == old(buf)@ + method_line(method),
{
    if let Some(m) = method {
        encode_method(m, buf);
    } else {
        assert(buf@ =~= old(buf)@ + Seq::<u8>::empty());
    }
}

fn encode_status_line(status: Option<Status>, buf: &mut Vec<u8>)
    ensures
        final(buf)@ == old(buf)@ + status_line(status),
{
    if let Some(s) = status {
        encode_status(s, buf);
    } else {
        assert(buf@ =~= old(buf)@ + Seq::<u8>::empty());
    }
}

fn encode_protocol_line(value: &Option<String>, buf: &mut Vec<u8>)
    ensures
        final(buf)@ == old(buf)@ + protocol_line(crate::headers::text_view(*value)),
{
    if let Some(protocol) = value {
        let name: &[u8] = &PROTOCOL;
        assert(name@ =~= protocol_name_bytes());
        encode_literal_with_literal_name(name, protocol.as_str().as_bytes(), buf);
    } else {
        assert(buf@ =~= old(buf)@ + Seq::<u8>::empty());
    }
}

fn encode_pseudo_headers(pseudos: &crate::headers::PseudoHeaders, buf: &mut Vec<u8>)
    ensures
        final(buf)@ == old(buf)@ + pseudo_headers_encoding(pseudos@),
{
    let ghost start = buf@;
    encode_method_line(pseudos.method, buf);
    encode_status_line(pseudos.status, buf);
    encode_text_line(PseudoHeaderName::Path, &pseudos.path, 1, buf);
    encode_text_line(PseudoHeaderName::Scheme, &pseudos.scheme, 22, buf);
    encode_text_line(PseudoHeaderName::Authority, &pseudos.authority, 0, buf);
    encode_protocol_line(&pseudos.protocol, buf);
    assert(buf@ =~= start + pseudo_headers_encoding(pseudos@));
}

fn encode_headers(headers: &crate::headers::Headers, buf: &mut Vec<u8>)
    ensures
        final(buf)@ == old(buf)@ + headers_encoding(headers@),
{
    let ghost start = buf@;
    let ghost h = headers@;
    let mut i: usize = 0;
    while i < headers.len()
        invariant
            0 <= i <= h.len(),
            h == headers@,
            buf@ == start + headers_encoding(h.subrange(0, i as int)),
        decreases h.len() - i,
    {
        let (name, values) = headers.entry(i);
        let ghost line_start = buf@;
        let ghost vs = values_view(values@);
        let mut j: usize = 0;
        while j < values.len()
            invariant
                0 <= j <= values@.len(),
                vs == values_view(values@),
                vs == h[i as int].1,
                name@ == h[i as int].0,
                buf@ == line_start + values_encoding(name@, vs.subrange(0, j as int)),
            decreases values@.len() - j,
        {
            let value = values[j].as_slice();
            let lookup = static_table_lookup(name, Some(value));
            encode_by_lookup(lookup, name.as_bytes(), value, buf);
            proof {
                let next = vs.subrange(0, j + 1);
                assert(next.drop_last() =~= vs.subrange(0, j as int));
                assert(next.last() == value@);
            }
            j = j + 1;
        }
        proof {
            assert(vs.subrange(0, j as int) =~= vs);
            let next = h.subrange(0, i + 1);
            assert(next.drop_last() =~= h.subrange(0, i as int));
            assert(next.last() == h[i as int]);
        }
        i = i + 1;
    }
    assert(h.subrange(0, i as int) =~= h);
}

impl FieldSection {
    /// Encode a QPACK field section from pseudo-headers and headers.
    ///
    /// This uses only the static table (no dynamic table).
    pub fn encode(&self, buf: &mut Vec<u8>)
        ensures
            final(buf)@ == old(buf)@ + field_section_encoding(self@),
    {
        let ghost start = buf@;
        let mut prefix = varint::encode(0, 8);
        buf.append(&mut prefix);
        let mut delta = varint::encode(0, 7);
        buf.append(&mut delta);
        let ghost after_prefix = buf@;
        encode_pseudo_headers(&self.pseudo_headers, buf);
        let ghost after_pseudo = buf@;
        encode_headers(&self.headers, buf);
        assert(buf@ =~= start + field_section_encoding(self@));
    }
}

/// The wire name of `:protocol` is its pseudo-header name, and reading it back from the
/// wire gives that pseudo-header.
proof fn lemma_protocol_name()
    ensures
        name_bytes(EntryNameView::Pseudo(PseudoHeaderName::Protocol)) == protocol_name_bytes(),
        crate::entry_name::well_formed_name(EntryNameView::Pseudo(PseudoHeaderName::Protocol)),
{
    broadcast use vstd::string::group_string_axioms;
    reveal_strlit(":authority");
    reveal_strlit(":method");
    reveal_strlit(":path");
    reveal_strlit(":scheme");
    reveal_strlit(":status");
    reveal_strlit(":protocol");
    assert(vstd::string::is_ascii(":authority"));
    assert(vstd::string::is_ascii(":method"));
    assert(vstd::string::is_ascii(":path"));
    assert(vstd::string::is_ascii(":scheme"));
    assert(vstd::string::is_ascii(":status"));
    assert(vstd::string::is_ascii(":protocol"));
    let b = protocol_name_bytes();
    assert(":protocol".spec_bytes() =~= b);
    assert(":authority".spec_bytes().len() == 10);
    assert(":method".spec_bytes().len() == 7);
    assert(":path".spec_bytes().len() == 5);
    assert(":scheme".spec_bytes().len() == 7);
    assert(":status".spec_bytes().len() == 7);
    reveal_with_fuel(crate::entry_name::pseudo_with_bytes, 7);
    assert(crate::entry_name::pseudo_names()[5] == PseudoHeaderName::Protocol);
    assert(crate::entry_name::pseudo_with_bytes(b, 0) == Some(PseudoHeaderName::Protocol));
}

/// The `:protocol` line is the field line that carries the pseudo-header by literal name
/// with the value's UTF-8 bytes, and the generic field-line parser reads it back as that
/// line, whatever follows it.
pub proof fn lemma_protocol_line_reads_back(value: Seq<char>, rest: Seq<u8>)
    requires
        encode_utf8(value).len() <= usize::MAX,
    ensures
        ({
            let line = FieldLine::LiteralLiteralName {
                name: EntryNameView::Pseudo(PseudoHeaderName::Protocol),
                value: encode_utf8(value),
                never_indexed: false,
            };
            &&& protocol_line(Some(value)) == field_line_encoding(line)
            &&& crate::field_section::field_line_decoding(protocol_line(Some(value)) + rest) == Ok::<
                (FieldLine, nat),
                crate::instruction::QpackError,
            >((line, protocol_line(Some(value)).len()))
        }),
{
    let line = FieldLine::LiteralLiteralName {
        name: EntryNameView::Pseudo(PseudoHeaderName::Protocol),
        value: encode_utf8(value),
        never_indexed: false,
    };
    lemma_protocol_line_is_field_line(value);
    lemma_protocol_name();
    crate::field_section::lemma_field_line_roundtrip(line, rest);
}

proof fn lemma_protocol_line_is_field_line(value: Seq<char>)
    ensures
        protocol_line(Some(value)) == field_line_encoding(
            FieldLine::LiteralLiteralName {
                name: EntryNameView::Pseudo(PseudoHeaderName::Protocol),
                value: encode_utf8(value),
                never_indexed: false,
            },
        ),
{
    reveal(literal_name_encoding);
    lemma_protocol_name();
    crate::field_section::lemma_masks();
    assert(crate::field_section::flag_if(false, crate::field_section::LITERAL_NAME_NEVER_INDEXED_FLAG) == 0u8);
}

/// Every pseudo-header the section holds is written: when it carries `:protocol` (an
/// extended CONNECT), its encoding holds the `:protocol` field line with the value.
pub proof fn lemma_protocol_written(section: FieldSectionView)
    ensures
        section.pseudo_headers.protocol matches Some(v) ==> exists|head: Seq<u8>, tail: Seq<u8>|
            field_section_encoding(section) == head + field_line_encoding(
                FieldLine::LiteralLiteralName {
                    name: EntryNameView::Pseudo(PseudoHeaderName::Protocol),
                    value: encode_utf8(v),
                    never_indexed: false,
                },
            ) + tail,
{
    if let Some(v) = section.pseudo_headers.protocol {
        lemma_protocol_line_is_field_line(v);
        let line = FieldLine::LiteralLiteralName {
            name: EntryNameView::Pseudo(PseudoHeaderName::Protocol),
            value: encode_utf8(v),
            never_indexed: false,
        };
        let p = section.pseudo_headers;
        let head = encoding(0, 8) + encoding(0, 7) + method_line(p.method) + status_line(p.status)
            + text_line(PseudoHeaderName::Path, p.path, 1) + text_line(PseudoHeaderName::Scheme, p.scheme, 22)
            + text_line(PseudoHeaderName::Authority, p.authority, 0);
        let tail = headers_encoding(section.headers);
        assert(field_section_encoding(section) =~= head + protocol_line(p.protocol) + tail);
        assert(field_section_encoding(section) == head + field_line_encoding(line) + tail);
    }
}

} // verus!
