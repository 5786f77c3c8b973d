//! The field-section round trip: what the encoder writes, the decoder reads back.
use vstd::prelude::*;
use crate::decoder::{
    apply_line, header_name_from_text, indexed_line, lines_decoding, name_ref_line,
    static_line_decoding, SectionLineView,
};
use crate::encoder::{
    header_line_encoding, headers_encoding, indexed_encoding, literal_name_encoding,
    name_ref_encoding, values_encoding,
};
use crate::entry_name::{name_bytes, EntryNameView};
use crate::headers::{headers_append, headers_wf, HeadersView, PseudoHeadersView};
use crate::static_table::{
    first_value_match, lemma_first_value_match, lemma_static_indices_name,
    lemma_static_indices_valid, spec_static_lookup, static_indices, static_name_view, StaticLookup,
    StaticHeaderName,
};
use crate::field_section::{field_line_decoding, field_line_encoding, lemma_field_line_roundtrip, FieldLine};
use crate::headers::FieldSectionView;
use crate::instruction::{string_literal, string_literal_decoding};
use crate::static_table::static_table_entry;
use vstd::string::StringSliceAdditionalSpecFns;
use crate::varint::{encoding, with_flags};
use crate::decoder::PseudoHeaderView;
use crate::encoder::{
    field_section_encoding, method_encoding, method_line, protocol_line, pseudo_full_match,
    pseudo_headers_encoding, pseudo_string_encoding, static_method_index, static_status_index,
    status_encoding, status_line, text_line,
};
use crate::decoder::{apply_pseudo, empty_section, field_section_decoding};
use crate::headers::no_pseudo_headers;
use crate::static_table::PseudoHeaderName;
use vstd::utf8::encode_utf8;
use crate::method::{lemma_method_bytes_roundtrip, lemma_method_str_bytes, Method};
use crate::status::{decimal, lemma_status_text_roundtrip, Status};

verus! {

/// A reference to static entry `index` reads back as that entry's line.
proof fn lemma_indexed_line(index: u8, rest: Seq<u8>)
    requires
        index < 99,
    ensures
        static_line_decoding(indexed_encoding(index) + rest) == match indexed_line(
            static_table_entry(index),
        ) {
            Ok(l) => Ok((l, indexed_encoding(index).len())),
            Err(e) => Err(e),
        },
{
    reveal(indexed_encoding);
    reveal(static_line_decoding);
    let line = FieldLine::IndexedStatic { index: index as usize };
    lemma_field_line_roundtrip(line, rest);
    let input = field_line_encoding(line) + rest;
    assert(field_line_decoding(input) == Ok::<(FieldLine, nat), crate::instruction::QpackError>(
        (line, field_line_encoding(line).len()),
    ));
}

/// Static name `index` with a literal value reads back as that name with the value.
proof fn lemma_name_ref_line(index: u8, value: Seq<u8>, rest: Seq<u8>)
    requires
        index < 99,
        value.len() <= usize::MAX,
    ensures
        static_line_decoding(name_ref_encoding(index, value) + rest) == match name_ref_line(
            static_table_entry(index).0,
            value,
        ) {
            Ok(l) => Ok((l, name_ref_encoding(index, value).len())),
            Err(e) => Err(e),
        },
{
    reveal(name_ref_encoding);
    reveal(static_line_decoding);
    let line = FieldLine::LiteralStaticNameRef {
        name_index: index as usize,
        value,
        never_indexed: false,
    };
    lemma_field_line_roundtrip(line, rest);
}

/// A literal name with a literal value reads back as the name (read as a header name)
/// with the value.
#[verifier::spinoff_prover]
#[verifier::rlimit(60)]
proof fn lemma_literal_name_line(name: Seq<u8>, value: Seq<u8>, rest: Seq<u8>)
    requires
        name.len() <= usize::MAX,
        value.len() <= usize::MAX,
    ensures
        static_line_decoding(literal_name_encoding(name, value) + rest) == match header_name_from_text(
            name,
        ) {
            Some(h) => Ok((SectionLineView::Header(h, value, false), literal_name_encoding(name, value).len())),
            None => Err(crate::decoder::DecoderError::InvalidHeaderName),
        },
{
    reveal(literal_name_encoding);
    reveal(static_line_decoding);
    let nlit = string_literal(name, 3);
    let lit = string_literal(value, 7);
    let input = literal_name_encoding(name, value) + rest;
    let coded = crate::huffman::huffman_bytes(name);
    crate::field_section::lemma_masks();
    crate::varint::lemma_encoding_first_byte(coded.len(), 3);
    crate::varint::lemma_encoding_first_byte(name.len(), 3);
    crate::instruction::lemma_huffman_flag_bits(encoding(coded.len(), 3)[0], 3);
    assert(nlit[0] <= 15) by {
        let b = encoding(coded.len(), 3)[0];
        assert(b <= 7 ==> (b | 8u8) <= 15) by (bit_vector);
        assert(crate::instruction::huffman_flag(3) == 8) by (bit_vector);
    }
    let e = nlit[0];
    assert(e <= 15 ==> (e | 0x20u8) & 0x80 == 0 && (e | 0x20u8) & 0x40 == 0 && (e | 0x20u8) & 0x20 != 0) by (bit_vector);
    crate::field_section::lemma_string_literal_nonempty(name, 3);
    assert(input =~= with_flags(nlit + (lit + rest), 0x20));
    crate::instruction::lemma_string_literal_roundtrip(name, 3, lit + rest);
    assert(crate::instruction::huffman_flag(3) == 8) by (bit_vector);
    assert(0x20u8 & 8 == 0 && 0x20u8 & 7 == 0) by (bit_vector);
    crate::instruction::lemma_string_literal_decoding_ignores_flags(nlit + (lit + rest), 0x20, 3);
    assert(input.subrange(nlit.len() as int, input.len() as int) =~= lit + rest);
    crate::instruction::lemma_string_literal_roundtrip(value, 7, rest);
}

/// Reading a line off the front of the input and then the rest is reading the rest after
/// adding the line.
proof fn lemma_lines_step(head: Seq<u8>, rest: Seq<u8>, section: FieldSectionView, line: SectionLineView)
    requires
        head.len() > 0,
        static_line_decoding(head + rest) == Ok::<(SectionLineView, nat), crate::decoder::DecoderError>(
            (line, head.len()),
        ),
    ensures
        lines_decoding(head + rest, section) == lines_decoding(rest, apply_line(section, line)),
{
    reveal(lines_decoding);
    assert((head + rest).subrange(head.len() as int, (head + rest).len() as int) =~= rest);
}

/// A header name that the encoder can always write so that it reads back: any name with
/// static entries, and otherwise a token.
pub open spec fn encodable_header_name(name: EntryNameView) -> bool {
    &&& !(name is Pseudo)
    &&& name_bytes(name).len() <= usize::MAX
    &&& static_indices(name) is None ==> header_name_from_text(name_bytes(name)) is Some
}

/// The name a header name reads back as once written: itself when the static table holds
/// it, otherwise the name its bytes read as (a known name, or the bytes lowercased).
pub open spec fn read_name(name: EntryNameView) -> EntryNameView {
    if static_indices(name) is Some {
        name
    } else {
        header_name_from_text(name_bytes(name))->Some_0
    }
}

/// Headers with each name as it reads back once written.
pub open spec fn read_names(headers: HeadersView) -> HeadersView {
    headers.map_values(|e: (EntryNameView, Seq<Seq<u8>>)| (read_name(e.0), e.1))
}

/// One header line reads back as the name and the value.
proof fn lemma_header_line(name: EntryNameView, value: Seq<u8>, rest: Seq<u8>)
    requires
        encodable_header_name(name),
        value.len() <= usize::MAX,
    ensures
        header_line_encoding(name, value).len() > 0,
        static_line_decoding(header_line_encoding(name, value) + rest) == Ok::<
            (SectionLineView, nat),
            crate::decoder::DecoderError,
        >((SectionLineView::Header(read_name(name), value, false), header_line_encoding(name, value).len())),
{
    lemma_static_indices_valid(name);
    lemma_static_indices_name(name);
    reveal(indexed_encoding);
    reveal(name_ref_encoding);
    reveal(literal_name_encoding);
    match spec_static_lookup(name, Some(value)) {
        StaticLookup::FullMatch(i) => {
            let indices = static_indices(name)->Some_0;
            lemma_first_value_match(indices, value, 0);
            let k = choose|k: int|
                0 <= k < indices.len() && indices[k] == i && static_table_entry(i).1.spec_bytes()
                    == value;
            assert(static_name_view(static_table_entry(indices[k]).0) == name);
            crate::varint::lemma_encoding_first_byte(i as nat, 6);
            lemma_indexed_line(i, rest);
        },
        StaticLookup::NameMatch(i) => {
            let indices = static_indices(name)->Some_0;
            assert(static_name_view(static_table_entry(indices[0]).0) == name);
            crate::varint::lemma_encoding_first_byte(i as nat, 4);
            lemma_name_ref_line(i, value, rest);
        },
        StaticLookup::NoMatch => {
            crate::field_section::lemma_string_literal_nonempty(name_bytes(name), 3);
            lemma_literal_name_line(name_bytes(name), value, rest);
        },
    }
}

/// The statuses held by the static table read back from their entries.
proof fn lemma_static_status(index: u8, status: Status)
    requires
        static_status_index(status) == Some(index),
    ensures
        indexed_line(static_table_entry(index)) == Ok::<SectionLineView, crate::decoder::DecoderError>(
            SectionLineView::Pseudo(PseudoHeaderView::Status(status)),
        ),
{
    broadcast use vstd::string::group_string_axioms;
    reveal_with_fuel(decimal, 3);
    lemma_status_text_roundtrip(status);
    match status {
        Status::EarlyHints => {
            reveal_strlit("103");
            let t = "103";
            assert(t@ =~= seq!['1', '0', '3']);
            assert(vstd::string::is_ascii(t));
            assert(t.spec_bytes() =~= decimal(103));
        },
        Status::Okay => {
            reveal_strlit("200");
            let t = "200";
            assert(t@ =~= seq!['2', '0', '0']);
            assert(vstd::string::is_ascii(t));
            assert(t.spec_bytes() =~= decimal(200));
        },
        Status::NotModified => {
            reveal_strlit("304");
            let t = "304";
            assert(t@ =~= seq!['3', '0', '4']);
            assert(vstd::string::is_ascii(t));
            assert(t.spec_bytes() =~= decimal(304));
        },
        Status::NotFound => {
            reveal_strlit("404");
            let t = "404";
            assert(t@ =~= seq!['4', '0', '4']);
            assert(vstd::string::is_ascii(t));
            assert(t.spec_bytes() =~= decimal(404));
        },
        Status::ServiceUnavailable => {
            reveal_strlit("503");
            let t = "503";
            assert(t@ =~= seq!['5', '0', '3']);
            assert(vstd::string::is_ascii(t));
            assert(t.spec_bytes() =~= decimal(503));
        },
        Status::Continue => {
            reveal_strlit("100");
            let t = "100";
            assert(t@ =~= seq!['1', '0', '0']);
            assert(vstd::string::is_ascii(t));
            assert(t.spec_bytes() =~= decimal(100));
        },
        Status::NoContent => {
            reveal_strlit("204");
            let t = "204";
            assert(t@ =~= seq!['2', '0', '4']);
            assert(vstd::string::is_ascii(t));
            assert(t.spec_bytes() =~= decimal(204));
        },
        Status::PartialContent => {
            reveal_strlit("206");
            let t = "206";
            assert(t@ =~= seq!['2', '0', '6']);
            assert(vstd::string::is_ascii(t));
            assert(t.spec_bytes() =~= decimal(206));
        },
        Status::Found => {
            reveal_strlit("302");
            let t = "302";
            assert(t@ =~= seq!['3', '0', '2']);
            assert(vstd::string::is_ascii(t));
            assert(t.spec_bytes() =~= decimal(302));
        },
        Status::BadRequest => {
            reveal_strlit("400");
            let t = "400";
            assert(t@ =~= seq!['4', '0', '0']);
            assert(vstd::string::is_ascii(t));
            assert(t.spec_bytes() =~= decimal(400));
        },
        Status::Forbidden => {
            reveal_strlit("403");
            let t = "403";
            assert(t@ =~= seq!['4', '0', '3']);
            assert(vstd::string::is_ascii(t));
            assert(t.spec_bytes() =~= decimal(403));
        },
        Status::MisdirectedRequest => {
            reveal_strlit("421");
            let t = "421";
            assert(t@ =~= seq!['4', '2', '1']);
            assert(vstd::string::is_ascii(t));
            assert(t.spec_bytes() =~= decimal(421));
        },
        Status::TooEarly => {
            reveal_strlit("425");
            let t = "425";
            assert(t@ =~= seq!['4', '2', '5']);
            assert(vstd::string::is_ascii(t));
            assert(t.spec_bytes() =~= decimal(425));
        },
        Status::InternalServerError => {
            reveal_strlit("500");
            let t = "500";
            assert(t@ =~= seq!['5', '0', '0']);
            assert(vstd::string::is_ascii(t));
            assert(t.spec_bytes() =~= decimal(500));
        },
        _ => {},
    }
}

/// The methods held by the static table read back from their entries.
proof fn lemma_static_method(index: u8, method: Method)
    requires
        static_method_index(method) == Some(index),
    ensures
        indexed_line(static_table_entry(index)) == Ok::<SectionLineView, crate::decoder::DecoderError>(
            SectionLineView::Pseudo(PseudoHeaderView::Method(method)),
        ),
{
    lemma_method_str_bytes(method);
    lemma_method_bytes_roundtrip(method);
}

/// `:method` reads back.
proof fn lemma_method_line(method: Method, rest: Seq<u8>)
    ensures
        method_encoding(method).len() > 0,
        static_line_decoding(method_encoding(method) + rest) == Ok::<
            (SectionLineView, nat),
            crate::decoder::DecoderError,
        >(
            (
                SectionLineView::Pseudo(PseudoHeaderView::Method(method)),
                method_encoding(method).len(),
            ),
        ),
{
    reveal(indexed_encoding);
    reveal(name_ref_encoding);
    match static_method_index(method) {
        Some(i) => {
            crate::varint::lemma_encoding_first_byte(i as nat, 6);
            lemma_static_method(i, method);
            lemma_indexed_line(i, rest);
        },
        None => {
            crate::varint::lemma_encoding_first_byte(15, 4);
            lemma_method_bytes_roundtrip(method);
            assert(crate::method::method_bytes(method).len() <= 17);
            lemma_name_ref_line(15, crate::method::method_bytes(method), rest);
        },
    }
}

/// `:status` reads back.
proof fn lemma_status_line(status: Status, rest: Seq<u8>)
    ensures
        status_encoding(status).len() > 0,
        static_line_decoding(status_encoding(status) + rest) == Ok::<
            (SectionLineView, nat),
            crate::decoder::DecoderError,
        >(
            (
                SectionLineView::Pseudo(PseudoHeaderView::Status(status)),
                status_encoding(status).len(),
            ),
        ),
{
    reveal(indexed_encoding);
    reveal(name_ref_encoding);
    match static_status_index(status) {
        Some(i) => {
            crate::varint::lemma_encoding_first_byte(i as nat, 6);
            lemma_static_status(i, status);
            lemma_indexed_line(i, rest);
        },
        None => {
            crate::varint::lemma_encoding_first_byte(24, 4);
            lemma_status_text_roundtrip(status);
            crate::status::lemma_decimal_roundtrip(crate::status::status_code(status));
            lemma_name_ref_line(24, decimal(crate::status::status_code(status) as nat), rest);
        },
    }
}

/// Text whose UTF-8 form is the bytes of `text` is the text itself.
proof fn lemma_same_text(value: Seq<char>, text: &str)
    requires
        encode_utf8(value) == text.spec_bytes(),
    ensures
        value == text@,
{
    vstd::utf8::encode_utf8_decode_utf8(value);
    vstd::utf8::encode_utf8_decode_utf8(text@);
}

/// The static entries that a pseudo-header's full match picks hold its text.
proof fn lemma_full_match_text(name: PseudoHeaderName, value: Seq<char>, index: u8)
    requires
        pseudo_full_match(name, encode_utf8(value)) == Some(index),
    ensures
        index < 99,
        static_table_entry(index).0 == StaticHeaderName::Pseudo(name),
        static_table_entry(index).1@ == value,
{
    broadcast use vstd::string::group_string_axioms;
    if index == 1 {
        reveal_strlit("/");
        let t = "/";
        assert(t@ =~= seq!['/']);
        assert(vstd::string::is_ascii(t));
        assert(t.spec_bytes() =~= encode_utf8(value));
        lemma_same_text(value, t);
    } else if index == 22 {
        reveal_strlit("http");
        let t = "http";
        assert(t@ =~= seq!['h', 't', 't', 'p']);
        assert(vstd::string::is_ascii(t));
        assert(t.spec_bytes() =~= encode_utf8(value));
        lemma_same_text(value, t);
    } else {
        reveal_strlit("https");
        let t = "https";
        assert(t@ =~= seq!['h', 't', 't', 'p', 's']);
        assert(vstd::string::is_ascii(t));
        assert(t.spec_bytes() =~= encode_utf8(value));
        lemma_same_text(value, t);
    }
}

/// `:path`, `:scheme` or `:authority` with a text value reads back.
proof fn lemma_text_line(name: PseudoHeaderName, value: Seq<char>, name_index: u8, rest: Seq<u8>)
    requires
        (name == PseudoHeaderName::Path && name_index == 1) || (name == PseudoHeaderName::Scheme
            && name_index == 22) || (name == PseudoHeaderName::Authority && name_index == 0),
        encode_utf8(value).len() <= usize::MAX,
    ensures
        pseudo_string_encoding(name, encode_utf8(value), name_index).len() > 0,
        static_line_decoding(pseudo_string_encoding(name, encode_utf8(value), name_index) + rest)
            == Ok::<(SectionLineView, nat), crate::decoder::DecoderError>(
            (
                SectionLineView::Pseudo(PseudoHeaderView::Other(name, value)),
                pseudo_string_encoding(name, encode_utf8(value), name_index).len(),
            ),
        ),
{
    reveal(indexed_encoding);
    reveal(name_ref_encoding);
    let bytes = encode_utf8(value);
    match pseudo_full_match(name, bytes) {
        Some(i) => {
            crate::varint::lemma_encoding_first_byte(i as nat, 6);
            lemma_full_match_text(name, value, i);
            lemma_indexed_line(i, rest);
        },
        None => {
            crate::varint::lemma_encoding_first_byte(name_index as nat, 4);
            vstd::utf8::encode_utf8_valid_utf8(value);
            vstd::utf8::encode_utf8_decode_utf8(value);
            lemma_name_ref_line(name_index, bytes, rest);
        },
    }
}

/// Adding an optional line: nothing when it is absent.
pub open spec fn apply_optional(section: FieldSectionView, line: Option<SectionLineView>) -> FieldSectionView {
    match line {
        Some(l) => apply_line(section, l),
        None => section,
    }
}

/// An optional line (its encoding empty when absent) reads back.
proof fn lemma_optional_step(
    head: Seq<u8>,
    rest: Seq<u8>,
    section: FieldSectionView,
    line: Option<SectionLineView>,
)
    requires
        line is None ==> head.len() == 0,
        line matches Some(l) ==> head.len() > 0 && static_line_decoding(head + rest) == Ok::<
            (SectionLineView, nat),
            crate::decoder::DecoderError,
        >((l, head.len())),
    ensures
        lines_decoding(head + rest, section) == lines_decoding(rest, apply_optional(section, line)),
{
    match line {
        Some(l) => lemma_lines_step(head, rest, section, l),
        None => {
            assert(head + rest =~= rest);
        },
    }
}

/// The pseudo-header texts that the encoder can write so that they read back: no
/// `:protocol` (it goes out under a literal name, which the static decoder refuses), and
/// texts whose UTF-8 form fits in memory.
pub open spec fn encodable_pseudo_headers(pseudos: PseudoHeadersView) -> bool {
    &&& pseudos.protocol is None
    &&& pseudos.path matches Some(v) ==> encode_utf8(v).len() <= usize::MAX
    &&& pseudos.scheme matches Some(v) ==> encode_utf8(v).len() <= usize::MAX
    &&& pseudos.authority matches Some(v) ==> encode_utf8(v).len() <= usize::MAX
}

pub open spec fn text_pseudo(name: PseudoHeaderName, value: Option<Seq<char>>) -> Option<SectionLineView> {
    match value {
        Some(v) => Some(SectionLineView::Pseudo(PseudoHeaderView::Other(name, v))),
        None => None,
    }
}

proof fn lemma_text_step(
    name: PseudoHeaderName,
    value: Option<Seq<char>>,
    name_index: u8,
    rest: Seq<u8>,
    section: FieldSectionView,
)
    requires
        (name == PseudoHeaderName::Path && name_index == 1) || (name == PseudoHeaderName::Scheme
            && name_index == 22) || (name == PseudoHeaderName::Authority && name_index == 0),
        value matches Some(v) ==> encode_utf8(v).len() <= usize::MAX,
    ensures
        lines_decoding(text_line(name, value, name_index) + rest, section) == lines_decoding(
            rest,
            apply_optional(section, text_pseudo(name, value)),
        ),
{
    if let Some(v) = value {
        lemma_text_line(name, v, name_index, rest);
    }
    lemma_optional_step(text_line(name, value, name_index), rest, section, text_pseudo(name, value));
}

/// The pseudo-header lines read back into an empty set of pseudo-headers give the
/// pseudo-headers.
#[verifier::spinoff_prover]
#[verifier::rlimit(40)]
proof fn lemma_pseudo_lines(pseudos: PseudoHeadersView, rest: Seq<u8>, section: FieldSectionView)
    requires
        encodable_pseudo_headers(pseudos),
        section.pseudo_headers == no_pseudo_headers(),
    ensures
        lines_decoding(pseudo_headers_encoding(pseudos) + rest, section) == lines_decoding(
            rest,
            FieldSectionView { pseudo_headers: pseudos, headers: section.headers, never_indexed: section.never_indexed },
        ),
{
    let m = method_line(pseudos.method);
    let st = status_line(pseudos.status);
    let pa = text_line(PseudoHeaderName::Path, pseudos.path, 1);
    let sc = text_line(PseudoHeaderName::Scheme, pseudos.scheme, 22);
    let au = text_line(PseudoHeaderName::Authority, pseudos.authority, 0);
    let pr = protocol_line(pseudos.protocol);
    assert(pr =~= Seq::<u8>::empty());
    assert(pseudo_headers_encoding(pseudos) + rest =~= m + (st + (pa + (sc + (au + rest)))));
    let ml = match pseudos.method {
        Some(x) => Some(SectionLineView::Pseudo(PseudoHeaderView::Method(x))),
        None => None,
    };
    let sl = match pseudos.status {
        Some(x) => Some(SectionLineView::Pseudo(PseudoHeaderView::Status(x))),
        None => None,
    };
    if let Some(x) = pseudos.method {
        lemma_method_line(x, st + (pa + (sc + (au + rest))));
    }
    lemma_optional_step(m, st + (pa + (sc + (au + rest))), section, ml);
    let s1 = apply_optional(section, ml);
    if let Some(x) = pseudos.status {
        lemma_status_line(x, pa + (sc + (au + rest)));
    }
    lemma_optional_step(st, pa + (sc + (au + rest)), s1, sl);
    let s2 = apply_optional(s1, sl);
    lemma_text_step(PseudoHeaderName::Path, pseudos.path, 1, sc + (au + rest), s2);
    let s3 = apply_optional(s2, text_pseudo(PseudoHeaderName::Path, pseudos.path));
    lemma_text_step(PseudoHeaderName::Scheme, pseudos.scheme, 22, au + rest, s3);
    let s4 = apply_optional(s3, text_pseudo(PseudoHeaderName::Scheme, pseudos.scheme));
    lemma_text_step(PseudoHeaderName::Authority, pseudos.authority, 0, rest, s4);
    let s5 = apply_optional(s4, text_pseudo(PseudoHeaderName::Authority, pseudos.authority));
    assert(s5 == FieldSectionView { pseudo_headers: pseudos, headers: section.headers, never_indexed: section.never_indexed });
}

/// Appending each of `values` under `name`, in order.
pub open spec fn append_values(headers: HeadersView, name: EntryNameView, values: Seq<Seq<u8>>) -> HeadersView
    decreases values.len(),
{
    if values.len() == 0 {
        headers
    } else {
        headers_append(append_values(headers, name, values.drop_last()), name, values.last())
    }
}

/// Appending every value of every name of `entries`, in order.
pub open spec fn append_all(headers: HeadersView, entries: HeadersView) -> HeadersView
    decreases entries.len(),
{
    if entries.len() == 0 {
        headers
    } else {
        append_values(append_all(headers, entries.drop_last()), entries.last().0, entries.last().1)
    }
}

pub open spec fn with_headers(section: FieldSectionView, headers: HeadersView) -> FieldSectionView {
    FieldSectionView { pseudo_headers: section.pseudo_headers, headers, never_indexed: section.never_indexed }
}

/// The values of one name read back as appends of each value under the name.
proof fn lemma_values_lines(
    name: EntryNameView,
    values: Seq<Seq<u8>>,
    rest: Seq<u8>,
    section: FieldSectionView,
)
    requires
        encodable_header_name(name),
        forall|k: int| 0 <= k < values.len() ==> (#[trigger] values[k]).len() <= usize::MAX,
    ensures
        lines_decoding(values_encoding(name, values) + rest, section) == lines_decoding(
            rest,
            with_headers(section, append_values(section.headers, read_name(name), values)),
        ),
    decreases values.len(),
{
    if values.len() == 0 {
        assert(values_encoding(name, values) + rest =~= rest);
        assert(with_headers(section, section.headers) == section);
    } else {
        let last = values.last();
        let line = header_line_encoding(name, last);
        let init = values.drop_last();
        assert(values_encoding(name, values) + rest =~= values_encoding(name, init) + (line + rest));
        lemma_values_lines(name, init, line + rest, section);
        let mid = with_headers(section, append_values(section.headers, read_name(name), init));
        lemma_header_line(name, last, rest);
        lemma_lines_step(line, rest, mid, SectionLineView::Header(read_name(name), last, false));
    }
}

/// Every header reads back as appends of its values under its name.
proof fn lemma_headers_lines(entries: HeadersView, rest: Seq<u8>, section: FieldSectionView)
    requires
        forall|i: int| 0 <= i < entries.len() ==> encodable_header_name(#[trigger] entries[i].0),
        forall|i: int, k: int|
            0 <= i < entries.len() && 0 <= k < entries[i].1.len() ==> (
            #[trigger] entries[i].1[k]).len() <= usize::MAX,
    ensures
        lines_decoding(headers_encoding(entries) + rest, section) == lines_decoding(
            rest,
            with_headers(section, append_all(section.headers, read_names(entries))),
        ),
    decreases entries.len(),
{
    if entries.len() == 0 {
        assert(headers_encoding(entries) + rest =~= rest);
        assert(read_names(entries) =~= Seq::<(EntryNameView, Seq<Seq<u8>>)>::empty());
        assert(with_headers(section, section.headers) == section);
    } else {
        let init = entries.drop_last();
        let (name, values) = entries.last();
        let lines = values_encoding(name, values);
        assert(headers_encoding(entries) + rest =~= headers_encoding(init) + (lines + rest));
        assert forall|i: int| 0 <= i < init.len() implies encodable_header_name(
            #[trigger] init[i].0,
        ) by {
            assert(init[i] == entries[i]);
        }
        assert forall|i: int, k: int|
            0 <= i < init.len() && 0 <= k < init[i].1.len() implies (
            #[trigger] init[i].1[k]).len() <= usize::MAX by {
            assert(init[i] == entries[i]);
        }
        lemma_headers_lines(init, lines + rest, section);
        assert(read_names(entries).drop_last() =~= read_names(init));
        assert(read_names(entries).last() == (read_name(name), values));
        let mid = with_headers(section, append_all(section.headers, read_names(init)));
        assert(entries[entries.len() - 1] == (name, values));
        assert forall|k: int| 0 <= k < values.len() implies (#[trigger] values[k]).len()
            <= usize::MAX by {
            assert(entries[entries.len() - 1].1[k] == values[k]);
        }
        lemma_values_lines(name, values, rest, mid);
    }
}

/// Where a name stands when exactly one entry has it.
proof fn lemma_position_unique(headers: HeadersView, name: EntryNameView, i: int)
    requires
        0 <= i < headers.len(),
        headers[i].0 == name,
        forall|j: int| 0 <= j < headers.len() && j != i ==> (#[trigger] headers[j]).0 != name,
    ensures
        crate::headers::header_position(headers, name) == Some(i),
{
}

/// Appending the values of a new name adds it last with those values.
pub(crate) proof fn lemma_append_values_new(headers: HeadersView, name: EntryNameView, values: Seq<Seq<u8>>)
    requires
        values.len() > 0,
        forall|j: int| 0 <= j < headers.len() ==> (#[trigger] headers[j]).0 != name,
    ensures
        append_values(headers, name, values) == headers.push((name, values)),
    decreases values.len(),
{
    let init = values.drop_last();
    if init.len() == 0 {
        assert(append_values(headers, name, init) == headers);
        assert(crate::headers::header_position(headers, name) is None);
        assert(seq![values.last()] =~= values);
    } else {
        lemma_append_values_new(headers, name, init);
        let mid = headers.push((name, init));
        assert forall|j: int| 0 <= j < mid.len() && j != headers.len() implies (
        #[trigger] mid[j]).0 != name by {
            assert(mid[j] == headers[j]);
        }
        lemma_position_unique(mid, name, headers.len() as int);
        assert(init.push(values.last()) =~= values);
        assert(mid.update(headers.len() as int, (name, values)) =~= headers.push((name, values)));
    }
}

/// Appending every value of a well-formed header map to nothing rebuilds it.
proof fn lemma_append_all(entries: HeadersView)
    requires
        headers_wf(entries),
    ensures
        append_all(Seq::empty(), entries) == entries,
    decreases entries.len(),
{
    if entries.len() > 0 {
        let init = entries.drop_last();
        assert(headers_wf(init)) by {
            assert forall|i: int| 0 <= i < init.len() implies init[i] == entries[i] by {}
        }
        lemma_append_all(init);
        let (name, values) = entries.last();
        assert(entries[entries.len() - 1] == (name, values));
        assert forall|j: int| 0 <= j < init.len() implies (#[trigger] init[j]).0 != name by {
            assert(init[j] == entries[j]);
        }
        lemma_append_values_new(init, name, values);
        assert(init.push((name, values)) =~= entries);
    }
}

/// A field section that the static encoder writes so that it reads back: well-formed
/// headers whose names it can write, that stay distinct as they read back, and whose values
/// fit in memory, and pseudo-headers it can write.
pub open spec fn encodable_section(section: FieldSectionView) -> bool {
    &&& headers_wf(section.headers)
    &&& forall|i: int|
        0 <= i < section.headers.len() ==> encodable_header_name(#[trigger] section.headers[i].0)
    &&& forall|i: int, j: int|
        0 <= i < j < section.headers.len() ==> read_name((#[trigger] section.headers[i]).0) != read_name(
            (#[trigger] section.headers[j]).0,
        )
    &&& forall|i: int, k: int|
        0 <= i < section.headers.len() && 0 <= k < section.headers[i].1.len() ==> (
        #[trigger] section.headers[i].1[k]).len() <= usize::MAX
    &&& encodable_pseudo_headers(section.pseudo_headers)
}

/// The field section a peer reads from what the static encoder wrote: the same
/// pseudo-headers, each header name as it reads back with its values in order, and no
/// never-indexed marks (the static encoder writes no N bit).
pub open spec fn section_as_read(section: FieldSectionView) -> FieldSectionView {
    FieldSectionView {
        pseudo_headers: section.pseudo_headers,
        headers: read_names(section.headers),
        never_indexed: Seq::empty(),
    }
}

/// Decoding what the static encoder wrote gives back the field section: its pseudo-headers
/// and its headers, each name as it reads back (a known name, or an unknown name in
/// lowercase), with the same values in the same order; exactly the section itself when its
/// names already read back as themselves and none of its values is marked never-indexed.
pub proof fn lemma_field_section_roundtrip(section: FieldSectionView)
    requires
        encodable_section(section),
    ensures
        field_section_decoding(field_section_encoding(section)) == Ok::<
            FieldSectionView,
            crate::decoder::DecoderError,
        >(section_as_read(section)),
        (forall|i: int| 0 <= i < section.headers.len() ==> read_name((#[trigger] section.headers[i]).0)
            == section.headers[i].0) && section.never_indexed.len() == 0 ==> section_as_read(section)
            == section,
{
    let p = encoding(0, 8);
    let d = encoding(0, 7);
    let body = pseudo_headers_encoding(section.pseudo_headers) + headers_encoding(section.headers);
    let input = field_section_encoding(section);
    assert(input =~= p + (d + body));
    crate::varint::lemma_decode_encode(0, 8, d + body);
    let rest = input.subrange(p.len() as int, input.len() as int);
    assert(rest =~= d + body);
    crate::varint::lemma_decode_encode(0, 7, body);
    assert(rest.subrange(d.len() as int, rest.len() as int) =~= body);
    let empty = empty_section();
    assert(body + Seq::<u8>::empty() =~= body);
    lemma_pseudo_lines(
        section.pseudo_headers,
        headers_encoding(section.headers) + Seq::<u8>::empty(),
        empty,
    );
    assert(pseudo_headers_encoding(section.pseudo_headers) + (headers_encoding(section.headers)
        + Seq::<u8>::empty()) =~= body);
    let after = FieldSectionView {
        pseudo_headers: section.pseudo_headers,
        headers: Seq::<(EntryNameView, Seq<Seq<u8>>)>::empty(),
        never_indexed: Seq::<(EntryNameView, nat)>::empty(),
    };
    lemma_headers_lines(section.headers, Seq::<u8>::empty(), after);
    let read = read_names(section.headers);
    assert(headers_wf(read)) by {
        assert forall|i: int| 0 <= i < read.len() implies !((#[trigger] read[i]).0 is Pseudo) by {
            assert(read[i].0 == read_name(section.headers[i].0));
        }
        assert forall|i: int| 0 <= i < read.len() implies (#[trigger] read[i]).1.len() > 0 by {
            assert(read[i].1 == section.headers[i].1);
        }
        assert forall|i: int, j: int| 0 <= i < j < read.len() implies (#[trigger] read[i]).0 != (
        #[trigger] read[j]).0 by {
            assert(read[i].0 == read_name(section.headers[i].0));
            assert(read[j].0 == read_name(section.headers[j].0));
        }
    }
    lemma_append_all(read);
    assert(with_headers(after, append_all(Seq::empty(), read)) == section_as_read(section));
    reveal(lines_decoding);
    if (forall|i: int| 0 <= i < section.headers.len() ==> read_name((#[trigger] section.headers[i]).0)
        == section.headers[i].0) && section.never_indexed.len() == 0 {
        assert(read =~= section.headers);
        assert(section.never_indexed =~= Seq::<(EntryNameView, nat)>::empty());
    }
}

} // verus!
