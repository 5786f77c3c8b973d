//! Decoding of static-only field sections (RFC 9204 §4.5 without the dynamic table).
use vstd::prelude::*;
use vstd::string::StringSliceAdditionalSpecFns;
use vstd::utf8::{decode_utf8, valid_utf8};
use crate::entry_name::{known_from_bytes, known_with_bytes, EntryName, EntryNameView};
use crate::header_name::{into_lower, is_valid, lowercase, valid_name};
use crate::headers::{
    headers_append, marks_append, no_pseudo_headers, FieldSection, FieldSectionView, Headers, PseudoHeaders,
    PseudoHeadersView,
};
use crate::huffman::HuffmanError;
use crate::instruction::{decode_string, string_literal_decoding, QpackError};
use crate::method::{method_with_bytes, Method};
use crate::static_table::{static_entry, static_table_entry, PseudoHeaderName, StaticHeaderName};
use crate::status::{status_from_text, Status};
use crate::varint::{self, decoding, VarIntError};

verus! {

/// Errors that can occur during QPACK decoding.
#[derive(Debug, Clone, Copy, PartialEq, Eq)]
pub enum DecoderError {
    Huffman(HuffmanError),
    VarInt(VarIntError),
    InvalidStaticIndex(usize),
    DynamicTableUnsupported,
    UnexpectedEnd,
    NonZeroInsertCount,
    InvalidHeaderName,
    InvalidHeaderValue,
    UnrecognizedMethod,
    InvalidStatus,
}

/// The decoder's error for a failed string literal.
pub open spec fn literal_error(e: QpackError) -> DecoderError {
    match e {
        QpackError::VarInt(v) => DecoderError::VarInt(v),
        QpackError::Huffman(h) => DecoderError::Huffman(h),
        _ => DecoderError::UnexpectedEnd,
    }
}

fn to_decoder_error(e: QpackError) -> (d: DecoderError)
    ensures
        d == literal_error(e),
{
    match e {
        QpackError::VarInt(v) => DecoderError::VarInt(v),
        QpackError::Huffman(h) => DecoderError::Huffman(h),
        _ => DecoderError::UnexpectedEnd,
    }
}

/// `String::from_utf8`: the text that `bytes` encode when they are valid UTF-8, else the
/// bytes back (the error's `into_bytes`).
#[verifier::external_body]
pub(crate) fn string_from_utf8(bytes: Vec<u8>) -> (text: Result<String, Vec<u8>>)
    ensures
        match text {
            Ok(t) => valid_utf8(bytes@) && t@ == decode_utf8(bytes@),
            Err(b) => !valid_utf8(bytes@) && b@ == bytes@,
        },
{
    String::from_utf8(bytes).map_err(|e| e.into_bytes())
}

/// A decoded pseudo-header.
#[derive(Debug)]
pub enum PseudoHeader {
    Method(Method),
    Status(Status),
    Other(PseudoHeaderName, String),
}

/// The value of a [`PseudoHeader`].
pub enum PseudoHeaderView {
    Method(Method),
    Status(Status),
    Other(PseudoHeaderName, Seq<char>),
}

impl View for PseudoHeader {
    type V = PseudoHeaderView;

    open spec fn view(&self) -> PseudoHeaderView {
        match self {
            PseudoHeader::Method(m) => PseudoHeaderView::Method(*m),
            PseudoHeader::Status(s) => PseudoHeaderView::Status(*s),
            PseudoHeader::Other(n, v) => PseudoHeaderView::Other(*n, v@),
        }
    }
}

/// A decoded field line: a regular header, or a pseudo-header.
#[derive(Debug)]
pub enum SectionLine {
    /// A regular header: its name, its value, and whether it arrived never-indexed.
    Header(EntryName, Vec<u8>, bool),
    Pseudo(PseudoHeader),
}

/// The value of a [`SectionLine`].
pub enum SectionLineView {
    Header(EntryNameView, Seq<u8>, bool),
    Pseudo(PseudoHeaderView),
}

impl View for SectionLine {
    type V = SectionLineView;

    open spec fn view(&self) -> SectionLineView {
        match self {
            SectionLine::Header(n, v, f) => SectionLineView::Header(n@, v@, *f),
            SectionLine::Pseudo(p) => SectionLineView::Pseudo(p@),
        }
    }
}

/// Setting a pseudo-header: the first value of each one wins.
pub open spec fn apply_pseudo(pseudos: PseudoHeadersView, pseudo: PseudoHeaderView) -> PseudoHeadersView {
    match pseudo {
        PseudoHeaderView::Method(m) => PseudoHeadersView {
            method: if pseudos.method is None {
                Some(m)
            } else {
                pseudos.method
            },
            ..pseudos
        },
        PseudoHeaderView::Status(s) => PseudoHeadersView {
            status: if pseudos.status is None {
                Some(s)
            } else {
                pseudos.status
            },
            ..pseudos
        },
        PseudoHeaderView::Other(PseudoHeaderName::Authority, v) => PseudoHeadersView {
            authority: if pseudos.authority is None {
                Some(v)
            } else {
                pseudos.authority
            },
            ..pseudos
        },
        PseudoHeaderView::Other(PseudoHeaderName::Path, v) => PseudoHeadersView {
            path: if pseudos.path is None {
                Some(v)
            } else {
                pseudos.path
            },
            ..pseudos
        },
        PseudoHeaderView::Other(PseudoHeaderName::Scheme, v) => PseudoHeadersView {
            scheme: if pseudos.scheme is None {
                Some(v)
            } else {
                pseudos.scheme
            },
            ..pseudos
        },
        PseudoHeaderView::Other(PseudoHeaderName::Protocol, v) => PseudoHeadersView {
            protocol: if pseudos.protocol is None {
                Some(v)
            } else {
                pseudos.protocol
            },
            ..pseudos
        },
        PseudoHeaderView::Other(_, _) => pseudos,
    }
}

fn set_if_unset(slot: &mut Option<String>, value: String)
    ensures
        match *old(slot) {
            Some(t) => *final(slot) == Some(t),
            None => *final(slot) == Some(value),
        },
{
    if slot.is_none() {
        *slot = Some(value);
    }
}

impl PseudoHeader {
    /// Set the corresponding field on `PseudoHeaders`. First value wins.
    pub fn apply(self, pseudos: &mut PseudoHeaders)
        ensures
            final(pseudos)@ == apply_pseudo(old(pseudos)@, self@),
    {
        match self {
            PseudoHeader::Method(m) => {
                if pseudos.method.is_none() {
                    pseudos.method = Some(m);
                }
            },
            PseudoHeader::Status(s) => {
                if pseudos.status.is_none() {
                    pseudos.status = Some(s);
                }
            },
            PseudoHeader::Other(PseudoHeaderName::Authority, v) => set_if_unset(
                &mut pseudos.authority,
                v,
            ),
            PseudoHeader::Other(PseudoHeaderName::Path, v) => set_if_unset(&mut pseudos.path, v),
            PseudoHeader::Other(PseudoHeaderName::Scheme, v) => set_if_unset(
                &mut pseudos.scheme,
                v,
            ),
            PseudoHeader::Other(PseudoHeaderName::Protocol, v) => set_if_unset(
                &mut pseudos.protocol,
                v,
            ),
            PseudoHeader::Other(_, _) => {},
        }
    }
}

/// Reading a literal header name: any non-empty token, case-insensitively; a known name
/// when its lowercase form is one, otherwise held in lowercase.
pub open spec fn header_name_from_text(bytes: Seq<u8>) -> Option<EntryNameView> {
    if !valid_name(bytes) {
        None
    } else {
        match known_with_bytes(lowercase(bytes), 0) {
            Some(k) => Some(EntryNameView::Known(k)),
            None => Some(EntryNameView::Unknown(lowercase(bytes))),
        }
    }
}

/// Parse a literal header name (see [`header_name_from_text`]).
pub fn parse_header_name(bytes: &[u8]) -> (name: Option<EntryName>)
    ensures
        match header_name_from_text(bytes@) {
            Some(n) => name matches Some(v) && v@ == n,
            None => name is None,
        },
{
    if !is_valid(bytes) {
        return None;
    }
    let lower = into_lower(bytes);
    match known_from_bytes(lower.as_slice()) {
        Some(k) => Some(EntryName::Known(k)),
        None => Some(EntryName::Unknown(lower)),
    }
}

/// The field line of static-table entry `entry` used whole (§4.5.2).
pub open spec fn indexed_line(entry: (StaticHeaderName, &'static str)) -> Result<SectionLineView, DecoderError> {
    match entry.0 {
        StaticHeaderName::Header(known) => Ok(
            SectionLineView::Header(EntryNameView::Known(known), entry.1.spec_bytes(), false),
        ),
        StaticHeaderName::Pseudo(PseudoHeaderName::Method) => match method_with_bytes(
            entry.1.spec_bytes(),
            0,
        ) {
            Some(m) => Ok(SectionLineView::Pseudo(PseudoHeaderView::Method(m))),
            None => Err(DecoderError::UnrecognizedMethod),
        },
        StaticHeaderName::Pseudo(PseudoHeaderName::Status) => match status_from_text(
            entry.1.spec_bytes(),
        ) {
            Some(s) => Ok(SectionLineView::Pseudo(PseudoHeaderView::Status(s))),
            None => Err(DecoderError::InvalidStatus),
        },
        StaticHeaderName::Pseudo(other) => Ok(
            SectionLineView::Pseudo(PseudoHeaderView::Other(other, entry.1@)),
        ),
    }
}

/// The field line of static name `name` with literal value `value` (§4.5.4).
pub open spec fn name_ref_line(name: StaticHeaderName, value: Seq<u8>) -> Result<SectionLineView, DecoderError> {
    match name {
        StaticHeaderName::Header(known) => Ok(
            SectionLineView::Header(EntryNameView::Known(known), value, false),
        ),
        StaticHeaderName::Pseudo(PseudoHeaderName::Method) => match method_with_bytes(value, 0) {
            Some(m) => Ok(SectionLineView::Pseudo(PseudoHeaderView::Method(m))),
            None => Err(DecoderError::UnrecognizedMethod),
        },
        StaticHeaderName::Pseudo(PseudoHeaderName::Status) => match status_from_text(value) {
            Some(s) => Ok(SectionLineView::Pseudo(PseudoHeaderView::Status(s))),
            None => Err(DecoderError::InvalidStatus),
        },
        StaticHeaderName::Pseudo(other) => if valid_utf8(value) {
            Ok(SectionLineView::Pseudo(PseudoHeaderView::Other(other, decode_utf8(value))))
        } else {
            Err(DecoderError::InvalidHeaderValue)
        },
    }
}

/// Decoding one field line of a static-only field section from the start of `input`: the
/// line and the number of bytes it occupies.
#[verifier::opaque]
pub open spec fn static_line_decoding(input: Seq<u8>) -> Result<(SectionLineView, nat), DecoderError>
    recommends
        input.len() > 0,
{
    let first = input[0];
    if first & 0x80 != 0 {
        if first & 0x40 == 0 {
            Err(DecoderError::DynamicTableUnsupported)
        } else {
            match decoding(input, 6) {
                Err(e) => Err(DecoderError::VarInt(e)),
                Ok((index, n)) => if index >= 99 {
                    Err(DecoderError::InvalidStaticIndex(index))
                } else {
                    match indexed_line(static_table_entry(index as u8)) {
                        Ok(line) => Ok((line, n)),
                        Err(e) => Err(e),
                    }
                },
            }
        }
    } else if first & 0x40 != 0 {
        if first & 0x10 == 0 {
            Err(DecoderError::DynamicTableUnsupported)
        } else {
            match decoding(input, 4) {
                Err(e) => Err(DecoderError::VarInt(e)),
                Ok((index, n)) => if index >= 99 {
                    Err(DecoderError::InvalidStaticIndex(index))
                } else {
                    match string_literal_decoding(input.subrange(n as int, input.len() as int), 7) {
                        Err(e) => Err(literal_error(e)),
                        Ok((value, m)) => match name_ref_line(
                            static_table_entry(index as u8).0,
                            value,
                        ) {
                            Ok(line) => Ok((line, n + m)),
                            Err(e) => Err(e),
                        },
                    }
                },
            }
        }
    } else if first & 0x20 != 0 {
        match string_literal_decoding(input, 3) {
            Err(e) => Err(literal_error(e)),
            Ok((name, n)) => match string_literal_decoding(
                input.subrange(n as int, input.len() as int),
                7,
            ) {
                Err(e) => Err(literal_error(e)),
                Ok((value, m)) => match header_name_from_text(name) {
                    Some(h) => Ok((SectionLineView::Header(h, value, false), n + m)),
                    None => Err(DecoderError::InvalidHeaderName),
                },
            },
        }
    } else {
        Err(DecoderError::DynamicTableUnsupported)
    }
}

/// Adding a decoded line to a field section.
pub open spec fn apply_line(section: FieldSectionView, line: SectionLineView) -> FieldSectionView {
    match line {
        SectionLineView::Header(name, value, never_indexed) => FieldSectionView {
            pseudo_headers: section.pseudo_headers,
            headers: headers_append(section.headers, name, value),
            never_indexed: marks_append(section.never_indexed, section.headers, name, never_indexed),
        },
        SectionLineView::Pseudo(p) => FieldSectionView {
            pseudo_headers: apply_pseudo(section.pseudo_headers, p),
            headers: section.headers,
            never_indexed: section.never_indexed,
        },
    }
}

/// Decoding the field lines of `input` one after another into `section`.
#[verifier::opaque]
pub open spec fn lines_decoding(input: Seq<u8>, section: FieldSectionView) -> Result<FieldSectionView, DecoderError>
    decreases input.len(),
{
    if input.len() == 0 {
        Ok(section)
    } else {
        match static_line_decoding(input) {
            Err(e) => Err(e),
            Ok((line, n)) => if 0 < n <= input.len() {
                lines_decoding(input.subrange(n as int, input.len() as int), apply_line(section, line))
            } else {
                // A line always occupies at least one byte of the input.
                Err(DecoderError::UnexpectedEnd)
            },
        }
    }
}

/// The empty field section.
pub open spec fn empty_section() -> FieldSectionView {
    FieldSectionView { pseudo_headers: no_pseudo_headers(), headers: Seq::empty(), never_indexed: Seq::empty() }
}

/// Decoding a static-only field section: the prefix (a Required Insert Count that must be
/// zero, and a Delta Base), then field lines until the input ends.
pub open spec fn field_section_decoding(input: Seq<u8>) -> Result<FieldSectionView, DecoderError> {
    match decoding(input, 8) {
        Err(e) => Err(DecoderError::VarInt(e)),
        Ok((required_insert_count, n)) => if required_insert_count != 0 {
            Err(DecoderError::NonZeroInsertCount)
        } else {
            let rest = input.subrange(n as int, input.len() as int);
            match decoding(rest, 7) {
                Err(e) => Err(DecoderError::VarInt(e)),
                Ok((_, m)) => lines_decoding(rest.subrange(m as int, rest.len() as int), empty_section()),
            }
        },
    }
}

/// The result of decoding one line, against its specification.
pub open spec fn line_result_matches(
    result: Result<(SectionLine, &[u8]), DecoderError>,
    input: Seq<u8>,
) -> bool {
    match static_line_decoding(input) {
        Ok((l, n)) => result matches Ok((line, rest)) && line@ == l && 0 < n <= input.len()
            && rest@ == input.subrange(n as int, input.len() as int),
        Err(e) => result is Err && result->Err_0 == e,
    }
}

/// The line of a static entry used whole.
pub(crate) fn indexed_entry_line(entry: (StaticHeaderName, &'static str)) -> (line: Result<SectionLine, DecoderError>)
    ensures
        match indexed_line(entry) {
            Ok(l) => line matches Ok(v) && v@ == l,
            Err(e) => line is Err && line->Err_0 == e,
        },
{
    let (name, value) = entry;
    match name {
        StaticHeaderName::Header(known) => Ok(
            SectionLine::Header(EntryName::Known(known), vstd::slice::slice_to_vec(value.as_bytes()), false),
        ),
        StaticHeaderName::Pseudo(PseudoHeaderName::Method) => match Method::parse(value.as_bytes()) {
            Some(m) => Ok(SectionLine::Pseudo(PseudoHeader::Method(m))),
            None => Err(DecoderError::UnrecognizedMethod),
        },
        StaticHeaderName::Pseudo(PseudoHeaderName::Status) => match Status::parse(value.as_bytes()) {
            Some(s) => Ok(SectionLine::Pseudo(PseudoHeader::Status(s))),
            None => Err(DecoderError::InvalidStatus),
        },
        StaticHeaderName::Pseudo(other) => Ok(
            SectionLine::Pseudo(PseudoHeader::Other(other, value.to_owned())),
        ),
    }
}

/// §4.5.2: Indexed Field Line
pub(crate) fn decode_indexed(input: &[u8]) -> (result: Result<(SectionLine, &[u8]), DecoderError>)
    requires
        input@.len() > 0,
        input@[0] & 0x80 != 0,
    ensures
        line_result_matches(result, input@),
{
    proof {
        reveal(static_line_decoding);
    }
    let first = input[0];
    if first & 0x40 == 0 {
        return Err(DecoderError::DynamicTableUnsupported);
    }
    let (index, rest) = match varint::decode(input, 6) {
        Ok(decoded) => decoded,
        Err(e) => {
            return Err(DecoderError::VarInt(e));
        },
    };
    let entry = match static_entry(index) {
        Ok(entry) => entry,
        Err(e) => {
            return Err(e);
        },
    };
    match indexed_entry_line(entry) {
        Ok(line) => Ok((line, rest)),
        Err(e) => Err(e),
    }
}

/// The line of a static name with a literal value.
fn name_ref_entry_line(name: StaticHeaderName, value: Vec<u8>) -> (line: Result<SectionLine, DecoderError>)
    ensures
        match name_ref_line(name, value@) {
            Ok(l) => line matches Ok(v) && v@ == l,
            Err(e) => line is Err && line->Err_0 == e,
        },
{
    match name {
        StaticHeaderName::Header(known) => Ok(SectionLine::Header(EntryName::Known(known), value, false)),
        StaticHeaderName::Pseudo(PseudoHeaderName::Method) => match Method::parse(value.as_slice()) {
            Some(m) => Ok(SectionLine::Pseudo(PseudoHeader::Method(m))),
            None => Err(DecoderError::UnrecognizedMethod),
        },
        StaticHeaderName::Pseudo(PseudoHeaderName::Status) => match Status::parse(value.as_slice()) {
            Some(s) => Ok(SectionLine::Pseudo(PseudoHeader::Status(s))),
            None => Err(DecoderError::InvalidStatus),
        },
        StaticHeaderName::Pseudo(other) => match string_from_utf8(value) {
            Ok(text) => Ok(SectionLine::Pseudo(PseudoHeader::Other(other, text))),
            Err(_) => Err(DecoderError::InvalidHeaderValue),
        },
    }
}

/// §4.5.4: Literal Field Line with Name Reference
pub(crate) fn decode_literal_with_name_ref(input: &[u8]) -> (result: Result<(SectionLine, &[u8]), DecoderError>)
    requires
        input@.len() > 0,
        input@[0] & 0x80 == 0,
        input@[0] & 0x40 != 0,
    ensures
        line_result_matches(result, input@),
{
    proof {
        reveal(static_line_decoding);
    }
    let first = input[0];
    if first & 0x10 == 0 {
        return Err(DecoderError::DynamicTableUnsupported);
    }
    let (index, rest) = match varint::decode(input, 4) {
        Ok(decoded) => decoded,
        Err(e) => {
            return Err(DecoderError::VarInt(e));
        },
    };
    let (name, _) = match static_entry(index) {
        Ok(entry) => entry,
        Err(e) => {
            return Err(e);
        },
    };
    let ghost n = (input@.len() - rest@.len()) as nat;
    let (value, rest2) = match decode_string(rest, 7) {
        Ok(decoded) => decoded,
        Err(e) => {
            return Err(to_decoder_error(e));
        },
    };
    let ghost m = (rest@.len() - rest2@.len()) as nat;
    assert(rest2@ =~= input@.subrange((n + m) as int, input@.len() as int));
    match name_ref_entry_line(name, value) {
        Ok(line) => Ok((line, rest2)),
        Err(e) => Err(e),
    }
}

/// §4.5.6: Literal Field Line with Literal Name
pub(crate) fn decode_literal_with_literal_name(input: &[u8]) -> (result: Result<(SectionLine, &[u8]), DecoderError>)
    requires
        input@.len() > 0,
        input@[0] & 0x80 == 0,
        input@[0] & 0x40 == 0,
        input@[0] & 0x20 != 0,
    ensures
        line_result_matches(result, input@),
{
    proof {
        reveal(static_line_decoding);
    }
    let (name_bytes, rest) = match decode_string(input, 3) {
        Ok(decoded) => decoded,
        Err(e) => {
            return Err(to_decoder_error(e));
        },
    };
    let ghost n = (input@.len() - rest@.len()) as nat;
    let (value, rest2) = match decode_string(rest, 7) {
        Ok(decoded) => decoded,
        Err(e) => {
            return Err(to_decoder_error(e));
        },
    };
    let ghost m = (rest@.len() - rest2@.len()) as nat;
    assert(rest2@ =~= input@.subrange((n + m) as int, input@.len() as int));
    match parse_header_name(name_bytes.as_slice()) {
        Some(name) => {
            Ok((SectionLine::Header(name, value, false), rest2))
        },
        None => Err(DecoderError::InvalidHeaderName),
    }
}

impl FieldSection {
    /// Decode a static-only QPACK field section (no dynamic table).
    ///
    /// Returns an error if the field section references the dynamic table.
    /// Duplicate pseudo-headers are ignored (the first value wins).
    pub fn decode(encoded: &[u8]) -> (result: Result<FieldSection, DecoderError>)
        ensures
            match field_section_decoding(encoded@) {
                Ok(v) => result matches Ok(section) && section@ == v && section.headers.wf(),
                Err(e) => result is Err && result->Err_0 == e,
            },
    {
        let (required_insert_count, rest) = match varint::decode(encoded, 8) {
            Ok(decoded) => decoded,
            Err(e) => {
                return Err(DecoderError::VarInt(e));
            },
        };
        if required_insert_count != 0 {
            return Err(DecoderError::NonZeroInsertCount);
        }
        let (_delta_base, rest) = match varint::decode(rest, 7) {
            Ok(decoded) => decoded,
            Err(e) => {
                return Err(DecoderError::VarInt(e));
            },
        };
        let mut rest = rest;
        let mut pseudo_headers = PseudoHeaders::default();
        let mut headers = Headers::new();
        assert(FieldSectionView { pseudo_headers: pseudo_headers@, headers: headers@, never_indexed: headers.never_indexed_marks() }
            == empty_section());
        while rest.len() > 0
            invariant
                headers.wf(),
                field_section_decoding(encoded@) == lines_decoding(
                    rest@,
                    FieldSectionView { pseudo_headers: pseudo_headers@, headers: headers@, never_indexed: headers.never_indexed_marks() },
                ),
            decreases rest@.len(),
        {
            proof {
                reveal(lines_decoding);
                reveal(static_line_decoding);
            }
            let first = rest[0];
            let decoded = if first & 0x80 != 0 {
                decode_indexed(rest)
            } else if first & 0x40 != 0 {
                decode_literal_with_name_ref(rest)
            } else if first & 0x20 != 0 {
                decode_literal_with_literal_name(rest)
            } else {
                return Err(DecoderError::DynamicTableUnsupported);
            };
            let (line, rest_) = match decoded {
                Ok(decoded) => decoded,
                Err(e) => {
                    return Err(e);
                },
            };
            rest = rest_;
            match line {
                SectionLine::Header(name, value, never_indexed) => {
                    headers.append_marked(name, value, never_indexed);
                },
                SectionLine::Pseudo(pseudo) => {
                    pseudo.apply(&mut pseudo_headers);
                },
            }
        }
        proof {
            reveal(lines_decoding);
        }
        Ok(FieldSection { pseudo_headers, headers })
    }
}

} // verus!
