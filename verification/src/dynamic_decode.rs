//! Decoding field sections that reference the dynamic table (RFC 9204 §4.5), against a
//! [`DecoderDynamicTable`].
//!
//! A section whose Required Insert Count is not yet met has to wait for inserts from the
//! peer's encoder stream. Decoding is therefore split in two: [`DecoderDynamicTable::begin_decode`]
//! reads the prefix and reserves a blocked-stream slot when the section has to wait, and
//! [`DecoderDynamicTable::finish_decode`] decodes the field lines once the table holds
//! enough entries (or the encoder stream has failed). The caller waits in between, for as
//! long as [`DecoderDynamicTable::threshold_state`] says `Pending`.
use vstd::prelude::*;
use vstd::utf8::{decode_utf8, valid_utf8};
use crate::decoder::{
    apply_pseudo, indexed_line, PseudoHeader, PseudoHeaderView, SectionLine, SectionLineView,
};
use crate::entry_name::EntryName;
use crate::field_section::FieldLineInstruction;
use crate::headers::{FieldSection, Headers, PseudoHeaders};
use crate::method::Method;
use crate::static_table::static_entry;
use crate::status::Status;
use crate::decoder_table::{
    required_insert_count_decoding, table_get, DecoderDynamicTable, H3ErrorCode, TableView,
};
use crate::entry_name::EntryNameView;
use crate::field_section::{field_line_decoding, prefix_decoding, FieldLine};
use crate::headers::{headers_append, marks_append, FieldSectionView, PseudoHeadersView};
use crate::instruction::QpackError;
use crate::method::method_with_bytes;
use crate::static_table::{static_name_view, static_table_entry, PseudoHeaderName};
use crate::status::status_from_text;

verus! {

/// Carriage return, line feed and NUL: the bytes a field value may not hold.
pub open spec fn forbidden_value_byte(b: u8) -> bool {
    b == 13 || b == 10 || b == 0
}

/// A field value holds none of CR, LF and NUL.
pub open spec fn valid_value(value: Seq<u8>) -> bool {
    forall|i: int| 0 <= i < value.len() ==> !forbidden_value_byte(#[trigger] value[i])
}

/// `memchr::memchr3`: the position of the first byte of `haystack` equal to one of the
/// three needles, or `None` when there is none.
#[verifier::external_body]
fn memchr3(needle1: u8, needle2: u8, needle3: u8, haystack: &[u8]) -> (found: Option<usize>)
    ensures
        match found {
            Some(i) => i < haystack@.len() && (haystack@[i as int] == needle1 || haystack@[i as int]
                == needle2 || haystack@[i as int] == needle3) && forall|j: int|
                0 <= j < i ==> haystack@[j] != needle1 && haystack@[j] != needle2 && haystack@[j]
                    != needle3,
            None => forall|j: int|
                0 <= j < haystack@.len() ==> haystack@[j] != needle1 && haystack@[j] != needle2
                    && haystack@[j] != needle3,
        },
{
    memchr::memchr3(needle1, needle2, needle3, haystack)
}

/// Whether a field value holds none of CR, LF and NUL.
pub fn validate_value(value: &[u8]) -> (valid: bool)
    ensures
        valid == valid_value(value@),
{
    match memchr3(13, 10, 0, value) {
        Some(i) => {
            assert(forbidden_value_byte(value@[i as int]));
            false
        },
        None => true,
    }
}

/// The line a resolved name and value make (values are checked for CR, LF and NUL; a
/// pseudo-header value must read as its type).  A regular header keeps whether it arrived
/// never-indexed; a pseudo-header has nowhere to keep it.
pub open spec fn entry_line(name: EntryNameView, value: Seq<u8>, never_indexed: bool) -> Result<SectionLineView, H3ErrorCode> {
    if !valid_value(value) {
        Err(H3ErrorCode::QpackDecompressionFailed)
    } else {
        match name {
            EntryNameView::Pseudo(PseudoHeaderName::Method) => match method_with_bytes(value, 0) {
                Some(m) => Ok(SectionLineView::Pseudo(PseudoHeaderView::Method(m))),
                None => Err(H3ErrorCode::QpackDecompressionFailed),
            },
            EntryNameView::Pseudo(PseudoHeaderName::Status) => match status_from_text(value) {
                Some(s) => Ok(SectionLineView::Pseudo(PseudoHeaderView::Status(s))),
                None => Err(H3ErrorCode::QpackDecompressionFailed),
            },
            EntryNameView::Pseudo(other) => if valid_utf8(value) {
                Ok(SectionLineView::Pseudo(PseudoHeaderView::Other(other, decode_utf8(value))))
            } else {
                Err(H3ErrorCode::QpackDecompressionFailed)
            },
            _ => Ok(SectionLineView::Header(name, value, never_indexed)),
        }
    }
}

/// The dynamic entry at `absolute_index`: the encoder stream's failure if it failed, the
/// entry if the table holds it, a decompression failure otherwise.
pub open spec fn dynamic_entry(t: TableView, absolute_index: int) -> Result<crate::decoder_table::EntryView, H3ErrorCode> {
    match t.failed {
        Some(code) => Err(code),
        None => match table_get(t, absolute_index) {
            Some(e) => Ok(e),
            None => Err(H3ErrorCode::QpackDecompressionFailed),
        },
    }
}

/// The absolute index of a pre-base reference.
pub open spec fn pre_base_index(base: nat, relative_index: nat) -> Option<int> {
    if base >= 1 && base - 1 >= relative_index {
        Some(base - 1 - relative_index)
    } else {
        None
    }
}

/// The absolute index of a post-base reference.
pub open spec fn post_base_index(base: nat, post_base_index: nat) -> Option<int> {
    if base + post_base_index <= u64::MAX {
        Some((base + post_base_index) as int)
    } else {
        None
    }
}

/// The line a dynamic reference resolves to, with the value from the entry or literal.
pub open spec fn dynamic_line(
    t: TableView,
    absolute_index: Option<int>,
    literal: Option<Seq<u8>>,
    never_indexed: bool,
) -> Result<SectionLineView, H3ErrorCode> {
    match absolute_index {
        None => Err(H3ErrorCode::QpackDecompressionFailed),
        Some(abs) => match dynamic_entry(t, abs) {
            Err(e) => Err(e),
            Ok(e) => entry_line(
                e.name,
                match literal {
                    Some(v) => v,
                    None => e.value,
                },
                never_indexed,
            ),
        },
    }
}

/// Resolving a parsed field line against the static table and the dynamic table.
pub open spec fn resolve_line(t: TableView, base: nat, line: FieldLine) -> Result<SectionLineView, H3ErrorCode> {
    match line {
        FieldLine::IndexedStatic { index } => if index >= 99 {
            Err(H3ErrorCode::QpackDecompressionFailed)
        } else {
            match indexed_line(static_table_entry(index as u8)) {
                Ok(l) => Ok(l),
                Err(_) => Err(H3ErrorCode::QpackDecompressionFailed),
            }
        },
        FieldLine::IndexedDynamic { relative_index } => dynamic_line(
            t,
            pre_base_index(base, relative_index as nat),
            None,
            false,
        ),
        FieldLine::IndexedPostBase { post_base_index: p } => dynamic_line(
            t,
            post_base_index(base, p as nat),
            None,
            false,
        ),
        FieldLine::LiteralStaticNameRef { name_index, value, never_indexed } => if name_index >= 99 {
            Err(H3ErrorCode::QpackDecompressionFailed)
        } else {
            entry_line(static_name_view(static_table_entry(name_index as u8).0), value, never_indexed)
        },
        FieldLine::LiteralDynamicNameRef { relative_index, value, never_indexed } => dynamic_line(
            t,
            pre_base_index(base, relative_index as nat),
            Some(value),
            never_indexed,
        ),
        FieldLine::LiteralPostBaseNameRef { post_base_index: p, value, never_indexed } => dynamic_line(
            t,
            post_base_index(base, p as nat),
            Some(value),
            never_indexed,
        ),
        FieldLine::LiteralLiteralName { name, value, never_indexed } => entry_line(name, value, never_indexed),
    }
}

/// Setting a pseudo-header that must not repeat: `None` when it is already set.
pub open spec fn try_apply_pseudo(pseudos: PseudoHeadersView, pseudo: PseudoHeaderView) -> Option<PseudoHeadersView> {
    let occupied = match pseudo {
        PseudoHeaderView::Method(_) => pseudos.method is Some,
        PseudoHeaderView::Status(_) => pseudos.status is Some,
        PseudoHeaderView::Other(PseudoHeaderName::Authority, _) => pseudos.authority is Some,
        PseudoHeaderView::Other(PseudoHeaderName::Path, _) => pseudos.path is Some,
        PseudoHeaderView::Other(PseudoHeaderName::Scheme, _) => pseudos.scheme is Some,
        PseudoHeaderView::Other(PseudoHeaderName::Protocol, _) => pseudos.protocol is Some,
        PseudoHeaderView::Other(_, _) => false,
    };
    if occupied {
        None
    } else {
        Some(apply_pseudo(pseudos, pseudo))
    }
}

/// What decoding has gathered so far: the section, whether a regular header has been
/// seen, and whether the section is malformed.
pub struct LinesState {
    pub section: FieldSectionView,
    pub saw_regular: bool,
    pub malformed: bool,
}

/// Adding a resolved line: a pseudo-header after a regular header, or a repeated one,
/// makes the section malformed (it is then left out).
pub open spec fn add_line(state: LinesState, line: SectionLineView) -> LinesState {
    match line {
        SectionLineView::Header(name, value, never_indexed) => LinesState {
            section: FieldSectionView {
                pseudo_headers: state.section.pseudo_headers,
                headers: headers_append(state.section.headers, name, value),
                never_indexed: marks_append(
                    state.section.never_indexed,
                    state.section.headers,
                    name,
                    never_indexed,
                ),
            },
            saw_regular: true,
            malformed: state.malformed,
        },
        SectionLineView::Pseudo(p) => if state.saw_regular {
            LinesState { malformed: true, ..state }
        } else {
            match try_apply_pseudo(state.section.pseudo_headers, p) {
                None => LinesState { malformed: true, ..state },
                Some(pseudos) => LinesState {
                    section: FieldSectionView {
                        pseudo_headers: pseudos,
                        headers: state.section.headers,
                        never_indexed: state.section.never_indexed,
                    },
                    ..state
                },
            }
        },
    }
}

/// The error a field line that does not parse raises: a bad name is a malformed message,
/// anything else a decompression failure.
pub open spec fn parse_error(e: QpackError) -> H3ErrorCode {
    match e {
        QpackError::InvalidHeaderName => H3ErrorCode::MessageError,
        _ => H3ErrorCode::QpackDecompressionFailed,
    }
}

/// Decoding the field lines of `input` one after another.
#[verifier::opaque]
pub open spec fn dynamic_lines(t: TableView, base: nat, input: Seq<u8>, state: LinesState) -> Result<LinesState, H3ErrorCode>
    decreases input.len(),
{
    if input.len() == 0 {
        Ok(state)
    } else {
        match field_line_decoding(input) {
            Err(e) => Err(parse_error(e)),
            Ok((line, n)) => match resolve_line(t, base, line) {
                Err(e) => Err(e),
                Ok(l) => if 0 < n <= input.len() {
                    dynamic_lines(t, base, input.subrange(n as int, input.len() as int), add_line(state, l))
                } else {
                    // A field line always occupies at least one byte.
                    Err(H3ErrorCode::QpackDecompressionFailed)
                },
            },
        }
    }
}

/// The Base of a section (§4.5.1.2): `ric - delta - 1` when the sign bit is set, else
/// `ric + delta`, when that is a valid 64-bit count.
pub open spec fn section_base(ric: nat, base_is_negative: bool, delta_base: nat) -> Option<nat> {
    if base_is_negative {
        if ric >= delta_base + 1 {
            Some((ric - delta_base - 1) as nat)
        } else {
            None
        }
    } else if ric + delta_base <= u64::MAX {
        Some(ric + delta_base)
    } else {
        None
    }
}

/// Build a line from a resolved entry name and a value (see [`entry_line`]).
fn entry_field_line(name: EntryName, value: Vec<u8>, never_indexed: bool) -> (line: Result<SectionLine, H3ErrorCode>)
    ensures
        match entry_line(name@, value@, never_indexed) {
            Ok(l) => line matches Ok(v) && v@ == l,
            Err(e) => line is Err && line->Err_0 == e,
        },
{
    if !validate_value(value.as_slice()) {
        return Err(H3ErrorCode::QpackDecompressionFailed);
    }
    match name {
        EntryName::Pseudo(PseudoHeaderName::Method) => match Method::parse(value.as_slice()) {
            Some(m) => Ok(SectionLine::Pseudo(PseudoHeader::Method(m))),
            None => Err(H3ErrorCode::QpackDecompressionFailed),
        },
        EntryName::Pseudo(PseudoHeaderName::Status) => match Status::parse(value.as_slice()) {
            Some(s) => Ok(SectionLine::Pseudo(PseudoHeader::Status(s))),
            None => Err(H3ErrorCode::QpackDecompressionFailed),
        },
        EntryName::Pseudo(other) => match crate::decoder::string_from_utf8(value) {
            Ok(text) => Ok(SectionLine::Pseudo(PseudoHeader::Other(other, text))),
            Err(_) => Err(H3ErrorCode::QpackDecompressionFailed),
        },
        _ => Ok(SectionLine::Header(name, value, never_indexed)),
    }
}

impl PseudoHeader {
    /// Set the corresponding field on `PseudoHeaders`. Returns `false` if the slot was
    /// already occupied (a duplicate pseudo-header, which makes the message malformed).
    pub fn try_apply(self, pseudos: &mut PseudoHeaders) -> (applied: bool)
        ensures
            match try_apply_pseudo(old(pseudos)@, self@) {
                Some(p) => applied && final(pseudos)@ == p,
                None => !applied && final(pseudos)@ == old(pseudos)@,
            },
    {
        let occupied = match &self {
            PseudoHeader::Method(_) => pseudos.method.is_some(),
            PseudoHeader::Status(_) => pseudos.status.is_some(),
            PseudoHeader::Other(PseudoHeaderName::Authority, _) => pseudos.authority.is_some(),
            PseudoHeader::Other(PseudoHeaderName::Path, _) => pseudos.path.is_some(),
            PseudoHeader::Other(PseudoHeaderName::Scheme, _) => pseudos.scheme.is_some(),
            PseudoHeader::Other(PseudoHeaderName::Protocol, _) => pseudos.protocol.is_some(),
            PseudoHeader::Other(_, _) => false,
        };
        if occupied {
            return false;
        }
        self.apply(pseudos);
        true
    }
}

/// Where decoding a section stands after its prefix: its Required Insert Count, its
/// Base, where its field lines start, and whether it holds a blocked-stream slot.
#[derive(Debug, Clone, Copy)]
pub struct SectionStart {
    pub required_insert_count: u64,
    pub base: u64,
    pub lines_start: usize,
    pub reserved: bool,
}

/// Reading a section's prefix against the table: the Required Insert Count, the Base and
/// the length of the prefix. A section that would have to wait when the blocked-stream
/// limit is reached is refused.
pub open spec fn section_start(t: TableView, input: Seq<u8>) -> Result<(nat, nat, nat), H3ErrorCode> {
    match prefix_decoding(input) {
        Err(_) => Err(H3ErrorCode::QpackDecompressionFailed),
        Ok((prefix, n)) => match required_insert_count_decoding(
            prefix.encoded_required_insert_count as nat,
            t.max_capacity,
            t.insert_count,
        ) {
            Err(e) => Err(e),
            Ok(ric) => if ric > u64::MAX || (t.insert_count < ric && t.blocked_streams >= t.max_blocked_streams) {
                Err(H3ErrorCode::QpackDecompressionFailed)
            } else {
                match section_base(ric, prefix.base_is_negative, prefix.delta_base as nat) {
                    None => Err(H3ErrorCode::QpackDecompressionFailed),
                    Some(base) => Ok((ric, base, n)),
                }
            },
        },
    }
}

/// Nothing gathered yet.
pub open spec fn initial_lines_state() -> LinesState {
    LinesState { section: crate::decoder::empty_section(), saw_regular: false, malformed: false }
}

/// Decoding the field lines of a section whose prefix has been read.
pub open spec fn section_lines(t: TableView, base: nat, lines: Seq<u8>) -> Result<FieldSectionView, H3ErrorCode> {
    match dynamic_lines(t, base, lines, initial_lines_state()) {
        Err(e) => Err(e),
        Ok(state) => if state.malformed {
            Err(H3ErrorCode::MessageError)
        } else {
            Ok(state.section)
        },
    }
}

impl DecoderDynamicTable {
    /// The entry at an absolute index, for a field line that references it.
    pub(crate) fn lookup(&self, absolute_index: u64) -> (entry: Result<(EntryName, Vec<u8>), H3ErrorCode>)
        requires
            self.wf(),
        ensures
            match dynamic_entry(self@, absolute_index as int) {
                Ok(e) => entry matches Ok((n, v)) && n@ == e.name && v@ == e.value,
                Err(e) => entry is Err && entry->Err_0 == e,
            },
    {
        if let Some(code) = self.failed_code() {
            return Err(code);
        }
        match self.get(absolute_index) {
            Some(entry) => Ok(entry),
            None => Err(H3ErrorCode::QpackDecompressionFailed),
        }
    }

    /// Resolve a parsed field line against the static and dynamic tables.
    fn resolve(&self, base: u64, instruction: FieldLineInstruction) -> (line: Result<SectionLine, H3ErrorCode>)
        requires
            self.wf(),
        ensures
            match resolve_line(self@, base as nat, instruction@) {
                Ok(l) => line matches Ok(v) && v@ == l,
                Err(e) => line is Err && line->Err_0 == e,
            },
    {
        match instruction {
            FieldLineInstruction::IndexedStatic { index } => {
                let entry = match static_entry(index) {
                    Ok(entry) => entry,
                    Err(_) => {
                        return Err(H3ErrorCode::QpackDecompressionFailed);
                    },
                };
                match crate::decoder::indexed_entry_line(entry) {
                    Ok(line) => Ok(line),
                    Err(_) => Err(H3ErrorCode::QpackDecompressionFailed),
                }
            },
            FieldLineInstruction::IndexedDynamic { relative_index } => {
                if base == 0 || base - 1 < relative_index as u64 {
                    return Err(H3ErrorCode::QpackDecompressionFailed);
                }
                let (name, value) = self.lookup(base - 1 - relative_index as u64)?;
                entry_field_line(name, value, false)
            },
            FieldLineInstruction::IndexedPostBase { post_base_index } => {
                let abs = match base.checked_add(post_base_index as u64) {
                    Some(abs) => abs,
                    None => {
                        return Err(H3ErrorCode::QpackDecompressionFailed);
                    },
                };
                let (name, value) = self.lookup(abs)?;
                entry_field_line(name, value, false)
            },
            FieldLineInstruction::LiteralStaticNameRef { name_index, value, never_indexed } => {
                let (name, _) = match static_entry(name_index) {
                    Ok(entry) => entry,
                    Err(_) => {
                        return Err(H3ErrorCode::QpackDecompressionFailed);
                    },
                };
                entry_field_line(EntryName::from_static(name), value, never_indexed)
            },
            FieldLineInstruction::LiteralDynamicNameRef { relative_index, value, never_indexed } => {
                if base == 0 || base - 1 < relative_index as u64 {
                    return Err(H3ErrorCode::QpackDecompressionFailed);
                }
                let (name, _) = self.lookup(base - 1 - relative_index as u64)?;
                entry_field_line(name, value, never_indexed)
            },
            FieldLineInstruction::LiteralPostBaseNameRef { post_base_index, value, never_indexed } => {
                let abs = match base.checked_add(post_base_index as u64) {
                    Some(abs) => abs,
                    None => {
                        return Err(H3ErrorCode::QpackDecompressionFailed);
                    },
                };
                let (name, _) = self.lookup(abs)?;
                entry_field_line(name, value, never_indexed)
            },
            FieldLineInstruction::LiteralLiteralName { name, value, never_indexed } => entry_field_line(
                name,
                value,
                never_indexed,
            ),
        }
    }
}

/// Decoding no field lines gives what was gathered.
proof fn lemma_dynamic_lines_empty(t: TableView, base: nat, input: Seq<u8>, state: LinesState)
    requires
        input.len() == 0,
    ensures
        dynamic_lines(t, base, input, state) == Ok::<LinesState, H3ErrorCode>(state),
{
    reveal(dynamic_lines);
}

/// Decoding field lines reads the first one, resolves it, adds it, and goes on.
proof fn lemma_dynamic_lines_step(t: TableView, base: nat, input: Seq<u8>, state: LinesState)
    requires
        input.len() > 0,
    ensures
        dynamic_lines(t, base, input, state) == match field_line_decoding(input) {
            Err(e) => Err(parse_error(e)),
            Ok((line, n)) => match resolve_line(t, base, line) {
                Err(e) => Err(e),
                Ok(l) => dynamic_lines(
                    t,
                    base,
                    input.subrange(n as int, input.len() as int),
                    add_line(state, l),
                ),
            },
        },
{
    reveal(dynamic_lines);
    crate::field_section::lemma_field_line_length(input);
    if let Ok((line, n)) = field_line_decoding(input) {
        crate::field_section::lemma_field_line_bounded(input);
    }
}

/// Add a decoded line to what has been gathered (see [`add_line`]).
fn add_section_line(
    line: SectionLine,
    pseudo_headers: &mut PseudoHeaders,
    headers: &mut Headers,
    saw_regular: &mut bool,
    malformed: &mut bool,
)
    requires
        old(headers).wf(),
        line@ matches SectionLineView::Header(name, _, _) ==> !(name is Pseudo),
    ensures
        final(headers).wf(),
        add_line(
            LinesState {
                section: FieldSectionView {
                    pseudo_headers: old(pseudo_headers)@,
                    headers: old(headers)@,
                    never_indexed: old(headers).never_indexed_marks(),
                },
                saw_regular: *old(saw_regular),
                malformed: *old(malformed),
            },
            line@,
        ) == (LinesState {
            section: FieldSectionView {
                pseudo_headers: final(pseudo_headers)@,
                headers: final(headers)@,
                never_indexed: final(headers).never_indexed_marks(),
            },
            saw_regular: *final(saw_regular),
            malformed: *final(malformed),
        }),
{
    match line {
        SectionLine::Header(name, value, never_indexed) => {
            headers.append_marked(name, value, never_indexed);
            *saw_regular = true;
        },
        SectionLine::Pseudo(pseudo) => {
            if *saw_regular {
                *malformed = true;
            } else if !pseudo.try_apply(pseudo_headers) {
                *malformed = true;
            }
        },
    }
}

impl DecoderDynamicTable {
    /// Read and resolve the field line at the start of `input`.
    fn decode_line<'a>(&self, base: u64, input: &'a [u8]) -> (decoded: Result<(SectionLine, &'a [u8]), H3ErrorCode>)
        requires
            self.wf(),
            input@.len() > 0,
        ensures
            match field_line_decoding(input@) {
                Err(e) => decoded is Err && decoded->Err_0 == parse_error(e),
                Ok((line, n)) => match resolve_line(self@, base as nat, line) {
                    Err(e) => decoded is Err && decoded->Err_0 == e,
                    Ok(l) => decoded matches Ok((v, rest)) && v@ == l && rest@ == input@.subrange(
                        n as int,
                        input@.len() as int,
                    ) && rest@.len() < input@.len() && (v@ matches SectionLineView::Header(name, _, _)
                        ==> !(name is Pseudo)),
                },
            },
    {
        proof {
            crate::field_section::lemma_field_line_length(input@);
        }
        let (instruction, rest) = match FieldLineInstruction::parse(input) {
            Ok(parsed) => parsed,
            Err(e) => {
                return Err(
                    match e {
                        QpackError::InvalidHeaderName => H3ErrorCode::MessageError,
                        _ => H3ErrorCode::QpackDecompressionFailed,
                    },
                );
            },
        };
        match self.resolve(base, instruction) {
            Ok(line) => Ok((line, rest)),
            Err(e) => Err(e),
        }
    }

    /// Read the prefix of a field section (§4.5.1) and, when its Required Insert Count is
    /// not yet met, reserve a blocked-stream slot for it.
    pub fn begin_decode(&mut self, encoded: &[u8]) -> (start: Result<SectionStart, H3ErrorCode>)
        requires
            old(self).wf(),
        ensures
            final(self).wf(),
            match section_start(old(self)@, encoded@) {
                Ok((ric, base, n)) => start matches Ok(s) && s.required_insert_count == ric
                    && s.base == base && s.lines_start == n && n <= encoded@.len() && s.reserved
                    == (old(self)@.insert_count < ric) && final(self)@ == (if s.reserved {
                    TableView { blocked_streams: old(self)@.blocked_streams + 1, ..old(self)@ }
                } else {
                    old(self)@
                }),
                Err(e) => start is Err && start->Err_0 == e && final(self)@ == old(self)@,
            },
    {
        let (prefix, rest) = match crate::field_section::FieldSectionPrefix::parse(encoded) {
            Ok(parsed) => parsed,
            Err(_) => {
                return Err(H3ErrorCode::QpackDecompressionFailed);
            },
        };
        let lines_start = encoded.len() - rest.len();
        let required_insert_count = match self.decode_required_insert_count(
            prefix.encoded_required_insert_count,
        ) {
            Ok(ric) => ric,
            Err(e) => {
                return Err(e);
            },
        };
        let reserved = match self.try_reserve_blocked_stream(required_insert_count) {
            Ok(reserved) => reserved,
            Err(e) => {
                return Err(e);
            },
        };
        let delta_base = prefix.delta_base as u64;
        let base = if prefix.base_is_negative {
            if required_insert_count < delta_base || required_insert_count - delta_base < 1 {
                if reserved {
                    self.release_blocked_stream();
                }
                return Err(H3ErrorCode::QpackDecompressionFailed);
            }
            required_insert_count - delta_base - 1
        } else {
            match required_insert_count.checked_add(delta_base) {
                Some(base) => base,
                None => {
                    if reserved {
                        self.release_blocked_stream();
                    }
                    return Err(H3ErrorCode::QpackDecompressionFailed);
                },
            }
        };
        assert(rest@ == encoded@.subrange(lines_start as int, encoded@.len() as int));
        Ok(SectionStart { required_insert_count, base, lines_start, reserved })
    }

    /// Give back the blocked-stream slot of a section, if it holds one.
    pub(crate) fn end_section(&mut self, reserved: bool)
        requires
            old(self).wf(),
            reserved ==> old(self)@.blocked_streams > 0,
        ensures
            final(self).wf(),
            final(self)@ == (if reserved {
                TableView { blocked_streams: (old(self)@.blocked_streams - 1) as nat, ..old(self)@ }
            } else {
                old(self)@
            }),
    {
        if reserved {
            self.release_blocked_stream();
        }
    }

    /// Decode the field lines of a section whose prefix [`begin_decode`](Self::begin_decode)
    /// read, once the table holds its Required Insert Count of entries (or the encoder
    /// stream has failed).
    ///
    /// Duplicate pseudo-headers and pseudo-headers after a regular header make the message
    /// malformed (`MessageError`); every line is still resolved first. A decoded section
    /// with a non-zero Required Insert Count is queued for acknowledgement. The section's
    /// blocked-stream slot, if any, is given back whatever the outcome.
    pub fn finish_decode(&mut self, encoded: &[u8], start: SectionStart, stream_id: u64) -> (section: Result<FieldSection, H3ErrorCode>)
        requires
            old(self).wf(),
            start.lines_start <= encoded@.len(),
            start.reserved ==> old(self)@.blocked_streams > 0,
        ensures
            final(self).wf(),
            ({
                let released = if start.reserved {
                    TableView { blocked_streams: (old(self)@.blocked_streams - 1) as nat, ..old(self)@ }
                } else {
                    old(self)@
                };
                match section_lines(
                    old(self)@,
                    start.base as nat,
                    encoded@.subrange(start.lines_start as int, encoded@.len() as int),
                ) {
                    Ok(v) => section matches Ok(s) && s@ == v && s.headers.wf() && final(self)@ == (
                    if start.required_insert_count > 0 {
                        TableView {
                            pending_acks: released.pending_acks.push(
                                crate::decoder_table::PendingSectionAck {
                                    stream_id,
                                    required_insert_count: start.required_insert_count,
                                },
                            ),
                            ..released
                        }
                    } else {
                        released
                    }),
                    Err(e) => section is Err && section->Err_0 == e && final(self)@ == released,
                }
            }),
    {
        let ghost t = self@;
        let (_, lines) = encoded.split_at(start.lines_start);
        assert(lines@ == encoded@.subrange(start.lines_start as int, encoded@.len() as int));
        let mut rest = lines;
        let mut pseudo_headers = PseudoHeaders::default();
        let mut headers = Headers::new();
        let mut saw_regular = false;
        let mut malformed = false;
        proof {
            assert(LinesState {
                section: FieldSectionView { pseudo_headers: pseudo_headers@, headers: headers@, never_indexed: headers.never_indexed_marks() },
                saw_regular,
                malformed,
            } == initial_lines_state());
        }
        while rest.len() > 0
            invariant
                self.wf(),
                self@ == t,
                t == old(self)@,
                headers.wf(),
                start.reserved ==> t.blocked_streams > 0,
                lines@ == encoded@.subrange(start.lines_start as int, encoded@.len() as int),
                dynamic_lines(t, start.base as nat, lines@, initial_lines_state()) == dynamic_lines(
                    t,
                    start.base as nat,
                    rest@,
                    LinesState {
                        section: FieldSectionView { pseudo_headers: pseudo_headers@, headers: headers@, never_indexed: headers.never_indexed_marks() },
                        saw_regular,
                        malformed,
                    },
                ),
            decreases rest@.len(),
        {
            proof {
                lemma_dynamic_lines_step(
                    t,
                    start.base as nat,
                    rest@,
                    LinesState {
                        section: FieldSectionView { pseudo_headers: pseudo_headers@, headers: headers@, never_indexed: headers.never_indexed_marks() },
                        saw_regular,
                        malformed,
                    },
                );
            }
            let (line, rest_) = match self.decode_line(start.base, rest) {
                Ok(decoded) => decoded,
                Err(e) => {
                    assert(dynamic_lines(t, start.base as nat, lines@, initial_lines_state()) == Err::<
                        LinesState,
                        H3ErrorCode,
                    >(e));
                    self.end_section(start.reserved);
                    return Err(e);
                },
            };
            rest = rest_;
            add_section_line(line, &mut pseudo_headers, &mut headers, &mut saw_regular, &mut malformed);
        }
        proof {
            lemma_dynamic_lines_empty(
                t,
                start.base as nat,
                rest@,
                LinesState {
                    section: FieldSectionView { pseudo_headers: pseudo_headers@, headers: headers@, never_indexed: headers.never_indexed_marks() },
                    saw_regular,
                    malformed,
                },
            );
        }
        self.end_section(start.reserved);
        if malformed {
            return Err(H3ErrorCode::MessageError);
        }
        if start.required_insert_count > 0 {
            self.acknowledge_section(stream_id, start.required_insert_count);
        }
        Ok(FieldSection::new(pseudo_headers, headers))
    }
}

/// A literal line with a pre-base name reference reads as the referenced entry's name
/// (entry `Base - 1 - index`) with the literal value that follows on the wire, keeping
/// its N bit; the entry's own value plays no part.
pub proof fn lemma_literal_pre_base_reference_resolves(
    t: TableView,
    base: nat,
    relative_index: usize,
    value: Seq<u8>,
    never_indexed: bool,
)
    requires
        t.failed is None,
        base >= relative_index + 1,
        table_get(t, base - 1 - relative_index) is Some,
        !(table_get(t, base - 1 - relative_index)->0.name is Pseudo),
        valid_value(value),
    ensures
        resolve_line(t, base, FieldLine::LiteralDynamicNameRef { relative_index, value, never_indexed })
            == Ok::<SectionLineView, H3ErrorCode>(
            SectionLineView::Header(table_get(t, base - 1 - relative_index)->0.name, value, never_indexed),
        ),
{
}

/// A literal line with a post-base name reference reads as the referenced entry's name
/// (entry `Base + index`) with the literal value that follows on the wire, keeping its N
/// bit; the entry's own value plays no part.
pub proof fn lemma_literal_post_base_reference_resolves(
    t: TableView,
    base: nat,
    post_base_index: usize,
    value: Seq<u8>,
    never_indexed: bool,
)
    requires
        t.failed is None,
        base + post_base_index <= u64::MAX,
        table_get(t, base + post_base_index) is Some,
        !(table_get(t, base + post_base_index)->0.name is Pseudo),
        valid_value(value),
    ensures
        resolve_line(t, base, FieldLine::LiteralPostBaseNameRef { post_base_index, value, never_indexed })
            == Ok::<SectionLineView, H3ErrorCode>(
            SectionLineView::Header(table_get(t, base + post_base_index)->0.name, value, never_indexed),
        ),
{
}

/// An indexed line with a pre-base reference reads as the entry `Base - 1 - index` itself,
/// name and value, never-indexed unset.
pub proof fn lemma_indexed_pre_base_reference_resolves(t: TableView, base: nat, relative_index: usize)
    requires
        t.failed is None,
        base >= relative_index + 1,
        table_get(t, base - 1 - relative_index) is Some,
        !(table_get(t, base - 1 - relative_index)->0.name is Pseudo),
        valid_value(table_get(t, base - 1 - relative_index)->0.value),
    ensures
        resolve_line(t, base, FieldLine::IndexedDynamic { relative_index }) == Ok::<SectionLineView, H3ErrorCode>(
            SectionLineView::Header(
                table_get(t, base - 1 - relative_index)->0.name,
                table_get(t, base - 1 - relative_index)->0.value,
                false,
            ),
        ),
{
}

/// An indexed line with a post-base reference reads as the entry `Base + index` itself,
/// name and value, never-indexed unset.
pub proof fn lemma_indexed_post_base_reference_resolves(t: TableView, base: nat, post_base_index: usize)
    requires
        t.failed is None,
        base + post_base_index <= u64::MAX,
        table_get(t, base + post_base_index) is Some,
        !(table_get(t, base + post_base_index)->0.name is Pseudo),
        valid_value(table_get(t, base + post_base_index)->0.value),
    ensures
        resolve_line(t, base, FieldLine::IndexedPostBase { post_base_index }) == Ok::<SectionLineView, H3ErrorCode>(
            SectionLineView::Header(
                table_get(t, base + post_base_index)->0.name,
                table_get(t, base + post_base_index)->0.value,
                false,
            ),
        ),
{
}

/// A literal line with a static name reference reads as the static entry's header name with
/// the literal value that follows on the wire, keeping its N bit.
pub proof fn lemma_literal_static_reference_resolves(
    t: TableView,
    base: nat,
    name_index: usize,
    known: crate::static_table::KnownHeaderName,
    value: Seq<u8>,
    never_indexed: bool,
)
    requires
        name_index < 99,
        static_table_entry(name_index as u8).0 == crate::static_table::StaticHeaderName::Header(known),
        valid_value(value),
    ensures
        resolve_line(t, base, FieldLine::LiteralStaticNameRef { name_index, value, never_indexed })
            == Ok::<SectionLineView, H3ErrorCode>(
            SectionLineView::Header(EntryNameView::Known(known), value, never_indexed),
        ),
{
}

/// A literal line with a literal name reads as that name with the literal value, keeping
/// its N bit, whatever the table holds.
pub proof fn lemma_literal_name_resolves(t: TableView, base: nat, name: EntryNameView, value: Seq<u8>, never_indexed: bool)
    requires
        !(name is Pseudo),
        valid_value(value),
    ensures
        resolve_line(t, base, FieldLine::LiteralLiteralName { name, value, never_indexed }) == Ok::<
            SectionLineView,
            H3ErrorCode,
        >(SectionLineView::Header(name, value, never_indexed)),
{
}

} // verus!
