//! Decoding a field section against the decoder's dynamic table by the lenient rules of the
//! static decoder: a repeated pseudo-header keeps its first value, values are taken as they
//! arrive, and a line that does not decode is a decompression failure (or, for a dynamic
//! reference, the encoder stream's own error once it has failed).
//!
//! The prefix is read by [`DecoderDynamicTable::begin_decode`]; the caller then waits, for
//! as long as [`DecoderDynamicTable::threshold_state`] says `Pending`, and finishes with
//! [`FieldSection::decode_with_dynamic_table`].
use vstd::prelude::*;
use vstd::utf8::{decode_utf8, valid_utf8};
use crate::decoder::{
    apply_line, decode_indexed, decode_literal_with_literal_name, decode_literal_with_name_ref,
    empty_section, static_line_decoding, string_from_utf8, PseudoHeader, PseudoHeaderView,
    SectionLine, SectionLineView,
};
use crate::decoder_table::{DecoderDynamicTable, H3ErrorCode, PendingSectionAck, TableView};
use crate::dynamic_decode::{dynamic_entry, post_base_index, pre_base_index, SectionStart};
use crate::entry_name::{EntryName, EntryNameView};
use crate::headers::{FieldSection, FieldSectionView, Headers, PseudoHeaders};
use crate::instruction::{decode_string, string_literal_decoding};
use crate::method::{method_with_bytes, Method};
use crate::static_table::PseudoHeaderName;
use crate::status::{status_from_text, Status};
use crate::varint::{self, decoding};

verus! {

/// The line a dynamic entry's name makes with `value`: a pseudo-header value must read as
/// its type; any other name gives a header holding the value as it is.
pub open spec fn table_entry_line(name: EntryNameView, value: Seq<u8>) -> Result<SectionLineView, H3ErrorCode> {
    match name {
        EntryNameView::Pseudo(PseudoHeaderName::Method) => match method_with_bytes(value, 0) {
            Some(m) => Ok(SectionLineView::Pseudo(PseudoHeaderView::Method(m))),
            None => Err(H3ErrorCode::QpackDecompressionFailed),
        },
        EntryNameView::Pseudo(PseudoHeaderName::Status) => match status_from_text(value) {
            Some(s) => Ok(SectionLineView::Pseudo(PseudoHeaderView::Status(s))),
            None => Err(H3ErrorCode::QpackDecompressionFailed),
        },
        EntryNameView::Pseudo(other) => if valid_utf8(value) {
            Ok(SectionLineView::Pseudo(PseudoHeaderView::Other(other, decode_utf8(value))))
        } else {
            Err(H3ErrorCode::QpackDecompressionFailed)
        },
        _ => Ok(SectionLineView::Header(name, value, false)),
    }
}

/// A dynamic reference whose index occupies the first `n` bytes of `input`: the entry's
/// name with its own value, or (`literal`) with the string literal that follows.
pub open spec fn table_reference_line(
    t: TableView,
    absolute_index: Option<int>,
    input: Seq<u8>,
    n: nat,
    literal: bool,
) -> Result<(SectionLineView, nat), H3ErrorCode> {
    match absolute_index {
        None => Err(H3ErrorCode::QpackDecompressionFailed),
        Some(abs) => match dynamic_entry(t, abs) {
            Err(e) => Err(e),
            Ok(entry) => if literal {
                match string_literal_decoding(input.subrange(n as int, input.len() as int), 7) {
                    Err(_) => Err(H3ErrorCode::QpackDecompressionFailed),
                    Ok((value, m)) => match table_entry_line(entry.name, value) {
                        Ok(line) => Ok((line, n + m)),
                        Err(e) => Err(e),
                    },
                }
            } else {
                match table_entry_line(entry.name, entry.value) {
                    Ok(line) => Ok((line, n)),
                    Err(e) => Err(e),
                }
            },
        },
    }
}

/// A static-table line as the static decoder reads it, any error a decompression failure.
pub open spec fn lenient_static_line(input: Seq<u8>) -> Result<(SectionLineView, nat), H3ErrorCode> {
    match static_line_decoding(input) {
        Ok(decoded) => Ok(decoded),
        Err(_) => Err(H3ErrorCode::QpackDecompressionFailed),
    }
}

/// Decoding one field line of a section with Base `base` from the start of `input`: the
/// line and the number of bytes it occupies.
#[verifier::opaque]
pub open spec fn table_line_decoding(t: TableView, base: nat, input: Seq<u8>) -> Result<(SectionLineView, nat), H3ErrorCode>
    recommends
        input.len() > 0,
{
    let first = input[0];
    if first & 0x80 != 0 {
        if first & 0x40 != 0 {
            lenient_static_line(input)
        } else {
            match decoding(input, 6) {
                Err(_) => Err(H3ErrorCode::QpackDecompressionFailed),
                Ok((index, n)) => table_reference_line(t, pre_base_index(base, index as nat), input, n, false),
            }
        }
    } else if first & 0x40 != 0 {
        if first & 0x10 != 0 {
            lenient_static_line(input)
        } else {
            match decoding(input, 4) {
                Err(_) => Err(H3ErrorCode::QpackDecompressionFailed),
                Ok((index, n)) => table_reference_line(t, pre_base_index(base, index as nat), input, n, true),
            }
        }
    } else if first & 0x20 != 0 {
        lenient_static_line(input)
    } else if first & 0x10 != 0 {
        match decoding(input, 4) {
            Err(_) => Err(H3ErrorCode::QpackDecompressionFailed),
            Ok((index, n)) => table_reference_line(t, post_base_index(base, index as nat), input, n, false),
        }
    } else {
        match decoding(input, 3) {
            Err(_) => Err(H3ErrorCode::QpackDecompressionFailed),
            Ok((index, n)) => table_reference_line(t, post_base_index(base, index as nat), input, n, true),
        }
    }
}

/// Decoding the field lines of `input` one after another into `section`.
#[verifier::opaque]
pub open spec fn table_lines(t: TableView, base: nat, input: Seq<u8>, section: FieldSectionView) -> Result<FieldSectionView, H3ErrorCode>
    decreases input.len(),
{
    if input.len() == 0 {
        Ok(section)
    } else {
        match table_line_decoding(t, base, input) {
            Err(e) => Err(e),
            Ok((line, n)) => if 0 < n <= input.len() {
                table_lines(t, base, input.subrange(n as int, input.len() as int), apply_line(section, line))
            } else {
                // A line always occupies at least one byte.
                Err(H3ErrorCode::QpackDecompressionFailed)
            },
        }
    }
}

/// Build the line of a dynamic entry's name with a value (see [`table_entry_line`]).
fn table_entry_field_line(name: EntryName, value: Vec<u8>) -> (line: Result<SectionLine, H3ErrorCode>)
    ensures
        match table_entry_line(name@, value@) {
            Ok(l) => line matches Ok(v) && v@ == l,
            Err(e) => line is Err && line->Err_0 == e,
        },
{
    match name {
        EntryName::Pseudo(PseudoHeaderName::Method) => match Method::parse(value.as_slice()) {
            Some(m) => Ok(SectionLine::Pseudo(PseudoHeader::Method(m))),
            None => Err(H3ErrorCode::QpackDecompressionFailed),
        },
        EntryName::Pseudo(PseudoHeaderName::Status) => match Status::parse(value.as_slice()) {
            Some(s) => Ok(SectionLine::Pseudo(PseudoHeader::Status(s))),
            None => Err(H3ErrorCode::QpackDecompressionFailed),
        },
        EntryName::Pseudo(other) => match string_from_utf8(value) {
            Ok(text) => Ok(SectionLine::Pseudo(PseudoHeader::Other(other, text))),
            Err(_) => Err(H3ErrorCode::QpackDecompressionFailed),
        },
        _ => Ok(SectionLine::Header(name, value, false)),
    }
}

/// What reading one line promises: the line the specification gives, the bytes after it,
/// and a header line that never carries a pseudo-header name.
pub open spec fn table_line_result(
    t: TableView,
    base: nat,
    input: Seq<u8>,
    decoded: Result<(SectionLine, &[u8]), H3ErrorCode>,
) -> bool {
    match table_line_decoding(t, base, input) {
        Err(e) => decoded is Err && decoded->Err_0 == e,
        Ok((l, n)) => decoded matches Ok((v, rest)) && v@ == l && 0 < n <= input.len() && rest@
            == input.subrange(n as int, input.len() as int) && (v@ matches SectionLineView::Header(name, _, _) ==> !(name is Pseudo)),
    }
}

/// Resolve a dynamic reference whose index took `n` bytes of `input` (`after` is the rest).
fn reference_line<'a>(
    table: &DecoderDynamicTable,
    absolute_index: Option<u64>,
    input: &'a [u8],
    after: &'a [u8],
    literal: bool,
) -> (decoded: Result<(SectionLine, &'a [u8]), H3ErrorCode>)
    requires
        table.wf(),
        after@.len() < input@.len(),
        after@ == input@.subrange(input@.len() - after@.len(), input@.len() as int),
    ensures
        match table_reference_line(
            table@,
            match absolute_index {
                Some(a) => Some(a as int),
                None => None,
            },
            input@,
            (input@.len() - after@.len()) as nat,
            literal,
        ) {
            Err(e) => decoded is Err && decoded->Err_0 == e,
            Ok((l, k)) => decoded matches Ok((v, rest)) && v@ == l && 0 < k <= input@.len()
                && rest@ == input@.subrange(k as int, input@.len() as int) && (v@ matches SectionLineView::Header(name, _, _) ==> !(name is Pseudo)),
        },
{
    let ghost n = (input@.len() - after@.len()) as nat;
    let abs = match absolute_index {
        Some(abs) => abs,
        None => {
            return Err(H3ErrorCode::QpackDecompressionFailed);
        },
    };
    let (name, entry_value) = match table.lookup(abs) {
        Ok(entry) => entry,
        Err(e) => {
            return Err(e);
        },
    };
    if literal {
        assert(after@ == input@.subrange(n as int, input@.len() as int));
        let (value, rest) = match decode_string(after, 7) {
            Ok(decoded) => decoded,
            Err(_) => {
                return Err(H3ErrorCode::QpackDecompressionFailed);
            },
        };
        let ghost m = (after@.len() - rest@.len()) as nat;
        assert(rest@ =~= input@.subrange((n + m) as int, input@.len() as int));
        match table_entry_field_line(name, value) {
            Ok(line) => Ok((line, rest)),
            Err(e) => Err(e),
        }
    } else {
        match table_entry_field_line(name, entry_value) {
            Ok(line) => Ok((line, after)),
            Err(e) => Err(e),
        }
    }
}

/// The absolute index of a pre-base reference, when there is one.
fn pre_base(base: u64, relative_index: usize) -> (abs: Option<u64>)
    ensures
        match abs {
            Some(a) => pre_base_index(base as nat, relative_index as nat) == Some(a as int),
            None => pre_base_index(base as nat, relative_index as nat) is None,
        },
{
    if base == 0 || base - 1 < relative_index as u64 {
        None
    } else {
        Some(base - 1 - relative_index as u64)
    }
}

/// The absolute index of a post-base reference, when there is one.
fn post_base(base: u64, post_base_index_: usize) -> (abs: Option<u64>)
    ensures
        match abs {
            Some(a) => post_base_index(base as nat, post_base_index_ as nat) == Some(a as int),
            None => post_base_index(base as nat, post_base_index_ as nat) is None,
        },
{
    base.checked_add(post_base_index_ as u64)
}

/// Map a static-decoder line to this decoder's error.
fn lenient<'a>(decoded: Result<(SectionLine, &'a [u8]), crate::decoder::DecoderError>) -> (lenient: Result<(SectionLine, &'a [u8]), H3ErrorCode>)
    ensures
        match decoded {
            Ok(d) => lenient == Ok::<(SectionLine, &'a [u8]), H3ErrorCode>(d),
            Err(_) => lenient == Err::<(SectionLine, &'a [u8]), H3ErrorCode>(H3ErrorCode::QpackDecompressionFailed),
        },
{
    match decoded {
        Ok(d) => Ok(d),
        Err(_) => Err(H3ErrorCode::QpackDecompressionFailed),
    }
}

/// Read and resolve the field line at the start of `input`.
#[verifier::rlimit(40)]
fn decode_table_line<'a>(table: &DecoderDynamicTable, base: u64, input: &'a [u8]) -> (decoded: Result<(SectionLine, &'a [u8]), H3ErrorCode>)
    requires
        table.wf(),
        input@.len() > 0,
    ensures
        table_line_result(table@, base as nat, input@, decoded),
{
    proof {
        reveal(table_line_decoding);
        reveal(static_line_decoding);
    }
    let first = input[0];
    if first & 0x80 != 0 && first & 0x40 != 0 {
        return lenient(decode_indexed(input));
    }
    if first & 0x80 == 0 && first & 0x40 != 0 && first & 0x10 != 0 {
        return lenient(decode_literal_with_name_ref(input));
    }
    if first & 0x80 == 0 && first & 0x40 == 0 && first & 0x20 != 0 {
        return lenient(decode_literal_with_literal_name(input));
    }
    let prefix_size: u8 = if first & 0x80 != 0 {
        6
    } else if first & 0x40 != 0 {
        4
    } else if first & 0x10 != 0 {
        4
    } else {
        3
    };
    let (index, after) = match varint::decode(input, prefix_size) {
        Ok(decoded) => decoded,
        Err(_) => {
            return Err(H3ErrorCode::QpackDecompressionFailed);
        },
    };
    proof {
        varint::lemma_decoding_bounded(input@, prefix_size);
    }
    if first & 0x80 != 0 {
        reference_line(table, pre_base(base, index), input, after, false)
    } else if first & 0x40 != 0 {
        reference_line(table, pre_base(base, index), input, after, true)
    } else if first & 0x10 != 0 {
        reference_line(table, post_base(base, index), input, after, false)
    } else {
        reference_line(table, post_base(base, index), input, after, true)
    }
}

/// Decoding no field lines gives the section gathered so far.
proof fn lemma_table_lines_empty(t: TableView, base: nat, input: Seq<u8>, section: FieldSectionView)
    requires
        input.len() == 0,
    ensures
        table_lines(t, base, input, section) == Ok::<FieldSectionView, H3ErrorCode>(section),
{
    reveal(table_lines);
}

/// Decoding field lines reads the first one, adds it, and goes on with the rest.
proof fn lemma_table_lines_step(t: TableView, base: nat, input: Seq<u8>, section: FieldSectionView)
    requires
        input.len() > 0,
    ensures
        table_lines(t, base, input, section) == match table_line_decoding(t, base, input) {
            Err(e) => Err(e),
            Ok((line, n)) => if 0 < n <= input.len() {
                table_lines(t, base, input.subrange(n as int, input.len() as int), apply_line(section, line))
            } else {
                Err(H3ErrorCode::QpackDecompressionFailed)
            },
        },
{
    reveal(table_lines);
}

impl FieldSection {
    /// Decode the field lines of a section whose prefix
    /// [`begin_decode`](DecoderDynamicTable::begin_decode) read, once the table holds the
    /// section's Required Insert Count of entries (or the encoder stream has failed).
    ///
    /// Duplicate pseudo-headers are ignored (the first value wins). A decoded section with
    /// a non-zero Required Insert Count is queued for acknowledgement; the section's
    /// blocked-stream slot, if any, is given back whatever the outcome.
    pub fn decode_with_dynamic_table(
        encoded: &[u8],
        start: SectionStart,
        table: &mut DecoderDynamicTable,
        stream_id: u64,
    ) -> (section: Result<FieldSection, H3ErrorCode>)
        requires
            old(table).wf(),
            start.lines_start <= encoded@.len(),
            start.reserved ==> old(table)@.blocked_streams > 0,
        ensures
            final(table).wf(),
            ({
                let released = if start.reserved {
                    TableView { blocked_streams: (old(table)@.blocked_streams - 1) as nat, ..old(table)@ }
                } else {
                    old(table)@
                };
                match table_lines(
                    old(table)@,
                    start.base as nat,
                    encoded@.subrange(start.lines_start as int, encoded@.len() as int),
                    empty_section(),
                ) {
                    Ok(v) => section matches Ok(s) && s@ == v && s.headers.wf() && final(table)@ == (
                    if start.required_insert_count > 0 {
                        TableView {
                            pending_acks: released.pending_acks.push(
                                PendingSectionAck {
                                    stream_id,
                                    required_insert_count: start.required_insert_count,
                                },
                            ),
                            ..released
                        }
                    } else {
                        released
                    }),
                    Err(e) => section is Err && section->Err_0 == e && final(table)@ == released,
                }
            }),
    {
        let ghost t = table@;
        let (_, lines) = encoded.split_at(start.lines_start);
        assert(lines@ == encoded@.subrange(start.lines_start as int, encoded@.len() as int));
        let mut rest = lines;
        let mut pseudo_headers = PseudoHeaders::default();
        let mut headers = Headers::new();
        assert(FieldSectionView { pseudo_headers: pseudo_headers@, headers: headers@, never_indexed: headers.never_indexed_marks() } == empty_section());
        while rest.len() > 0
            invariant
                table.wf(),
                table@ == t,
                t == old(table)@,
                headers.wf(),
                start.reserved ==> t.blocked_streams > 0,
                lines@ == encoded@.subrange(start.lines_start as int, encoded@.len() as int),
                table_lines(t, start.base as nat, lines@, empty_section()) == table_lines(
                    t,
                    start.base as nat,
                    rest@,
                    FieldSectionView { pseudo_headers: pseudo_headers@, headers: headers@, never_indexed: headers.never_indexed_marks() },
                ),
            decreases rest@.len(),
        {
            proof {
                lemma_table_lines_step(
                    t,
                    start.base as nat,
                    rest@,
                    FieldSectionView { pseudo_headers: pseudo_headers@, headers: headers@, never_indexed: headers.never_indexed_marks() },
                );
            }
            let (line, rest_) = match decode_table_line(table, start.base, rest) {
                Ok(decoded) => decoded,
                Err(e) => {
                    table.end_section(start.reserved);
                    return Err(e);
                },
            };
            rest = rest_;
            match line {
                SectionLine::Header(name, value, never_indexed) => {
                    headers.append_marked(name, value, never_indexed);
                },
                SectionLine::Pseudo(pseudo) => {
                    pseudo.apply(&mut pseudo_headers);
                },
            }
        }
        proof {
            lemma_table_lines_empty(
                t,
                start.base as nat,
                rest@,
                FieldSectionView { pseudo_headers: pseudo_headers@, headers: headers@, never_indexed: headers.never_indexed_marks() },
            );
        }
        table.end_section(start.reserved);
        if start.required_insert_count > 0 {
            table.acknowledge_section(stream_id, start.required_insert_count);
        }
        Ok(FieldSection::new(pseudo_headers, headers))
    }
}

} // verus!
