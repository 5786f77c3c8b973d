//! Typed parser and wire-format encoders for QPACK field-section bytes (RFC 9204 §4.5).
//!
//! [`FieldLineInstruction`] is the pure wire representation — each variant carries raw
//! indices (static / relative / post-base) and the literal value bytes. Dynamic-table
//! resolution is the consumer's job; the parser has no table reference.
//!
//! [`FieldSectionPrefix`] carries the §4.5.1 prefix in its encoded form.
use vstd::prelude::*;
use crate::entry_name::{name_bytes, name_from_wire, EntryName, EntryNameView};
use crate::instruction::{
    decode_string, encode_string, string_literal, string_literal_decoding, QpackError,
};
use crate::varint::{self, decoding, encoding, with_flags};
use crate::bytes::bytes_equal;

verus! {

/// Sign bit of the delta-base (§4.5.1.2). Set when `base < required_insert_count`.
pub const BASE_DELTA_SIGN: u8 = 0x80;
/// §4.5.2 Indexed Field Line: 1Txxxxxx.
pub const INDEXED_FIELD_LINE: u8 = 0x80;
/// T bit inside §4.5.2 (static when set, dynamic when clear).
pub const INDEXED_STATIC_FLAG: u8 = 0x40;
/// §4.5.3 Indexed Field Line with Post-Base Index: 0001xxxx.
pub const POST_BASE_INDEXED: u8 = 0x10;
/// §4.5.4 Literal Field Line with Name Reference: 01NTxxxx.
pub const LITERAL_WITH_NAME_REF: u8 = 0x40;
/// N (Never-Indexed) bit inside §4.5.4.
pub const NAME_REF_NEVER_INDEXED_FLAG: u8 = 0x20;
/// T bit inside §4.5.4 (static when set, dynamic when clear).
pub const NAME_REF_STATIC_FLAG: u8 = 0x10;
/// N (Never-Indexed) bit inside §4.5.5 (0000Nxxx).
pub const POST_BASE_NAME_REF_NEVER_INDEXED_FLAG: u8 = 0x08;
/// §4.5.6 Literal Field Line with Literal Name: 001NHxxx.
pub const LITERAL_WITH_LITERAL_NAME: u8 = 0x20;
/// N (Never-Indexed) bit inside §4.5.6.
pub const LITERAL_NAME_NEVER_INDEXED_FLAG: u8 = 0x10;

/// One field line in its wire-encoded form (RFC 9204 §4.5.2–§4.5.6).
#[derive(Debug, PartialEq, Eq)]
pub enum FieldLineInstruction {
    /// §4.5.2 (T=1): reference to the static table.
    IndexedStatic { index: usize },
    /// §4.5.2 (T=0): reference to a dynamic-table entry with absolute index
    /// `base - 1 - relative_index`.
    IndexedDynamic { relative_index: usize },
    /// §4.5.3: reference to a dynamic-table entry with absolute index
    /// `base + post_base_index`.
    IndexedPostBase { post_base_index: usize },
    /// §4.5.4 (T=1): literal value with a static-table name reference.
    LiteralStaticNameRef { name_index: usize, value: Vec<u8>, never_indexed: bool },
    /// §4.5.4 (T=0): literal value with a dynamic-table pre-base name reference.
    LiteralDynamicNameRef { relative_index: usize, value: Vec<u8>, never_indexed: bool },
    /// §4.5.5: literal value with a dynamic-table post-base name reference.
    LiteralPostBaseNameRef { post_base_index: usize, value: Vec<u8>, never_indexed: bool },
    /// §4.5.6: literal name and literal value, no table reference.
    LiteralLiteralName { name: EntryName, value: Vec<u8>, never_indexed: bool },
}

/// The value of a [`FieldLineInstruction`].
pub enum FieldLine {
    IndexedStatic { index: usize },
    IndexedDynamic { relative_index: usize },
    IndexedPostBase { post_base_index: usize },
    LiteralStaticNameRef { name_index: usize, value: Seq<u8>, never_indexed: bool },
    LiteralDynamicNameRef { relative_index: usize, value: Seq<u8>, never_indexed: bool },
    LiteralPostBaseNameRef { post_base_index: usize, value: Seq<u8>, never_indexed: bool },
    LiteralLiteralName { name: EntryNameView, value: Seq<u8>, never_indexed: bool },
}

impl View for FieldLineInstruction {
    type V = FieldLine;

    open spec fn view(&self) -> FieldLine {
        match self {
            FieldLineInstruction::IndexedStatic { index } => FieldLine::IndexedStatic {
                index: *index,
            },
            FieldLineInstruction::IndexedDynamic { relative_index } => FieldLine::IndexedDynamic {
                relative_index: *relative_index,
            },
            FieldLineInstruction::IndexedPostBase { post_base_index } => FieldLine::IndexedPostBase {
                post_base_index: *post_base_index,
            },
            FieldLineInstruction::LiteralStaticNameRef { name_index, value, never_indexed } =>
                FieldLine::LiteralStaticNameRef {
                name_index: *name_index,
                value: value@,
                never_indexed: *never_indexed,
            },
            FieldLineInstruction::LiteralDynamicNameRef { relative_index, value, never_indexed } =>
                FieldLine::LiteralDynamicNameRef {
                relative_index: *relative_index,
                value: value@,
                never_indexed: *never_indexed,
            },
            FieldLineInstruction::LiteralPostBaseNameRef {
                post_base_index,
                value,
                never_indexed,
            } => FieldLine::LiteralPostBaseNameRef {
                post_base_index: *post_base_index,
                value: value@,
                never_indexed: *never_indexed,
            },
            FieldLineInstruction::LiteralLiteralName { name, value, never_indexed } =>
                FieldLine::LiteralLiteralName {
                name: name@,
                value: value@,
                never_indexed: *never_indexed,
            },
        }
    }
}

pub open spec fn flag_if(set: bool, flag: u8) -> u8 {
    if set {
        flag
    } else {
        0
    }
}

/// The wire form of a field line.
pub open spec fn field_line_encoding(line: FieldLine) -> Seq<u8> {
    match line {
        FieldLine::IndexedStatic { index } => with_flags(
            encoding(index as nat, 6),
            INDEXED_FIELD_LINE | INDEXED_STATIC_FLAG,
        ),
        FieldLine::IndexedDynamic { relative_index } => with_flags(
            encoding(relative_index as nat, 6),
            INDEXED_FIELD_LINE,
        ),
        FieldLine::IndexedPostBase { post_base_index } => with_flags(
            encoding(post_base_index as nat, 4),
            POST_BASE_INDEXED,
        ),
        FieldLine::LiteralStaticNameRef { name_index, value, never_indexed } => with_flags(
            encoding(name_index as nat, 4),
            LITERAL_WITH_NAME_REF | NAME_REF_STATIC_FLAG | flag_if(
                never_indexed,
                NAME_REF_NEVER_INDEXED_FLAG,
            ),
        ) + string_literal(value, 7),
        FieldLine::LiteralDynamicNameRef { relative_index, value, never_indexed } => with_flags(
            encoding(relative_index as nat, 4),
            LITERAL_WITH_NAME_REF | flag_if(never_indexed, NAME_REF_NEVER_INDEXED_FLAG),
        ) + string_literal(value, 7),
        FieldLine::LiteralPostBaseNameRef { post_base_index, value, never_indexed } =>
            with_flags(
                encoding(post_base_index as nat, 3),
                flag_if(never_indexed, POST_BASE_NAME_REF_NEVER_INDEXED_FLAG),
            )
            + string_literal(value, 7),
        FieldLine::LiteralLiteralName { name, value, never_indexed } => with_flags(
            string_literal(name_bytes(name), 3),
            LITERAL_WITH_LITERAL_NAME | flag_if(never_indexed, LITERAL_NAME_NEVER_INDEXED_FLAG),
        ) + string_literal(value, 7),
    }
}

/// A value literal that follows `head` (an instruction head of `used` bytes) in `input`.
pub open spec fn then_value(input: Seq<u8>, used: nat) -> Result<(Seq<u8>, nat), QpackError> {
    match string_literal_decoding(input.subrange(used as int, input.len() as int), 7) {
        Ok((v, n)) => Ok((v, used + n)),
        Err(e) => Err(e),
    }
}

/// Parsing one field line from the start of `input`: the line and the number of bytes it
/// occupies.
pub open spec fn field_line_decoding(input: Seq<u8>) -> Result<(FieldLine, nat), QpackError> {
    if input.len() == 0 {
        Err(QpackError::UnexpectedEnd)
    } else {
        let first = input[0];
        if first & 0x80 != 0 {
            match decoding(input, 6) {
                Err(e) => Err(QpackError::VarInt(e)),
                Ok((index, n)) => if first & 0x40 != 0 {
                    Ok((FieldLine::IndexedStatic { index }, n))
                } else {
                    Ok((FieldLine::IndexedDynamic { relative_index: index }, n))
                },
            }
        } else if first & 0x40 != 0 {
            let never_indexed = first & 0x20 != 0;
            match decoding(input, 4) {
                Err(e) => Err(QpackError::VarInt(e)),
                Ok((index, n)) => match then_value(input, n) {
                    Err(e) => Err(e),
                    Ok((value, m)) => if first & 0x10 != 0 {
                        Ok(
                            (
                                FieldLine::LiteralStaticNameRef {
                                    name_index: index,
                                    value,
                                    never_indexed,
                                },
                                m,
                            ),
                        )
                    } else {
                        Ok(
                            (
                                FieldLine::LiteralDynamicNameRef {
                                    relative_index: index,
                                    value,
                                    never_indexed,
                                },
                                m,
                            ),
                        )
                    },
                },
            }
        } else if first & 0x20 != 0 {
            let never_indexed = first & 0x10 != 0;
            match string_literal_decoding(input, 3) {
                Err(e) => Err(e),
                Ok((name_wire, n)) => match name_from_wire(name_wire) {
                    None => Err(QpackError::InvalidHeaderName),
                    Some(name) => match then_value(input, n) {
                        Err(e) => Err(e),
                        Ok((value, m)) => Ok(
                            (FieldLine::LiteralLiteralName { name, value, never_indexed }, m),
                        ),
                    },
                },
            }
        } else if first & 0x10 != 0 {
            match decoding(input, 4) {
                Err(e) => Err(QpackError::VarInt(e)),
                Ok((index, n)) => Ok((FieldLine::IndexedPostBase { post_base_index: index }, n)),
            }
        } else {
            let never_indexed = first & 0x08 != 0;
            match decoding(input, 3) {
                Err(e) => Err(QpackError::VarInt(e)),
                Ok((index, n)) => match then_value(input, n) {
                    Err(e) => Err(e),
                    Ok((value, m)) => Ok(
                        (
                            FieldLine::LiteralPostBaseNameRef {
                                post_base_index: index,
                                value,
                                never_indexed,
                            },
                            m,
                        ),
                    ),
                },
            }
        }
    }
}

/// Append `head` with `flags` OR-ed into its first byte.
pub(crate) fn push_with_flags(buf: &mut Vec<u8>, head: Vec<u8>, flags: u8)
    requires
        head@.len() > 0,
    ensures
        final(buf)@ == old(buf)@ + with_flags(head@, flags),
{
    let mut head = head;
    head.set(0, head[0] | flags);
    buf.append(&mut head);
}

/// Encode a string literal with `flags` OR-ed into its first byte.
pub(crate) fn encode_string_with_flags(value: &[u8], prefix_size: u8, flags: u8, buf: &mut Vec<u8>)
    requires
        1 <= prefix_size <= 7,
    ensures
        final(buf)@ == old(buf)@ + with_flags(string_literal(value@, prefix_size), flags),
{
    let mut head: Vec<u8> = Vec::new();
    encode_string(value, prefix_size, &mut head);
    proof {
        crate::varint::lemma_encoding_first_byte(0, prefix_size);
        lemma_string_literal_nonempty(value@, prefix_size);
    }
    assert(head@ =~= string_literal(value@, prefix_size));
    push_with_flags(buf, head, flags);
}

pub(crate) proof fn lemma_string_literal_nonempty(value: Seq<u8>, prefix_size: u8)
    requires
        1 <= prefix_size <= 7,
    ensures
        string_literal(value, prefix_size).len() > 0,
{
    let coded = crate::huffman::huffman_bytes(value);
    crate::varint::lemma_encoding_first_byte(coded.len(), prefix_size);
    crate::varint::lemma_encoding_first_byte(value.len(), prefix_size);
}

fn never_indexed_flag(never_indexed: bool, flag: u8) -> (f: u8)
    ensures
        f == flag_if(never_indexed, flag),
{
    if never_indexed {
        flag
    } else {
        0
    }
}

impl FieldLineInstruction {
    /// Whether this is the same instruction as `other`.
    pub fn same_as(&self, other: &FieldLineInstruction) -> (eq: bool)
        ensures
            eq == (self@ == other@),
    {
        match (self, other) {
            (
                FieldLineInstruction::IndexedStatic { index: a },
                FieldLineInstruction::IndexedStatic { index: b },
            ) => *a == *b,
            (
                FieldLineInstruction::IndexedDynamic { relative_index: a },
                FieldLineInstruction::IndexedDynamic { relative_index: b },
            ) => *a == *b,
            (
                FieldLineInstruction::IndexedPostBase { post_base_index: a },
                FieldLineInstruction::IndexedPostBase { post_base_index: b },
            ) => *a == *b,
            (
                FieldLineInstruction::LiteralStaticNameRef { name_index: a, value: v, never_indexed: n },
                FieldLineInstruction::LiteralStaticNameRef { name_index: b, value: w, never_indexed: m },
            ) => *a == *b && *n == *m && bytes_equal(v.as_slice(), w.as_slice()),
            (
                FieldLineInstruction::LiteralDynamicNameRef { relative_index: a, value: v, never_indexed: n },
                FieldLineInstruction::LiteralDynamicNameRef { relative_index: b, value: w, never_indexed: m },
            ) => *a == *b && *n == *m && bytes_equal(v.as_slice(), w.as_slice()),
            (
                FieldLineInstruction::LiteralPostBaseNameRef { post_base_index: a, value: v, never_indexed: n },
                FieldLineInstruction::LiteralPostBaseNameRef { post_base_index: b, value: w, never_indexed: m },
            ) => *a == *b && *n == *m && bytes_equal(v.as_slice(), w.as_slice()),
            (
                FieldLineInstruction::LiteralLiteralName { name: a, value: v, never_indexed: n },
                FieldLineInstruction::LiteralLiteralName { name: b, value: w, never_indexed: m },
            ) => a.same_as(b) && *n == *m && bytes_equal(v.as_slice(), w.as_slice()),
            _ => false,
        }
    }

    /// Append the wire-format encoding of this instruction to `buf`.
    pub fn encode(&self, buf: &mut Vec<u8>)
        ensures
            final(buf)@ == old(buf)@ + field_line_encoding(self@),
    {
        match self {
            FieldLineInstruction::IndexedStatic { index } => {
                proof {
                    crate::varint::lemma_encoding_first_byte(*index as nat, 6);
                }
                push_with_flags(buf, varint::encode(*index, 6), INDEXED_FIELD_LINE | INDEXED_STATIC_FLAG);
            },
            FieldLineInstruction::IndexedDynamic { relative_index } => {
                proof {
                    crate::varint::lemma_encoding_first_byte(*relative_index as nat, 6);
                }
                push_with_flags(buf, varint::encode(*relative_index, 6), INDEXED_FIELD_LINE);
            },
            FieldLineInstruction::IndexedPostBase { post_base_index } => {
                proof {
                    crate::varint::lemma_encoding_first_byte(*post_base_index as nat, 4);
                }
                push_with_flags(buf, varint::encode(*post_base_index, 4), POST_BASE_INDEXED);
            },
            FieldLineInstruction::LiteralStaticNameRef { name_index, value, never_indexed } => {
                proof {
                    crate::varint::lemma_encoding_first_byte(*name_index as nat, 4);
                }
                let flags = LITERAL_WITH_NAME_REF | NAME_REF_STATIC_FLAG | never_indexed_flag(
                    *never_indexed,
                    NAME_REF_NEVER_INDEXED_FLAG,
                );
                push_with_flags(buf, varint::encode(*name_index, 4), flags);
                encode_string(value.as_slice(), 7, buf);
            },
            FieldLineInstruction::LiteralDynamicNameRef { relative_index, value, never_indexed } => {
                proof {
                    crate::varint::lemma_encoding_first_byte(*relative_index as nat, 4);
                }
                let flags = LITERAL_WITH_NAME_REF | never_indexed_flag(
                    *never_indexed,
                    NAME_REF_NEVER_INDEXED_FLAG,
                );
                push_with_flags(buf, varint::encode(*relative_index, 4), flags);
                encode_string(value.as_slice(), 7, buf);
            },
            FieldLineInstruction::LiteralPostBaseNameRef {
                post_base_index,
                value,
                never_indexed,
            } => {
                proof {
                    crate::varint::lemma_encoding_first_byte(*post_base_index as nat, 3);
                }
                let flags = never_indexed_flag(*never_indexed, POST_BASE_NAME_REF_NEVER_INDEXED_FLAG);
                push_with_flags(buf, varint::encode(*post_base_index, 3), flags);
                encode_string(value.as_slice(), 7, buf);
            },
            FieldLineInstruction::LiteralLiteralName { name, value, never_indexed } => {
                let flags = LITERAL_WITH_LITERAL_NAME | never_indexed_flag(
                    *never_indexed,
                    LITERAL_NAME_NEVER_INDEXED_FLAG,
                );
                encode_string_with_flags(name.as_bytes(), 3, flags, buf);
                encode_string(value.as_slice(), 7, buf);
            },
        }
        assert(buf@ =~= old(buf)@ + field_line_encoding(self@));
    }
}


/// Decode the value literal that follows an instruction head; `rest` is what follows the
/// head, which took `used` bytes of `input`.
fn parse_value<'a>(input: &'a [u8], rest: &'a [u8], used: Ghost<nat>) -> (result: Result<
    (Vec<u8>, &'a [u8]),
    QpackError,
>)
    requires
        used@ <= input@.len(),
        rest@ == input@.subrange(used@ as int, input@.len() as int),
    ensures
        match then_value(input@, used@) {
            Ok((v, m)) => result matches Ok((value, tail)) && value@ == v && m <= input@.len()
                && tail@ == input@.subrange(m as int, input@.len() as int),
            Err(e) => result is Err && result->Err_0 == e,
        },
{
    let result = decode_string(rest, 7);
    match result {
        Ok((value, tail)) => {
            assert(tail@ =~= input@.subrange(
                (used@ + (rest@.len() - tail@.len())) as int,
                input@.len() as int,
            ));
            Ok((value, tail))
        },
        Err(e) => Err(e),
    }
}

impl FieldLineInstruction {
    /// Parse a single field line from the start of `input`. Returns the instruction and the
    /// unconsumed tail.
    pub fn parse(input: &[u8]) -> (result: Result<(FieldLineInstruction, &[u8]), QpackError>)
        ensures
            match field_line_decoding(input@) {
                Ok((line, n)) => result matches Ok((instr, rest)) && instr@ == line && n
                    <= input@.len() && rest@ == input@.subrange(n as int, input@.len() as int),
                Err(e) => result is Err && result->Err_0 == e,
            },
    {
        if input.len() == 0 {
            return Err(QpackError::UnexpectedEnd);
        }
        let first = input[0];
        if first & INDEXED_FIELD_LINE != 0 {
            let (index, rest) = match varint::decode(input, 6) {
                Ok(decoded) => decoded,
                Err(e) => {
                    return Err(QpackError::VarInt(e));
                },
            };
            let instr = if first & INDEXED_STATIC_FLAG != 0 {
                FieldLineInstruction::IndexedStatic { index }
            } else {
                FieldLineInstruction::IndexedDynamic { relative_index: index }
            };
            Ok((instr, rest))
        } else if first & LITERAL_WITH_NAME_REF != 0 {
            let never_indexed = first & NAME_REF_NEVER_INDEXED_FLAG != 0;
            let is_static = first & NAME_REF_STATIC_FLAG != 0;
            let (index, rest) = match varint::decode(input, 4) {
                Ok(decoded) => decoded,
                Err(e) => {
                    return Err(QpackError::VarInt(e));
                },
            };
            let ghost used = (input@.len() - rest@.len()) as nat;
            let (value, rest) = parse_value(input, rest, Ghost(used))?;
            let instr = if is_static {
                FieldLineInstruction::LiteralStaticNameRef { name_index: index, value, never_indexed }
            } else {
                FieldLineInstruction::LiteralDynamicNameRef {
                    relative_index: index,
                    value,
                    never_indexed,
                }
            };
            Ok((instr, rest))
        } else if first & LITERAL_WITH_LITERAL_NAME != 0 {
            let never_indexed = first & LITERAL_NAME_NEVER_INDEXED_FLAG != 0;
            let (name_wire, rest) = decode_string(input, 3)?;
            let name = EntryName::from_wire(name_wire.as_slice())?;
            let ghost used = (input@.len() - rest@.len()) as nat;
            let (value, rest) = parse_value(input, rest, Ghost(used))?;
            Ok((FieldLineInstruction::LiteralLiteralName { name, value, never_indexed }, rest))
        } else if first & POST_BASE_INDEXED != 0 {
            let (post_base_index, rest) = match varint::decode(input, 4) {
                Ok(decoded) => decoded,
                Err(e) => {
                    return Err(QpackError::VarInt(e));
                },
            };
            Ok((FieldLineInstruction::IndexedPostBase { post_base_index }, rest))
        } else {
            let never_indexed = first & POST_BASE_NAME_REF_NEVER_INDEXED_FLAG != 0;
            let (post_base_index, rest) = match varint::decode(input, 3) {
                Ok(decoded) => decoded,
                Err(e) => {
                    return Err(QpackError::VarInt(e));
                },
            };
            let ghost used = (input@.len() - rest@.len()) as nat;
            let (value, rest) = parse_value(input, rest, Ghost(used))?;
            Ok((FieldLineInstruction::LiteralPostBaseNameRef { post_base_index, value, never_indexed }, rest))
        }
    }
}

/// The §4.5.1 Field Section Prefix in its encoded form.
#[derive(Debug, Clone, Copy, PartialEq, Eq)]
pub struct FieldSectionPrefix {
    /// §4.5.1.1 encoded Required Insert Count (8-bit prefix varint). Zero means the section
    /// references no dynamic-table entries.
    pub encoded_required_insert_count: usize,
    /// §4.5.1.2 S bit: set when `base < required_insert_count`.
    pub base_is_negative: bool,
    /// §4.5.1.2 Delta Base (7-bit prefix varint).
    pub delta_base: usize,
}

/// The wire form of a field section prefix.
pub open spec fn prefix_encoding(prefix: FieldSectionPrefix) -> Seq<u8> {
    encoding(prefix.encoded_required_insert_count as nat, 8) + with_flags(
        encoding(prefix.delta_base as nat, 7),
        flag_if(prefix.base_is_negative, BASE_DELTA_SIGN),
    )
}

/// Parsing a field section prefix from the start of `input`.
pub open spec fn prefix_decoding(input: Seq<u8>) -> Result<(FieldSectionPrefix, nat), QpackError> {
    match decoding(input, 8) {
        Err(e) => Err(QpackError::VarInt(e)),
        Ok((ric, n)) => if n >= input.len() {
            Err(QpackError::UnexpectedEnd)
        } else {
            let rest = input.subrange(n as int, input.len() as int);
            match decoding(rest, 7) {
                Err(e) => Err(QpackError::VarInt(e)),
                Ok((delta_base, m)) => Ok(
                    (
                        FieldSectionPrefix {
                            encoded_required_insert_count: ric,
                            base_is_negative: rest[0] & BASE_DELTA_SIGN != 0,
                            delta_base,
                        },
                        n + m,
                    ),
                ),
            }
        },
    }
}

impl FieldSectionPrefix {
    /// A prefix for a section that references no dynamic-table entries.
    pub fn default() -> (prefix: Self)
        ensures
            prefix == (FieldSectionPrefix {
                encoded_required_insert_count: 0,
                base_is_negative: false,
                delta_base: 0,
            }),
    {
        FieldSectionPrefix { encoded_required_insert_count: 0, base_is_negative: false, delta_base: 0 }
    }

    /// Parse a field section prefix from the start of `input`.
    pub fn parse(input: &[u8]) -> (result: Result<(Self, &[u8]), QpackError>)
        ensures
            match prefix_decoding(input@) {
                Ok((prefix, n)) => result matches Ok((p, rest)) && p == prefix && n
                    <= input@.len() && rest@ == input@.subrange(n as int, input@.len() as int),
                Err(e) => result is Err && result->Err_0 == e,
            },
    {
        let (encoded_required_insert_count, rest) = match varint::decode(input, 8) {
            Ok(decoded) => decoded,
            Err(e) => {
                return Err(QpackError::VarInt(e));
            },
        };
        if rest.len() == 0 {
            return Err(QpackError::UnexpectedEnd);
        }
        let first = rest[0];
        let base_is_negative = first & BASE_DELTA_SIGN != 0;
        let ghost before = rest@;
        let (delta_base, tail) = match varint::decode(rest, 7) {
            Ok(decoded) => decoded,
            Err(e) => {
                return Err(QpackError::VarInt(e));
            },
        };
        assert(tail@ =~= input@.subrange(
            (input@.len() - tail@.len()) as int,
            input@.len() as int,
        ));
        Ok((FieldSectionPrefix { encoded_required_insert_count, base_is_negative, delta_base }, tail))
    }

    /// Append the wire form of this prefix to `buf`.
    pub fn encode(&self, buf: &mut Vec<u8>)
        ensures
            final(buf)@ == old(buf)@ + prefix_encoding(*self),
    {
        let mut ric = varint::encode(self.encoded_required_insert_count, 8);
        buf.append(&mut ric);
        proof {
            crate::varint::lemma_encoding_first_byte(self.delta_base as nat, 7);
        }
        let flags = never_indexed_flag(self.base_is_negative, BASE_DELTA_SIGN);
        push_with_flags(buf, varint::encode(self.delta_base, 7), flags);
        assert(buf@ =~= old(buf)@ + prefix_encoding(*self));
    }
}


/// Reading a field section prefix back from its wire form gives the prefix, whatever
/// bytes follow it.
pub proof fn lemma_prefix_roundtrip(prefix: FieldSectionPrefix, rest: Seq<u8>)
    ensures
        prefix_decoding(prefix_encoding(prefix) + rest) == Ok::<(FieldSectionPrefix, nat), QpackError>(
            (prefix, prefix_encoding(prefix).len()),
        ),
{
    let ric = encoding(prefix.encoded_required_insert_count as nat, 8);
    let db = encoding(prefix.delta_base as nat, 7);
    let f = flag_if(prefix.base_is_negative, BASE_DELTA_SIGN);
    let tail = with_flags(db, f) + rest;
    let input = prefix_encoding(prefix) + rest;
    assert(input =~= ric + tail);
    crate::varint::lemma_decode_encode(prefix.encoded_required_insert_count, 8, tail);
    crate::varint::lemma_encoding_first_byte(prefix.delta_base as nat, 7);
    assert(input.subrange(ric.len() as int, input.len() as int) =~= tail);
    assert(tail =~= with_flags(db + rest, f));
    let b = db[0];
    assert(b <= 127 ==> (b | 0x80) & 0x7f == b & 0x7f && (b | 0x80) & 0x80 != 0 && b & 0x80 == 0 && (b | 0) == b && 0x80u8 & 0x7f == 0 && 0u8 & 0x7f == 0) by (bit_vector);
    assert((u8::MAX >> ((8 - 7u8) as u8)) == 127) by (bit_vector);
    crate::varint::lemma_decoding_ignores_flags(db + rest, f, 7);
    crate::varint::lemma_decode_encode(prefix.delta_base, 7, rest);
}

/// The type bits of a field line's first byte, given a prefix value that fits below them.
pub(crate) proof fn lemma_field_line_head_bits(e: u8, never_indexed: bool)
    ensures
        e <= 63 ==> (e | (INDEXED_FIELD_LINE | INDEXED_STATIC_FLAG)) & 0x80 != 0 && (e | (
        INDEXED_FIELD_LINE | INDEXED_STATIC_FLAG)) & 0x40 != 0 && (INDEXED_FIELD_LINE
            | INDEXED_STATIC_FLAG) & 63 == 0,
        e <= 63 ==> (e | INDEXED_FIELD_LINE) & 0x80 != 0 && (e | INDEXED_FIELD_LINE) & 0x40 == 0
            && INDEXED_FIELD_LINE & 63 == 0,
        e <= 15 ==> (e | POST_BASE_INDEXED) & 0x80 == 0 && (e | POST_BASE_INDEXED) & 0x40 == 0 && (e
            | POST_BASE_INDEXED) & 0x20 == 0 && (e | POST_BASE_INDEXED) & 0x10 != 0 && POST_BASE_INDEXED
            & 15 == 0,
        e <= 15 ==> ({
            let f = LITERAL_WITH_NAME_REF | NAME_REF_STATIC_FLAG | flag_if(
                never_indexed,
                NAME_REF_NEVER_INDEXED_FLAG,
            );
            (e | f) & 0x80 == 0 && (e | f) & 0x40 != 0 && ((e | f) & 0x20 != 0) == never_indexed && (
            e | f) & 0x10 != 0 && f & 15 == 0
        }),
        e <= 15 ==> ({
            let f = LITERAL_WITH_NAME_REF | flag_if(never_indexed, NAME_REF_NEVER_INDEXED_FLAG);
            (e | f) & 0x80 == 0 && (e | f) & 0x40 != 0 && ((e | f) & 0x20 != 0) == never_indexed && (
            e | f) & 0x10 == 0 && f & 15 == 0
        }),
        e <= 7 ==> ({
            let f = flag_if(never_indexed, POST_BASE_NAME_REF_NEVER_INDEXED_FLAG);
            (e | f) & 0x80 == 0 && (e | f) & 0x40 == 0 && (e | f) & 0x20 == 0 && (e | f) & 0x10 == 0
                && ((e | f) & 0x08 != 0) == never_indexed && f & 7 == 0
        }),
        e <= 15 ==> ({
            let f = LITERAL_WITH_LITERAL_NAME | flag_if(never_indexed, LITERAL_NAME_NEVER_INDEXED_FLAG);
            (e | f) & 0x80 == 0 && (e | f) & 0x40 == 0 && (e | f) & 0x20 != 0 && ((e | f) & 0x10 != 0)
                == never_indexed && (e | f) & 0x08 == e & 0x08 && f & 7 == 0
        }),
{
    assert(0x80u8 | 0x40u8 == 0xc0u8) by (bit_vector);
    assert(e <= 63 ==> (e | 0xc0u8) & 0x80 != 0 && (e | 0xc0u8) & 0x40 != 0 && 0xc0u8 & 63 == 0) by (bit_vector);
    assert(e <= 63 ==> (e | 0x80u8) & 0x80 != 0 && (e | 0x80u8) & 0x40 == 0 && 0x80u8 & 63 == 0) by (bit_vector);
    assert(e <= 15 ==> (e | 0x10u8) & 0x80 == 0 && (e | 0x10u8) & 0x40 == 0 && (e | 0x10u8) & 0x20 == 0 && (e | 0x10u8) & 0x10 != 0 && 0x10u8 & 15 == 0) by (bit_vector);
    assert(0x40u8 | 0x10u8 == 0x50u8 && 0x50u8 | 0x20u8 == 0x70u8 && 0x50u8 | 0u8 == 0x50u8 && 0x40u8 | 0x20u8 == 0x60u8 && 0x40u8 | 0u8 == 0x40u8 && 0x20u8 | 0x10u8 == 0x30u8 && 0x20u8 | 0u8 == 0x20u8) by (bit_vector);
    assert(e <= 15 ==> (e | 0x70u8) & 0x80 == 0 && (e | 0x70u8) & 0x40 != 0 && (e | 0x70u8) & 0x20 != 0 && (e | 0x70u8) & 0x10 != 0 && 0x70u8 & 15 == 0) by (bit_vector);
    assert(e <= 15 ==> (e | 0x50u8) & 0x80 == 0 && (e | 0x50u8) & 0x40 != 0 && (e | 0x50u8) & 0x20 == 0 && (e | 0x50u8) & 0x10 != 0 && 0x50u8 & 15 == 0) by (bit_vector);
    assert(e <= 15 ==> (e | 0x60u8) & 0x80 == 0 && (e | 0x60u8) & 0x40 != 0 && (e | 0x60u8) & 0x20 != 0 && (e | 0x60u8) & 0x10 == 0 && 0x60u8 & 15 == 0) by (bit_vector);
    assert(e <= 15 ==> (e | 0x40u8) & 0x80 == 0 && (e | 0x40u8) & 0x40 != 0 && (e | 0x40u8) & 0x20 == 0 && (e | 0x40u8) & 0x10 == 0 && 0x40u8 & 15 == 0) by (bit_vector);
    assert(e <= 7 ==> (e | 0x08u8) & 0x80 == 0 && (e | 0x08u8) & 0x40 == 0 && (e | 0x08u8) & 0x20 == 0 && (e | 0x08u8) & 0x10 == 0 && (e | 0x08u8) & 0x08 != 0 && 0x08u8 & 7 == 0) by (bit_vector);
    assert(e <= 7 ==> (e | 0u8) & 0x80 == 0 && (e | 0u8) & 0x40 == 0 && (e | 0u8) & 0x20 == 0 && (e | 0u8) & 0x10 == 0 && (e | 0u8) & 0x08 == 0 && 0u8 & 7 == 0) by (bit_vector);
    assert(e <= 15 ==> (e | 0x30u8) & 0x80 == 0 && (e | 0x30u8) & 0x40 == 0 && (e | 0x30u8) & 0x20 != 0 && (e | 0x30u8) & 0x10 != 0 && (e | 0x30u8) & 0x08 == e & 0x08 && 0x30u8 & 7 == 0) by (bit_vector);
    assert(e <= 15 ==> (e | 0x20u8) & 0x80 == 0 && (e | 0x20u8) & 0x40 == 0 && (e | 0x20u8) & 0x20 != 0 && (e | 0x20u8) & 0x10 == 0 && (e | 0x20u8) & 0x08 == e & 0x08 && 0x20u8 & 7 == 0) by (bit_vector);
}

/// A field line occupies at least one byte of the input it is read from.
pub proof fn lemma_field_line_length(input: Seq<u8>)
    ensures
        field_line_decoding(input) matches Ok((_, n)) ==> n >= 1,
{
}

/// A field line fits in the input it is read from.
pub proof fn lemma_field_line_bounded(input: Seq<u8>)
    ensures
        field_line_decoding(input) matches Ok((_, n)) ==> n <= input.len(),
{
    if input.len() > 0 {
        crate::varint::lemma_decoding_bounded(input, 6);
        crate::varint::lemma_decoding_bounded(input, 4);
        crate::varint::lemma_decoding_bounded(input, 3);
    }
}

/// A field line is well formed when any literal name in it is well formed and its value
/// length fits in memory.
pub open spec fn well_formed_line(line: FieldLine) -> bool {
    match line {
        FieldLine::LiteralStaticNameRef { value, .. } => value.len() <= usize::MAX,
        FieldLine::LiteralDynamicNameRef { value, .. } => value.len() <= usize::MAX,
        FieldLine::LiteralPostBaseNameRef { value, .. } => value.len() <= usize::MAX,
        FieldLine::LiteralLiteralName { name, value, .. } => crate::entry_name::well_formed_name(
            name,
        ) && value.len() <= usize::MAX && name_bytes(name).len() <= usize::MAX,
        _ => true,
    }
}

/// A prefix-coded integer with flag bits above its prefix reads back as the integer.
pub(crate) proof fn lemma_head_roundtrip(value: usize, prefix_size: u8, flags: u8, rest: Seq<u8>)
    requires
        crate::varint::valid_prefix_size(prefix_size),
        flags & (u8::MAX >> ((8 - prefix_size) as u8)) == 0,
    ensures
        decoding(with_flags(encoding(value as nat, prefix_size) + rest, flags), prefix_size)
            == Ok::<(usize, nat), crate::varint::VarIntError>(
            (value, encoding(value as nat, prefix_size).len()),
        ),
        with_flags(encoding(value as nat, prefix_size) + rest, flags) == with_flags(
            encoding(value as nat, prefix_size),
            flags,
        ) + rest,
{
    let e = encoding(value as nat, prefix_size);
    crate::varint::lemma_encoding_first_byte(value as nat, prefix_size);
    crate::varint::lemma_decoding_ignores_flags(e + rest, flags, prefix_size);
    crate::varint::lemma_decode_encode(value, prefix_size, rest);
    assert(with_flags(e + rest, flags) =~= with_flags(e, flags) + rest);
}

pub(crate) proof fn lemma_masks()
    ensures
        (u8::MAX >> ((8 - 6u8) as u8)) == 63,
        (u8::MAX >> ((8 - 4u8) as u8)) == 15,
        (u8::MAX >> ((8 - 3u8) as u8)) == 7,
        (LITERAL_WITH_LITERAL_NAME | 0u8) == LITERAL_WITH_LITERAL_NAME,
{
    assert((u8::MAX >> ((8 - 6u8) as u8)) == 63 && (u8::MAX >> ((8 - 4u8) as u8)) == 15 && (u8::MAX
        >> ((8 - 3u8) as u8)) == 7 && (0x20u8 | 0u8) == 0x20u8) by (bit_vector);
}

proof fn lemma_indexed_roundtrip(line: FieldLine, rest: Seq<u8>)
    requires
        line is IndexedStatic || line is IndexedDynamic || line is IndexedPostBase,
    ensures
        field_line_decoding(field_line_encoding(line) + rest) == Ok::<(FieldLine, nat), QpackError>(
            (line, field_line_encoding(line).len()),
        ),
{
    lemma_masks();
    match line {
        FieldLine::IndexedStatic { index } => {
            crate::varint::lemma_encoding_first_byte(index as nat, 6);
            lemma_field_line_head_bits(encoding(index as nat, 6)[0], false);
            lemma_head_roundtrip(index, 6, INDEXED_FIELD_LINE | INDEXED_STATIC_FLAG, rest);
        },
        FieldLine::IndexedDynamic { relative_index } => {
            crate::varint::lemma_encoding_first_byte(relative_index as nat, 6);
            lemma_field_line_head_bits(encoding(relative_index as nat, 6)[0], false);
            lemma_head_roundtrip(relative_index, 6, INDEXED_FIELD_LINE, rest);
        },
        FieldLine::IndexedPostBase { post_base_index } => {
            crate::varint::lemma_encoding_first_byte(post_base_index as nat, 4);
            lemma_field_line_head_bits(encoding(post_base_index as nat, 4)[0], false);
            lemma_head_roundtrip(post_base_index, 4, POST_BASE_INDEXED, rest);
        },
        _ => {},
    }
}

/// An instruction head followed by a value literal reads back as the head's integer and
/// the value.
proof fn lemma_head_value_roundtrip(
    index: usize,
    prefix_size: u8,
    flags: u8,
    value: Seq<u8>,
    rest: Seq<u8>,
)
    requires
        crate::varint::valid_prefix_size(prefix_size),
        flags & (u8::MAX >> ((8 - prefix_size) as u8)) == 0,
        value.len() <= usize::MAX,
    ensures
        ({
            let head = with_flags(encoding(index as nat, prefix_size), flags);
            let input = head + string_literal(value, 7) + rest;
            &&& decoding(input, prefix_size) == Ok::<(usize, nat), crate::varint::VarIntError>(
                (index, head.len()),
            )
            &&& then_value(input, head.len()) == Ok::<(Seq<u8>, nat), QpackError>(
                (value, (head.len() + string_literal(value, 7).len()) as nat),
            )
            &&& input[0] == head[0]
        }),
{
    let e = encoding(index as nat, prefix_size);
    let lit = string_literal(value, 7);
    let head = with_flags(e, flags);
    let input = head + lit + rest;
    lemma_head_roundtrip(index, prefix_size, flags, lit + rest);
    assert(input =~= with_flags(e + (lit + rest), flags));
    assert(input.subrange(head.len() as int, input.len() as int) =~= lit + rest);
    crate::instruction::lemma_string_literal_roundtrip(value, 7, rest);
}

proof fn lemma_name_ref_roundtrip(line: FieldLine, rest: Seq<u8>)
    requires
        line is LiteralStaticNameRef || line is LiteralDynamicNameRef || line is LiteralPostBaseNameRef,
        well_formed_line(line),
    ensures
        field_line_decoding(field_line_encoding(line) + rest) == Ok::<(FieldLine, nat), QpackError>(
            (line, field_line_encoding(line).len()),
        ),
{
    lemma_masks();
    match line {
        FieldLine::LiteralStaticNameRef { name_index, value, never_indexed } => {
            let f = LITERAL_WITH_NAME_REF | NAME_REF_STATIC_FLAG | flag_if(
                never_indexed,
                NAME_REF_NEVER_INDEXED_FLAG,
            );
            crate::varint::lemma_encoding_first_byte(name_index as nat, 4);
            lemma_field_line_head_bits(encoding(name_index as nat, 4)[0], never_indexed);
            lemma_head_value_roundtrip(name_index, 4, f, value, rest);
            assert(field_line_encoding(line) + rest =~= with_flags(encoding(name_index as nat, 4), f)
                + string_literal(value, 7) + rest);
        },
        FieldLine::LiteralDynamicNameRef { relative_index, value, never_indexed } => {
            let f = LITERAL_WITH_NAME_REF | flag_if(never_indexed, NAME_REF_NEVER_INDEXED_FLAG);
            crate::varint::lemma_encoding_first_byte(relative_index as nat, 4);
            lemma_field_line_head_bits(encoding(relative_index as nat, 4)[0], never_indexed);
            lemma_head_value_roundtrip(relative_index, 4, f, value, rest);
            assert(field_line_encoding(line) + rest =~= with_flags(
                encoding(relative_index as nat, 4),
                f,
            ) + string_literal(value, 7) + rest);
        },
        FieldLine::LiteralPostBaseNameRef { post_base_index, value, never_indexed } => {
            let f = flag_if(never_indexed, POST_BASE_NAME_REF_NEVER_INDEXED_FLAG);
            crate::varint::lemma_encoding_first_byte(post_base_index as nat, 3);
            lemma_field_line_head_bits(encoding(post_base_index as nat, 3)[0], never_indexed);
            lemma_head_value_roundtrip(post_base_index, 3, f, value, rest);
            assert(field_line_encoding(line) + rest =~= with_flags(
                encoding(post_base_index as nat, 3),
                f,
            ) + string_literal(value, 7) + rest);
        },
        _ => {},
    }
}

#[verifier::spinoff_prover]
#[verifier::rlimit(60)]
proof fn lemma_literal_name_roundtrip(line: FieldLine, rest: Seq<u8>)
    requires
        line is LiteralLiteralName,
        well_formed_line(line),
    ensures
        field_line_decoding(field_line_encoding(line) + rest) == Ok::<(FieldLine, nat), QpackError>(
            (line, field_line_encoding(line).len()),
        ),
{
    lemma_masks();
    if let FieldLine::LiteralLiteralName { name, value, never_indexed } = line {
        let input = field_line_encoding(line) + rest;
        let nb = name_bytes(name);
        let nlit = string_literal(nb, 3);
        let f = LITERAL_WITH_LITERAL_NAME | flag_if(never_indexed, LITERAL_NAME_NEVER_INDEXED_FLAG);
        let lit = string_literal(value, 7);
        let coded = crate::huffman::huffman_bytes(nb);
        crate::varint::lemma_encoding_first_byte(coded.len(), 3);
        crate::varint::lemma_encoding_first_byte(nb.len(), 3);
        crate::instruction::lemma_huffman_flag_bits(encoding(coded.len(), 3)[0], 3);
        assert(nlit[0] <= 15) by {
            let b = encoding(coded.len(), 3)[0];
            assert(b <= 7 ==> (b | 8u8) <= 15) by (bit_vector);
            assert(crate::instruction::huffman_flag(3) == 8) by (bit_vector);
        }
        lemma_field_line_head_bits(nlit[0], never_indexed);
        assert(input =~= with_flags(nlit + (lit + rest), f));
        crate::instruction::lemma_string_literal_roundtrip(nb, 3, lit + rest);
        assert(nlit.len() > 0);
        assert(crate::instruction::huffman_flag(3) == 8) by (bit_vector);
        assert(f & 8 == 0) by {
            assert(0x20u8 | 0x10u8 == 0x30u8 && 0x20u8 | 0u8 == 0x20u8 && 0x30u8 & 8 == 0 && 0x20u8 & 8 == 0) by (bit_vector);
        }
        crate::instruction::lemma_string_literal_decoding_ignores_flags(nlit + (lit + rest), f, 3);
        assert(crate::entry_name::name_from_wire(nb) == Some(name));
        assert(input.subrange(nlit.len() as int, input.len() as int) =~= lit + rest);
        crate::instruction::lemma_string_literal_roundtrip(value, 7, rest);
    }
}

/// Parsing a field line back from its wire form gives the line, whatever bytes follow it.
pub proof fn lemma_field_line_roundtrip(line: FieldLine, rest: Seq<u8>)
    requires
        well_formed_line(line),
    ensures
        field_line_decoding(field_line_encoding(line) + rest) == Ok::<(FieldLine, nat), QpackError>(
            (line, field_line_encoding(line).len()),
        ),
{
    match line {
        FieldLine::LiteralLiteralName { .. } => lemma_literal_name_roundtrip(line, rest),
        FieldLine::LiteralStaticNameRef { .. } => lemma_name_ref_roundtrip(line, rest),
        FieldLine::LiteralDynamicNameRef { .. } => lemma_name_ref_roundtrip(line, rest),
        FieldLine::LiteralPostBaseNameRef { .. } => lemma_name_ref_roundtrip(line, rest),
        _ => lemma_indexed_roundtrip(line, rest),
    }
}

} // verus!
