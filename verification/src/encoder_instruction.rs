//! Encoder-stream instructions (RFC 9204 §3.2): their wire encoders, a parser over the
//! bytes received so far, and how the decoder's dynamic table applies them.
use vstd::prelude::*;
use crate::decoder_table::{
    table_insert, table_set_capacity, DecoderDynamicTable, EntryView, H3ErrorCode, TableView,
};
use crate::dynamic_decode::{valid_value, validate_value};
use crate::entry_name::{name_from_wire, EntryName, EntryNameView};
use crate::field_section::{encode_string_with_flags, push_with_flags};
use crate::huffman::{self, huffman_decoding};
use crate::instruction::{encode_string, string_literal};
use crate::static_table::{static_entry, static_name_view, static_table_entry};
use crate::varint::{self, decoding, encoding, with_flags, VarIntError};

verus! {

/// §3.2.2: Insert With Name Reference — first byte pattern 1xxxxxxx.
pub const INSERT_WITH_NAME_REF: u8 = 0x80;
/// T bit within Insert With Name Reference — set for static-table references.
pub const INSERT_NAME_REF_STATIC_FLAG: u8 = 0x40;
/// §3.2.3: Insert With Literal Name — first byte pattern 01xxxxxx.
pub const INSERT_WITH_LITERAL_NAME: u8 = 0x40;
/// H bit for the name string of Insert With Literal Name.
pub const LITERAL_NAME_HUFFMAN_FLAG: u8 = 0x20;
/// §3.2.1: Set Dynamic Table Capacity — first byte pattern 001xxxxx.
pub const SET_DYNAMIC_TABLE_CAPACITY: u8 = 0x20;

/// One encoder-stream instruction (RFC 9204 §3.2).
#[derive(Debug, PartialEq, Eq)]
pub enum EncoderInstruction {
    /// §3.2.1: Set Dynamic Table Capacity.
    SetCapacity(usize),
    /// §3.2.2: Insert With Name Reference (T=1, static table).
    InsertWithStaticNameRef { name_index: usize, value: Vec<u8> },
    /// §3.2.2: Insert With Name Reference (T=0, dynamic table), by relative index.
    InsertWithDynamicNameRef { relative_index: usize, value: Vec<u8> },
    /// §3.2.3: Insert With Literal Name.
    InsertWithLiteralName { name: EntryName, value: Vec<u8> },
    /// §3.2.4: Duplicate.
    Duplicate { relative_index: usize },
}

/// The value of an [`EncoderInstruction`].
pub enum EncoderInstructionView {
    SetCapacity(usize),
    InsertWithStaticNameRef { name_index: usize, value: Seq<u8> },
    InsertWithDynamicNameRef { relative_index: usize, value: Seq<u8> },
    InsertWithLiteralName { name: EntryNameView, value: Seq<u8> },
    Duplicate { relative_index: usize },
}

impl View for EncoderInstruction {
    type V = EncoderInstructionView;

    open spec fn view(&self) -> EncoderInstructionView {
        match self {
            EncoderInstruction::SetCapacity(c) => EncoderInstructionView::SetCapacity(*c),
            EncoderInstruction::InsertWithStaticNameRef { name_index, value } =>
                EncoderInstructionView::InsertWithStaticNameRef {
                name_index: *name_index,
                value: value@,
            },
            EncoderInstruction::InsertWithDynamicNameRef { relative_index, value } =>
                EncoderInstructionView::InsertWithDynamicNameRef {
                relative_index: *relative_index,
                value: value@,
            },
            EncoderInstruction::InsertWithLiteralName { name, value } =>
                EncoderInstructionView::InsertWithLiteralName { name: name@, value: value@ },
            EncoderInstruction::Duplicate { relative_index } => EncoderInstructionView::Duplicate {
                relative_index: *relative_index,
            },
        }
    }
}

/// Why the bytes received so far do not start with an instruction.
#[derive(Debug, Clone, Copy, PartialEq, Eq, Structural)]
pub enum StreamError {
    /// The bytes end inside an instruction: more have to arrive.
    Incomplete,
    /// The bytes break the instruction format.
    Violation,
}

/// The error of an integer that does not decode.
pub open spec fn integer_error(e: VarIntError) -> StreamError {
    match e {
        VarIntError::UnexpectedEnd => StreamError::Incomplete,
        VarIntError::Overflow => StreamError::Violation,
    }
}

/// Reading a length-prefixed string body of `len` bytes after `used` bytes of `input`:
/// refused above `max` before anything is read, incomplete while the bytes are missing,
/// Huffman-decoded when `huffman` is set.
pub open spec fn string_body(input: Seq<u8>, used: nat, len: nat, max: nat, huffman: bool) -> Result<(Seq<u8>, nat), StreamError> {
    if len > max {
        Err(StreamError::Violation)
    } else if input.len() < used + len {
        Err(StreamError::Incomplete)
    } else {
        let body = input.subrange(used as int, (used + len) as int);
        if huffman {
            match huffman_decoding(body) {
                Ok(v) => Ok((v, used + len)),
                Err(_) => Err(StreamError::Violation),
            }
        } else {
            Ok((body, used + len))
        }
    }
}

/// Reading a string literal with an H flag and a 7-bit length prefix, no longer than
/// `max` on the wire.
pub open spec fn bounded_string(input: Seq<u8>, max: nat) -> Result<(Seq<u8>, nat), StreamError> {
    if input.len() == 0 {
        Err(StreamError::Incomplete)
    } else {
        match decoding(input, 7) {
            Err(e) => Err(integer_error(e)),
            Ok((len, used)) => string_body(input, used, len as nat, max, input[0] & 0x80 != 0),
        }
    }
}

/// A value string after `used` bytes: read, then checked for CR, LF and NUL.
pub open spec fn value_after(input: Seq<u8>, used: nat, max: nat) -> Result<(Seq<u8>, nat), StreamError> {
    match bounded_string(input.subrange(used as int, input.len() as int), max) {
        Err(e) => Err(e),
        Ok((value, m)) => if valid_value(value) {
            Ok((value, used + m))
        } else {
            Err(StreamError::Violation)
        },
    }
}

/// Reading one encoder-stream instruction from the start of `input`, with strings no
/// longer than `max` on the wire: the instruction and the number of bytes it occupies.
pub open spec fn encoder_instruction_decoding(input: Seq<u8>, max: nat) -> Result<(EncoderInstructionView, nat), StreamError> {
    if input.len() == 0 {
        Err(StreamError::Incomplete)
    } else {
        let first = input[0];
        if first & 0x80 != 0 {
            match decoding(input, 6) {
                Err(e) => Err(integer_error(e)),
                Ok((index, n)) => match value_after(input, n, max) {
                    Err(e) => Err(e),
                    Ok((value, m)) => if first & 0x40 != 0 {
                        Ok((EncoderInstructionView::InsertWithStaticNameRef { name_index: index, value }, m))
                    } else {
                        Ok((EncoderInstructionView::InsertWithDynamicNameRef { relative_index: index, value }, m))
                    },
                },
            }
        } else if first & 0x40 != 0 {
            match decoding(input, 5) {
                Err(e) => Err(integer_error(e)),
                Ok((len, n)) => match string_body(input, n, len as nat, max, first & 0x20 != 0) {
                    Err(e) => Err(e),
                    Ok((name_bytes, m)) => match name_from_wire(name_bytes) {
                        None => Err(StreamError::Violation),
                        Some(name) => match value_after(input, m, max) {
                            Err(e) => Err(e),
                            Ok((value, k)) => Ok(
                                (EncoderInstructionView::InsertWithLiteralName { name, value }, k),
                            ),
                        },
                    },
                },
            }
        } else if first & 0x20 != 0 {
            match decoding(input, 5) {
                Err(e) => Err(integer_error(e)),
                Ok((capacity, n)) => Ok((EncoderInstructionView::SetCapacity(capacity), n)),
            }
        } else {
            match decoding(input, 5) {
                Err(e) => Err(integer_error(e)),
                Ok((index, n)) => Ok((EncoderInstructionView::Duplicate { relative_index: index }, n)),
            }
        }
    }
}

/// The wire form of Set Dynamic Table Capacity (§3.2.1): `001xxxxx`, 5-bit prefix.
pub open spec fn set_capacity_encoding(capacity: nat) -> Seq<u8> {
    with_flags(encoding(capacity, 5), SET_DYNAMIC_TABLE_CAPACITY)
}

/// The wire form of Insert With Literal Name (§3.2.3): `01HNNNNN`, the name with a 5-bit
/// length prefix, then the value with a 7-bit one.
pub open spec fn insert_with_literal_name_encoding(name: Seq<u8>, value: Seq<u8>) -> Seq<u8> {
    with_flags(string_literal(name, 5), INSERT_WITH_LITERAL_NAME) + string_literal(value, 7)
}

/// The wire form of Insert With Name Reference (§3.2.2): `1Txxxxxx`, 6-bit prefix index,
/// then the value.
pub open spec fn insert_with_name_ref_encoding(name_index: nat, is_static: bool, value: Seq<u8>) -> Seq<u8> {
    with_flags(
        encoding(name_index, 6),
        INSERT_WITH_NAME_REF | if is_static {
            INSERT_NAME_REF_STATIC_FLAG
        } else {
            0u8
        },
    ) + string_literal(value, 7)
}

/// The wire form of Duplicate (§3.2.4): `000xxxxx`, 5-bit prefix.
pub open spec fn duplicate_encoding(relative_index: nat) -> Seq<u8> {
    encoding(relative_index, 5)
}

/// Set Dynamic Table Capacity (§3.2.1).
pub fn encode_set_capacity(capacity: usize) -> (bytes: Vec<u8>)
    ensures
        bytes@ == set_capacity_encoding(capacity as nat),
{
    let mut bytes: Vec<u8> = Vec::new();
    proof {
        varint::lemma_encoding_first_byte(capacity as nat, 5);
    }
    push_with_flags(&mut bytes, varint::encode(capacity, 5), SET_DYNAMIC_TABLE_CAPACITY);
    assert(bytes@ =~= set_capacity_encoding(capacity as nat));
    bytes
}

/// Insert With Literal Name (§3.2.3).
pub fn encode_insert_with_literal_name(name: &[u8], value: &[u8]) -> (bytes: Vec<u8>)
    ensures
        bytes@ == insert_with_literal_name_encoding(name@, value@),
{
    let mut buf: Vec<u8> = Vec::new();
    encode_string_with_flags(name, 5, INSERT_WITH_LITERAL_NAME, &mut buf);
    encode_string(value, 7, &mut buf);
    assert(buf@ =~= insert_with_literal_name_encoding(name@, value@));
    buf
}

/// Insert With Name Reference (§3.2.2), static when `is_static`, else dynamic (by relative
/// index).
pub fn encode_insert_with_name_ref(name_index: usize, is_static: bool, value: &[u8]) -> (bytes: Vec<u8>)
    ensures
        bytes@ == insert_with_name_ref_encoding(name_index as nat, is_static, value@),
{
    let mut buf: Vec<u8> = Vec::new();
    proof {
        varint::lemma_encoding_first_byte(name_index as nat, 6);
    }
    let flags = INSERT_WITH_NAME_REF | if is_static {
        INSERT_NAME_REF_STATIC_FLAG
    } else {
        0
    };
    push_with_flags(&mut buf, varint::encode(name_index, 6), flags);
    encode_string(value, 7, &mut buf);
    assert(buf@ =~= insert_with_name_ref_encoding(name_index as nat, is_static, value@));
    buf
}

/// Duplicate (§3.2.4).
pub fn encode_duplicate(relative_index: usize) -> (bytes: Vec<u8>)
    ensures
        bytes@ == duplicate_encoding(relative_index as nat),
{
    varint::encode(relative_index, 5)
}

fn read_integer(input: &[u8], prefix_size: u8) -> (result: Result<(usize, usize), StreamError>)
    requires
        varint::valid_prefix_size(prefix_size),
    ensures
        match decoding(input@, prefix_size) {
            Ok((v, n)) => result == Ok::<(usize, usize), StreamError>((v, n as usize)) && 1 <= n
                <= input@.len(),
            Err(e) => result == Err::<(usize, usize), StreamError>(integer_error(e)),
        },
{
    proof {
        varint::lemma_decoding_bounded(input@, prefix_size);
    }
    match varint::decode(input, prefix_size) {
        Ok((value, rest)) => Ok((value, input.len() - rest.len())),
        Err(VarIntError::UnexpectedEnd) => Err(StreamError::Incomplete),
        Err(VarIntError::Overflow) => Err(StreamError::Violation),
    }
}

fn read_string_body(input: &[u8], used: usize, len: usize, max: usize, huffman: bool) -> (result: Result<(Vec<u8>, usize), StreamError>)
    requires
        used <= input@.len(),
    ensures
        match string_body(input@, used as nat, len as nat, max as nat, huffman) {
            Ok((v, n)) => result matches Ok((value, m)) && value@ == v && m == n && n <= input@.len(),
            Err(e) => result == Err::<(Vec<u8>, usize), StreamError>(e),
        },
{
    if len > max {
        return Err(StreamError::Violation);
    }
    if input.len() - used < len {
        return Err(StreamError::Incomplete);
    }
    let (_, tail) = input.split_at(used);
    let (body, _) = tail.split_at(len);
    assert(body@ =~= input@.subrange(used as int, (used + len) as int));
    if huffman {
        match huffman::decode(body) {
            Ok(v) => Ok((v, used + len)),
            Err(_) => Err(StreamError::Violation),
        }
    } else {
        Ok((vstd::slice::slice_to_vec(body), used + len))
    }
}

/// Read a value string after `used` bytes of `input` and check it (see [`value_after`]).
fn read_value(input: &[u8], used: usize, max: usize) -> (result: Result<(Vec<u8>, usize), StreamError>)
    requires
        used <= input@.len(),
    ensures
        match value_after(input@, used as nat, max as nat) {
            Ok((v, n)) => result matches Ok((value, m)) && value@ == v && m == n && n <= input@.len(),
            Err(e) => result == Err::<(Vec<u8>, usize), StreamError>(e),
        },
{
    let (_, tail) = input.split_at(used);
    assert(tail@ == input@.subrange(used as int, input@.len() as int));
    if tail.len() == 0 {
        return Err(StreamError::Incomplete);
    }
    let huffman = tail[0] & 0x80 != 0;
    let (len, n) = read_integer(tail, 7)?;
    let (value, m) = read_string_body(tail, n, len, max, huffman)?;
    if !validate_value(value.as_slice()) {
        return Err(StreamError::Violation);
    }
    let total = input.len();
    assert(m <= tail@.len() && tail@.len() + used == total);
    Ok((value, used + m))
}

impl EncoderInstruction {
    /// Read one encoder-stream instruction from the start of the bytes received so far,
    /// with each string at most `max_entry_size` bytes on the wire (our advertised table
    /// capacity: a longer one could never fit). Returns the instruction and the rest of
    /// the bytes; `Incomplete` when more bytes are needed.
    pub fn parse(input: &[u8], max_entry_size: usize) -> (result: Result<(EncoderInstruction, &[u8]), StreamError>)
        ensures
            match encoder_instruction_decoding(input@, max_entry_size as nat) {
                Ok((instr, n)) => result matches Ok((i, rest)) && i@ == instr && n <= input@.len()
                    && rest@ == input@.subrange(n as int, input@.len() as int),
                Err(e) => result is Err && result->Err_0 == e,
            },
    {
        if input.len() == 0 {
            return Err(StreamError::Incomplete);
        }
        let first = input[0];
        let (instruction, used) = if first & INSERT_WITH_NAME_REF != 0 {
            let (index, n) = read_integer(input, 6)?;
            let (value, m) = read_value(input, n, max_entry_size)?;
            if first & INSERT_NAME_REF_STATIC_FLAG != 0 {
                (EncoderInstruction::InsertWithStaticNameRef { name_index: index, value }, m)
            } else {
                (EncoderInstruction::InsertWithDynamicNameRef { relative_index: index, value }, m)
            }
        } else if first & INSERT_WITH_LITERAL_NAME != 0 {
            let (len, n) = read_integer(input, 5)?;
            let (name_bytes, m) = read_string_body(
                input,
                n,
                len,
                max_entry_size,
                first & LITERAL_NAME_HUFFMAN_FLAG != 0,
            )?;
            let name = match EntryName::from_wire(name_bytes.as_slice()) {
                Ok(name) => name,
                Err(_) => {
                    return Err(StreamError::Violation);
                },
            };
            let (value, k) = read_value(input, m, max_entry_size)?;
            (EncoderInstruction::InsertWithLiteralName { name, value }, k)
        } else if first & SET_DYNAMIC_TABLE_CAPACITY != 0 {
            let (capacity, n) = read_integer(input, 5)?;
            (EncoderInstruction::SetCapacity(capacity), n)
        } else {
            let (index, n) = read_integer(input, 5)?;
            (EncoderInstruction::Duplicate { relative_index: index }, n)
        };
        let (_, rest) = input.split_at(used);
        Ok((instruction, rest))
    }
}

/// Applying an encoder-stream instruction to the decoder's table.
pub open spec fn table_apply(t: TableView, instruction: EncoderInstructionView) -> Result<TableView, H3ErrorCode> {
    match instruction {
        EncoderInstructionView::SetCapacity(capacity) => table_set_capacity(t, capacity as nat),
        EncoderInstructionView::InsertWithStaticNameRef { name_index, value } => if name_index
            >= 99 {
            Err(H3ErrorCode::QpackEncoderStreamError)
        } else {
            table_insert(
                t,
                EntryView { name: static_name_view(static_table_entry(name_index as u8).0), value },
            )
        },
        EncoderInstructionView::InsertWithDynamicNameRef { relative_index, value } => if relative_index
            < t.entries.len() {
            table_insert(t, EntryView { name: t.entries[relative_index as int].name, value })
        } else {
            Err(H3ErrorCode::QpackEncoderStreamError)
        },
        EncoderInstructionView::InsertWithLiteralName { name, value } => table_insert(
            t,
            EntryView { name, value },
        ),
        EncoderInstructionView::Duplicate { relative_index } => if relative_index
            < t.entries.len() {
            table_insert(t, t.entries[relative_index as int])
        } else {
            Err(H3ErrorCode::QpackEncoderStreamError)
        },
    }
}

impl DecoderDynamicTable {
    /// Apply an encoder-stream instruction: set the capacity, insert, or duplicate.
    pub fn apply(&mut self, instruction: EncoderInstruction) -> (result: Result<(), H3ErrorCode>)
        requires
            old(self).wf(),
            old(self)@.insert_count < u64::MAX,
        ensures
            final(self).wf(),
            match table_apply(old(self)@, instruction@) {
                Ok(t) => result is Ok && final(self)@ == t,
                Err(e) => result == Err::<(), H3ErrorCode>(e) && final(self)@ == old(self)@,
            },
    {
        match instruction {
            EncoderInstruction::SetCapacity(capacity) => self.set_capacity(capacity),
            EncoderInstruction::InsertWithStaticNameRef { name_index, value } => {
                let (static_name, _) = match static_entry(name_index) {
                    Ok(entry) => entry,
                    Err(_) => {
                        return Err(H3ErrorCode::QpackEncoderStreamError);
                    },
                };
                self.insert(EntryName::from_static(static_name), value)
            },
            EncoderInstruction::InsertWithDynamicNameRef { relative_index, value } => {
                let name = match self.name_at_relative(relative_index) {
                    Some(name) => name,
                    None => {
                        return Err(H3ErrorCode::QpackEncoderStreamError);
                    },
                };
                self.insert(name, value)
            },
            EncoderInstruction::InsertWithLiteralName { name, value } => self.insert(name, value),
            EncoderInstruction::Duplicate { relative_index } => self.duplicate(relative_index),
        }
    }
}

} // verus!
