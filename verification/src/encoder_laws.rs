//! The encoder's table and the peer's: every instruction the encoder queues reads back
//! from the encoder stream as one instruction that, applied to a decoder table holding
//! the same entries, leaves it holding the same entries as the encoder, whichever wire
//! form the encoder picked.
use vstd::prelude::*;
use crate::decoder_table::{entry_size, evict_to, table_insert, table_set_capacity, EntryView, TableView};
use crate::dynamic_decode::valid_value;
use crate::encoder_instruction::{
    bounded_string, duplicate_encoding, encoder_instruction_decoding, insert_with_literal_name_encoding,
    insert_with_name_ref_encoding, set_capacity_encoding, string_body, table_apply, value_after,
    EncoderInstructionView, StreamError,
};
use crate::encoder_table::{
    encoder_table_wf, entry_at, full_match, insert_instruction, lemma_full_match_live, make_room,
    name_match, table_duplicate, table_insert_pair, table_set_capacity as encoder_set_capacity,
    EncoderTableView,
};
use crate::entry_name::{name_bytes, name_from_wire, EntryNameView};
use crate::huffman::huffman_bytes;
use crate::instruction::{huffman_flag, lemma_huffman_flag_bits, string_literal};
use crate::static_table::{
    lemma_static_indices_name, lemma_static_indices_valid, spec_first_match, static_name_view,
    static_table_entry,
};
use crate::varint::{decoding, encoding, with_flags};

verus! {

proof fn lemma_six_bit_prefix_flags(b: u8)
    by (bit_vector)
    requires
        b <= (u8::MAX >> 2u8),
    ensures
        0x80u8 & (u8::MAX >> 2u8) == 0,
        0xc0u8 & (u8::MAX >> 2u8) == 0,
        (b | 0x80u8) & 0x80 != 0,
        (b | 0x80u8) & 0x40 == 0,
        (b | 0xc0u8) & 0x80 != 0,
        (b | 0xc0u8) & 0x40 != 0,
        (0x80u8 | 0x40u8) == 0xc0u8,
        (0x80u8 | 0u8) == 0x80u8,
        huffman_flag(7) == 0x80u8,
        huffman_flag(5) == 0x20u8,
{
}

proof fn lemma_five_bit_prefix_flags(b: u8)
    by (bit_vector)
    requires
        b <= (u8::MAX >> 3u8),
    ensures
        0x20u8 & (u8::MAX >> 3u8) == 0,
        0x40u8 & (u8::MAX >> 3u8) == 0,
        0x60u8 & (u8::MAX >> 3u8) == 0,
        b & 0x80 == 0 && b & 0x40 == 0 && b & 0x20 == 0,
        (b | 0x20u8) & 0x80 == 0 && (b | 0x20u8) & 0x40 == 0 && (b | 0x20u8) & 0x20 != 0,
        (b | 0x40u8) & 0x80 == 0 && (b | 0x40u8) & 0x40 != 0 && (b | 0x40u8) & 0x20 == 0,
        (b | 0x60u8) & 0x80 == 0 && (b | 0x60u8) & 0x40 != 0 && (b | 0x60u8) & 0x20 != 0,
        ((b | 0x20u8) | 0x40u8) == (b | 0x60u8),
{
}

/// The decoder's table holds the same entries as the encoder's, under the same insert
/// count and capacity.
pub open spec fn mirrors(d: TableView, e: EncoderTableView) -> bool {
    &&& d.entries == e.entries
    &&& d.insert_count == e.insert_count
    &&& d.capacity == e.capacity
}

/// A string literal with a 7-bit length prefix and the H flag above it reads back whole,
/// whatever follows, when its raw length is within the reader's limit.
pub proof fn lemma_bounded_string_roundtrip(value: Seq<u8>, rest: Seq<u8>, max: nat)
    requires
        value.len() <= max,
        value.len() <= usize::MAX,
    ensures
        bounded_string(string_literal(value, 7) + rest, max) == Ok::<(Seq<u8>, nat), StreamError>(
            (value, string_literal(value, 7).len()),
        ),
{
    let coded = huffman_bytes(value);
    let lit = string_literal(value, 7);
    let input = lit + rest;
    if coded.len() < value.len() {
        let enc = encoding(coded.len(), 7);
        crate::varint::lemma_encoding_first_byte(coded.len(), 7);
        lemma_huffman_flag_bits(enc[0], 7);
        lemma_six_bit_prefix_flags(0);
        assert(input =~= with_flags(enc + (coded + rest), huffman_flag(7)));
        crate::varint::lemma_decoding_ignores_flags(enc + (coded + rest), huffman_flag(7), 7);
        crate::varint::lemma_decode_encode(coded.len() as usize, 7, coded + rest);
        assert(input.subrange(enc.len() as int, (enc.len() + coded.len()) as int) =~= coded);
        crate::huffman_laws::lemma_huffman_roundtrip(value);
    } else {
        let enc = encoding(value.len(), 7);
        crate::varint::lemma_encoding_first_byte(value.len(), 7);
        lemma_huffman_flag_bits(enc[0], 7);
        lemma_six_bit_prefix_flags(0);
        assert(input =~= enc + (value + rest));
        crate::varint::lemma_decode_encode(value.len() as usize, 7, value + rest);
        assert(input.subrange(enc.len() as int, (enc.len() + value.len()) as int) =~= value);
    }
}

/// The names a literal-name insert carries across: the peer reads the name back from its
/// wire bytes.
pub open spec fn name_reads_back(name: EntryNameView) -> bool {
    name_from_wire(name_bytes(name)) == Some(name)
}

/// What an insert of `(name, value)` must satisfy for the peer to accept it: a value
/// without CR, LF or NUL, a name that reads back, both within the peer's string limit.
pub open spec fn replayable_pair(name: EntryNameView, value: Seq<u8>, max: nat) -> bool {
    &&& valid_value(value)
    &&& name_reads_back(name)
    &&& value.len() <= max
    &&& name_bytes(name).len() <= max
    &&& value.len() <= usize::MAX
    &&& name_bytes(name).len() <= usize::MAX
}

proof fn lemma_name_ref_prefix(index: nat, is_static: bool, tail: Seq<u8>)
    requires
        index <= usize::MAX,
    ensures
        ({
            let enc = encoding(index, 6);
            let flags: u8 = if is_static { 0xc0u8 } else { 0x80u8 };
            let input = with_flags(enc, flags) + tail;
            &&& input[0] & 0x80 != 0
            &&& (input[0] & 0x40 != 0) == is_static
            &&& decoding(input, 6) == Ok::<(usize, nat), crate::varint::VarIntError>((index as usize, enc.len()))
            &&& with_flags(enc, flags).len() == enc.len()
        }),
{
    let enc = encoding(index, 6);
    let flags: u8 = if is_static {
        0xc0u8
    } else {
        0x80u8
    };
    crate::varint::lemma_encoding_first_byte(index, 6);
    let b = enc[0];
    assert(b <= (u8::MAX >> 2u8));
    lemma_six_bit_prefix_flags(b);
    let input = with_flags(enc, flags) + tail;
    assert(input =~= with_flags(enc + tail, flags));
    crate::varint::lemma_decoding_ignores_flags(enc + tail, flags, 6);
    crate::varint::lemma_decode_encode(index as usize, 6, tail);
}

#[verifier::rlimit(40)]
proof fn lemma_name_ref_reads_back(index: nat, is_static: bool, value: Seq<u8>, rest: Seq<u8>, max: nat)
    requires
        index <= usize::MAX,
        valid_value(value),
        value.len() <= max,
        value.len() <= usize::MAX,
    ensures
        ({
            let wire = insert_with_name_ref_encoding(index, is_static, value);
            encoder_instruction_decoding(wire + rest, max) == Ok::<(EncoderInstructionView, nat), StreamError>(
                (
                    if is_static {
                        EncoderInstructionView::InsertWithStaticNameRef { name_index: index as usize, value }
                    } else {
                        EncoderInstructionView::InsertWithDynamicNameRef { relative_index: index as usize, value }
                    },
                    wire.len(),
                ),
            )
        }),
{
    let enc = encoding(index, 6);
    let flags: u8 = if is_static {
        0xc0u8
    } else {
        0x80u8
    };
    lemma_six_bit_prefix_flags(0);
    let lit = string_literal(value, 7);
    let wire = insert_with_name_ref_encoding(index, is_static, value);
    let tail = lit + rest;
    let input = wire + rest;
    assert(wire == with_flags(enc, flags) + lit);
    assert(input =~= with_flags(enc, flags) + tail);
    lemma_name_ref_prefix(index, is_static, tail);
    lemma_bounded_string_roundtrip(value, rest, max);
    assert(input.subrange(enc.len() as int, input.len() as int) =~= tail);
    assert(value_after(input, enc.len(), max) == Ok::<(Seq<u8>, nat), StreamError>(
        (value, enc.len() + lit.len()),
    ));
}

#[verifier::rlimit(40)]
proof fn lemma_literal_name_prefix(nb: Seq<u8>, tail: Seq<u8>, max: nat)
    requires
        nb.len() <= max,
        nb.len() <= usize::MAX,
    ensures
        ({
            let lit = string_literal(nb, 5);
            let input = crate::varint::with_flags(lit, 0x40u8) + tail;
            &&& input[0] & 0x80 == 0
            &&& input[0] & 0x40 != 0
            &&& decoding(input, 5) matches Ok((len, n)) && string_body(input, n, len as nat, max, input[0] & 0x20 != 0)
                == Ok::<(Seq<u8>, nat), StreamError>((nb, lit.len()))
        }),
{
    let coded = huffman_bytes(nb);
    let lit = string_literal(nb, 5);
    let input = crate::varint::with_flags(lit, 0x40u8) + tail;
    if coded.len() < nb.len() {
        let enc = encoding(coded.len(), 5);
        crate::varint::lemma_encoding_first_byte(coded.len(), 5);
        let b = enc[0];
        assert(b <= (u8::MAX >> 3u8));
        lemma_five_bit_prefix_flags(b);
        lemma_six_bit_prefix_flags(0);
        assert(input =~= with_flags(enc + (coded + tail), 0x60u8));
        crate::varint::lemma_decoding_ignores_flags(enc + (coded + tail), 0x60u8, 5);
        crate::varint::lemma_decode_encode(coded.len() as usize, 5, coded + tail);
        assert(input.subrange(enc.len() as int, (enc.len() + coded.len()) as int) =~= coded);
        crate::huffman_laws::lemma_huffman_roundtrip(nb);
    } else {
        let enc = encoding(nb.len(), 5);
        crate::varint::lemma_encoding_first_byte(nb.len(), 5);
        let b = enc[0];
        assert(b <= (u8::MAX >> 3u8));
        lemma_five_bit_prefix_flags(b);
        lemma_six_bit_prefix_flags(0);
        assert(input =~= with_flags(enc + (nb + tail), 0x40u8));
        crate::varint::lemma_decoding_ignores_flags(enc + (nb + tail), 0x40u8, 5);
        crate::varint::lemma_decode_encode(nb.len() as usize, 5, nb + tail);
        assert(input.subrange(enc.len() as int, (enc.len() + nb.len()) as int) =~= nb);
    }
}

proof fn lemma_literal_name_reads_back(name: EntryNameView, value: Seq<u8>, rest: Seq<u8>, max: nat)
    requires
        replayable_pair(name, value, max),
    ensures
        ({
            let wire = insert_with_literal_name_encoding(name_bytes(name), value);
            encoder_instruction_decoding(wire + rest, max) == Ok::<(EncoderInstructionView, nat), StreamError>(
                (EncoderInstructionView::InsertWithLiteralName { name, value }, wire.len()),
            )
        }),
{
    let nb = name_bytes(name);
    let lit_name = string_literal(nb, 5);
    let lit_value = string_literal(value, 7);
    let wire = insert_with_literal_name_encoding(nb, value);
    let tail = lit_value + rest;
    let input = wire + rest;
    assert(input =~= crate::varint::with_flags(lit_name, 0x40u8) + tail);
    lemma_literal_name_prefix(nb, tail, max);
    lemma_bounded_string_roundtrip(value, rest, max);
    assert(input.subrange(lit_name.len() as int, input.len() as int) =~= tail);
    assert(value_after(input, lit_name.len(), max) == Ok::<(Seq<u8>, nat), StreamError>(
        (value, lit_name.len() + lit_value.len()),
    ));
}

proof fn lemma_duplicate_reads_back(index: nat, rest: Seq<u8>, max: nat)
    requires
        index <= usize::MAX,
    ensures
        ({
            let wire = duplicate_encoding(index);
            encoder_instruction_decoding(wire + rest, max) == Ok::<(EncoderInstructionView, nat), StreamError>(
                (EncoderInstructionView::Duplicate { relative_index: index as usize }, wire.len()),
            )
        }),
{
    let enc = encoding(index, 5);
    crate::varint::lemma_encoding_first_byte(index, 5);
    let b = enc[0];
    assert(b <= (u8::MAX >> 3u8));
    lemma_five_bit_prefix_flags(b);
    crate::varint::lemma_decode_encode(index as usize, 5, rest);
}

proof fn lemma_entries_fit(t: EncoderTableView)
    requires
        encoder_table_wf(t),
    ensures
        t.entries.len() <= usize::MAX,
{
    lemma_total_size_lower(t.entries);
}

proof fn lemma_total_size_lower(entries: Seq<EntryView>)
    ensures
        crate::decoder_table::total_size(entries) >= 32 * entries.len(),
    decreases entries.len(),
{
    if entries.len() > 0 {
        lemma_total_size_lower(entries.drop_last());
    }
}

proof fn lemma_duplicate_replays(e: EncoderTableView, d: TableView, abs: nat, extra: Option<u64>, rest: Seq<u8>, max: nat)
    requires
        encoder_table_wf(e),
        mirrors(d, e),
        entry_at(e, abs as int) is Some,
        table_duplicate(e, abs, extra) is Ok,
    ensures
        ({
            let e2 = table_duplicate(e, abs, extra)->Ok_0.0;
            let wire = e2.pending_ops.last();
            &&& encoder_instruction_decoding(wire + rest, max) matches Ok((instruction, n))
            &&& n == wire.len()
            &&& table_apply(d, instruction) matches Ok(d2)
            &&& mirrors(d2, e2)
        }),
{
    lemma_entries_fit(e);
    let rel = (e.insert_count - 1 - abs) as nat;
    lemma_duplicate_reads_back(rel, rest, max);
    let entry = entry_at(e, abs as int)->0;
    assert(d.entries[rel as int] == entry);
}

proof fn lemma_insert_mirrors(e: EncoderTableView, d: TableView, entry: EntryView, wire: Seq<u8>, floor: Option<u64>)
    requires
        mirrors(d, e),
        make_room(e, entry_size(entry), floor) is Ok,
    ensures
        table_insert(d, entry) matches Ok(d2) && mirrors(
            d2,
            crate::encoder_table::with_new_entry(e, make_room(e, entry_size(entry), floor)->Ok_0, entry, wire),
        ),
{
}

proof fn lemma_static_ref_replays(
    e: EncoderTableView,
    d: TableView,
    name: EntryNameView,
    value: Seq<u8>,
    extra: Option<u64>,
    rest: Seq<u8>,
    max: nat,
)
    requires
        encoder_table_wf(e),
        mirrors(d, e),
        replayable_pair(name, value, max),
        full_match(e, name, value) is None,
        spec_first_match(name) is Some,
        table_insert_pair(e, name, value, extra) is Ok,
    ensures
        ({
            let e2 = table_insert_pair(e, name, value, extra)->Ok_0.0;
            let wire = e2.pending_ops.last();
            &&& encoder_instruction_decoding(wire + rest, max) matches Ok((instruction, n))
            &&& n == wire.len()
            &&& table_apply(d, instruction) matches Ok(d2)
            &&& mirrors(d2, e2)
        }),
{
    let si = spec_first_match(name)->0;
    let entry = EntryView { name, value };
    let wire = insert_with_name_ref_encoding(si as nat, true, value);
    lemma_static_indices_valid(name);
    lemma_static_indices_name(name);
    lemma_name_ref_reads_back(si as nat, true, value, rest, max);
    assert(static_name_view(static_table_entry(si).0) == name);
    assert(insert_instruction(e, name, value) == (wire, None::<u64>));
    lemma_insert_mirrors(e, d, entry, wire, crate::encoder_table::min_floor(None, extra));
}

proof fn lemma_dynamic_ref_replays(
    e: EncoderTableView,
    d: TableView,
    name: EntryNameView,
    value: Seq<u8>,
    extra: Option<u64>,
    rest: Seq<u8>,
    max: nat,
)
    requires
        encoder_table_wf(e),
        mirrors(d, e),
        replayable_pair(name, value, max),
        full_match(e, name, value) is None,
        spec_first_match(name) is None,
        name_match(e, name) is Some,
        table_insert_pair(e, name, value, extra) is Ok,
    ensures
        ({
            let e2 = table_insert_pair(e, name, value, extra)->Ok_0.0;
            let wire = e2.pending_ops.last();
            &&& encoder_instruction_decoding(wire + rest, max) matches Ok((instruction, n))
            &&& n == wire.len()
            &&& table_apply(d, instruction) matches Ok(d2)
            &&& mirrors(d2, e2)
        }),
{
    lemma_full_match_live(e, name, value);
    lemma_entries_fit(e);
    let abs = name_match(e, name)->0;
    let rel = (e.insert_count - 1 - abs) as nat;
    let entry = EntryView { name, value };
    let wire = insert_with_name_ref_encoding(rel, false, value);
    lemma_name_ref_reads_back(rel, false, value, rest, max);
    assert(d.entries[rel as int].name == name);
    assert(insert_instruction(e, name, value) == (wire, Some(abs as u64)));
    lemma_insert_mirrors(e, d, entry, wire, crate::encoder_table::min_floor(Some(abs as u64), extra));
}

proof fn lemma_literal_replays(
    e: EncoderTableView,
    d: TableView,
    name: EntryNameView,
    value: Seq<u8>,
    extra: Option<u64>,
    rest: Seq<u8>,
    max: nat,
)
    requires
        encoder_table_wf(e),
        mirrors(d, e),
        replayable_pair(name, value, max),
        full_match(e, name, value) is None,
        spec_first_match(name) is None,
        name_match(e, name) is None,
        table_insert_pair(e, name, value, extra) is Ok,
    ensures
        ({
            let e2 = table_insert_pair(e, name, value, extra)->Ok_0.0;
            let wire = e2.pending_ops.last();
            &&& encoder_instruction_decoding(wire + rest, max) matches Ok((instruction, n))
            &&& n == wire.len()
            &&& table_apply(d, instruction) matches Ok(d2)
            &&& mirrors(d2, e2)
        }),
{
    let entry = EntryView { name, value };
    let wire = insert_with_literal_name_encoding(name_bytes(name), value);
    lemma_literal_name_reads_back(name, value, rest, max);
    assert(insert_instruction(e, name, value) == (wire, None::<u64>));
    lemma_insert_mirrors(e, d, entry, wire, crate::encoder_table::min_floor(None, extra));
}

/// Every insert the encoder makes is replayed by the peer: the instruction it queues
/// reads back as one instruction which, applied to a decoder table holding the same
/// entries, inserts the same entry with the same evictions, so the two tables still hold
/// the same entries.
pub proof fn lemma_insert_replays_on_decoder(
    e: EncoderTableView,
    d: TableView,
    name: EntryNameView,
    value: Seq<u8>,
    extra: Option<u64>,
    rest: Seq<u8>,
    max: nat,
)
    requires
        encoder_table_wf(e),
        mirrors(d, e),
        replayable_pair(name, value, max),
        table_insert_pair(e, name, value, extra) is Ok,
    ensures
        ({
            let e2 = table_insert_pair(e, name, value, extra)->Ok_0.0;
            let wire = e2.pending_ops.last();
            &&& encoder_instruction_decoding(wire + rest, max) matches Ok((instruction, n))
            &&& n == wire.len()
            &&& table_apply(d, instruction) matches Ok(d2)
            &&& mirrors(d2, e2)
        }),
{
    lemma_full_match_live(e, name, value);
    match full_match(e, name, value) {
        Some(abs) => {
            lemma_duplicate_replays(e, d, abs, extra, rest, max);
        },
        None => if spec_first_match(name) is Some {
            lemma_static_ref_replays(e, d, name, value, extra, rest, max);
        } else if name_match(e, name) is Some {
            lemma_dynamic_ref_replays(e, d, name, value, extra, rest, max);
        } else {
            lemma_literal_replays(e, d, name, value, extra, rest, max);
        },
    }
}

/// Changing the capacity is replayed by the peer too, whenever the encoder's maximum is
/// within the one the peer advertised.
pub proof fn lemma_set_capacity_replays_on_decoder(
    e: EncoderTableView,
    d: TableView,
    capacity: nat,
    rest: Seq<u8>,
    max: nat,
)
    requires
        encoder_table_wf(e),
        mirrors(d, e),
        e.max_capacity <= d.max_capacity,
        encoder_set_capacity(e, capacity) is Ok,
    ensures
        ({
            let e2 = encoder_set_capacity(e, capacity)->Ok_0;
            let wire = e2.pending_ops.last();
            &&& encoder_instruction_decoding(wire + rest, max) matches Ok((instruction, n))
            &&& n == wire.len()
            &&& table_apply(d, instruction) matches Ok(d2)
            &&& mirrors(d2, e2)
        }),
{
    let enc = encoding(capacity, 5);
    crate::varint::lemma_encoding_first_byte(capacity, 5);
    let b = enc[0];
    assert(b <= (u8::MAX >> 3u8));
    lemma_five_bit_prefix_flags(b);
    let wire = set_capacity_encoding(capacity);
    assert(wire + rest =~= with_flags(enc + rest, 0x20u8));
    crate::varint::lemma_decoding_ignores_flags(enc + rest, 0x20u8, 5);
    crate::varint::lemma_decode_encode(capacity as usize, 5, rest);
}

} // verus!
