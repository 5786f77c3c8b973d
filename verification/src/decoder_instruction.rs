//! Decoder-stream instructions (RFC 9204 §4.4): Section Acknowledgement, Stream
//! Cancellation and Insert Count Increment, their wire encoders and a parser over the
//! bytes received so far.
use vstd::prelude::*;
use crate::encoder_instruction::{integer_error, StreamError};
use crate::varint::{self, decoding, encoding, with_flags, VarIntError};
use crate::field_section::push_with_flags;
use crate::decoder_table::PendingSectionAck;

verus! {

/// §4.4.1: Section Acknowledgement — first byte pattern 1xxxxxxx, 7-bit prefix stream ID.
pub const SECTION_ACK: u8 = 0x80;
/// §4.4.2: Stream Cancellation — first byte pattern 01xxxxxx, 6-bit prefix stream ID.
pub const STREAM_CANCEL: u8 = 0x40;

/// One decoder-stream instruction (RFC 9204 §4.4).
#[derive(Debug, Clone, Copy, PartialEq, Eq, Structural)]
pub enum DecoderInstruction {
    /// §4.4.1: Section Acknowledgement.
    SectionAcknowledgement { stream_id: u64 },
    /// §4.4.2: Stream Cancellation.
    StreamCancellation { stream_id: u64 },
    /// §4.4.3: Insert Count Increment.
    InsertCountIncrement { increment: u64 },
}

/// Reading one decoder-stream instruction from the start of `input`: the instruction and
/// the number of bytes it occupies.
pub open spec fn decoder_instruction_decoding(input: Seq<u8>) -> Result<(DecoderInstruction, nat), StreamError> {
    if input.len() == 0 {
        Err(StreamError::Incomplete)
    } else if input[0] & 0x80 != 0 {
        match decoding(input, 7) {
            Err(e) => Err(integer_error(e)),
            Ok((v, n)) => Ok((DecoderInstruction::SectionAcknowledgement { stream_id: v as u64 }, n)),
        }
    } else if input[0] & 0x40 != 0 {
        match decoding(input, 6) {
            Err(e) => Err(integer_error(e)),
            Ok((v, n)) => Ok((DecoderInstruction::StreamCancellation { stream_id: v as u64 }, n)),
        }
    } else {
        match decoding(input, 6) {
            Err(e) => Err(integer_error(e)),
            Ok((v, n)) => Ok((DecoderInstruction::InsertCountIncrement { increment: v as u64 }, n)),
        }
    }
}

/// A 64-bit count as a prefix-coded integer: the machine word, saturated.
pub open spec fn saturated(value: u64) -> nat {
    if value > usize::MAX {
        usize::MAX as nat
    } else {
        value as nat
    }
}

/// The wire form of Section Acknowledgement (§4.4.1).
pub open spec fn section_ack_encoding(stream_id: u64) -> Seq<u8> {
    with_flags(encoding(saturated(stream_id), 7), SECTION_ACK)
}

/// The wire form of Insert Count Increment (§4.4.3).
pub open spec fn insert_count_increment_encoding(increment: u64) -> Seq<u8> {
    encoding(saturated(increment), 6)
}

fn saturate(value: u64) -> (word: usize)
    ensures
        word == saturated(value),
{
    if value > usize::MAX as u64 {
        usize::MAX
    } else {
        value as usize
    }
}

/// Section Acknowledgement (§4.4.1): `1XXXXXXX` with a 7-bit prefix integer for the
/// stream ID (saturated to the machine word).
pub fn encode_section_ack(stream_id: u64, buf: &mut Vec<u8>)
    ensures
        final(buf)@ == old(buf)@ + section_ack_encoding(stream_id),
{
    let value = saturate(stream_id);
    proof {
        varint::lemma_encoding_first_byte(value as nat, 7);
    }
    push_with_flags(buf, varint::encode(value, 7), SECTION_ACK);
}

/// Insert Count Increment (§4.4.3): `00XXXXXX` with a 6-bit prefix integer for the
/// increment (saturated to the machine word).
pub fn encode_insert_count_increment(increment: u64, buf: &mut Vec<u8>)
    ensures
        final(buf)@ == old(buf)@ + insert_count_increment_encoding(increment),
{
    let mut encoded = varint::encode(saturate(increment), 6);
    buf.append(&mut encoded);
}

impl DecoderInstruction {
    /// Read one decoder-stream instruction from the start of the bytes received so far;
    /// `Incomplete` when more bytes are needed.
    pub fn parse(input: &[u8]) -> (result: Result<(DecoderInstruction, &[u8]), StreamError>)
        ensures
            match decoder_instruction_decoding(input@) {
                Ok((instr, n)) => result matches Ok((i, rest)) && i == instr && n <= input@.len()
                    && rest@ == input@.subrange(n as int, input@.len() as int),
                Err(e) => result is Err && result->Err_0 == e,
            },
    {
        if input.len() == 0 {
            return Err(StreamError::Incomplete);
        }
        let first = input[0];
        let prefix_size: u8 = if first & SECTION_ACK != 0 {
            7
        } else {
            6
        };
        let (value, rest) = match varint::decode(input, prefix_size) {
            Ok(decoded) => decoded,
            Err(VarIntError::UnexpectedEnd) => {
                return Err(StreamError::Incomplete);
            },
            Err(VarIntError::Overflow) => {
                return Err(StreamError::Violation);
            },
        };
        let instruction = if first & SECTION_ACK != 0 {
            DecoderInstruction::SectionAcknowledgement { stream_id: value as u64 }
        } else if first & STREAM_CANCEL != 0 {
            DecoderInstruction::StreamCancellation { stream_id: value as u64 }
        } else {
            DecoderInstruction::InsertCountIncrement { increment: value as u64 }
        };
        Ok((instruction, rest))
    }
}

/// The Section Acknowledgements of `acks`, in order.
pub open spec fn acks_encoding(acks: Seq<PendingSectionAck>) -> Seq<u8>
    decreases acks.len(),
{
    if acks.len() == 0 {
        Seq::empty()
    } else {
        acks_encoding(acks.drop_last()) + section_ack_encoding(acks.last().stream_id)
    }
}

/// The insert count the encoder knows of once `acks` are sent after `reported`: a Section
/// Acknowledgement tells it that the section's inserts arrived (§4.4.3).
pub open spec fn reported_after_acks(acks: Seq<PendingSectionAck>, reported: u64) -> u64
    decreases acks.len(),
{
    if acks.len() == 0 {
        reported
    } else {
        let before = reported_after_acks(acks.drop_last(), reported);
        if acks.last().required_insert_count > before {
            acks.last().required_insert_count
        } else {
            before
        }
    }
}

/// The count the encoder knows of after acknowledgements is the largest of what it knew
/// and every acknowledged section's Required Insert Count: at least each of them, and one
/// of them.
pub proof fn lemma_reported_after_acks_is_maximum(acks: Seq<PendingSectionAck>, reported: u64)
    ensures
        reported_after_acks(acks, reported) >= reported,
        forall|k: int| 0 <= k < acks.len() ==> reported_after_acks(acks, reported) >= (
        #[trigger] acks[k]).required_insert_count,
        reported_after_acks(acks, reported) == reported || exists|k: int|
            0 <= k < acks.len() && reported_after_acks(acks, reported) == (
            #[trigger] acks[k]).required_insert_count,
    decreases acks.len(),
{
    if acks.len() > 0 {
        let init = acks.drop_last();
        lemma_reported_after_acks_is_maximum(init, reported);
        let before = reported_after_acks(init, reported);
        assert forall|k: int| 0 <= k < acks.len() implies reported_after_acks(acks, reported) >= (
        #[trigger] acks[k]).required_insert_count by {
            if k < init.len() {
                assert(acks[k] == init[k]);
            }
        }
        if reported_after_acks(acks, reported) != reported {
            if reported_after_acks(acks, reported) == before {
                let k = choose|k: int| 0 <= k < init.len() && before == (#[trigger] init[k]).required_insert_count;
                assert(acks[k] == init[k]);
            } else {
                assert(acks[acks.len() - 1] == acks.last());
            }
        }
    }
}

/// What the decoder stream sends on a wake-up: the pending acknowledgements, then an
/// Insert Count Increment for the inserts they do not cover; and the insert count the
/// encoder then knows of.
pub open spec fn decoder_stream_update(acks: Seq<PendingSectionAck>, insert_count: u64, reported: u64) -> (Seq<u8>, u64) {
    let after = reported_after_acks(acks, reported);
    if insert_count > after {
        (acks_encoding(acks) + insert_count_increment_encoding((insert_count - after) as u64), insert_count)
    } else {
        (acks_encoding(acks), after)
    }
}

/// The decoder-stream bytes for the acknowledgements `acks` and the inserts up to
/// `insert_count`, the encoder having been told of `reported` inserts so far; with the
/// count it is told of afterwards.
pub fn encode_decoder_stream_update(acks: &Vec<PendingSectionAck>, insert_count: u64, reported: u64) -> (update: (Vec<u8>, u64))
    requires
        reported_after_acks(acks@, reported) <= insert_count,
    ensures
        (update.0@, update.1) == decoder_stream_update(acks@, insert_count, reported),
{
    let mut instructions: Vec<u8> = Vec::new();
    let mut last = reported;
    let mut i: usize = 0;
    while i < acks.len()
        invariant
            i <= acks@.len(),
            instructions@ == acks_encoding(acks@.subrange(0, i as int)),
            last == reported_after_acks(acks@.subrange(0, i as int), reported),
        decreases acks@.len() - i,
    {
        proof {
            let next = acks@.subrange(0, i + 1);
            assert(next.drop_last() =~= acks@.subrange(0, i as int));
            assert(next.last() == acks@[i as int]);
        }
        let ack = acks[i];
        encode_section_ack(ack.stream_id, &mut instructions);
        if ack.required_insert_count > last {
            last = ack.required_insert_count;
        }
        i = i + 1;
    }
    assert(acks@.subrange(0, i as int) =~= acks@);
    let increment = insert_count - last;
    if increment > 0 {
        encode_insert_count_increment(increment, &mut instructions);
        (instructions, insert_count)
    } else {
        (instructions, last)
    }
}

/// The decoder-stream instructions at the start of `input`, read one after another until
/// one does not parse.
pub open spec fn decoder_instructions(input: Seq<u8>) -> Seq<DecoderInstruction>
    decreases input.len(),
{
    match decoder_instruction_decoding(input) {
        Ok((i, n)) => if 0 < n <= input.len() {
            seq![i] + decoder_instructions(input.subrange(n as int, input.len() as int))
        } else {
            Seq::empty()
        },
        Err(_) => Seq::empty(),
    }
}

/// The Section Acknowledgements of `acks`, as instructions.
pub open spec fn ack_instructions(acks: Seq<PendingSectionAck>) -> Seq<DecoderInstruction> {
    acks.map_values(|a: PendingSectionAck| DecoderInstruction::SectionAcknowledgement { stream_id: a.stream_id })
}

proof fn lemma_decoder_stream_bits(a: u8, b: u8)
    by (bit_vector)
    requires
        a <= (u8::MAX >> 1u8),
        b <= (u8::MAX >> 2u8),
    ensures
        0x80u8 & (u8::MAX >> 1u8) == 0,
        (a | 0x80u8) & 0x80 != 0,
        b & 0x80 == 0,
        b & 0x40 == 0,
        (b | 0x40u8) & 0x80 == 0,
        (b | 0x40u8) & 0x40 != 0,
        0x40u8 & (u8::MAX >> ((8 - 6u8) as u8)) == 0,
{
}

/// A Section Acknowledgement reads back first, whatever follows it.
proof fn lemma_section_ack_reads_back(stream_id: u64, rest: Seq<u8>)
    requires
        stream_id <= usize::MAX,
    ensures
        decoder_instructions(section_ack_encoding(stream_id) + rest) == seq![
            DecoderInstruction::SectionAcknowledgement { stream_id },
        ] + decoder_instructions(rest),
{
    let enc = encoding(stream_id as nat, 7);
    varint::lemma_encoding_first_byte(stream_id as nat, 7);
    lemma_decoder_stream_bits(enc[0], 0);
    let bytes = section_ack_encoding(stream_id) + rest;
    assert(bytes =~= with_flags(enc + rest, SECTION_ACK));
    varint::lemma_decoding_ignores_flags(enc + rest, SECTION_ACK, 7);
    varint::lemma_decode_encode(stream_id as usize, 7, rest);
    assert(bytes[0] == enc[0] | 0x80u8);
    assert(bytes.subrange(enc.len() as int, bytes.len() as int) =~= rest);
}

/// A Stream Cancellation (`01` then the stream ID as a 6-bit prefix integer) reads back as
/// the cancellation of that stream and takes exactly its own bytes, whatever follows.
pub proof fn lemma_stream_cancellation_reads_back(stream_id: u64, rest: Seq<u8>)
    requires
        stream_id <= usize::MAX,
    ensures
        decoder_instruction_decoding(with_flags(encoding(stream_id as nat, 6), STREAM_CANCEL) + rest)
            == Ok::<(DecoderInstruction, nat), StreamError>(
            (DecoderInstruction::StreamCancellation { stream_id }, encoding(stream_id as nat, 6).len()),
        ),
{
    let enc = encoding(stream_id as nat, 6);
    varint::lemma_encoding_first_byte(stream_id as nat, 6);
    lemma_decoder_stream_bits(0, enc[0]);
    let bytes = with_flags(enc, STREAM_CANCEL) + rest;
    assert(bytes =~= with_flags(enc + rest, STREAM_CANCEL));
    varint::lemma_decoding_ignores_flags(enc + rest, STREAM_CANCEL, 6);
    varint::lemma_decode_encode(stream_id as usize, 6, rest);
    assert(bytes[0] == enc[0] | 0x40u8);
}

/// An Insert Count Increment reads back.
proof fn lemma_increment_reads_back(increment: u64)
    requires
        increment <= usize::MAX,
    ensures
        decoder_instructions(insert_count_increment_encoding(increment)) == seq![
            DecoderInstruction::InsertCountIncrement { increment },
        ],
{
    let enc = encoding(increment as nat, 6);
    varint::lemma_encoding_first_byte(increment as nat, 6);
    lemma_decoder_stream_bits(0, enc[0]);
    varint::lemma_decode_encode(increment as usize, 6, Seq::empty());
    assert(enc + Seq::<u8>::empty() =~= enc);
    assert(decoding(enc, 6) == Ok::<(usize, nat), VarIntError>((increment as usize, enc.len())));
    assert(decoder_instruction_decoding(enc) == Ok::<(DecoderInstruction, nat), StreamError>(
        (DecoderInstruction::InsertCountIncrement { increment }, enc.len()),
    ));
    assert(enc.subrange(enc.len() as int, enc.len() as int) =~= Seq::<u8>::empty());
    assert(decoder_instructions(Seq::<u8>::empty()) =~= Seq::<DecoderInstruction>::empty());
    assert(seq![DecoderInstruction::InsertCountIncrement { increment }] + Seq::<DecoderInstruction>::empty()
        =~= seq![DecoderInstruction::InsertCountIncrement { increment }]);
}

/// Acknowledgements read back in order, whatever follows them.
proof fn lemma_acks_read_back(acks: Seq<PendingSectionAck>, tail: Seq<u8>)
    requires
        forall|k: int| 0 <= k < acks.len() ==> (#[trigger] acks[k]).stream_id <= usize::MAX,
    ensures
        decoder_instructions(acks_encoding(acks) + tail) == ack_instructions(acks) + decoder_instructions(tail),
    decreases acks.len(),
{
    if acks.len() == 0 {
        assert(acks_encoding(acks) + tail =~= tail);
        assert(ack_instructions(acks) =~= Seq::<DecoderInstruction>::empty());
        assert(ack_instructions(acks) + decoder_instructions(tail) =~= decoder_instructions(tail));
    } else {
        let last = acks.last();
        let rest = section_ack_encoding(last.stream_id) + tail;
        assert(acks_encoding(acks) + tail =~= acks_encoding(acks.drop_last()) + rest);
        lemma_acks_read_back(acks.drop_last(), rest);
        lemma_section_ack_reads_back(last.stream_id, tail);
        assert(ack_instructions(acks) =~= ack_instructions(acks.drop_last()).push(
            DecoderInstruction::SectionAcknowledgement { stream_id: last.stream_id },
        ));
        assert(ack_instructions(acks.drop_last()) + (seq![
            DecoderInstruction::SectionAcknowledgement { stream_id: last.stream_id },
        ] + decoder_instructions(tail)) =~= ack_instructions(acks) + decoder_instructions(tail));
    }
}

/// What the decoder stream sends on a wake-up reads back on the encoder's side as the
/// acknowledgements in order, then (when inserts are left uncovered) one Insert Count
/// Increment for exactly those inserts.
pub proof fn lemma_decoder_stream_update_reads_back(acks: Seq<PendingSectionAck>, insert_count: u64, reported: u64)
    requires
        forall|k: int| 0 <= k < acks.len() ==> (#[trigger] acks[k]).stream_id <= usize::MAX,
        insert_count <= usize::MAX,
    ensures
        ({
            let after = reported_after_acks(acks, reported);
            decoder_instructions(decoder_stream_update(acks, insert_count, reported).0) == ack_instructions(acks) + if insert_count > after {
                seq![DecoderInstruction::InsertCountIncrement { increment: (insert_count - after) as u64 }]
            } else {
                Seq::empty()
            }
        }),
{
    let after = reported_after_acks(acks, reported);
    if insert_count > after {
        let inc = insert_count_increment_encoding((insert_count - after) as u64);
        lemma_acks_read_back(acks, inc);
        lemma_increment_reads_back((insert_count - after) as u64);
    } else {
        lemma_acks_read_back(acks, Seq::empty());
        assert(acks_encoding(acks) + Seq::<u8>::empty() =~= acks_encoding(acks));
        assert(decoder_instructions(Seq::<u8>::empty()) =~= Seq::<DecoderInstruction>::empty());
        assert(ack_instructions(acks) + Seq::<DecoderInstruction>::empty() =~= ack_instructions(acks));
    }
}

} // verus!
