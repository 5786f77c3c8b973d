//! String literals (RFC 9204 §4.1.2) shared by the encoder-stream instructions and the
//! field-section lines, and the error type of the synchronous wire parsers.
use vstd::prelude::*;
use crate::huffman::{self, huffman_bytes, huffman_decoding, HuffmanError};
use crate::varint::{self, decoding, encoding, with_flags, VarIntError};

verus! {

/// Errors of the wire parsers.
#[derive(Debug, Clone, Copy, PartialEq, Eq)]
pub enum QpackError {
    /// The input ended inside an instruction.
    UnexpectedEnd,
    /// A literal name is not a valid lowercase header name or a known pseudo-header.
    InvalidHeaderName,
    /// A prefix-coded integer did not decode.
    VarInt(VarIntError),
    /// A Huffman-coded string did not decode.
    Huffman(HuffmanError),
}

/// The Huffman flag of a string literal whose length has an N-bit prefix.
pub open spec fn huffman_flag(prefix_size: u8) -> u8 {
    (1u8 << prefix_size) as u8
}

/// The wire form of a string literal with an N-bit length prefix: Huffman-coded (with
/// the H flag just above the prefix) when that is strictly shorter, raw otherwise.
pub open spec fn string_literal(value: Seq<u8>, prefix_size: u8) -> Seq<u8> {
    let coded = huffman_bytes(value);
    if coded.len() < value.len() {
        with_flags(encoding(coded.len(), prefix_size), huffman_flag(prefix_size)) + coded
    } else {
        encoding(value.len(), prefix_size) + value
    }
}

pub open spec fn valid_string_prefix(prefix_size: u8) -> bool {
    1 <= prefix_size <= 7
}

/// Encode a string literal.
///
/// Tries Huffman encoding and uses it when strictly shorter. The H flag is placed at bit
/// `prefix_size` of the first byte; the length occupies the low `prefix_size` bits as a
/// varint. The caller is responsible for OR-ing any additional flags into the byte at
/// `buf.len()` prior to the call after this returns.
pub fn encode_string(value: &[u8], prefix_size: u8, buf: &mut Vec<u8>)
    requires
        valid_string_prefix(prefix_size),
    ensures
        final(buf)@ == old(buf)@ + string_literal(value@, prefix_size),
{
    let huffman_encoded = huffman::encode(value);
    let start = buf.len();
    if huffman_encoded.len() < value.len() {
        let mut length = varint::encode(huffman_encoded.len(), prefix_size);
        let flag: u8 = 1u8 << prefix_size;
        length.set(0, length[0] | flag);
        buf.append(&mut length);
        buf.extend_from_slice(huffman_encoded.as_slice());
    } else {
        let mut length = varint::encode(value.len(), prefix_size);
        buf.append(&mut length);
        buf.extend_from_slice(value);
    }
}

/// Decoding a string literal with an N-bit length prefix from the start of `input`: the
/// string and the number of bytes the literal occupies.
pub open spec fn string_literal_decoding(input: Seq<u8>, prefix_size: u8) -> Result<
    (Seq<u8>, nat),
    QpackError,
> {
    if input.len() == 0 {
        Err(QpackError::UnexpectedEnd)
    } else {
        match decoding(input, prefix_size) {
            Err(e) => Err(QpackError::VarInt(e)),
            Ok((len, used)) => if input.len() - used < len {
                Err(QpackError::UnexpectedEnd)
            } else {
                let body = input.subrange(used as int, used + len);
                if input[0] & huffman_flag(prefix_size) != 0 {
                    match huffman_decoding(body) {
                        Ok(v) => Ok((v, (used + len) as nat)),
                        Err(e) => Err(QpackError::Huffman(e)),
                    }
                } else {
                    Ok((body, (used + len) as nat))
                }
            },
        }
    }
}

/// Decode a string literal: H flag at bit `prefix_size`, then length (in the low
/// `prefix_size` bits as a varint), then the body.
pub fn decode_string(input: &[u8], prefix_size: u8) -> (result: Result<(Vec<u8>, &[u8]), QpackError>)
    requires
        valid_string_prefix(prefix_size),
    ensures
        match string_literal_decoding(input@, prefix_size) {
            Ok((v, n)) => result matches Ok((value, rest)) && value@ == v && n <= input@.len()
                && rest@ == input@.subrange(n as int, input@.len() as int),
            Err(e) => result is Err && result->Err_0 == e,
        },
{
    if input.len() == 0 {
        return Err(QpackError::UnexpectedEnd);
    }
    let first = input[0];
    let flag: u8 = 1u8 << prefix_size;
    let huffman_encoded = first & flag != 0;
    let (length, rest) = match varint::decode(input, prefix_size) {
        Ok(decoded) => decoded,
        Err(e) => {
            return Err(QpackError::VarInt(e));
        },
    };
    if rest.len() < length {
        return Err(QpackError::UnexpectedEnd);
    }
    let (body, rest) = rest.split_at(length);
    let ghost used = (input@.len() - rest@.len() - length) as nat;
    assert(body@ == input@.subrange(used as int, used + length));
    let decoded = if huffman_encoded {
        match huffman::decode(body) {
            Ok(v) => v,
            Err(e) => {
                return Err(QpackError::Huffman(e));
            },
        }
    } else {
        vstd::slice::slice_to_vec(body)
    };
    Ok((decoded, rest))
}


/// The H flag sits just above the length prefix: it is clear in any first byte of a length
/// encoding, and OR-ing it in sets it without touching the prefix bits.
pub proof fn lemma_huffman_flag_bits(b: u8, prefix_size: u8)
    requires
        valid_string_prefix(prefix_size),
        b <= (u8::MAX >> ((8 - prefix_size) as u8)),
    ensures
        b & huffman_flag(prefix_size) == 0,
        (b | huffman_flag(prefix_size)) & huffman_flag(prefix_size) != 0,
        huffman_flag(prefix_size) & (u8::MAX >> ((8 - prefix_size) as u8)) == 0,
{
    let n = prefix_size;
    assert(1 <= n <= 7 && b <= (255u8 >> ((8 - n) as u8)) ==> {
        &&& b & ((1u8 << n) as u8) == 0
        &&& (b | ((1u8 << n) as u8)) & ((1u8 << n) as u8) != 0
        &&& ((1u8 << n) as u8) & (255u8 >> ((8 - n) as u8)) == 0
    }) by (bit_vector);
}

/// Decoding a string literal gives back the string that was encoded, and consumes
/// exactly its encoding, whatever bytes follow.
pub proof fn lemma_string_literal_roundtrip(value: Seq<u8>, prefix_size: u8, rest: Seq<u8>)
    requires
        valid_string_prefix(prefix_size),
        value.len() <= usize::MAX,
    ensures
        string_literal_decoding(string_literal(value, prefix_size) + rest, prefix_size) == Ok::<
            (Seq<u8>, nat),
            QpackError,
        >((value, string_literal(value, prefix_size).len())),
{
    let n = prefix_size;
    let coded = huffman_bytes(value);
    let lit = string_literal(value, n);
    let input = lit + rest;
    if coded.len() < value.len() {
        let enc = encoding(coded.len(), n);
        crate::varint::lemma_encoding_first_byte(coded.len(), n);
        lemma_huffman_flag_bits(enc[0], n);
        assert(input =~= with_flags(enc + (coded + rest), huffman_flag(n)));
        crate::varint::lemma_decoding_ignores_flags(enc + (coded + rest), huffman_flag(n), n);
        crate::varint::lemma_decode_encode(coded.len() as usize, n, coded + rest);
        assert(input.subrange(enc.len() as int, (enc.len() + coded.len()) as int) =~= coded);
        crate::huffman_laws::lemma_huffman_roundtrip(value);
    } else {
        let enc = encoding(value.len(), n);
        crate::varint::lemma_encoding_first_byte(value.len(), n);
        lemma_huffman_flag_bits(enc[0], n);
        assert(input =~= enc + (value + rest));
        crate::varint::lemma_decode_encode(value.len() as usize, n, value + rest);
        assert(input.subrange(enc.len() as int, (enc.len() + value.len()) as int) =~= value);
    }
}


/// Flag bits above a string literal's H flag do not change how it decodes.
pub proof fn lemma_string_literal_decoding_ignores_flags(input: Seq<u8>, flags: u8, prefix_size: u8)
    requires
        valid_string_prefix(prefix_size),
        input.len() > 0,
        flags & (u8::MAX >> ((8 - prefix_size) as u8)) == 0,
        flags & huffman_flag(prefix_size) == 0,
    ensures
        string_literal_decoding(with_flags(input, flags), prefix_size) == string_literal_decoding(
            input,
            prefix_size,
        ),
{
    let flagged = with_flags(input, flags);
    crate::varint::lemma_decoding_ignores_flags(input, flags, prefix_size);
    let b = input[0];
    let h = huffman_flag(prefix_size);
    assert(flags & h == 0 ==> (b | flags) & h == b & h) by (bit_vector);
    if let Ok((len, used)) = decoding(input, prefix_size) {
        if input.len() - used >= len {
            assert(used >= 1);
            assert(flagged.subrange(used as int, used + len) =~= input.subrange(
                used as int,
                used + len,
            ));
        }
    }
}

} // verus!
