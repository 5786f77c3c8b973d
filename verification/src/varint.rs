//! Prefix-coded integers (RFC 7541 §5.1, used by RFC 9204 §4.1.1).
use vstd::prelude::*;
use vstd::arithmetic::power2::pow2;

verus! {

/// Errors that can occur during variable-length integer decoding.
#[derive(Debug, PartialEq, Eq, Clone, Copy)]
pub enum VarIntError {
    /// The encoded integer overflows usize.
    Overflow,
    /// The input ended before the integer was fully decoded (more
    /// continuation bytes were expected).
    UnexpectedEnd,
}

/// The largest value that fits in the low `prefix_size` bits of the first byte.
pub open spec fn prefix_max(prefix_size: u8) -> nat {
    (pow2(prefix_size as nat) - 1) as nat
}

/// Continuation bytes of an integer `r` (already reduced by the prefix maximum):
/// seven bits per byte, least significant group first, high bit set on all but the last.
pub open spec fn continuation_bytes(r: nat) -> Seq<u8>
    decreases r,
{
    if r < 128 {
        seq![r as u8]
    } else {
        seq![(r % 128 + 128) as u8] + continuation_bytes(r / 128)
    }
}

/// The RFC 7541 §5.1 encoding of `value` with an N-bit prefix (flag bits left clear).
pub open spec fn encoding(value: nat, prefix_size: u8) -> Seq<u8> {
    if value < prefix_max(prefix_size) {
        seq![value as u8]
    } else {
        seq![prefix_max(prefix_size) as u8] + continuation_bytes(
            (value - prefix_max(prefix_size)) as nat,
        )
    }
}

/// Reading continuation bytes `bytes[i..]` onto the running `value`, whose next group is
/// worth `2^shift`.  A group whose shift reaches the width of `usize`, or a value that no
/// longer fits in `usize` (a group whose bits reach past the width among them), is an
/// overflow.  On success the result holds the value and the number of continuation bytes
/// consumed.
pub open spec fn continuation_value(bytes: Seq<u8>, i: nat, value: nat, shift: nat) -> Result<
    (usize, nat),
    VarIntError,
>
    decreases bytes.len() - i,
{
    if i >= bytes.len() {
        Err(VarIntError::UnexpectedEnd)
    } else if shift >= usize::BITS {
        Err(VarIntError::Overflow)
    } else {
        let byte = bytes[i as int];
        let increment = ((byte & 0x7f) as nat) * pow2(shift);
        if value + increment > usize::MAX {
            Err(VarIntError::Overflow)
        } else if byte & 0x80 == 0 {
            Ok(((value + increment) as usize, (i + 1) as nat))
        } else {
            continuation_value(bytes, i + 1, value + increment, shift + 7)
        }
    }
}

/// Decoding an N-bit prefix integer from the start of `input`: the decoded value and the
/// number of bytes it occupies.
pub open spec fn decoding(input: Seq<u8>, prefix_size: u8) -> Result<(usize, nat), VarIntError> {
    if input.len() == 0 {
        Err(VarIntError::UnexpectedEnd)
    } else {
        let first = (input[0] as nat) % pow2(prefix_size as nat);
        if first < prefix_max(prefix_size) {
            Ok((first as usize, 1))
        } else {
            match continuation_value(input.drop_first(), 0, first, 0) {
                Ok((v, n)) => Ok((v, n + 1)),
                Err(e) => Err(e),
            }
        }
    }
}

/// `bytes` with `flags` OR-ed into its first byte.
pub open spec fn with_flags(bytes: Seq<u8>, flags: u8) -> Seq<u8> {
    bytes.update(0, bytes[0] | flags)
}

pub open spec fn valid_prefix_size(prefix_size: u8) -> bool {
    1 <= prefix_size <= 8
}

proof fn lemma_prefix_mask(b: u8, prefix_size: u8)
    requires
        valid_prefix_size(prefix_size),
    ensures
        (u8::MAX >> ((8 - prefix_size) as u8)) as nat == prefix_max(prefix_size),
        (b & (u8::MAX >> ((8 - prefix_size) as u8))) as nat == (b as nat) % pow2(
            prefix_size as nat,
        ),
        prefix_max(prefix_size) <= 255,
        prefix_max(prefix_size) >= 1,
{
    vstd::arithmetic::power2::lemma2_to64();
    let s: u8 = (8 - prefix_size) as u8;
    let m: u8 = u8::MAX >> s;
    let p: nat = pow2(prefix_size as nat);
    assert(m == 255u8 >> s);
    assert(1 <= s <= 7 ==> (b & (255u8 >> s)) == b % (((255u8 >> s) + 1) as u8)) by (bit_vector);
    assert(s == 0 ==> (b & (255u8 >> s)) == b) by (bit_vector);
    if prefix_size == 1 {
        assert((255u8 >> 7u8) == 1) by (bit_vector);
    } else if prefix_size == 2 {
        assert((255u8 >> 6u8) == 3) by (bit_vector);
    } else if prefix_size == 3 {
        assert((255u8 >> 5u8) == 7) by (bit_vector);
    } else if prefix_size == 4 {
        assert((255u8 >> 4u8) == 15) by (bit_vector);
    } else if prefix_size == 5 {
        assert((255u8 >> 3u8) == 31) by (bit_vector);
    } else if prefix_size == 6 {
        assert((255u8 >> 2u8) == 63) by (bit_vector);
    } else if prefix_size == 7 {
        assert((255u8 >> 1u8) == 127) by (bit_vector);
    } else {
        assert((255u8 >> 0u8) == 255) by (bit_vector);
    }
    assert(m as nat + 1 == p);
}

/// Decode a prefix-coded integer per RFC 7541 §5.1.
///
/// `prefix_size` is the number of bits in the first byte used for the
/// integer (the low bits). The remaining high bits belong to the
/// caller (flags, type indicators, etc.).
///
/// Returns the decoded value and the unconsumed remainder of the input.
pub fn decode(input: &[u8], prefix_size: u8) -> (result: Result<(usize, &[u8]), VarIntError>)
    requires
        valid_prefix_size(prefix_size),
    ensures
        match decoding(input@, prefix_size) {
            Ok((v, n)) => result matches Ok((value, rest)) && value == v && n <= input@.len()
                && rest@ == input@.subrange(n as int, input@.len() as int),
            Err(e) => result == Err::<(usize, &[u8]), VarIntError>(e),
        },
{
    if input.len() == 0 {
        return Err(VarIntError::UnexpectedEnd);
    }
    let first = input[0];
    let (_, rest) = input.split_at(1);
    let prefix_mask = u8::MAX >> (8 - prefix_size);
    proof {
        lemma_prefix_mask(first, prefix_size);
    }
    let mut value: usize = (first & prefix_mask) as usize;
    if value < prefix_mask as usize {
        return Ok((value, rest));
    }
    let ghost first_value = value as nat;
    assert(rest@ == input@.drop_first());
    let mut shift: u32 = 0;
    let mut i: usize = 0;
    while i < rest.len()
        invariant
            0 <= i <= rest@.len(),
            rest@ == input@.drop_first(),
            rest@.len() + 1 == input@.len(),
            shift == 7 * i,
            shift <= usize::BITS + 7,
            first_value == (input@[0] as nat) % pow2(prefix_size as nat),
            first_value >= prefix_max(prefix_size),
            continuation_value(rest@, 0, first_value, 0) == continuation_value(
                rest@,
                i as nat,
                value as nat,
                shift as nat,
            ),
        decreases rest.len() - i,
    {
        let byte = rest[i];
        let payload = (byte & 0x7f) as usize;
        if shift >= usize::BITS {
            return Err(VarIntError::Overflow);
        }
        let room = usize::MAX >> (shift as usize);
        proof {
            lemma_shifted_group(payload, shift as usize);
        }
        if payload > room {
            return Err(VarIntError::Overflow);
        }
        let increment = payload << (shift as usize);
        if value > usize::MAX - increment {
            return Err(VarIntError::Overflow);
        }
        value = value + increment;
        shift = shift + 7;
        i = i + 1;
        if byte & 0x80 == 0 {
            let (_, tail) = rest.split_at(i);
            assert(tail@ == input@.subrange(i + 1, input@.len() as int));
            return Ok((value, tail));
        }
    }
    Err(VarIntError::UnexpectedEnd)
}

/// Encode a prefix-coded integer per RFC 7541 §5.1.
///
/// Returns the encoded bytes. The first byte contains the integer
/// value in its low `prefix_size` bits; the caller is responsible for
/// OR-ing in any flags in the high bits.
pub fn encode(value: usize, prefix_size: u8) -> (output: Vec<u8>)
    requires
        valid_prefix_size(prefix_size),
    ensures
        output@ == encoding(value as nat, prefix_size),
{
    let prefix_mask = u8::MAX >> (8 - prefix_size);
    proof {
        lemma_prefix_mask(0, prefix_size);
    }
    let prefix_mask = prefix_mask as usize;
    if value < prefix_mask {
        return vec![value as u8];
    }
    let mut output = vec![prefix_mask as u8];
    let mut remaining = value - prefix_mask;
    while remaining >= 128
        invariant
            output@ + continuation_bytes(remaining as nat) == encoding(value as nat, prefix_size),
        decreases remaining,
    {
        let ghost before = output@;
        output.push((remaining % 128 + 128) as u8);
        assert(output@ + continuation_bytes((remaining / 128) as nat) == before
            + continuation_bytes(remaining as nat));
        remaining = remaining / 128;
    }
    output.push(remaining as u8);
    output
}

} // verus!

verus! {

proof fn lemma_pow2_usize_bits()
    ensures
        pow2(usize::BITS as nat) == usize::MAX + 1,
{
    vstd::arithmetic::power2::lemma2_to64();
    vstd::arithmetic::power2::lemma2_to64_rest();
}

proof fn lemma_low_seven_bits(b: u8)
    ensures
        b < 128 ==> b & 0x7f == b && b & 0x80 == 0,
        b >= 128 ==> (b & 0x7f) as int == b - 128 && b & 0x80 != 0,
{
    assert(b < 128 ==> b & 0x7f == b && b & 0x80 == 0) by (bit_vector);
    assert(b >= 128 ==> (b & 0x7f) == b - 128 && b & 0x80 != 0) by (bit_vector);
}

/// A group fits in `usize` after its shift exactly when it is at most `usize::MAX` shifted
/// right by as much; then the shift is the multiplication.
proof fn lemma_shifted_group(payload: usize, shift: usize)
    requires
        shift < usize::BITS,
    ensures
        payload > (usize::MAX >> shift) <==> payload * pow2(shift as nat) > usize::MAX,
        payload <= (usize::MAX >> shift) ==> (payload << shift) == payload * pow2(shift as nat),
{
    let p: nat = pow2(shift as nat);
    vstd::arithmetic::power2::lemma_pow2_pos(shift as nat);
    vstd::bits::lemma_usize_shr_is_div(usize::MAX, shift);
    let q: nat = (usize::MAX as nat) / p;
    vstd::arithmetic::div_mod::lemma_fundamental_div_mod(usize::MAX as int, p as int);
    let m: int = (usize::MAX as int) % (p as int);
    vstd::arithmetic::div_mod::lemma_mod_bound(usize::MAX as int, p as int);
    if payload > q {
        assert(payload * p >= (q + 1) * p) by {
            vstd::arithmetic::mul::lemma_mul_inequality((q + 1) as int, payload as int, p as int);
        }
        assert((q + 1) * p == q * p + p) by (nonlinear_arith);
        assert(p * q == q * p) by (nonlinear_arith);
    } else {
        assert(payload * p <= q * p) by {
            vstd::arithmetic::mul::lemma_mul_inequality(payload as int, q as int, p as int);
        }
        assert(p * q == q * p) by (nonlinear_arith);
        vstd::bits::lemma_usize_shl_is_mul(payload, shift);
    }
}

proof fn lemma_continuation_roundtrip(bytes: Seq<u8>, i: nat, r: nat, value: nat, shift: nat)
    requires
        i + continuation_bytes(r).len() <= bytes.len(),
        bytes.subrange(i as int, (i + continuation_bytes(r).len()) as int) == continuation_bytes(r),
        r > 0 || shift == 0,
        value + r * pow2(shift) <= usize::MAX,
    ensures
        continuation_value(bytes, i, value, shift) == Ok::<(usize, nat), VarIntError>(
            ((value + r * pow2(shift)) as usize, i + continuation_bytes(r).len()),
        ),
    decreases r,
{
    let cb = continuation_bytes(r);
    assert(bytes[i as int] == cb[0]);
    vstd::arithmetic::power2::lemma_pow2_pos(shift);
    lemma_pow2_usize_bits();
    if shift >= usize::BITS {
        if shift > usize::BITS {
            vstd::arithmetic::power2::lemma_pow2_strictly_increases(usize::BITS as nat, shift);
        }
        vstd::arithmetic::mul::lemma_mul_increases(r as int, pow2(shift) as int);
        assert(false);
    }
    let byte = bytes[i as int];
    lemma_low_seven_bits(byte);
    let payload: nat = if r < 128 { r } else { r % 128 };
    assert(payload <= r);
    assert(payload * pow2(shift) <= r * pow2(shift)) by {
        vstd::arithmetic::mul::lemma_mul_inequality(payload as int, r as int, pow2(shift) as int);
    }
    assert((byte & 0x7f) as nat == payload);
    if r >= 128 {
        let r2: nat = r / 128;
        let v2: nat = value + payload * pow2(shift);
        assert(cb == seq![(r % 128 + 128) as u8] + continuation_bytes(r2));
        assert(bytes.subrange((i + 1) as int, (i + 1 + continuation_bytes(r2).len()) as int) == continuation_bytes(
            r2,
        )) by {
            assert(bytes.subrange((i + 1) as int, (i + 1 + continuation_bytes(r2).len()) as int)
                =~= cb.subrange(1, cb.len() as int));
        }
        assert(pow2(shift + 7) == pow2(shift) * 128) by {
            vstd::arithmetic::power2::lemma_pow2_adds(shift, 7);
            vstd::arithmetic::power2::lemma2_to64();
        }
        assert(r2 * pow2(shift + 7) + payload * pow2(shift) == r * pow2(shift)) by (nonlinear_arith)
            requires
                pow2(shift + 7) == pow2(shift) * 128,
                r2 == r / 128,
                payload == r % 128,
        ;
        lemma_continuation_roundtrip(bytes, i + 1, r2, v2, shift + 7);
    }
}

/// Decoding the encoding of any value gives the value back and consumes exactly the
/// encoding, whatever bytes follow it.
pub proof fn lemma_decode_encode(value: usize, prefix_size: u8, rest: Seq<u8>)
    requires
        valid_prefix_size(prefix_size),
    ensures
        decoding(encoding(value as nat, prefix_size) + rest, prefix_size) == Ok::<
            (usize, nat),
            VarIntError,
        >((value, encoding(value as nat, prefix_size).len())),
{
    lemma_prefix_mask(0, prefix_size);
    let enc = encoding(value as nat, prefix_size);
    let input = enc + rest;
    let pm = prefix_max(prefix_size);
    vstd::arithmetic::power2::lemma_pow2_pos(prefix_size as nat);
    assert(pm + 1 == pow2(prefix_size as nat));
    if value < pm {
        assert(input[0] == value as u8);
        assert((value as nat) % pow2(prefix_size as nat) == value) by {
            vstd::arithmetic::div_mod::lemma_small_mod(value as nat, pow2(prefix_size as nat));
        }
    } else {
        assert(input[0] == pm as u8);
        assert(pm % pow2(prefix_size as nat) == pm) by {
            vstd::arithmetic::div_mod::lemma_small_mod(pm, pow2(prefix_size as nat));
        }
        let r: nat = (value - pm) as nat;
        let cb = continuation_bytes(r);
        assert(input.drop_first().subrange(0, cb.len() as int) == cb) by {
            assert(input.drop_first().subrange(0, cb.len() as int) =~= cb);
        }
        assert(pow2(0) == 1) by {
            vstd::arithmetic::power2::lemma2_to64();
        }
        lemma_continuation_roundtrip(input.drop_first(), 0, r, pm, 0);
    }
}


proof fn lemma_continuation_bounded(bytes: Seq<u8>, i: nat, value: nat, shift: nat)
    ensures
        continuation_value(bytes, i, value, shift) matches Ok((_, n)) ==> n <= bytes.len(),
    decreases bytes.len() - i,
{
    if i < bytes.len() && shift < usize::BITS {
        let byte = bytes[i as int];
        let increment = ((byte & 0x7f) as nat) * pow2(shift);
        if value + increment <= usize::MAX && byte & 0x80 != 0 {
            lemma_continuation_bounded(bytes, i + 1, value + increment, shift + 7);
        }
    }
}

/// An integer occupies at least one byte of the input it is read from, and no more than
/// the input holds.
pub proof fn lemma_decoding_bounded(input: Seq<u8>, prefix_size: u8)
    ensures
        decoding(input, prefix_size) matches Ok((_, n)) ==> 1 <= n <= input.len(),
{
    if input.len() > 0 {
        let first = (input[0] as nat) % pow2(prefix_size as nat);
        lemma_continuation_bounded(input.drop_first(), 0, first, 0);
    }
}

/// Flag bits above the prefix do not change what the integer decodes to.
pub proof fn lemma_decoding_ignores_flags(input: Seq<u8>, flags: u8, prefix_size: u8)
    requires
        valid_prefix_size(prefix_size),
        input.len() > 0,
        flags & (u8::MAX >> ((8 - prefix_size) as u8)) == 0,
    ensures
        decoding(with_flags(input, flags), prefix_size) == decoding(input, prefix_size),
{
    let b = input[0];
    let m = u8::MAX >> ((8 - prefix_size) as u8);
    lemma_prefix_mask(b, prefix_size);
    lemma_prefix_mask(b | flags, prefix_size);
    assert((b | flags) & m == b & m) by (bit_vector)
        requires
            flags & m == 0,
    ;
    assert(with_flags(input, flags).drop_first() =~= input.drop_first());
}

/// Continuation bytes take the fewest seven-bit groups that hold `r`, with the high bit set
/// on every byte but the last.
proof fn lemma_continuation_shape(r: nat)
    ensures
        continuation_bytes(r).len() >= 1,
        r < pow2((7 * continuation_bytes(r).len()) as nat),
        continuation_bytes(r).len() == 1 || pow2((7 * (continuation_bytes(r).len() - 1)) as nat) <= r,
        forall|j: int| 0 <= j < continuation_bytes(r).len() - 1 ==> continuation_bytes(r)[j] >= 128,
        continuation_bytes(r)[continuation_bytes(r).len() - 1] < 128,
    decreases r,
{
    vstd::arithmetic::power2::lemma2_to64();
    if r >= 128 {
        let r2: nat = r / 128;
        lemma_continuation_shape(r2);
        let cb2 = continuation_bytes(r2);
        let k2: nat = cb2.len();
        let cb = continuation_bytes(r);
        assert(cb == seq![(r % 128 + 128) as u8] + cb2);
        assert(pow2((7 * k2 + 7) as nat) == pow2((7 * k2) as nat) * 128) by {
            vstd::arithmetic::power2::lemma_pow2_adds((7 * k2) as nat, 7);
        }
        assert(r < pow2((7 * k2 + 7) as nat)) by (nonlinear_arith)
            requires
                r2 == r / 128,
                r2 < pow2((7 * k2) as nat),
                pow2((7 * k2 + 7) as nat) == pow2((7 * k2) as nat) * 128,
        ;
        assert((7 * cb.len()) as nat == (7 * k2 + 7) as nat);
        if k2 > 1 {
            assert(pow2((7 * k2) as nat) == pow2((7 * (k2 - 1)) as nat) * 128) by {
                vstd::arithmetic::power2::lemma_pow2_adds((7 * (k2 - 1)) as nat, 7);
            }
            assert(pow2((7 * k2) as nat) <= r) by (nonlinear_arith)
                requires
                    r2 == r / 128,
                    pow2((7 * (k2 - 1)) as nat) <= r2,
                    pow2((7 * k2) as nat) == pow2((7 * (k2 - 1)) as nat) * 128,
            ;
        }
        assert forall|j: int| 0 <= j < cb.len() - 1 implies cb[j] >= 128 by {
            if j > 0 {
                assert(cb[j] == cb2[j - 1]);
            }
        }
        assert(cb[cb.len() - 1] == cb2[k2 - 1]);
    }
}

/// The encoding is the shortest form: one byte below the prefix maximum; otherwise the
/// prefix byte and the fewest seven-bit groups `k` that hold the rest (`value - max < 128^k`,
/// and `k` is least such), every group but the last with its high bit set.
pub proof fn lemma_encoding_is_shortest(value: nat, prefix_size: u8)
    requires
        valid_prefix_size(prefix_size),
    ensures
        value < prefix_max(prefix_size) ==> encoding(value, prefix_size).len() == 1,
        value >= prefix_max(prefix_size) ==> {
            let k = (encoding(value, prefix_size).len() - 1) as nat;
            let r = (value - prefix_max(prefix_size)) as nat;
            &&& k >= 1
            &&& r < pow2(7 * k)
            &&& k == 1 || pow2((7 * (k - 1)) as nat) <= r
            &&& forall|j: int|
                1 <= j < encoding(value, prefix_size).len() - 1 ==> encoding(value, prefix_size)[j]
                    >= 128
            &&& encoding(value, prefix_size)[encoding(value, prefix_size).len() - 1] < 128
        },
{
    if value >= prefix_max(prefix_size) {
        let r = (value - prefix_max(prefix_size)) as nat;
        lemma_continuation_shape(r);
        let cb = continuation_bytes(r);
        let e = encoding(value, prefix_size);
        assert(e == seq![prefix_max(prefix_size) as u8] + cb);
        assert forall|j: int| 1 <= j < e.len() - 1 implies e[j] >= 128 by {
            assert(e[j] == cb[j - 1]);
        }
        assert(e[e.len() - 1] == cb[cb.len() - 1]);
    }
}

/// The first byte of an encoding holds at most the prefix maximum.
pub proof fn lemma_encoding_first_byte(value: nat, prefix_size: u8)
    requires
        valid_prefix_size(prefix_size),
    ensures
        encoding(value, prefix_size).len() > 0,
        encoding(value, prefix_size)[0] as nat <= prefix_max(prefix_size),
        encoding(value, prefix_size)[0] <= (u8::MAX >> ((8 - prefix_size) as u8)),
{
    lemma_prefix_mask(0, prefix_size);
}

} // verus!
