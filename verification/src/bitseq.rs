//! Bit strings, most significant bit first, and their numeric values.
use vstd::prelude::*;
use vstd::arithmetic::power2::pow2;

verus! {

/// The low `len` bits of `value`, most significant first.
pub open spec fn bits_of(value: nat, len: nat) -> Seq<bool>
    decreases len,
{
    if len == 0 {
        seq![]
    } else {
        bits_of(value / 2, (len - 1) as nat).push(value % 2 == 1)
    }
}

/// The number a bit string denotes, most significant bit first.
pub open spec fn bits_value(bits: Seq<bool>) -> nat
    decreases bits.len(),
{
    if bits.len() == 0 {
        0
    } else {
        2 * bits_value(bits.drop_last()) + if bits.last() {
            1nat
        } else {
            0nat
        }
    }
}

/// The bits of a byte string, each byte most significant bit first.
pub open spec fn byte_bits(bytes: Seq<u8>) -> Seq<bool>
    decreases bytes.len(),
{
    if bytes.len() == 0 {
        seq![]
    } else {
        byte_bits(bytes.drop_last()) + bits_of(bytes.last() as nat, 8)
    }
}

/// A run of `len` one bits.
pub open spec fn ones(len: nat) -> Seq<bool> {
    Seq::new(len, |i: int| true)
}

pub proof fn lemma_bits_of_len(value: nat, len: nat)
    ensures
        bits_of(value, len).len() == len,
    decreases len,
{
    if len > 0 {
        lemma_bits_of_len(value / 2, (len - 1) as nat);
    }
}

pub proof fn lemma_value_bound(bits: Seq<bool>)
    ensures
        bits_value(bits) < pow2(bits.len()),
    decreases bits.len(),
{
    if bits.len() > 0 {
        lemma_value_bound(bits.drop_last());
        vstd::arithmetic::power2::lemma_pow2_unfold(bits.len());
    } else {
        vstd::arithmetic::power2::lemma2_to64();
    }
}

pub proof fn lemma_value_of_bits(value: nat, len: nat)
    ensures
        bits_value(bits_of(value, len)) == value % pow2(len),
    decreases len,
{
    lemma_bits_of_len(value, len);
    if len == 0 {
        vstd::arithmetic::power2::lemma2_to64();
    } else {
        let l1 = (len - 1) as nat;
        lemma_value_of_bits(value / 2, l1);
        assert(bits_of(value, len).drop_last() == bits_of(value / 2, l1));
        vstd::arithmetic::power2::lemma_pow2_unfold(len);
        vstd::arithmetic::power2::lemma_pow2_pos(l1);
        let p = pow2(l1);
        // value % (2p) == 2 * ((value / 2) % p) + value % 2
        assert(value % (2 * p) == 2 * ((value / 2) % p) + value % 2) by (nonlinear_arith)
            requires
                p > 0,
        {
            vstd::arithmetic::div_mod::lemma_mod_breakdown(value as int, 2, p as int);
        }
    }
}

pub proof fn lemma_bits_of_value(bits: Seq<bool>)
    ensures
        bits_of(bits_value(bits), bits.len()) == bits,
    decreases bits.len(),
{
    if bits.len() > 0 {
        let v = bits_value(bits);
        let d = bits.drop_last();
        lemma_bits_of_value(d);
        assert(v / 2 == bits_value(d));
        assert((v % 2 == 1) == bits.last());
        assert(bits_of(v, bits.len()) == bits_of(bits_value(d), d.len()).push(bits.last()));
        assert(bits == d.push(bits.last()));
    } else {
        assert(bits =~= seq![]);
    }
}

pub proof fn lemma_value_concat(a: Seq<bool>, b: Seq<bool>)
    ensures
        bits_value(a + b) == bits_value(a) * pow2(b.len()) + bits_value(b),
    decreases b.len(),
{
    if b.len() == 0 {
        assert(a + b =~= a);
        vstd::arithmetic::power2::lemma2_to64();
    } else {
        let b1 = b.drop_last();
        lemma_value_concat(a, b1);
        assert((a + b).drop_last() =~= a + b1);
        assert((a + b).last() == b.last());
        vstd::arithmetic::power2::lemma_pow2_unfold(b.len());
        let x = bits_value(a);
        let p = pow2(b1.len());
        assert(2 * (x * p + bits_value(b1)) == x * (2 * p) + 2 * bits_value(b1)) by (nonlinear_arith);
        assert(pow2(b.len()) == 2 * p);
        assert(bits_value(b) == 2 * bits_value(b1) + if b.last() { 1nat } else { 0nat });
        assert(bits_value(a + b) == 2 * bits_value(a + b1) + if b.last() { 1nat } else { 0nat });
    }
}

pub proof fn lemma_byte_bits_len(bytes: Seq<u8>)
    ensures
        byte_bits(bytes).len() == 8 * bytes.len(),
    decreases bytes.len(),
{
    if bytes.len() > 0 {
        lemma_byte_bits_len(bytes.drop_last());
        lemma_bits_of_len(bytes.last() as nat, 8);
    }
}

pub proof fn lemma_byte_bits_push(bytes: Seq<u8>, b: u8)
    ensures
        byte_bits(bytes.push(b)) == byte_bits(bytes) + bits_of(b as nat, 8),
{
    assert(bytes.push(b).drop_last() =~= bytes);
}

/// The bit at position `j` of `bits_of(value, len)` is bit `len - 1 - j` of `value`.
pub proof fn lemma_bits_of_index(value: nat, len: nat, j: nat)
    requires
        j < len,
    ensures
        bits_of(value, len)[j as int] == ((value / pow2((len - 1 - j) as nat)) % 2 == 1),
    decreases len,
{
    lemma_bits_of_len(value, len);
    let l1 = (len - 1) as nat;
    lemma_bits_of_len(value / 2, l1);
    if j == l1 {
        vstd::arithmetic::power2::lemma2_to64();
        assert(value / 1 == value);
    } else {
        lemma_bits_of_index(value / 2, l1, j);
        lemma_bits_of_len(value / 2, l1);
        let k = (l1 - 1 - j) as nat;
        vstd::arithmetic::power2::lemma_pow2_unfold((len - 1 - j) as nat);
        vstd::arithmetic::power2::lemma_pow2_pos(k);
        vstd::arithmetic::div_mod::lemma_div_denominator(value as int, 2, pow2(k) as int);
        assert(bits_of(value, len)[j as int] == bits_of(value / 2, l1)[j as int]);
        assert(value / 2 / pow2(k) == value / pow2((len - 1 - j) as nat));
    }
}

/// Bit `i` of a byte string is bit `i % 8` (most significant first) of byte `i / 8`.
pub proof fn lemma_byte_bits_index(bytes: Seq<u8>, i: nat)
    requires
        i < 8 * bytes.len(),
    ensures
        byte_bits(bytes).len() == 8 * bytes.len(),
        byte_bits(bytes)[i as int] == bits_of(bytes[(i / 8) as int] as nat, 8)[(i % 8) as int],
    decreases bytes.len(),
{
    lemma_byte_bits_len(bytes);
    let d = bytes.drop_last();
    lemma_byte_bits_len(d);
    lemma_bits_of_len(bytes.last() as nat, 8);
    if i < 8 * d.len() {
        lemma_byte_bits_index(d, i);
    }
}


/// The bytes whose bits are `bits` (whose length is a multiple of eight).
pub open spec fn bits_to_bytes(bits: Seq<bool>) -> Seq<u8>
    decreases bits.len(),
{
    if bits.len() < 8 {
        seq![]
    } else {
        bits_to_bytes(bits.take(bits.len() - 8)).push(
            bits_value(bits.skip(bits.len() - 8)) as u8,
        )
    }
}

/// Reading a byte string's bits back gives the byte string.
pub proof fn lemma_bits_to_bytes_of_bytes(bytes: Seq<u8>)
    ensures
        bits_to_bytes(byte_bits(bytes)) == bytes,
    decreases bytes.len(),
{
    if bytes.len() == 0 {
        assert(bytes =~= seq![]);
    } else {
        let d = bytes.drop_last();
        let b = byte_bits(bytes);
        lemma_byte_bits_len(bytes);
        lemma_byte_bits_len(d);
        lemma_bits_of_len(bytes.last() as nat, 8);
        assert(b.take(b.len() - 8) =~= byte_bits(d));
        assert(b.skip(b.len() - 8) =~= bits_of(bytes.last() as nat, 8));
        lemma_value_of_bits(bytes.last() as nat, 8);
        vstd::arithmetic::power2::lemma2_to64();
        vstd::arithmetic::div_mod::lemma_small_mod(bytes.last() as nat, 256);
        lemma_bits_to_bytes_of_bytes(d);
        assert(bytes =~= d.push(bytes.last()));
    }
}

} // verus!
