//! The Huffman code read back: decoding what `encode` produced gives the input again.
//!
//! The code of RFC 7541 Appendix B is canonical: codes of each length are consecutive
//! values, assigned in symbol order, and each length's first code follows the codes of
//! the shorter lengths.  That makes it prefix-free, which is what the decoder relies on.
use vstd::prelude::*;
use vstd::arithmetic::power2::pow2;
use crate::bitseq::{
    bits_to_bytes, bits_value, byte_bits, lemma_bits_of_len, lemma_bits_of_value,
    lemma_value_bound, lemma_value_concat, lemma_value_of_bits, ones, bits_of,
};
use crate::huffman::{
    code_bits, decode_bits, encoded_bits, huffman_bytes, huffman_code, huffman_decoding,
    huffman_encoding, lemma_code_bounds, padding_len, symbol_with_code, symbol_with_code_from,
    DecodeState, HuffmanError, EOS,
};

verus! {

/// The first code value of each length in the canonical code.
pub open spec fn first_code(len: u8) -> nat {
    match len {
        0 => 0,
        1 => 0,
        2 => 0,
        3 => 0,
        4 => 0,
        5 => 0,
        6 => 20,
        7 => 92,
        8 => 248,
        9 => 508,
        10 => 1016,
        11 => 2042,
        12 => 4090,
        13 => 8184,
        14 => 16380,
        15 => 32764,
        16 => 65534,
        17 => 131068,
        18 => 262136,
        19 => 524272,
        20 => 1048550,
        21 => 2097116,
        22 => 4194258,
        23 => 8388568,
        24 => 16777194,
        25 => 33554412,
        26 => 67108832,
        27 => 134217694,
        28 => 268435426,
        29 => 536870910,
        30 => 1073741820,
        _ => 0,
    }
}

pub open spec fn code_count(len: u8) -> nat {
    match len {
        0 => 0,
        1 => 0,
        2 => 0,
        3 => 0,
        4 => 0,
        5 => 10,
        6 => 26,
        7 => 32,
        8 => 6,
        9 => 0,
        10 => 5,
        11 => 3,
        12 => 2,
        13 => 6,
        14 => 2,
        15 => 3,
        16 => 0,
        17 => 0,
        18 => 0,
        19 => 3,
        20 => 8,
        21 => 13,
        22 => 26,
        23 => 29,
        24 => 12,
        25 => 4,
        26 => 15,
        27 => 19,
        28 => 29,
        29 => 0,
        30 => 4,
        _ => 0,
    }
}

pub open spec fn code_offset(len: u8) -> nat {
    match len {
        0 => 0,
        1 => 0,
        2 => 0,
        3 => 0,
        4 => 0,
        5 => 0,
        6 => 10,
        7 => 36,
        8 => 68,
        9 => 74,
        10 => 74,
        11 => 79,
        12 => 82,
        13 => 84,
        14 => 90,
        15 => 92,
        16 => 95,
        17 => 95,
        18 => 95,
        19 => 95,
        20 => 98,
        21 => 106,
        22 => 119,
        23 => 145,
        24 => 174,
        25 => 186,
        26 => 190,
        27 => 205,
        28 => 224,
        29 => 253,
        30 => 253,
        _ => 0,
    }
}

pub open spec fn symbol_in_code_order(i: u16) -> u16 {
    match i {
        0 => 48,
        1 => 49,
        2 => 50,
        3 => 97,
        4 => 99,
        5 => 101,
        6 => 105,
        7 => 111,
        8 => 115,
        9 => 116,
        10 => 32,
        11 => 37,
        12 => 45,
        13 => 46,
        14 => 47,
        15 => 51,
        16 => 52,
        17 => 53,
        18 => 54,
        19 => 55,
        20 => 56,
        21 => 57,
        22 => 61,
        23 => 65,
        24 => 95,
        25 => 98,
        26 => 100,
        27 => 102,
        28 => 103,
        29 => 104,
        30 => 108,
        31 => 109,
        32 => 110,
        33 => 112,
        34 => 114,
        35 => 117,
        36 => 58,
        37 => 66,
        38 => 67,
        39 => 68,
        40 => 69,
        41 => 70,
        42 => 71,
        43 => 72,
        44 => 73,
        45 => 74,
        46 => 75,
        47 => 76,
        48 => 77,
        49 => 78,
        50 => 79,
        51 => 80,
        52 => 81,
        53 => 82,
        54 => 83,
        55 => 84,
        56 => 85,
        57 => 86,
        58 => 87,
        59 => 89,
        60 => 106,
        61 => 107,
        62 => 113,
        63 => 118,
        64 => 119,
        65 => 120,
        66 => 121,
        67 => 122,
        68 => 38,
        69 => 42,
        70 => 44,
        71 => 59,
        72 => 88,
        73 => 90,
        74 => 33,
        75 => 34,
        76 => 40,
        77 => 41,
        78 => 63,
        79 => 39,
        80 => 43,
        81 => 124,
        82 => 35,
        83 => 62,
        84 => 0,
        85 => 36,
        86 => 64,
        87 => 91,
        88 => 93,
        89 => 126,
        90 => 94,
        91 => 125,
        92 => 60,
        93 => 96,
        94 => 123,
        95 => 92,
        96 => 195,
        97 => 208,
        98 => 128,
        99 => 130,
        100 => 131,
        101 => 162,
        102 => 184,
        103 => 194,
        104 => 224,
        105 => 226,
        106 => 153,
        107 => 161,
        108 => 167,
        109 => 172,
        110 => 176,
        111 => 177,
        112 => 179,
        113 => 209,
        114 => 216,
        115 => 217,
        116 => 227,
        117 => 229,
        118 => 230,
        119 => 129,
        120 => 132,
        121 => 133,
        122 => 134,
        123 => 136,
        124 => 146,
        125 => 154,
        126 => 156,
        127 => 160,
        128 => 163,
        129 => 164,
        130 => 169,
        131 => 170,
        132 => 173,
        133 => 178,
        134 => 181,
        135 => 185,
        136 => 186,
        137 => 187,
        138 => 189,
        139 => 190,
        140 => 196,
        141 => 198,
        142 => 228,
        143 => 232,
        144 => 233,
        145 => 1,
        146 => 135,
        147 => 137,
        148 => 138,
        149 => 139,
        150 => 140,
        151 => 141,
        152 => 143,
        153 => 147,
        154 => 149,
        155 => 150,
        156 => 151,
        157 => 152,
        158 => 155,
        159 => 157,
        160 => 158,
        161 => 165,
        162 => 166,
        163 => 168,
        164 => 174,
        165 => 175,
        166 => 180,
        167 => 182,
        168 => 183,
        169 => 188,
        170 => 191,
        171 => 197,
        172 => 231,
        173 => 239,
        174 => 9,
        175 => 142,
        176 => 144,
        177 => 145,
        178 => 148,
        179 => 159,
        180 => 171,
        181 => 206,
        182 => 215,
        183 => 225,
        184 => 236,
        185 => 237,
        186 => 199,
        187 => 207,
        188 => 234,
        189 => 235,
        190 => 192,
        191 => 193,
        192 => 200,
        193 => 201,
        194 => 202,
        195 => 205,
        196 => 210,
        197 => 213,
        198 => 218,
        199 => 219,
        200 => 238,
        201 => 240,
        202 => 242,
        203 => 243,
        204 => 255,
        205 => 203,
        206 => 204,
        207 => 211,
        208 => 212,
        209 => 214,
        210 => 221,
        211 => 222,
        212 => 223,
        213 => 241,
        214 => 244,
        215 => 245,
        216 => 246,
        217 => 247,
        218 => 248,
        219 => 250,
        220 => 251,
        221 => 252,
        222 => 253,
        223 => 254,
        224 => 2,
        225 => 3,
        226 => 4,
        227 => 5,
        228 => 6,
        229 => 7,
        230 => 8,
        231 => 11,
        232 => 12,
        233 => 14,
        234 => 15,
        235 => 16,
        236 => 17,
        237 => 18,
        238 => 19,
        239 => 20,
        240 => 21,
        241 => 23,
        242 => 24,
        243 => 25,
        244 => 26,
        245 => 27,
        246 => 28,
        247 => 29,
        248 => 30,
        249 => 31,
        250 => 127,
        251 => 220,
        252 => 249,
        253 => 10,
        254 => 13,
        255 => 22,
        _ => 256,
    }
}


/// Each symbol's code lies in its length's range, and its position within that range
/// names the symbol in code order.
proof fn lemma_canonical(s: u16)
    requires
        s <= 256,
    ensures
        first_code(huffman_code(s).1) <= huffman_code(s).0 as nat,
        (huffman_code(s).0 as nat) < first_code(huffman_code(s).1) + code_count(huffman_code(s).1),
        symbol_in_code_order(
            (code_offset(huffman_code(s).1) + huffman_code(s).0 - first_code(huffman_code(s).1)) as u16,
        ) == s,
{
}

/// The first code of each length follows the codes of the length before.
proof fn lemma_first_code_step(len: u8)
    requires
        len < 30,
    ensures
        first_code((len + 1) as u8) == 2 * (first_code(len) + code_count(len)),
{
}

/// Any code longer than `k` bits, cut to its first `k` bits, is past every code of
/// length `k`.
proof fn lemma_prefix_past_codes(k: u8, l: u8)
    requires
        1 <= k < l <= 30,
    ensures
        first_code(l) / pow2((l - k) as nat) >= first_code(k) + code_count(k),
    decreases l - k,
{
    let l1 = (l - 1) as u8;
    lemma_first_code_step(l1);
    vstd::arithmetic::power2::lemma_pow2_unfold((l - k) as nat);
    vstd::arithmetic::power2::lemma_pow2_pos((l1 - k) as nat);
    vstd::arithmetic::div_mod::lemma_div_denominator(
        first_code(l) as int,
        2,
        pow2((l1 - k) as nat) as int,
    );
    assert(first_code(l) / 2 == first_code(l1) + code_count(l1));
    if l1 > k {
        lemma_prefix_past_codes(k, l1);
        vstd::arithmetic::div_mod::lemma_div_is_ordered(
            first_code(l1) as int,
            (first_code(l1) + code_count(l1)) as int,
            pow2((l1 - k) as nat) as int,
        );
    } else {
        vstd::arithmetic::power2::lemma2_to64();
    }
}

/// No symbol has a code of length `len` outside that length's range.
proof fn lemma_no_symbol_outside(len: u8, value: nat, from: nat)
    requires
        value < first_code(len) || value >= first_code(len) + code_count(len),
    ensures
        symbol_with_code_from(len as nat, value, from) is None,
    decreases 257 - from,
{
    if from <= 256 {
        lemma_canonical(from as u16);
        lemma_no_symbol_outside(len, value, from + 1);
    }
}

/// Searching from `from <= s` for the code of `s` finds `s`.
proof fn lemma_symbol_found_from(s: u16, from: nat)
    requires
        s <= 256,
        from <= s,
    ensures
        symbol_with_code_from(huffman_code(s).1 as nat, huffman_code(s).0 as nat, from) == Some(s),
    decreases s - from,
{
    lemma_canonical(s);
    if from < s {
        lemma_canonical(from as u16);
        lemma_symbol_found_from(s, from + 1);
    }
}

/// The decoder's state after a complete code.
pub open spec fn resting(output: Seq<u8>) -> DecodeState {
    DecodeState { output, pending_len: 0, pending_value: 0, pending_all_ones: true }
}

/// Whether every bit is a one.
pub open spec fn all_set(bits: Seq<bool>) -> bool {
    forall|i: int| 0 <= i < bits.len() ==> #[trigger] bits[i]
}

proof fn lemma_decode_prefix_dependence(b1: Seq<bool>, b2: Seq<bool>, n: nat)
    requires
        n <= b1.len(),
        n <= b2.len(),
        b1.take(n as int) == b2.take(n as int),
    ensures
        decode_bits(b1, n) == decode_bits(b2, n),
    decreases n,
{
    if n > 0 {
        assert(b1.take(n - 1) == b1.take(n as int).take(n - 1));
        assert(b2.take(n - 1) == b2.take(n as int).take(n - 1));
        lemma_decode_prefix_dependence(b1, b2, (n - 1) as nat);
        assert(b1[n - 1] == b1.take(n as int)[n - 1]);
        assert(b2[n - 1] == b2.take(n as int)[n - 1]);
    }
}

/// Reading part of a code: after `j` of its bits, nothing is emitted and the pending
/// bits are the first `j` bits of the code.
proof fn lemma_decode_code_partial(
    bits: Seq<bool>,
    start: nat,
    s: u16,
    output: Seq<u8>,
    j: nat,
)
    requires
        s < 256,
        j < huffman_code(s).1,
        start + huffman_code(s).1 <= bits.len(),
        bits.subrange(start as int, (start + huffman_code(s).1) as int) == code_bits(s),
        decode_bits(bits, start) == Ok::<DecodeState, HuffmanError>(resting(output)),
    ensures
        decode_bits(bits, start + j) == Ok::<DecodeState, HuffmanError>(
            DecodeState {
                output,
                pending_len: j,
                pending_value: bits_value(code_bits(s).take(j as int)),
                pending_all_ones: all_set(code_bits(s).take(j as int)),
            },
        ),
    decreases j,
{
    let c = huffman_code(s).0 as nat;
    let l = huffman_code(s).1;
    let cb = code_bits(s);
    lemma_bits_of_len(c, l as nat);
    if j == 0 {
        assert(cb.take(0) =~= seq![]);
    } else {
        let j1 = (j - 1) as nat;
        lemma_decode_code_partial(bits, start, s, output, j1);
        let bit = bits[(start + j1) as int];
        assert(bit == cb[j1 as int]);
        assert(cb.take(j as int).drop_last() =~= cb.take(j1 as int));
        assert(cb.take(j as int).last() == bit);
        let v = bits_value(cb.take(j as int));
        // the first j bits of the code are the code shifted right
        lemma_code_bounds(s);
        lemma_canonical(s);
        assert(cb =~= cb.take(j as int) + cb.skip(j as int));
        lemma_value_concat(cb.take(j as int), cb.skip(j as int));
        lemma_value_bound(cb.skip(j as int));
        lemma_value_of_bits(c, l as nat);
        vstd::arithmetic::div_mod::lemma_small_mod(c, pow2(l as nat));
        vstd::arithmetic::power2::lemma_pow2_pos((l - j) as nat);
        vstd::arithmetic::div_mod::lemma_fundamental_div_mod_converse(
            c as int,
            pow2((l - j) as nat) as int,
            v as int,
            bits_value(cb.skip(j as int)) as int,
        );
        assert(v == c / pow2((l - j) as nat));
        lemma_prefix_past_codes(j as u8, l);
        vstd::arithmetic::div_mod::lemma_div_is_ordered(
            first_code(l) as int,
            c as int,
            pow2((l - j) as nat) as int,
        );
        lemma_no_symbol_outside(j as u8, v, 0);
        assert(all_set(cb.take(j as int)) == (all_set(cb.take(j1 as int)) && bit));
    }
}

/// Reading a whole code emits its symbol and leaves nothing pending.
proof fn lemma_decode_code(bits: Seq<bool>, start: nat, s: u16, output: Seq<u8>)
    requires
        s < 256,
        start + huffman_code(s).1 <= bits.len(),
        bits.subrange(start as int, (start + huffman_code(s).1) as int) == code_bits(s),
        decode_bits(bits, start) == Ok::<DecodeState, HuffmanError>(resting(output)),
    ensures
        decode_bits(bits, (start + huffman_code(s).1) as nat) == Ok::<DecodeState, HuffmanError>(
            resting(output.push(s as u8)),
        ),
{
    let c = huffman_code(s).0 as nat;
    let l = huffman_code(s).1 as nat;
    let cb = code_bits(s);
    lemma_code_bounds(s);
    lemma_bits_of_len(c, l);
    let l1 = (l - 1) as nat;
    lemma_decode_code_partial(bits, start, s, output, l1);
    assert(cb.take(l as int) =~= cb);
    assert(cb.take(l as int).drop_last() =~= cb.take(l1 as int));
    assert(bits[(start + l1) as int] == cb[l1 as int]);
    lemma_value_of_bits(c, l);
    vstd::arithmetic::div_mod::lemma_small_mod(c, pow2(l));
    lemma_symbol_found_from(s, 0);
}

/// Reading the concatenated codes of `x` emits `x`.
proof fn lemma_decode_encoded(bits: Seq<bool>, x: Seq<u8>)
    requires
        encoded_bits(x).len() <= bits.len(),
        bits.take(encoded_bits(x).len() as int) == encoded_bits(x),
    ensures
        decode_bits(bits, encoded_bits(x).len()) == Ok::<DecodeState, HuffmanError>(resting(x)),
    decreases x.len(),
{
    if x.len() == 0 {
        assert(x =~= seq![]);
    } else {
        let x1 = x.drop_last();
        let s = x.last() as u16;
        let e1 = encoded_bits(x1);
        let cb = code_bits(s);
        lemma_code_bounds(s);
        lemma_bits_of_len(huffman_code(s).0 as nat, huffman_code(s).1 as nat);
        assert(encoded_bits(x) == e1 + cb);
        assert(bits.take(e1.len() as int) =~= e1) by {
            assert(bits.take(e1.len() as int) =~= bits.take(encoded_bits(x).len() as int).take(
                e1.len() as int,
            ));
        }
        lemma_decode_encoded(bits, x1);
        assert(bits.subrange(e1.len() as int, (e1.len() + cb.len()) as int) =~= cb) by {
            assert(bits.subrange(e1.len() as int, (e1.len() + cb.len()) as int) =~= bits.take(
                encoded_bits(x).len() as int,
            ).subrange(e1.len() as int, (e1.len() + cb.len()) as int));
        }
        lemma_decode_code(bits, e1.len(), s, x1);
        assert(x1.push(s as u8) =~= x);
    }
}

/// Reading up to seven one bits after complete codes emits nothing.
proof fn lemma_decode_padding(bits: Seq<bool>, base: nat, output: Seq<u8>, p: nat)
    requires
        p <= 7,
        base + p <= bits.len(),
        bits.subrange(base as int, (base + p) as int) == ones(p),
        decode_bits(bits, base) == Ok::<DecodeState, HuffmanError>(resting(output)),
    ensures
        decode_bits(bits, (base + p) as nat) == Ok::<DecodeState, HuffmanError>(
            DecodeState {
                output,
                pending_len: p,
                pending_value: (pow2(p) - 1) as nat,
                pending_all_ones: true,
            },
        ),
    decreases p,
{
    vstd::arithmetic::power2::lemma2_to64();
    if p > 0 {
        let p1 = (p - 1) as nat;
        assert(bits.subrange(base as int, (base + p1) as int) =~= ones(p1)) by {
            assert(bits.subrange(base as int, (base + p1) as int) =~= bits.subrange(
                base as int,
                ((base + p) as int) as int,
            ).take(p1 as int));
        }
        lemma_decode_padding(bits, base, output, p1);
        assert(bits[(base + p1) as int] == bits.subrange(base as int, (base + p) as int)[p1 as int]);
        lemma_no_symbol_outside(p as u8, (pow2(p) - 1) as nat, 0);
    }
}

proof fn lemma_bytes_of_bits(bits: Seq<bool>)
    requires
        bits.len() % 8 == 0,
    ensures
        byte_bits(bits_to_bytes(bits)) == bits,
        8 * bits_to_bytes(bits).len() == bits.len(),
    decreases bits.len(),
{
    if bits.len() == 0 {
        assert(bits =~= seq![]);
    } else {
        let head = bits.take(bits.len() - 8);
        let last = bits.skip(bits.len() - 8);
        lemma_bytes_of_bits(head);
        lemma_value_bound(last);
        vstd::arithmetic::power2::lemma2_to64();
        let b = bits_value(last) as u8;
        lemma_bits_of_value(last);
        crate::bitseq::lemma_byte_bits_push(bits_to_bytes(head), b);
        assert(bits_to_bytes(bits) == bits_to_bytes(head).push(b));
        assert(bits =~= head + last);
    }
}

/// Decoding the Huffman encoding of any byte string gives the byte string back.
pub proof fn lemma_huffman_roundtrip(x: Seq<u8>)
    ensures
        huffman_decoding(huffman_bytes(x)) == Ok::<Seq<u8>, HuffmanError>(x),
{
    let e = encoded_bits(x);
    let p = padding_len(e.len());
    let h = huffman_encoding(x);
    assert(h == e + ones(p));
    assert(h.len() % 8 == 0);
    lemma_bytes_of_bits(h);
    let bytes = huffman_bytes(x);
    assert(byte_bits(bytes) == h);
    assert(h.take(e.len() as int) =~= e);
    lemma_decode_encoded(h, x);
    assert(h.subrange(e.len() as int, (e.len() + p) as int) =~= ones(p));
    lemma_decode_padding(h, e.len(), x, p);
    assert(8 * bytes.len() == (e.len() + p) as int);
}

/// A symbol found by its code has that code.
proof fn lemma_symbol_with_code_found(len: nat, value: nat, from: nat)
    ensures
        symbol_with_code_from(len, value, from) matches Some(s) ==> s <= EOS
            && huffman_code(s).1 as nat == len && huffman_code(s).0 as nat == value,
    decreases 257 - from,
{
    if from <= 256 {
        lemma_symbol_with_code_found(len, value, from + 1);
    }
}

/// What the decoder has read of the first `n` bits: the codes of the bytes it emitted,
/// then the bits pending since the last complete code.
proof fn lemma_decoded_prefix(bits: Seq<bool>, n: nat) -> (pending: Seq<bool>)
    requires
        n <= bits.len(),
        decode_bits(bits, n) is Ok,
    ensures
        pending.len() == decode_bits(bits, n)->Ok_0.pending_len,
        bits_value(pending) == decode_bits(bits, n)->Ok_0.pending_value,
        all_set(pending) == decode_bits(bits, n)->Ok_0.pending_all_ones,
        bits.take(n as int) == encoded_bits(decode_bits(bits, n)->Ok_0.output) + pending,
    decreases n,
{
    if n == 0 {
        assert(encoded_bits(seq![]) == Seq::<bool>::empty());
        assert(bits.take(0) =~= Seq::<bool>::empty() + Seq::<bool>::empty());
        Seq::empty()
    } else {
        let n1 = (n - 1) as nat;
        if decode_bits(bits, n1) is Err {
            assert(decode_bits(bits, n) is Err);
        }
        let before = lemma_decoded_prefix(bits, n1);
        let st = decode_bits(bits, n1)->Ok_0;
        let b = bits[n1 as int];
        let grown = before.push(b);
        assert(grown.drop_last() =~= before);
        assert(bits_value(grown) == 2 * st.pending_value + if b { 1nat } else { 0nat });
        assert(bits.take(n as int) =~= bits.take(n1 as int).push(b));
        let len = st.pending_len + 1;
        let value = 2 * st.pending_value + if b { 1nat } else { 0nat };
        assert(all_set(grown) == (all_set(before) && b)) by {
            if all_set(before) && b {
                assert forall|i: int| 0 <= i < grown.len() implies #[trigger] grown[i] by {
                    if i < before.len() {
                        assert(grown[i] == before[i]);
                    }
                }
            }
            if all_set(grown) {
                assert(grown[grown.len() - 1] == b);
                assert forall|i: int| 0 <= i < before.len() implies #[trigger] before[i] by {
                    assert(grown[i] == before[i]);
                }
            }
        }
        match symbol_with_code(len, value) {
            Some(sym) => {
                lemma_symbol_with_code_found(len, value, 0);
                assert(sym != EOS);
                lemma_bits_of_value(grown);
                let out = st.output.push(sym as u8);
                assert(out.drop_last() =~= st.output);
                assert((sym as u8) as u16 == sym);
                assert(code_bits(sym) == grown);
                assert(encoded_bits(out) == encoded_bits(st.output) + grown);
                assert(bits.take(n as int) =~= encoded_bits(out) + Seq::<bool>::empty());
                assert(all_set(Seq::<bool>::empty()));
                Seq::empty()
            },
            None => {
                assert(bits.take(n as int) =~= encoded_bits(st.output) + grown);
                grown
            },
        }
    }
}

/// Every input the decoder accepts is the encoding of what it decodes to: its codes, then
/// fewer than eight one bits up to the byte boundary; no other padding is accepted.
pub proof fn lemma_huffman_canonical(input: Seq<u8>)
    ensures
        huffman_decoding(input) matches Ok(output) ==> huffman_bytes(output) == input,
{
    let bits = byte_bits(input);
    crate::bitseq::lemma_byte_bits_len(input);
    let n = (8 * input.len()) as nat;
    if decode_bits(bits, n) is Ok {
        let st = decode_bits(bits, n)->Ok_0;
        if huffman_decoding(input) is Ok {
            let pending = lemma_decoded_prefix(bits, n);
            assert(bits.take(n as int) =~= bits);
            let e = encoded_bits(st.output);
            assert(pending =~= ones(pending.len())) by {
                if pending.len() > 0 {
                    assert forall|i: int| 0 <= i < pending.len() implies pending[i] == ones(pending.len())[i] by {
                        assert(pending[i]);
                    }
                }
            }
            assert(pending.len() <= 7);
            assert(e.len() + pending.len() == n);
            assert(pending.len() == padding_len(e.len()));
            assert(huffman_encoding(st.output) == bits);
            crate::bitseq::lemma_bits_to_bytes_of_bytes(input);
        }
    }
}

} // verus!
