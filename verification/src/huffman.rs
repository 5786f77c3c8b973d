//! Huffman coding of string literals (RFC 7541 §5.2 and Appendix B).
use vstd::prelude::*;
use vstd::arithmetic::power2::pow2;
use crate::bitseq::{
    bits_to_bytes, bits_of, bits_value, byte_bits, lemma_bits_of_len, lemma_bits_of_value, lemma_byte_bits_len,
    lemma_byte_bits_push, lemma_value_bound, lemma_value_concat, lemma_value_of_bits, ones,
};

verus! {

/// Errors that can occur during Huffman decoding.
#[derive(Debug, PartialEq, Eq, Clone, Copy)]
pub enum HuffmanError {
    /// The encoded data contained the EOS symbol, which must not
    /// appear in the encoded stream (RFC 7541 §5.2).
    EosInStream,
    /// Padding bits were not all ones, as required by RFC 7541 §5.2.
    InvalidPadding,
    /// Padding was longer than 7 bits, indicating a full unused byte
    /// which is not permitted (RFC 7541 §5.2).
    PaddingTooLong,
}

/// The symbol that marks the end of a string; it must never appear in encoded data.
pub const EOS: u16 = 256;

/// The RFC 7541 Appendix B code of each symbol (0-255 are bytes, 256 is EOS):
/// the code's value and its length in bits.
pub open spec fn huffman_code(sym: u16) -> (u32, u8) {
    match sym {
        0 => (0x1ff8, 13),
        1 => (0x7fffd8, 23),
        2 => (0xfffffe2, 28),
        3 => (0xfffffe3, 28),
        4 => (0xfffffe4, 28),
        5 => (0xfffffe5, 28),
        6 => (0xfffffe6, 28),
        7 => (0xfffffe7, 28),
        8 => (0xfffffe8, 28),
        9 => (0xffffea, 24),
        10 => (0x3ffffffc, 30),
        11 => (0xfffffe9, 28),
        12 => (0xfffffea, 28),
        13 => (0x3ffffffd, 30),
        14 => (0xfffffeb, 28),
        15 => (0xfffffec, 28),
        16 => (0xfffffed, 28),
        17 => (0xfffffee, 28),
        18 => (0xfffffef, 28),
        19 => (0xffffff0, 28),
        20 => (0xffffff1, 28),
        21 => (0xffffff2, 28),
        22 => (0x3ffffffe, 30),
        23 => (0xffffff3, 28),
        24 => (0xffffff4, 28),
        25 => (0xffffff5, 28),
        26 => (0xffffff6, 28),
        27 => (0xffffff7, 28),
        28 => (0xffffff8, 28),
        29 => (0xffffff9, 28),
        30 => (0xffffffa, 28),
        31 => (0xffffffb, 28),
        32 => (0x14, 6),
        33 => (0x3f8, 10),
        34 => (0x3f9, 10),
        35 => (0xffa, 12),
        36 => (0x1ff9, 13),
        37 => (0x15, 6),
        38 => (0xf8, 8),
        39 => (0x7fa, 11),
        40 => (0x3fa, 10),
        41 => (0x3fb, 10),
        42 => (0xf9, 8),
        43 => (0x7fb, 11),
        44 => (0xfa, 8),
        45 => (0x16, 6),
        46 => (0x17, 6),
        47 => (0x18, 6),
        48 => (0x0, 5),
        49 => (0x1, 5),
        50 => (0x2, 5),
        51 => (0x19, 6),
        52 => (0x1a, 6),
        53 => (0x1b, 6),
        54 => (0x1c, 6),
        55 => (0x1d, 6),
        56 => (0x1e, 6),
        57 => (0x1f, 6),
        58 => (0x5c, 7),
        59 => (0xfb, 8),
        60 => (0x7ffc, 15),
        61 => (0x20, 6),
        62 => (0xffb, 12),
        63 => (0x3fc, 10),
        64 => (0x1ffa, 13),
        65 => (0x21, 6),
        66 => (0x5d, 7),
        67 => (0x5e, 7),
        68 => (0x5f, 7),
        69 => (0x60, 7),
        70 => (0x61, 7),
        71 => (0x62, 7),
        72 => (0x63, 7),
        73 => (0x64, 7),
        74 => (0x65, 7),
        75 => (0x66, 7),
        76 => (0x67, 7),
        77 => (0x68, 7),
        78 => (0x69, 7),
        79 => (0x6a, 7),
        80 => (0x6b, 7),
        81 => (0x6c, 7),
        82 => (0x6d, 7),
        83 => (0x6e, 7),
        84 => (0x6f, 7),
        85 => (0x70, 7),
        86 => (0x71, 7),
        87 => (0x72, 7),
        88 => (0xfc, 8),
        89 => (0x73, 7),
        90 => (0xfd, 8),
        91 => (0x1ffb, 13),
        92 => (0x7fff0, 19),
        93 => (0x1ffc, 13),
        94 => (0x3ffc, 14),
        95 => (0x22, 6),
        96 => (0x7ffd, 15),
        97 => (0x3, 5),
        98 => (0x23, 6),
        99 => (0x4, 5),
        100 => (0x24, 6),
        101 => (0x5, 5),
        102 => (0x25, 6),
        103 => (0x26, 6),
        104 => (0x27, 6),
        105 => (0x6, 5),
        106 => (0x74, 7),
        107 => (0x75, 7),
        108 => (0x28, 6),
        109 => (0x29, 6),
        110 => (0x2a, 6),
        111 => (0x7, 5),
        112 => (0x2b, 6),
        113 => (0x76, 7),
        114 => (0x2c, 6),
        115 => (0x8, 5),
        116 => (0x9, 5),
        117 => (0x2d, 6),
        118 => (0x77, 7),
        119 => (0x78, 7),
        120 => (0x79, 7),
        121 => (0x7a, 7),
        122 => (0x7b, 7),
        123 => (0x7ffe, 15),
        124 => (0x7fc, 11),
        125 => (0x3ffd, 14),
        126 => (0x1ffd, 13),
        127 => (0xffffffc, 28),
        128 => (0xfffe6, 20),
        129 => (0x3fffd2, 22),
        130 => (0xfffe7, 20),
        131 => (0xfffe8, 20),
        132 => (0x3fffd3, 22),
        133 => (0x3fffd4, 22),
        134 => (0x3fffd5, 22),
        135 => (0x7fffd9, 23),
        136 => (0x3fffd6, 22),
        137 => (0x7fffda, 23),
        138 => (0x7fffdb, 23),
        139 => (0x7fffdc, 23),
        140 => (0x7fffdd, 23),
        141 => (0x7fffde, 23),
        142 => (0xffffeb, 24),
        143 => (0x7fffdf, 23),
        144 => (0xffffec, 24),
        145 => (0xffffed, 24),
        146 => (0x3fffd7, 22),
        147 => (0x7fffe0, 23),
        148 => (0xffffee, 24),
        149 => (0x7fffe1, 23),
        150 => (0x7fffe2, 23),
        151 => (0x7fffe3, 23),
        152 => (0x7fffe4, 23),
        153 => (0x1fffdc, 21),
        154 => (0x3fffd8, 22),
        155 => (0x7fffe5, 23),
        156 => (0x3fffd9, 22),
        157 => (0x7fffe6, 23),
        158 => (0x7fffe7, 23),
        159 => (0xffffef, 24),
        160 => (0x3fffda, 22),
        161 => (0x1fffdd, 21),
        162 => (0xfffe9, 20),
        163 => (0x3fffdb, 22),
        164 => (0x3fffdc, 22),
        165 => (0x7fffe8, 23),
        166 => (0x7fffe9, 23),
        167 => (0x1fffde, 21),
        168 => (0x7fffea, 23),
        169 => (0x3fffdd, 22),
        170 => (0x3fffde, 22),
        171 => (0xfffff0, 24),
        172 => (0x1fffdf, 21),
        173 => (0x3fffdf, 22),
        174 => (0x7fffeb, 23),
        175 => (0x7fffec, 23),
        176 => (0x1fffe0, 21),
        177 => (0x1fffe1, 21),
        178 => (0x3fffe0, 22),
        179 => (0x1fffe2, 21),
        180 => (0x7fffed, 23),
        181 => (0x3fffe1, 22),
        182 => (0x7fffee, 23),
        183 => (0x7fffef, 23),
        184 => (0xfffea, 20),
        185 => (0x3fffe2, 22),
        186 => (0x3fffe3, 22),
        187 => (0x3fffe4, 22),
        188 => (0x7ffff0, 23),
        189 => (0x3fffe5, 22),
        190 => (0x3fffe6, 22),
        191 => (0x7ffff1, 23),
        192 => (0x3ffffe0, 26),
        193 => (0x3ffffe1, 26),
        194 => (0xfffeb, 20),
        195 => (0x7fff1, 19),
        196 => (0x3fffe7, 22),
        197 => (0x7ffff2, 23),
        198 => (0x3fffe8, 22),
        199 => (0x1ffffec, 25),
        200 => (0x3ffffe2, 26),
        201 => (0x3ffffe3, 26),
        202 => (0x3ffffe4, 26),
        203 => (0x7ffffde, 27),
        204 => (0x7ffffdf, 27),
        205 => (0x3ffffe5, 26),
        206 => (0xfffff1, 24),
        207 => (0x1ffffed, 25),
        208 => (0x7fff2, 19),
        209 => (0x1fffe3, 21),
        210 => (0x3ffffe6, 26),
        211 => (0x7ffffe0, 27),
        212 => (0x7ffffe1, 27),
        213 => (0x3ffffe7, 26),
        214 => (0x7ffffe2, 27),
        215 => (0xfffff2, 24),
        216 => (0x1fffe4, 21),
        217 => (0x1fffe5, 21),
        218 => (0x3ffffe8, 26),
        219 => (0x3ffffe9, 26),
        220 => (0xffffffd, 28),
        221 => (0x7ffffe3, 27),
        222 => (0x7ffffe4, 27),
        223 => (0x7ffffe5, 27),
        224 => (0xfffec, 20),
        225 => (0xfffff3, 24),
        226 => (0xfffed, 20),
        227 => (0x1fffe6, 21),
        228 => (0x3fffe9, 22),
        229 => (0x1fffe7, 21),
        230 => (0x1fffe8, 21),
        231 => (0x7ffff3, 23),
        232 => (0x3fffea, 22),
        233 => (0x3fffeb, 22),
        234 => (0x1ffffee, 25),
        235 => (0x1ffffef, 25),
        236 => (0xfffff4, 24),
        237 => (0xfffff5, 24),
        238 => (0x3ffffea, 26),
        239 => (0x7ffff4, 23),
        240 => (0x3ffffeb, 26),
        241 => (0x7ffffe6, 27),
        242 => (0x3ffffec, 26),
        243 => (0x3ffffed, 26),
        244 => (0x7ffffe7, 27),
        245 => (0x7ffffe8, 27),
        246 => (0x7ffffe9, 27),
        247 => (0x7ffffea, 27),
        248 => (0x7ffffeb, 27),
        249 => (0xffffffe, 28),
        250 => (0x7ffffec, 27),
        251 => (0x7ffffed, 27),
        252 => (0x7ffffee, 27),
        253 => (0x7ffffef, 27),
        254 => (0x7fffff0, 27),
        255 => (0x3ffffee, 26),
        _ => (0x3fffffff, 30),
    }
}

/// Look up the code of a symbol.
fn code_for(sym: u16) -> (code: (u32, u8))
    ensures
        code == huffman_code(sym),
{
    match sym {
        0 => (0x1ff8, 13),
        1 => (0x7fffd8, 23),
        2 => (0xfffffe2, 28),
        3 => (0xfffffe3, 28),
        4 => (0xfffffe4, 28),
        5 => (0xfffffe5, 28),
        6 => (0xfffffe6, 28),
        7 => (0xfffffe7, 28),
        8 => (0xfffffe8, 28),
        9 => (0xffffea, 24),
        10 => (0x3ffffffc, 30),
        11 => (0xfffffe9, 28),
        12 => (0xfffffea, 28),
        13 => (0x3ffffffd, 30),
        14 => (0xfffffeb, 28),
        15 => (0xfffffec, 28),
        16 => (0xfffffed, 28),
        17 => (0xfffffee, 28),
        18 => (0xfffffef, 28),
        19 => (0xffffff0, 28),
        20 => (0xffffff1, 28),
        21 => (0xffffff2, 28),
        22 => (0x3ffffffe, 30),
        23 => (0xffffff3, 28),
        24 => (0xffffff4, 28),
        25 => (0xffffff5, 28),
        26 => (0xffffff6, 28),
        27 => (0xffffff7, 28),
        28 => (0xffffff8, 28),
        29 => (0xffffff9, 28),
        30 => (0xffffffa, 28),
        31 => (0xffffffb, 28),
        32 => (0x14, 6),
        33 => (0x3f8, 10),
        34 => (0x3f9, 10),
        35 => (0xffa, 12),
        36 => (0x1ff9, 13),
        37 => (0x15, 6),
        38 => (0xf8, 8),
        39 => (0x7fa, 11),
        40 => (0x3fa, 10),
        41 => (0x3fb, 10),
        42 => (0xf9, 8),
        43 => (0x7fb, 11),
        44 => (0xfa, 8),
        45 => (0x16, 6),
        46 => (0x17, 6),
        47 => (0x18, 6),
        48 => (0x0, 5),
        49 => (0x1, 5),
        50 => (0x2, 5),
        51 => (0x19, 6),
        52 => (0x1a, 6),
        53 => (0x1b, 6),
        54 => (0x1c, 6),
        55 => (0x1d, 6),
        56 => (0x1e, 6),
        57 => (0x1f, 6),
        58 => (0x5c, 7),
        59 => (0xfb, 8),
        60 => (0x7ffc, 15),
        61 => (0x20, 6),
        62 => (0xffb, 12),
        63 => (0x3fc, 10),
        64 => (0x1ffa, 13),
        65 => (0x21, 6),
        66 => (0x5d, 7),
        67 => (0x5e, 7),
        68 => (0x5f, 7),
        69 => (0x60, 7),
        70 => (0x61, 7),
        71 => (0x62, 7),
        72 => (0x63, 7),
        73 => (0x64, 7),
        74 => (0x65, 7),
        75 => (0x66, 7),
        76 => (0x67, 7),
        77 => (0x68, 7),
        78 => (0x69, 7),
        79 => (0x6a, 7),
        80 => (0x6b, 7),
        81 => (0x6c, 7),
        82 => (0x6d, 7),
        83 => (0x6e, 7),
        84 => (0x6f, 7),
        85 => (0x70, 7),
        86 => (0x71, 7),
        87 => (0x72, 7),
        88 => (0xfc, 8),
        89 => (0x73, 7),
        90 => (0xfd, 8),
        91 => (0x1ffb, 13),
        92 => (0x7fff0, 19),
        93 => (0x1ffc, 13),
        94 => (0x3ffc, 14),
        95 => (0x22, 6),
        96 => (0x7ffd, 15),
        97 => (0x3, 5),
        98 => (0x23, 6),
        99 => (0x4, 5),
        100 => (0x24, 6),
        101 => (0x5, 5),
        102 => (0x25, 6),
        103 => (0x26, 6),
        104 => (0x27, 6),
        105 => (0x6, 5),
        106 => (0x74, 7),
        107 => (0x75, 7),
        108 => (0x28, 6),
        109 => (0x29, 6),
        110 => (0x2a, 6),
        111 => (0x7, 5),
        112 => (0x2b, 6),
        113 => (0x76, 7),
        114 => (0x2c, 6),
        115 => (0x8, 5),
        116 => (0x9, 5),
        117 => (0x2d, 6),
        118 => (0x77, 7),
        119 => (0x78, 7),
        120 => (0x79, 7),
        121 => (0x7a, 7),
        122 => (0x7b, 7),
        123 => (0x7ffe, 15),
        124 => (0x7fc, 11),
        125 => (0x3ffd, 14),
        126 => (0x1ffd, 13),
        127 => (0xffffffc, 28),
        128 => (0xfffe6, 20),
        129 => (0x3fffd2, 22),
        130 => (0xfffe7, 20),
        131 => (0xfffe8, 20),
        132 => (0x3fffd3, 22),
        133 => (0x3fffd4, 22),
        134 => (0x3fffd5, 22),
        135 => (0x7fffd9, 23),
        136 => (0x3fffd6, 22),
        137 => (0x7fffda, 23),
        138 => (0x7fffdb, 23),
        139 => (0x7fffdc, 23),
        140 => (0x7fffdd, 23),
        141 => (0x7fffde, 23),
        142 => (0xffffeb, 24),
        143 => (0x7fffdf, 23),
        144 => (0xffffec, 24),
        145 => (0xffffed, 24),
        146 => (0x3fffd7, 22),
        147 => (0x7fffe0, 23),
        148 => (0xffffee, 24),
        149 => (0x7fffe1, 23),
        150 => (0x7fffe2, 23),
        151 => (0x7fffe3, 23),
        152 => (0x7fffe4, 23),
        153 => (0x1fffdc, 21),
        154 => (0x3fffd8, 22),
        155 => (0x7fffe5, 23),
        156 => (0x3fffd9, 22),
        157 => (0x7fffe6, 23),
        158 => (0x7fffe7, 23),
        159 => (0xffffef, 24),
        160 => (0x3fffda, 22),
        161 => (0x1fffdd, 21),
        162 => (0xfffe9, 20),
        163 => (0x3fffdb, 22),
        164 => (0x3fffdc, 22),
        165 => (0x7fffe8, 23),
        166 => (0x7fffe9, 23),
        167 => (0x1fffde, 21),
        168 => (0x7fffea, 23),
        169 => (0x3fffdd, 22),
        170 => (0x3fffde, 22),
        171 => (0xfffff0, 24),
        172 => (0x1fffdf, 21),
        173 => (0x3fffdf, 22),
        174 => (0x7fffeb, 23),
        175 => (0x7fffec, 23),
        176 => (0x1fffe0, 21),
        177 => (0x1fffe1, 21),
        178 => (0x3fffe0, 22),
        179 => (0x1fffe2, 21),
        180 => (0x7fffed, 23),
        181 => (0x3fffe1, 22),
        182 => (0x7fffee, 23),
        183 => (0x7fffef, 23),
        184 => (0xfffea, 20),
        185 => (0x3fffe2, 22),
        186 => (0x3fffe3, 22),
        187 => (0x3fffe4, 22),
        188 => (0x7ffff0, 23),
        189 => (0x3fffe5, 22),
        190 => (0x3fffe6, 22),
        191 => (0x7ffff1, 23),
        192 => (0x3ffffe0, 26),
        193 => (0x3ffffe1, 26),
        194 => (0xfffeb, 20),
        195 => (0x7fff1, 19),
        196 => (0x3fffe7, 22),
        197 => (0x7ffff2, 23),
        198 => (0x3fffe8, 22),
        199 => (0x1ffffec, 25),
        200 => (0x3ffffe2, 26),
        201 => (0x3ffffe3, 26),
        202 => (0x3ffffe4, 26),
        203 => (0x7ffffde, 27),
        204 => (0x7ffffdf, 27),
        205 => (0x3ffffe5, 26),
        206 => (0xfffff1, 24),
        207 => (0x1ffffed, 25),
        208 => (0x7fff2, 19),
        209 => (0x1fffe3, 21),
        210 => (0x3ffffe6, 26),
        211 => (0x7ffffe0, 27),
        212 => (0x7ffffe1, 27),
        213 => (0x3ffffe7, 26),
        214 => (0x7ffffe2, 27),
        215 => (0xfffff2, 24),
        216 => (0x1fffe4, 21),
        217 => (0x1fffe5, 21),
        218 => (0x3ffffe8, 26),
        219 => (0x3ffffe9, 26),
        220 => (0xffffffd, 28),
        221 => (0x7ffffe3, 27),
        222 => (0x7ffffe4, 27),
        223 => (0x7ffffe5, 27),
        224 => (0xfffec, 20),
        225 => (0xfffff3, 24),
        226 => (0xfffed, 20),
        227 => (0x1fffe6, 21),
        228 => (0x3fffe9, 22),
        229 => (0x1fffe7, 21),
        230 => (0x1fffe8, 21),
        231 => (0x7ffff3, 23),
        232 => (0x3fffea, 22),
        233 => (0x3fffeb, 22),
        234 => (0x1ffffee, 25),
        235 => (0x1ffffef, 25),
        236 => (0xfffff4, 24),
        237 => (0xfffff5, 24),
        238 => (0x3ffffea, 26),
        239 => (0x7ffff4, 23),
        240 => (0x3ffffeb, 26),
        241 => (0x7ffffe6, 27),
        242 => (0x3ffffec, 26),
        243 => (0x3ffffed, 26),
        244 => (0x7ffffe7, 27),
        245 => (0x7ffffe8, 27),
        246 => (0x7ffffe9, 27),
        247 => (0x7ffffea, 27),
        248 => (0x7ffffeb, 27),
        249 => (0xffffffe, 28),
        250 => (0x7ffffec, 27),
        251 => (0x7ffffed, 27),
        252 => (0x7ffffee, 27),
        253 => (0x7ffffef, 27),
        254 => (0x7fffff0, 27),
        255 => (0x3ffffee, 26),
        _ => (0x3fffffff, 30),
    }
}

/// Every code is between 5 and 30 bits long and its value fits in its length.
pub proof fn lemma_code_bounds(sym: u16)
    requires
        sym <= EOS,
    ensures
        5 <= huffman_code(sym).1 <= 30,
        (huffman_code(sym).0 as nat) < pow2(huffman_code(sym).1 as nat),
{
    vstd::arithmetic::power2::lemma2_to64();
}

/// The bits of the code of a symbol, most significant first.
pub open spec fn code_bits(sym: u16) -> Seq<bool> {
    bits_of(huffman_code(sym).0 as nat, huffman_code(sym).1 as nat)
}

/// The concatenated codes of a byte string, without padding.
pub open spec fn encoded_bits(input: Seq<u8>) -> Seq<bool>
    decreases input.len(),
{
    if input.len() == 0 {
        seq![]
    } else {
        encoded_bits(input.drop_last()) + code_bits(input.last() as u16)
    }
}

/// Number of one bits that pad `n` bits out to a whole byte.
pub open spec fn padding_len(n: nat) -> nat {
    ((8 - n % 8) % 8) as nat
}

/// The bits of the Huffman encoding of `input`: the concatenated codes followed by the
/// most significant bits of EOS (all ones) up to the next byte boundary.
pub open spec fn huffman_encoding(input: Seq<u8>) -> Seq<bool> {
    encoded_bits(input) + ones(padding_len(encoded_bits(input).len()))
}


proof fn lemma_ones_value(n: nat)
    ensures
        bits_value(ones(n)) + 1 == pow2(n),
    decreases n,
{
    if n == 0 {
        vstd::arithmetic::power2::lemma2_to64();
    } else {
        lemma_ones_value((n - 1) as nat);
        assert(ones(n).drop_last() =~= ones((n - 1) as nat));
        vstd::arithmetic::power2::lemma_pow2_unfold(n);
    }
}

proof fn lemma_pow2_u64(k: nat)
    requires
        k < 64,
    ensures
        (1u64 << (k as u64)) as nat == pow2(k),
        pow2(k) <= u64::MAX,
{
    vstd::arithmetic::power2::lemma_pow2_pos(k);
    vstd::bits::lemma_u64_pow2_no_overflow(k);
    vstd::bits::lemma_u64_shl_is_mul(1, k as u64);
}

/// Appending a code of `len` bits to `pending` bits that sit at the top of the accumulator.
proof fn lemma_append_code(acc: u64, p: nat, used: nat, code: u64, len: nat)
    requires
        used < 8,
        5 <= len <= 30,
        p < pow2(used),
        (code as nat) < pow2(len),
        acc as nat == p * pow2((64 - used) as nat),
    ensures
        (acc | (code << ((64 - used - len) as u64))) as nat == (p * pow2(len) + code) * pow2(
            (64 - used - len) as nat,
        ),
{
    let k = (64 - used - len) as nat;
    let m = (64 - used) as nat;
    vstd::arithmetic::power2::lemma_pow2_adds(len, k);
    vstd::arithmetic::power2::lemma_pow2_pos(k);
    vstd::arithmetic::power2::lemma_pow2_pos(len);
    vstd::arithmetic::power2::lemma_pow2_adds(used, m);
    vstd::arithmetic::power2::lemma2_to64();
    vstd::arithmetic::power2::lemma2_to64_rest();
    assert(code * pow2(k) < pow2(m)) by (nonlinear_arith)
        requires
            (code as nat) < pow2(len),
            pow2(m) == pow2(len) * pow2(k),
            pow2(k) > 0,
    ;
    lemma_pow2_u64(k);
    vstd::bits::lemma_u64_shl_is_mul(code, k as u64);
    let y = code << (k as u64);
    assert(y as nat == code * pow2(k));
    assert(p * pow2(m) == (p * pow2(len)) * pow2(k)) by (nonlinear_arith)
        requires
            pow2(m) == pow2(len) * pow2(k),
    ;
    if used == 0 {
        assert(p == 0);
        assert(acc == 0);
        assert(0u64 | y == y) by (bit_vector);
    } else {
        lemma_pow2_u64(m);
        assert(p * pow2(m) < pow2(used) * pow2(m)) by (nonlinear_arith)
            requires
                p < pow2(used),
                pow2(m) > 0,
        ;
        let pu: u64 = p as u64;
        vstd::bits::lemma_u64_shl_is_mul(pu, m as u64);
        vstd::bits::lemma_u64_shr_is_div(acc, m as u64);
        vstd::arithmetic::div_mod::lemma_div_by_multiple(p as int, pow2(m) as int);
        let mm = m as u64;
        assert(acc == pu << mm);
        assert(mm < 64 && y < (1u64 << mm) ==> (pu << mm) & y == 0) by (bit_vector);
        assert((pu << mm) & y == 0 ==> ((pu << mm) | y) as int == (pu << mm) as int + y as int) by (bit_vector);
        assert(acc as nat + y as nat <= u64::MAX);
    }
    assert((p * pow2(len) + code) * pow2(k) == (p * pow2(len)) * pow2(k) + code * pow2(k))
        by (nonlinear_arith);
}


/// Splitting the top eight pending bits off into a byte.
proof fn lemma_emit_byte(acc: u64, pending: Seq<bool>)
    requires
        8 <= pending.len() <= 64,
        acc as nat == bits_value(pending) * pow2((64 - pending.len()) as nat),
    ensures
        (acc >> 56u64) as nat == bits_value(pending.take(8)),
        bits_value(pending.take(8)) < 256,
        bits_of(bits_value(pending.take(8)), 8) == pending.take(8),
        (acc << 8u64) as nat == bits_value(pending.skip(8)) * pow2(
            (64 - (pending.len() - 8)) as nat,
        ),
{
    let u = pending.len();
    let a = (64 - u) as nat;
    let b = (u - 8) as nat;
    let top = pending.take(8);
    let low = pending.skip(8);
    assert(pending == top + low);
    lemma_value_concat(top, low);
    lemma_value_bound(low);
    lemma_value_bound(top);
    lemma_bits_of_value(top);
    let p = bits_value(pending);
    let vt = bits_value(top);
    let vl = bits_value(low);
    vstd::arithmetic::power2::lemma_pow2_pos(a);
    vstd::arithmetic::power2::lemma_pow2_pos(b);
    vstd::arithmetic::power2::lemma_pow2_adds(a, b);
    vstd::arithmetic::power2::lemma_pow2_adds(a, 8);
    vstd::arithmetic::power2::lemma2_to64();
    // acc >> 56
    vstd::bits::lemma_u64_shr_is_div(acc, 56);
    assert(p == vt * pow2(b) + vl);
    vstd::arithmetic::div_mod::lemma_fundamental_div_mod_converse(
        p as int,
        pow2(b) as int,
        vt as int,
        vl as int,
    );
    vstd::arithmetic::div_mod::lemma_div_denominator(
        (p * pow2(a)) as int,
        pow2(a) as int,
        pow2(b) as int,
    );
    vstd::arithmetic::div_mod::lemma_div_by_multiple(p as int, pow2(a) as int);
    assert(pow2(56) == pow2(a) * pow2(b));
    assert((p * pow2(a)) / pow2(56) == vt);
    // acc << 8 drops the top byte
    assert((acc << 8u64) as int == (acc as int % 0x100000000000000) * 256) by (bit_vector);
    vstd::arithmetic::div_mod::lemma_mod_breakdown((p * pow2(a)) as int, pow2(a) as int, pow2(b) as int);
    vstd::arithmetic::div_mod::lemma_mod_multiples_basic(p as int, pow2(a) as int);
    assert(p % pow2(b) == vl);
    assert((p * pow2(a)) / pow2(a) == p);
    assert((p * pow2(a)) % pow2(a) == 0);
    assert((p * pow2(a)) % (pow2(a) * pow2(b)) == pow2(a) * vl);
    assert((p * pow2(a)) % pow2(56) == pow2(a) * vl);
    vstd::arithmetic::power2::lemma2_to64_rest();
    assert(pow2(56) == 0x100000000000000);
    assert(acc as int % 0x100000000000000 == pow2(a) * vl);
    assert(pow2((64 - (u - 8)) as nat) == pow2(a) * pow2(8));
    assert(pow2(a) * vl * 256 == vl * pow2((64 - (u - 8)) as nat)) by (nonlinear_arith)
        requires
            pow2((64 - (u - 8)) as nat) == pow2(a) * pow2(8),
            pow2(8) == 256,
    ;
}

/// Padding the last partial byte with the most significant bits of EOS (all ones).
proof fn lemma_pad_last(acc: u64, pending: Seq<bool>)
    requires
        1 <= pending.len() <= 7,
        acc as nat == bits_value(pending) * pow2((64 - pending.len()) as nat),
    ensures
        ((acc | (0xffu64 << ((56 - pending.len()) as u64))) >> 56u64) as nat == bits_value(
            pending + ones((8 - pending.len()) as nat),
        ),
        bits_value(pending + ones((8 - pending.len()) as nat)) < 256,
{
    let u = pending.len();
    let n = (8 - u) as nat;
    let p = bits_value(pending);
    lemma_value_bound(pending);
    lemma_value_concat(pending, ones(n));
    lemma_ones_value(n);
    lemma_value_bound(pending + ones(n));
    vstd::arithmetic::power2::lemma2_to64();
    lemma_pow2_u64(u);
    lemma_pow2_u64(n);
    lemma_pow2_u64((64 - u) as nat);
    assert(p * pow2((64 - u) as nat) <= u64::MAX) by {
        vstd::arithmetic::power2::lemma_pow2_adds(u, (64 - u) as nat);
        vstd::arithmetic::power2::lemma2_to64_rest();
        vstd::arithmetic::mul::lemma_mul_inequality(p as int, (pow2(u) - 1) as int, pow2((64 - u) as nat) as int);
    }
    let pu = p as u64;
    let uu = u as u64;
    vstd::bits::lemma_u64_shl_is_mul(pu, (64 - u) as u64);
    vstd::bits::lemma_u64_shl_is_mul(pu, n as u64);
    assert(acc == pu << ((64 - u) as u64));
    assert(1 <= uu <= 7 && pu < (1u64 << uu) ==> (((pu << ((64 - uu) as u64)) | (0xffu64 << ((56
        - uu) as u64))) >> 56u64) == (pu << ((8 - uu) as u64)) + ((1u64 << ((8 - uu) as u64)) - 1))
        by (bit_vector);
    assert(pu as nat * pow2(n) < pow2(8)) by {
        vstd::arithmetic::power2::lemma_pow2_adds(u, n);
        vstd::arithmetic::mul::lemma_mul_inequality(p as int, (pow2(u) - 1) as int, pow2(n) as int);
    }
}

/// The bytes of the Huffman encoding of `input`.
pub open spec fn huffman_bytes(input: Seq<u8>) -> Seq<u8> {
    bits_to_bytes(huffman_encoding(input))
}

/// Huffman-encode a byte string per RFC 7541 §5.2.
pub fn encode(input: &[u8]) -> (output: Vec<u8>)
    ensures
        byte_bits(output@) == huffman_encoding(input@),
        output@ == huffman_bytes(input@),
{
    let mut output: Vec<u8> = Vec::with_capacity(input.len());
    let mut accumulator: u64 = 0;
    let mut bits_used: u8 = 0;
    let ghost mut pending: Seq<bool> = seq![];
    let mut i: usize = 0;
    proof {
        vstd::arithmetic::power2::lemma2_to64();
        assert(input@.take(0) =~= seq![]);
        assert(bits_value(pending) == 0);
    }
    while i < input.len()
        invariant
            0 <= i <= input@.len(),
            encoded_bits(input@.take(i as int)) == byte_bits(output@) + pending,
            pending.len() == bits_used,
            bits_used < 8,
            accumulator as nat == bits_value(pending) * pow2((64 - bits_used) as nat),
        decreases input@.len() - i,
    {
        let byte = input[i];
        let (code, bit_length) = code_for(byte as u16);
        proof {
            lemma_code_bounds(byte as u16);
            lemma_value_bound(pending);
            lemma_append_code(
                accumulator,
                bits_value(pending),
                bits_used as nat,
                code as u64,
                bit_length as nat,
            );
            lemma_bits_of_len(code as nat, bit_length as nat);
            lemma_value_concat(pending, code_bits(byte as u16));
            lemma_value_of_bits(code as nat, bit_length as nat);
            vstd::arithmetic::div_mod::lemma_small_mod(code as nat, pow2(bit_length as nat));
            assert(input@.take(i + 1).drop_last() =~= input@.take(i as int));
        }
        accumulator = accumulator | ((code as u64) << (64 - bits_used - bit_length));
        bits_used = bits_used + bit_length;
        proof {
            pending = pending + code_bits(byte as u16);
        }
        while bits_used >= 8
            invariant
                0 <= i < input@.len(),
                encoded_bits(input@.take(i + 1)) == byte_bits(output@) + pending,
                pending.len() == bits_used,
                bits_used <= 37,
                accumulator as nat == bits_value(pending) * pow2((64 - bits_used) as nat),
            decreases bits_used,
        {
            proof {
                lemma_emit_byte(accumulator, pending);
                lemma_byte_bits_push(output@, (accumulator >> 56u64) as u8);
                assert(pending =~= pending.take(8) + pending.skip(8));
            }
            output.push((accumulator >> 56) as u8);
            accumulator = accumulator << 8;
            bits_used = bits_used - 8;
            proof {
                pending = pending.skip(8);
            }
        }
        i = i + 1;
    }
    assert(input@.take(input@.len() as int) =~= input@);
    proof {
        lemma_byte_bits_len(output@);
    }
    if bits_used > 0 {
        proof {
            lemma_pad_last(accumulator, pending);
            lemma_bits_of_value(pending + ones((8 - bits_used) as nat));
            lemma_byte_bits_push(output@, ((accumulator | (0xffu64 << ((56 - bits_used) as u64))) >> 56u64) as u8);
        }
        accumulator = accumulator | (0xFF_u64 << (56 - bits_used));
        output.push((accumulator >> 56) as u8);
    } else {
        assert(ones(0) =~= seq![]);
    }
    assert(byte_bits(output@) == huffman_encoding(input@));
    proof {
        crate::bitseq::lemma_bits_to_bytes_of_bytes(output@);
    }
    output
}


/// The lowest symbol at or after `from` whose code is `value` in `len` bits, if any.
pub open spec fn symbol_with_code_from(len: nat, value: nat, from: nat) -> Option<u16>
    decreases 257 - from,
{
    if from > 256 {
        None
    } else if huffman_code(from as u16).1 as nat == len && huffman_code(from as u16).0 as nat
        == value {
        Some(from as u16)
    } else {
        symbol_with_code_from(len, value, from + 1)
    }
}

/// The symbol whose code is `value` in `len` bits, if any.
pub open spec fn symbol_with_code(len: nat, value: nat) -> Option<u16> {
    symbol_with_code_from(len, value, 0)
}

/// Decoder state between bits: the bytes decoded so far, and the bits read since the
/// last complete code (their count, their value, and whether they are all ones).
pub struct DecodeState {
    pub output: Seq<u8>,
    pub pending_len: nat,
    pub pending_value: nat,
    pub pending_all_ones: bool,
}

/// Reading one more bit.  A completed code emits its byte, or is an error for EOS.  No
/// code runs past 30 bits, so a run of 30 bits that completes no code is reported the
/// same way as EOS.
pub open spec fn decode_step(state: DecodeState, bit: bool) -> Result<DecodeState, HuffmanError> {
    let len = state.pending_len + 1;
    let value = 2 * state.pending_value + if bit {
        1nat
    } else {
        0nat
    };
    match symbol_with_code(len, value) {
        Some(sym) => if sym == EOS {
            Err(HuffmanError::EosInStream)
        } else {
            Ok(
                DecodeState {
                    output: state.output.push(sym as u8),
                    pending_len: 0,
                    pending_value: 0,
                    pending_all_ones: true,
                },
            )
        },
        None => if len >= 30 {
            Err(HuffmanError::EosInStream)
        } else {
            Ok(
                DecodeState {
                    output: state.output,
                    pending_len: len,
                    pending_value: value,
                    pending_all_ones: state.pending_all_ones && bit,
                },
            )
        },
    }
}

pub open spec fn initial_decode_state() -> DecodeState {
    DecodeState { output: seq![], pending_len: 0, pending_value: 0, pending_all_ones: true }
}

/// The decoder state after reading the first `n` bits.
pub open spec fn decode_bits(bits: Seq<bool>, n: nat) -> Result<DecodeState, HuffmanError>
    decreases n,
{
    if n == 0 {
        Ok(initial_decode_state())
    } else {
        match decode_bits(bits, (n - 1) as nat) {
            Ok(state) => decode_step(state, bits[n - 1]),
            Err(e) => Err(e),
        }
    }
}

/// Huffman decoding per RFC 7541 §5.2: every code is decoded; what follows the last
/// complete code must be at most seven bits, all ones.
pub open spec fn huffman_decoding(input: Seq<u8>) -> Result<Seq<u8>, HuffmanError> {
    match decode_bits(byte_bits(input), 8 * input.len()) {
        Err(e) => Err(e),
        Ok(state) => if state.pending_len > 7 {
            Err(HuffmanError::PaddingTooLong)
        } else if state.pending_len > 0 && !state.pending_all_ones {
            Err(HuffmanError::InvalidPadding)
        } else {
            Ok(state.output)
        },
    }
}

/// Find the symbol whose code is `value` in `len` bits.
fn find_symbol(len: u8, value: u32) -> (sym: Option<u16>)
    ensures
        sym == symbol_with_code(len as nat, value as nat),
        sym matches Some(s) ==> s <= EOS,
{
    let mut s: u16 = 0;
    while s <= EOS
        invariant
            s <= EOS + 1,
            symbol_with_code(len as nat, value as nat) == symbol_with_code_from(
                len as nat,
                value as nat,
                s as nat,
            ),
        decreases EOS + 1 - s,
    {
        let (code, code_len) = code_for(s);
        if code_len == len && code == value {
            return Some(s);
        }
        s = s + 1;
    }
    None
}

proof fn lemma_decode_error_persists(bits: Seq<bool>, m: nat, n: nat)
    requires
        m <= n,
        decode_bits(bits, m) is Err,
    ensures
        decode_bits(bits, n) == decode_bits(bits, m),
    decreases n,
{
    if n > m {
        lemma_decode_error_persists(bits, m, (n - 1) as nat);
    }
}

proof fn lemma_bit_of_byte(bytes: Seq<u8>, k: nat, bit_index: u32)
    requires
        k < bytes.len(),
        bit_index < 8,
    ensures
        byte_bits(bytes).len() == 8 * bytes.len(),
        byte_bits(bytes)[(8 * k + (7 - bit_index)) as int] == ((bytes[k as int] >> (bit_index as u8))
            & 1 == 1),
{
    let i = (8 * k + (7 - bit_index)) as nat;
    crate::bitseq::lemma_byte_bits_index(bytes, i);
    assert(i / 8 == k && i % 8 == 7 - bit_index);
    crate::bitseq::lemma_bits_of_index(bytes[k as int] as nat, 8, (7 - bit_index) as nat);
    let b = bytes[k as int];
    let bi = bit_index as u8;
    vstd::bits::lemma_u8_shr_is_div(b, bi);
    assert((b >> bi) & 1 == (b >> bi) % 2) by (bit_vector);
}

/// Huffman-decode a byte string per RFC 7541 §5.2.
pub fn decode(input: &[u8]) -> (result: Result<Vec<u8>, HuffmanError>)
    ensures
        match result {
            Ok(output) => huffman_decoding(input@) == Ok::<Seq<u8>, HuffmanError>(output@),
            Err(e) => huffman_decoding(input@) == Err::<Seq<u8>, HuffmanError>(e),
        },
{
    let mut output: Vec<u8> = Vec::with_capacity(input.len());
    let mut bits_since_leaf: u8 = 0;
    let mut value: u32 = 0;
    let mut padding_all_ones = true;
    let ghost bits = byte_bits(input@);
    proof {
        crate::bitseq::lemma_byte_bits_len(input@);
        vstd::arithmetic::power2::lemma2_to64();
    }
    let mut k: usize = 0;
    while k < input.len()
        invariant
            0 <= k <= input@.len(),
            bits == byte_bits(input@),
            bits.len() == 8 * input@.len(),
            bits_since_leaf < 30,
            (value as nat) < pow2(bits_since_leaf as nat),
            decode_bits(bits, 8 * k as nat) == Ok::<DecodeState, HuffmanError>(
                DecodeState {
                    output: output@,
                    pending_len: bits_since_leaf as nat,
                    pending_value: value as nat,
                    pending_all_ones: padding_all_ones,
                },
            ),
        decreases input@.len() - k,
    {
        let byte = input[k];
        let mut bit_index: u32 = 8;
        while bit_index > 0
            invariant
                0 <= k < input@.len(),
                byte == input@[k as int],
                bit_index <= 8,
                bits == byte_bits(input@),
                bits.len() == 8 * input@.len(),
                bits_since_leaf < 30,
                (value as nat) < pow2(bits_since_leaf as nat),
                decode_bits(bits, (8 * k + (8 - bit_index)) as nat) == Ok::<
                    DecodeState,
                    HuffmanError,
                >(
                    DecodeState {
                        output: output@,
                        pending_len: bits_since_leaf as nat,
                        pending_value: value as nat,
                        pending_all_ones: padding_all_ones,
                    },
                ),
            decreases bit_index,
        {
            bit_index = bit_index - 1;
            let is_one = (byte >> bit_index) & 1 == 1;
            proof {
                lemma_bit_of_byte(input@, k as nat, bit_index);
                vstd::arithmetic::power2::lemma_pow2_unfold((bits_since_leaf + 1) as nat);
                vstd::arithmetic::power2::lemma2_to64();
            }
            value = 2 * value + if is_one { 1 } else { 0 };
            bits_since_leaf = bits_since_leaf + 1;
            padding_all_ones = padding_all_ones && is_one;
            match find_symbol(bits_since_leaf, value) {
                Some(sym) => {
                    if sym == EOS {
                        proof {
                            lemma_decode_error_persists(
                                bits,
                                (8 * k + (8 - bit_index)) as nat,
                                8 * input@.len(),
                            );
                        }
                        return Err(HuffmanError::EosInStream);
                    }
                    output.push(sym as u8);
                    bits_since_leaf = 0;
                    value = 0;
                    padding_all_ones = true;
                },
                None => {
                    if bits_since_leaf >= 30 {
                        proof {
                            lemma_decode_error_persists(
                                bits,
                                (8 * k + (8 - bit_index)) as nat,
                                8 * input@.len(),
                            );
                        }
                        return Err(HuffmanError::EosInStream);
                    }
                },
            }
        }
        k = k + 1;
    }
    if bits_since_leaf > 7 {
        return Err(HuffmanError::PaddingTooLong);
    }
    if bits_since_leaf > 0 && !padding_all_ones {
        return Err(HuffmanError::InvalidPadding);
    }
    Ok(output)
}

} // verus!
