use qpack::varint::{decode, encode, VarIntError};

// RFC 7541 C.1.1: encoding 10 with 5-bit prefix
#[test]
fn decode_10_prefix_5() {
    let (value, rest) = decode(&[0b000_01010], 5).unwrap();
    assert_eq!(value, 10);
    assert!(rest.is_empty());
}

// RFC 7541 C.1.2: encoding 1337 with 5-bit prefix
#[test]
fn decode_1337_prefix_5() {
    let (value, rest) = decode(&[0b000_11111, 0b10011010, 0b00001010], 5).unwrap();
    assert_eq!(value, 1337);
    assert!(rest.is_empty());
}

// RFC 7541 C.1.3: encoding 42 with 8-bit prefix
#[test]
fn decode_42_prefix_8() {
    let (value, rest) = decode(&[42], 8).unwrap();
    assert_eq!(value, 42);
    assert!(rest.is_empty());
}

// High bits in first byte should be ignored
#[test]
fn decode_ignores_high_bits() {
    let (value, rest) = decode(&[0b111_01010], 5).unwrap();
    assert_eq!(value, 10);
    assert!(rest.is_empty());
}

// Trailing bytes should be returned unconsumed
#[test]
fn decode_returns_remainder() {
    let (value, rest) = decode(&[10, 0xAA, 0xBB], 8).unwrap();
    assert_eq!(value, 10);
    assert_eq!(rest, &[0xAA, 0xBB]);
}

#[test]
fn varint_decode_empty_input() {
    assert_eq!(decode(&[], 5), Err(VarIntError::UnexpectedEnd));
}

#[test]
fn decode_truncated_continuation() {
    // Prefix bits all set (needs continuation) but no more bytes
    assert_eq!(decode(&[0b000_11111], 5), Err(VarIntError::UnexpectedEnd));
}

// RFC 7541 C.1.1: encoding 10 with 5-bit prefix
#[test]
fn encode_10_prefix_5() {
    assert_eq!(encode(10, 5), vec![0b0_1010]);
}

// RFC 7541 C.1.2: encoding 1337 with 5-bit prefix
#[test]
fn encode_1337_prefix_5() {
    assert_eq!(encode(1337, 5), vec![0b1_1111, 0b1001_1010, 0b0000_1010]);
}

// RFC 7541 C.1.3: encoding 42 with 8-bit prefix
#[test]
fn encode_42_prefix_8() {
    assert_eq!(encode(42, 8), vec![42]);
}

#[test]
fn roundtrip_small() {
    for n in [1, 5, 7, 8] {
        for value in 0..300 {
            let encoded = encode(value, n);
            let (decoded, rest) = decode(&encoded, n).unwrap();
            assert_eq!(decoded, value, "prefix_size={n}, value={value}");
            assert!(rest.is_empty());
        }
    }
}

#[test]
fn roundtrip_large() {
    for &value in &[
        0,
        1,
        126,
        127,
        128,
        255,
        256,
        16383,
        16384,
        1_000_000,
        usize::MAX >> 1,
    ] {
        let encoded = encode(value, 5);
        let (decoded, rest) = decode(&encoded, 5).unwrap();
        assert_eq!(decoded, value);
        assert!(rest.is_empty());
    }
}

#[test]
fn roundtrip_usize_max() {
    for n in 1..=8 {
        let encoded = encode(usize::MAX, n);
        let (decoded, rest) = decode(&encoded, n).unwrap();
        assert_eq!(decoded, usize::MAX);
        assert!(rest.is_empty());
    }
}

#[test]
fn decode_overflowing_continuation() {
    // Eleven continuation bytes with the high bit set push the shift past the width of usize.
    let mut bytes = vec![0x1f];
    bytes.extend(std::iter::repeat(0xff).take(11));
    bytes.push(0x01);
    assert_eq!(decode(&bytes, 5), Err(VarIntError::Overflow));
}

#[test]
fn decode_sum_overflow() {
    // Raising the lowest continuation group of usize::MAX pushes the sum past usize::MAX.
    let mut encoded = encode(usize::MAX, 5);
    encoded[1] = 0xff;
    assert_eq!(decode(&encoded, 5), Err(VarIntError::Overflow));
}

#[test]
fn decode_top_group_bits_beyond_the_width_overflow() {
    // The last group of usize::MAX sits at the highest shift; a 2 there carries a bit past
    // the width of usize, so the integer does not fit.
    let mut encoded = encode(usize::MAX, 5);
    let last = encoded.len() - 1;
    encoded[last] += 1;
    assert_eq!(decode(&encoded, 5), Err(VarIntError::Overflow));
}

#[test]
fn decode_group_past_sixty_four_bits_overflows() {
    // 255 + 2 * 2^63 needs sixty-five bits.
    if usize::BITS == 64 {
        let input = [0xFF, 0x80, 0x80, 0x80, 0x80, 0x80, 0x80, 0x80, 0x80, 0x80, 0x02];
        assert_eq!(decode(&input, 8), Err(VarIntError::Overflow));
    }
}

#[test]
fn encoding_takes_the_fewest_groups() {
    assert_eq!(encode(126, 7), vec![126]);
    assert_eq!(encode(127, 7), vec![127, 0]);
    assert_eq!(encode(127 + 127, 7), vec![127, 127]);
    assert_eq!(encode(127 + 128, 7), vec![127, 0x80, 0x01]);
    assert_eq!(encode(127 + 16383, 7), vec![127, 0xFF, 0x7F]);
    assert_eq!(encode(127 + 16384, 7), vec![127, 0x80, 0x80, 0x01]);
}
