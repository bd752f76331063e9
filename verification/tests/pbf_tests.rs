use vector_map::encode::encode_fixed32;
use vector_map::encode::encode_fixed64;
use vector_map::encode::encode_varint;
use vector_map::encode::zigzag_encode;
use vector_map::encode::zigzag_encode32;
use vector_map::pbf::zigzag_decode;
use vector_map::pbf::zigzag_decode32;
use vector_map::pbf::Pbf;
use vector_map::wire::PbfError;

fn concat(parts: &[Vec<u8>]) -> Vec<u8> {
    let mut out = Vec::new();
    for part in parts {
        out.extend_from_slice(part);
    }
    out
}

#[test]
fn new_cursor_stands_at_the_first_byte() {
    let p = Pbf::new(vec![1, 2, 3]);
    assert!(p.has_next());
    assert_eq!(p.remaining(), 3);
    assert_eq!(p.tag(), 0);
    assert_eq!(p.value(), 0);
}

#[test]
fn empty_cursor_has_no_next() {
    let p = Pbf::new(Vec::new());
    assert!(!p.has_next());
    assert_eq!(p.remaining(), 0);
}

#[test]
fn varint_of_300_is_two_bytes() {
    assert_eq!(encode_varint(300), vec![0xAC, 0x02]);
    let mut p = Pbf::new(vec![0xAC, 0x02, 0x07]);
    assert_eq!(p.varint32(), Ok(300));
    assert_eq!(p.remaining(), 1);
}

#[test]
fn varint_single_byte_values() {
    assert_eq!(encode_varint(0), vec![0x00]);
    assert_eq!(encode_varint(1), vec![0x01]);
    assert_eq!(encode_varint(127), vec![0x7F]);
    assert_eq!(encode_varint(128), vec![0x80, 0x01]);
}

#[test]
fn varint64_round_trips() {
    let values: [u64; 12] = [
        0,
        1,
        127,
        128,
        300,
        16383,
        16384,
        0xFFFF_FFFF,
        0x1_0000_0000,
        0x7FFF_FFFF_FFFF_FFFF,
        0x8000_0000_0000_0000,
        u64::MAX,
    ];
    for v in values {
        let mut p = Pbf::new(encode_varint(v));
        assert_eq!(p.varint64(), Ok(v));
        assert!(!p.has_next());
    }
}

#[test]
fn varint32_round_trips() {
    let values: [u32; 8] = [0, 1, 127, 128, 300, 0x7FFF_FFFF, 0x8000_0000, u32::MAX];
    for v in values {
        let mut p = Pbf::new(encode_varint(v as u64));
        assert_eq!(p.varint32(), Ok(v));
        assert!(!p.has_next());
    }
}

#[test]
fn varint64_of_ten_bytes_is_the_largest_value() {
    let bytes = vec![0xFF, 0xFF, 0xFF, 0xFF, 0xFF, 0xFF, 0xFF, 0xFF, 0xFF, 0x01];
    assert_eq!(encode_varint(u64::MAX), bytes);
    let mut p = Pbf::new(bytes);
    assert_eq!(p.varint64(), Ok(u64::MAX));
}

#[test]
fn varint64_drops_bits_beyond_the_64th() {
    let mut p = Pbf::new(vec![0x80, 0x80, 0x80, 0x80, 0x80, 0x80, 0x80, 0x80, 0x80, 0x7F]);
    assert_eq!(p.varint64(), Ok(0x8000_0000_0000_0000));
    assert!(!p.has_next());
}

#[test]
fn varint32_keeps_the_low_32_bits() {
    let mut p = Pbf::new(encode_varint(0x1_2345_6789));
    assert_eq!(p.varint32(), Ok(0x2345_6789));
    assert!(!p.has_next());
}

#[test]
fn varint_truncated_is_malformed_and_cursor_stays() {
    let mut p = Pbf::new(vec![0x80]);
    assert_eq!(p.varint32(), Err(PbfError::MalformedVarint));
    assert_eq!(p.remaining(), 1);
    assert_eq!(p.varint64(), Err(PbfError::MalformedVarint));
    assert_eq!(p.remaining(), 1);
}

#[test]
fn varint_on_empty_buffer_is_malformed() {
    let mut p = Pbf::new(Vec::new());
    assert_eq!(p.varint64(), Err(PbfError::MalformedVarint));
}

#[test]
fn varint_longer_than_ten_bytes_is_malformed() {
    let mut bytes = vec![0x80; 10];
    bytes.push(0x01);
    let mut p = Pbf::new(bytes);
    assert_eq!(p.varint64(), Err(PbfError::MalformedVarint));
    assert_eq!(p.remaining(), 11);
}

#[test]
fn zigzag_of_zero_and_minus_one() {
    assert_eq!(zigzag_encode(0), 0);
    assert_eq!(zigzag_encode(-1), 1);
    assert_eq!(zigzag_encode(1), 2);
    assert_eq!(zigzag_encode(-2), 3);
    assert_eq!(zigzag_encode32(0), 0);
    assert_eq!(zigzag_encode32(-1), 1);
    assert_eq!(zigzag_decode(0), 0);
    assert_eq!(zigzag_decode(1), -1);
    assert_eq!(zigzag_decode(2), 1);
    assert_eq!(zigzag_decode(3), -2);
}

#[test]
fn zigzag_round_trips() {
    let values: [i64; 9] = [0, -1, 1, -2, 2, 4096, -4096, i64::MAX, i64::MIN];
    for v in values {
        assert_eq!(zigzag_decode(zigzag_encode(v)), v);
    }
    let values32: [i32; 7] = [0, -1, 1, 4096, -4096, i32::MAX, i32::MIN];
    for v in values32 {
        assert_eq!(zigzag_decode32(zigzag_encode32(v)), v);
    }
    assert_eq!(zigzag_encode(i64::MIN), u64::MAX);
    assert_eq!(zigzag_encode32(i32::MIN), u32::MAX);
}

#[test]
fn svarint_reads_signed_values() {
    let values: [i32; 6] = [0, -1, 1, 150, -150, i32::MIN];
    for v in values {
        let mut p = Pbf::new(encode_varint(zigzag_encode32(v) as u64));
        assert_eq!(p.svarint32(), Ok(v));
    }
    let values64: [i64; 5] = [0, -1, 1, i64::MAX, i64::MIN];
    for v in values64 {
        let mut p = Pbf::new(encode_varint(zigzag_encode(v)));
        assert_eq!(p.svarint64(), Ok(v));
    }
}

#[test]
fn svarint_truncated_is_malformed() {
    let mut p = Pbf::new(vec![0xFF, 0xFF]);
    assert_eq!(p.svarint32(), Err(PbfError::MalformedVarint));
    assert_eq!(p.svarint64(), Err(PbfError::MalformedVarint));
    assert_eq!(p.remaining(), 2);
}

#[test]
fn fixed32_reads_most_significant_byte_first() {
    let mut p = Pbf::new(vec![0x3F, 0x80, 0x00, 0x00, 0xAA]);
    let bits = p.fixed32().unwrap();
    assert_eq!(bits, 0x3F80_0000);
    assert_eq!(f32::from_bits(bits), 1.0);
    assert_eq!(p.remaining(), 1);
}

#[test]
fn fixed64_reads_most_significant_byte_first() {
    let mut p = Pbf::new(vec![0x3F, 0xF0, 0, 0, 0, 0, 0, 0]);
    let bits = p.fixed64().unwrap();
    assert_eq!(bits, 0x3FF0_0000_0000_0000);
    assert_eq!(f64::from_bits(bits), 1.0);
    assert!(!p.has_next());
}

#[test]
fn fixed32_round_trips_every_kind_of_pattern() {
    let patterns: [u32; 8] = [
        0,
        0x8000_0000,
        f32::NAN.to_bits(),
        0x7FC0_0001,
        0xFFFF_FFFF,
        f32::INFINITY.to_bits(),
        f32::NEG_INFINITY.to_bits(),
        (-122.39f32).to_bits(),
    ];
    for bits in patterns {
        let bytes = encode_fixed32(bits);
        assert_eq!(bytes.len(), 4);
        let mut p = Pbf::new(bytes);
        let back = p.fixed32().unwrap();
        assert_eq!(back, bits);
        assert_eq!(f32::from_bits(back).to_bits(), bits);
    }
}

#[test]
fn fixed64_round_trips_every_kind_of_pattern() {
    let patterns: [u64; 7] = [
        0,
        0x8000_0000_0000_0000,
        f64::NAN.to_bits(),
        0x7FF8_0000_0000_0001,
        u64::MAX,
        f64::INFINITY.to_bits(),
        f64::NEG_INFINITY.to_bits(),
    ];
    for bits in patterns {
        let bytes = encode_fixed64(bits);
        assert_eq!(bytes.len(), 8);
        let mut p = Pbf::new(bytes);
        let back = p.fixed64().unwrap();
        assert_eq!(back, bits);
        assert_eq!(f64::from_bits(back).to_bits(), bits);
    }
}

#[test]
fn fixed_with_too_few_bytes_is_out_of_range() {
    let mut p = Pbf::new(vec![1, 2, 3]);
    assert_eq!(p.fixed32(), Err(PbfError::OutOfRange));
    assert_eq!(p.fixed64(), Err(PbfError::OutOfRange));
    assert_eq!(p.remaining(), 3);
}

#[test]
fn boolean_is_true_for_any_byte_but_zero() {
    let mut p = Pbf::new(vec![0, 1, 2, 0xFF]);
    assert_eq!(p.boolean(), Ok(false));
    assert_eq!(p.boolean(), Ok(true));
    assert_eq!(p.boolean(), Ok(true));
    assert_eq!(p.boolean(), Ok(true));
    assert_eq!(p.boolean(), Err(PbfError::OutOfRange));
}

#[test]
fn skip_bytes_moves_or_fails_whole() {
    let mut p = Pbf::new(vec![1, 2, 3, 4]);
    assert_eq!(p.skip_bytes(3), Ok(()));
    assert_eq!(p.remaining(), 1);
    assert_eq!(p.skip_bytes(2), Err(PbfError::OutOfRange));
    assert_eq!(p.remaining(), 1);
    assert_eq!(p.skip_bytes(1), Ok(()));
    assert!(!p.has_next());
    assert_eq!(p.skip_bytes(0), Ok(()));
}

#[test]
fn string_reads_utf8_text() {
    let text = "Stra\u{df}e \u{6771}\u{4eac}";
    let bytes = concat(&[encode_varint(text.len() as u64), text.as_bytes().to_vec(), vec![9]]);
    let mut p = Pbf::new(bytes);
    assert_eq!(p.string(), Ok(String::from(text)));
    assert_eq!(p.remaining(), 1);
}

#[test]
fn string_of_length_zero_is_empty() {
    let mut p = Pbf::new(vec![0]);
    assert_eq!(p.string(), Ok(String::new()));
    assert!(!p.has_next());
}

#[test]
fn string_with_invalid_utf8_is_invalid_encoding() {
    let mut p = Pbf::new(vec![2, 0xC3, 0x28]);
    assert_eq!(p.string(), Err(PbfError::InvalidEncoding));
    assert_eq!(p.remaining(), 3);
    let mut q = Pbf::new(vec![1, 0xFF]);
    assert_eq!(q.string(), Err(PbfError::InvalidEncoding));
}

#[test]
fn string_longer_than_the_buffer_is_out_of_range() {
    let mut p = Pbf::new(vec![5, b'a', b'b']);
    assert_eq!(p.string(), Err(PbfError::OutOfRange));
    assert_eq!(p.remaining(), 3);
}

#[test]
fn string_with_truncated_length_is_malformed() {
    let mut p = Pbf::new(vec![0x85]);
    assert_eq!(p.string(), Err(PbfError::MalformedVarint));
}

#[test]
fn message_is_scoped_to_its_length() {
    let mut p = Pbf::new(vec![2, 0x0A, 0x0B, 0x0C]);
    let mut inner = p.message().unwrap();
    assert_eq!(inner.remaining(), 2);
    assert_eq!(inner.tag(), 0);
    assert_eq!(inner.varint32(), Ok(0x0A));
    assert_eq!(inner.varint32(), Ok(0x0B));
    assert!(!inner.has_next());
    assert_eq!(inner.varint32(), Err(PbfError::MalformedVarint));
    assert_eq!(p.remaining(), 1);
    assert_eq!(p.varint32(), Ok(0x0C));
}

#[test]
fn message_longer_than_the_buffer_is_out_of_range() {
    let mut p = Pbf::new(vec![3, 1, 2]);
    assert!(matches!(p.message(), Err(PbfError::OutOfRange)));
    assert_eq!(p.remaining(), 3);
}

#[test]
fn next_splits_key_into_field_and_wire_type() {
    let mut p = Pbf::new(vec![0x1A, 0x00]);
    assert_eq!(p.next(), Ok(true));
    assert_eq!(p.value(), 0x1A);
    assert_eq!(p.tag(), 3);
    assert_eq!(p.value() & 7, 2);
    assert_eq!(p.remaining(), 1);
}

#[test]
fn next_at_the_end_is_false() {
    let mut p = Pbf::new(Vec::new());
    assert_eq!(p.next(), Ok(false));
    assert_eq!(p.tag(), 0);
}

#[test]
fn next_on_truncated_key_is_malformed() {
    let mut p = Pbf::new(vec![0x80, 0x80]);
    assert_eq!(p.next(), Err(PbfError::MalformedVarint));
    assert_eq!(p.remaining(), 2);
}

#[test]
fn skip_steps_over_each_wire_type() {
    let bytes = concat(&[
        vec![0x08],
        encode_varint(300),
        vec![0x11],
        vec![0; 8],
        vec![0x1A, 3, 1, 2, 3],
        vec![0x25],
        vec![0; 4],
        vec![0x28, 0x01],
    ]);
    let mut p = Pbf::new(bytes);
    for field in 1..=4u32 {
        assert_eq!(p.next(), Ok(true));
        assert_eq!(p.tag(), field);
        assert_eq!(p.skip(), Ok(()));
    }
    assert_eq!(p.next(), Ok(true));
    assert_eq!(p.tag(), 5);
    assert_eq!(p.varint32(), Ok(1));
    assert_eq!(p.next(), Ok(false));
}

#[test]
fn skip_value_of_unknown_wire_type_fails() {
    for wire in [3u32, 4, 6, 7] {
        let mut p = Pbf::new(vec![1, 2, 3, 4, 5, 6, 7, 8, 9]);
        assert_eq!(p.skip_value((1 << 3) | wire), Err(PbfError::UnknownWireType));
        assert_eq!(p.remaining(), 9);
    }
}

#[test]
fn skip_value_past_the_end_is_out_of_range() {
    let mut p = Pbf::new(vec![1, 2, 3]);
    assert_eq!(p.skip_value(1), Err(PbfError::OutOfRange));
    assert_eq!(p.skip_value(5), Err(PbfError::OutOfRange));
    assert_eq!(p.skip_value(2), Ok(()));
    assert_eq!(p.remaining(), 1);
    let mut q = Pbf::new(vec![4, 1]);
    assert_eq!(q.skip_value(2), Err(PbfError::OutOfRange));
    assert_eq!(q.remaining(), 2);
    let mut r = Pbf::new(vec![0x80]);
    assert_eq!(r.skip_value(0), Err(PbfError::MalformedVarint));
}
