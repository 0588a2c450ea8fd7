use memorypack::varint::{read_varint, write_varint};
use memorypack::{MemoryPackError, MemoryPackReader, MemoryPackSerializer, MemoryPackWriter};

#[test]
fn integers_are_little_endian() {
    let mut w = MemoryPackWriter::new();
    w.write_i32(-2).unwrap();
    w.write_u16(0x1234).unwrap();
    w.write_u64(1).unwrap();
    assert_eq!(
        w.as_bytes(),
        &[0xFE, 0xFF, 0xFF, 0xFF, 0x34, 0x12, 1, 0, 0, 0, 0, 0, 0, 0][..]
    );
    let bytes = w.into_bytes();
    let mut r = MemoryPackReader::new(&bytes);
    assert_eq!(r.read_i32().unwrap(), -2);
    assert_eq!(r.read_u16().unwrap(), 0x1234);
    assert_eq!(r.read_u64().unwrap(), 1);
    assert_eq!(r.position(), 14);
}

#[test]
fn wide_integers_round_trip() {
    let mut w = MemoryPackWriter::new();
    w.write_i128(i128::MIN).unwrap();
    w.write_u128(u128::MAX - 5).unwrap();
    w.write_i64(i64::MIN).unwrap();
    w.write_i16(-300).unwrap();
    w.write_i8(-7).unwrap();
    w.write_bool(true).unwrap();
    let bytes = w.into_bytes();
    assert_eq!(bytes.len(), 16 + 16 + 8 + 2 + 1 + 1);
    let mut r = MemoryPackReader::new(&bytes);
    assert_eq!(r.read_i128().unwrap(), i128::MIN);
    assert_eq!(r.read_u128().unwrap(), u128::MAX - 5);
    assert_eq!(r.read_i64().unwrap(), i64::MIN);
    assert_eq!(r.read_i16().unwrap(), -300);
    assert_eq!(r.read_i8().unwrap(), -7);
    assert!(r.read_bool().unwrap());
}

#[test]
fn bool_is_true_only_for_one() {
    let data = [1u8, 0, 2];
    let mut r = MemoryPackReader::new(&data);
    assert!(r.read_bool().unwrap());
    assert!(!r.read_bool().unwrap());
    assert!(!r.read_bool().unwrap());
}

#[test]
fn reading_past_the_end_fails() {
    let data = [1u8, 2, 3];
    let mut r = MemoryPackReader::new(&data);
    assert!(matches!(r.read_u32(), Err(MemoryPackError::UnexpectedEndOfBuffer)));
    assert_eq!(r.position(), 0);
    assert_eq!(r.read_u16().unwrap(), 0x0201);
    assert!(matches!(r.read_u16(), Err(MemoryPackError::UnexpectedEndOfBuffer)));
}

#[test]
fn skip_and_rewind_move_the_position() {
    let data = [10u8, 20, 30, 40];
    let mut r = MemoryPackReader::new(&data);
    r.skip(3).unwrap();
    assert_eq!(r.read_u8().unwrap(), 40);
    r.rewind(2).unwrap();
    assert_eq!(r.read_u8().unwrap(), 30);
    assert!(r.skip(5).is_err());
    assert!(r.rewind(10).is_err());
    assert_eq!(r.position(), 3);
}

#[test]
fn strings_use_the_utf8_marker() {
    let mut w = MemoryPackWriter::new();
    w.write_string("abc").unwrap();
    assert_eq!(
        w.as_bytes(),
        &[0xFC, 0xFF, 0xFF, 0xFF, 3, 0, 0, 0, b'a', b'b', b'c'][..]
    );
    let mut e = MemoryPackWriter::new();
    e.write_string("").unwrap();
    assert_eq!(e.as_bytes(), &[0, 0, 0, 0][..]);
    let mut n = MemoryPackWriter::new();
    n.write_string_option(None).unwrap();
    assert_eq!(n.as_bytes(), &[0xFF, 0xFF, 0xFF, 0xFF][..]);
}

#[test]
fn utf16_length_counts_surrogate_pairs() {
    let mut w = MemoryPackWriter::new();
    w.write_string("é😀").unwrap();
    let b = w.into_bytes();
    // six UTF-8 bytes: 2 for é and 4 for the emoji, which takes two UTF-16 units
    assert_eq!(&b[0..4], &(!6i32).to_le_bytes()[..]);
    assert_eq!(&b[4..8], &3i32.to_le_bytes()[..]);
    let mut r = MemoryPackReader::new(&b);
    assert_eq!(r.read_string().unwrap(), "é😀");
}

#[test]
fn utf16_strings_are_read() {
    let text = "hé😀";
    let units: Vec<u16> = text.encode_utf16().collect();
    let mut data = (units.len() as i32).to_le_bytes().to_vec();
    for u in &units {
        data.extend_from_slice(&u.to_le_bytes());
    }
    let mut r = MemoryPackReader::new(&data);
    assert_eq!(r.read_string().unwrap(), text);
    let mut z = MemoryPackReader::new(&data);
    assert!(matches!(z.read_str(), Err(MemoryPackError::Utf16NotSupportedForZeroCopy)));
}

#[test]
fn lone_surrogate_is_refused() {
    let mut data = 1i32.to_le_bytes().to_vec();
    data.extend_from_slice(&0xD800u16.to_le_bytes());
    let mut r = MemoryPackReader::new(&data);
    assert!(r.read_string().is_err());
}

#[test]
fn invalid_utf8_is_refused() {
    let mut data = (!2i32).to_le_bytes().to_vec();
    data.extend_from_slice(&1i32.to_le_bytes());
    data.extend_from_slice(&[0xC3, 0x28]);
    let mut r = MemoryPackReader::new(&data);
    assert!(matches!(r.read_string(), Err(MemoryPackError::InvalidUtf8)));
}

#[test]
fn borrowed_str_reads_from_the_data() {
    let mut w = MemoryPackWriter::new();
    w.write_string("zero copy").unwrap();
    let b = w.into_bytes();
    let mut r = MemoryPackReader::new(&b);
    let s: &str = r.read_str().unwrap();
    assert_eq!(s, "zero copy");
}

#[test]
fn chars_are_one_utf16_unit() {
    let mut w = MemoryPackWriter::new();
    w.write_char('A').unwrap();
    w.write_char('é').unwrap();
    let b = w.into_bytes();
    assert_eq!(b, vec![0x41, 0, 0xE9, 0]);
    let mut r = MemoryPackReader::new(&b);
    assert_eq!(r.read_char().unwrap(), 'A');
    assert_eq!(r.read_char().unwrap(), 'é');
}

#[test]
fn char_outside_the_basic_plane_writes_its_high_surrogate() {
    let mut w = MemoryPackWriter::new();
    w.write_char('😀').unwrap();
    assert_eq!(w.into_bytes(), vec![0x3D, 0xD8]);
    let data = [0x3Du8, 0xD8];
    let mut r = MemoryPackReader::new(&data);
    assert!(matches!(r.read_char(), Err(MemoryPackError::DeserializationError(_))));
}

#[test]
fn bytes_are_read_raw() {
    let data = [1u8, 2, 3, 4, 5];
    let mut r = MemoryPackReader::new(&data);
    assert_eq!(r.read_bytes(2).unwrap(), &[1, 2][..]);
    assert_eq!(r.read_bytes_vec(1).unwrap(), vec![3]);
    let fixed: [u8; 2] = r.read_fixed_bytes().unwrap();
    assert_eq!(fixed, [4, 5]);
    assert!(r.read_bytes(1).is_err());
}

#[test]
fn varints_pick_the_shortest_form() {
    let cases: Vec<(i64, Vec<u8>)> = vec![
        (0, vec![0]),
        (127, vec![127]),
        (-120, vec![0x88]),
        (200, vec![0x87, 200]),
        (-121, vec![0x86, 0x87]),
        (300, vec![0x85, 0x2C, 0x01]),
        (-300, vec![0x84, 0xD4, 0xFE]),
        (70000, vec![0x83, 0x70, 0x11, 0x01, 0x00]),
        (-70000, vec![0x82, 0x90, 0xEE, 0xFE, 0xFF]),
        (1 << 40, vec![0x80, 0, 0, 0, 0, 0, 1, 0, 0]),
    ];
    for (x, expected) in cases {
        let mut w = MemoryPackWriter::new();
        write_varint(&mut w, x).unwrap();
        assert_eq!(w.as_bytes(), &expected[..], "value {}", x);
        let b = w.into_bytes();
        let mut r = MemoryPackReader::new(&b);
        assert_eq!(read_varint(&mut r).unwrap(), x);
        assert_eq!(r.position() as usize, b.len());
    }
}

#[test]
fn varint_uint64_beyond_i64_is_refused() {
    let mut data = vec![0x81u8];
    data.extend_from_slice(&u64::MAX.to_le_bytes());
    let mut r = MemoryPackReader::new(&data);
    assert!(matches!(read_varint(&mut r), Err(MemoryPackError::DeserializationError(_))));
    let mut ok = vec![0x81u8];
    ok.extend_from_slice(&5u64.to_le_bytes());
    let mut r2 = MemoryPackReader::new(&ok);
    assert_eq!(read_varint(&mut r2).unwrap(), 5);
}

#[test]
fn object_reference_ids_are_varints() {
    let mut w = MemoryPackWriter::new();
    w.write_object_reference_id(300).unwrap();
    assert_eq!(w.as_bytes(), &[250, 0x85, 0x2C, 0x01][..]);
}

#[test]
fn writer_reports_its_length() {
    let mut w = MemoryPackWriter::with_capacity(8);
    assert!(w.is_empty());
    w.write_u32(9).unwrap();
    assert_eq!(w.len(), 4);
    assert!(!w.is_empty());
    let d = MemoryPackWriter::default();
    assert_eq!(d.len(), 0);
    let s = MemoryPackWriter::new_with_state();
    assert!(s.optional_state.is_some());
}

#[test]
fn serializer_round_trips_a_number() {
    let bytes = MemoryPackSerializer::serialize(&0x0102_0304u32).unwrap();
    assert_eq!(bytes, vec![4, 3, 2, 1]);
    let back: u32 = MemoryPackSerializer::deserialize(&bytes).unwrap();
    assert_eq!(back, 0x0102_0304);
}

#[test]
fn reader_refusals_carry_their_messages() {
    let data = [0x3Du8, 0xD8];
    let mut r = MemoryPackReader::new(&data);
    assert!(matches!(r.read_char(),
        Err(MemoryPackError::DeserializationError(m)) if m == "Surrogate code unit cannot be converted to Rust char"));
    let mut big = vec![0x81u8];
    big.extend_from_slice(&u64::MAX.to_le_bytes());
    let mut r2 = MemoryPackReader::new(&big);
    assert!(matches!(read_varint(&mut r2),
        Err(MemoryPackError::DeserializationError(m)) if m == "Variable-length integer overflows i64"));
}
