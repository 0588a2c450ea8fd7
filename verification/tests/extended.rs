use memorypack::traits::extended::{
    read_bigint_parts, read_decimal_parts, twos_complement_invert, write_bigint_parts,
    write_decimal_parts, DecimalParts,
};
use memorypack::{MemoryPackError, MemoryPackReader, MemoryPackSerializer, MemoryPackWriter};
use num_bigint::{BigInt, BigUint};
use rust_decimal::Decimal;
use url::Url;
use uuid::Uuid;

#[test]
fn twos_complement_of_small_numbers() {
    let mut a = vec![1u8, 0];
    twos_complement_invert(&mut a);
    assert_eq!(a, vec![0xFF, 0xFF]);
    let mut z = vec![0u8, 0];
    twos_complement_invert(&mut z);
    assert_eq!(z, vec![0, 0]);
    let mut b = vec![0x80u8];
    twos_complement_invert(&mut b);
    assert_eq!(b, vec![0x80]);
    let mut c = vec![0x34u8, 0x12];
    twos_complement_invert(&mut c);
    assert_eq!(c, vec![0xCC, 0xED]);
    twos_complement_invert(&mut c);
    assert_eq!(c, vec![0x34, 0x12]);
}

#[test]
fn decimal_parts_wire_form() {
    let parts = DecimalParts { negative: true, scale: 2, hi: 7, mid: 1, lo: 0x3039 };
    let mut w = MemoryPackWriter::new();
    write_decimal_parts(&mut w, parts).unwrap();
    let b = w.into_bytes();
    assert_eq!(&b[0..4], &0x8002_0000u32.to_le_bytes()[..]);
    assert_eq!(&b[4..8], &7u32.to_le_bytes()[..]);
    assert_eq!(&b[8..16], &0x1_0000_3039u64.to_le_bytes()[..]);
    let mut r = MemoryPackReader::new(&b);
    assert_eq!(read_decimal_parts(&mut r).unwrap(), parts);
}

#[test]
fn decimal_round_trips() {
    let d = Decimal::new(-12345, 2);
    let b = MemoryPackSerializer::serialize(&d).unwrap();
    assert_eq!(b.len(), 16);
    assert_eq!(&b[0..4], &0x8002_0000u32.to_le_bytes()[..]);
    let back: Decimal = MemoryPackSerializer::deserialize(&b).unwrap();
    assert_eq!(back, d);
}

#[test]
fn decimal_scale_above_28_is_refused() {
    let mut b = (29u32 << 16).to_le_bytes().to_vec();
    b.extend_from_slice(&[0u8; 12]);
    let r: Result<Decimal, _> = MemoryPackSerializer::deserialize(&b);
    assert!(matches!(r, Err(MemoryPackError::DeserializationError(_))));
}

#[test]
fn bigint_round_trips_when_the_sign_bit_agrees() {
    for v in [0i64, 1, 127, -1, -128, 255 * 256, -30000, i64::MIN + 1] {
        let x = BigInt::from(v);
        let b = MemoryPackSerializer::serialize(&x).unwrap();
        let back: BigInt = MemoryPackSerializer::deserialize(&b).unwrap();
        if v == 255 * 256 {
            // the top byte 0xFF has its high bit set, so it reads back negative
            assert_ne!(back, x);
        } else {
            assert_eq!(back, x, "value {}", v);
        }
    }
}

#[test]
fn bigint_wire_form() {
    let b = MemoryPackSerializer::serialize(&BigInt::from(-2)).unwrap();
    assert_eq!(b, vec![1, 0, 0, 0, 0xFE]);
    let z = MemoryPackSerializer::serialize(&BigInt::from(0)).unwrap();
    assert_eq!(z, vec![1, 0, 0, 0, 0]);
}

#[test]
fn bigint_whose_top_bit_disagrees_changes_sign() {
    let plus = MemoryPackSerializer::serialize(&BigInt::from(128)).unwrap();
    let back: BigInt = MemoryPackSerializer::deserialize(&plus).unwrap();
    assert_eq!(back, BigInt::from(-128));
    let minus = MemoryPackSerializer::serialize(&BigInt::from(-129)).unwrap();
    let back2: BigInt = MemoryPackSerializer::deserialize(&minus).unwrap();
    assert_eq!(back2, BigInt::from(127));
}

#[test]
fn bigint_parts_read_back() {
    let mut w = MemoryPackWriter::new();
    write_bigint_parts(&mut w, true, vec![0x01, 0x01]).unwrap();
    let b = w.into_bytes();
    assert_eq!(b, vec![2, 0, 0, 0, 0xFF, 0xFE]);
    let mut r = MemoryPackReader::new(&b);
    assert_eq!(read_bigint_parts(&mut r).unwrap(), (true, vec![0x01, 0x01]));
}

#[test]
fn negative_bigint_length_is_refused() {
    let b = (-1i32).to_le_bytes();
    let r: Result<BigInt, _> = MemoryPackSerializer::deserialize(&b);
    assert!(matches!(r, Err(MemoryPackError::DeserializationError(_))));
    let u: Result<BigUint, _> = MemoryPackSerializer::deserialize(&b);
    assert!(matches!(u, Err(MemoryPackError::DeserializationError(_))));
}

#[test]
fn biguint_round_trips() {
    let x = BigUint::from(0x0102_0304_0506u64);
    let b = MemoryPackSerializer::serialize(&x).unwrap();
    assert_eq!(b, vec![6, 0, 0, 0, 6, 5, 4, 3, 2, 1]);
    let back: BigUint = MemoryPackSerializer::deserialize(&b).unwrap();
    assert_eq!(back, x);
}

#[test]
fn uuid_is_its_sixteen_bytes() {
    let bytes: [u8; 16] = [1, 2, 3, 4, 5, 6, 7, 8, 9, 10, 11, 12, 13, 14, 15, 16];
    let u = Uuid::from_bytes(bytes);
    let b = MemoryPackSerializer::serialize(&u).unwrap();
    assert_eq!(b, bytes.to_vec());
    let back: Uuid = MemoryPackSerializer::deserialize(&b).unwrap();
    assert_eq!(back, u);
    let short: Result<Uuid, _> = MemoryPackSerializer::deserialize(&b[..15]);
    assert!(matches!(short, Err(MemoryPackError::UnexpectedEndOfBuffer)));
}

#[test]
fn url_is_its_text() {
    let u = Url::parse("https://example.com/a?b=c").unwrap();
    let b = MemoryPackSerializer::serialize(&u).unwrap();
    let mut w = MemoryPackWriter::new();
    w.write_string(u.as_str()).unwrap();
    assert_eq!(b, w.into_bytes());
    let back: Url = MemoryPackSerializer::deserialize(&b).unwrap();
    assert_eq!(back, u);
}

#[test]
fn text_that_is_no_url_is_refused() {
    let mut w = MemoryPackWriter::new();
    w.write_string("not a url").unwrap();
    let b = w.into_bytes();
    let r: Result<Url, _> = MemoryPackSerializer::deserialize(&b);
    assert!(matches!(r, Err(MemoryPackError::DeserializationError(_))));
}

#[test]
fn decimal_zero_reads_back_without_sign() {
    let mut b = 0x8003_0000u32.to_le_bytes().to_vec();
    b.extend_from_slice(&[0u8; 12]);
    let d: Decimal = MemoryPackSerializer::deserialize(&b).unwrap();
    assert!(!d.is_sign_negative());
    assert_eq!(d.scale(), 3);
    assert_eq!(MemoryPackSerializer::serialize(&d).unwrap()[0..4], 0x0003_0000u32.to_le_bytes());
}

#[test]
fn big_integers_drop_zero_bytes_at_the_top() {
    let b = vec![3, 0, 0, 0, 5, 0, 0];
    let u: BigUint = MemoryPackSerializer::deserialize(&b).unwrap();
    assert_eq!(u, BigUint::from(5u8));
    assert_eq!(MemoryPackSerializer::serialize(&u).unwrap(), vec![1, 0, 0, 0, 5]);
    let i: BigInt = MemoryPackSerializer::deserialize(&b).unwrap();
    assert_eq!(i, BigInt::from(5));
    let empty = vec![0, 0, 0, 0];
    let z: BigInt = MemoryPackSerializer::deserialize(&empty).unwrap();
    assert_eq!(z, BigInt::from(0));
    assert_eq!(MemoryPackSerializer::serialize(&z).unwrap(), vec![1, 0, 0, 0, 0]);
}

#[test]
fn url_reads_back_as_the_text_it_parses_to() {
    let mut w = MemoryPackWriter::new();
    w.write_string("HTTPS://Example.COM").unwrap();
    let b = w.into_bytes();
    let u: Url = MemoryPackSerializer::deserialize(&b).unwrap();
    assert_eq!(u.as_str(), "https://example.com/");
}

#[test]
fn refusals_carry_their_messages() {
    let b = (-1i32).to_le_bytes();
    let r: Result<BigInt, _> = MemoryPackSerializer::deserialize(&b);
    assert!(matches!(r, Err(MemoryPackError::DeserializationError(m)) if m == "Negative length in BigInteger"));
    let u: Result<BigUint, _> = MemoryPackSerializer::deserialize(&b);
    assert!(matches!(u, Err(MemoryPackError::DeserializationError(m)) if m == "Negative length in BigUint"));
    let mut d = (29u32 << 16).to_le_bytes().to_vec();
    d.extend_from_slice(&[0u8; 12]);
    let x: Result<Decimal, _> = MemoryPackSerializer::deserialize(&d);
    assert!(matches!(x, Err(MemoryPackError::DeserializationError(m)) if m == "Scale exceeds maximum supported scale"));
    let mut w = MemoryPackWriter::new();
    w.write_string("not a url").unwrap();
    let t = w.into_bytes();
    let y: Result<Url, _> = MemoryPackSerializer::deserialize(&t);
    assert!(matches!(y, Err(MemoryPackError::DeserializationError(m)) if m == "relative URL without a base"));
}
