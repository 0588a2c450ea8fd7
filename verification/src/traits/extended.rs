//! Values of types from other crates: decimals, big integers, UUIDs and
//! URLs. Their wire forms are built and taken apart here over plain parts;
//! the outside types are only converted to and from those parts.
use crate::encoding::{
    decode_i32, decode_u32, decode_u64, encode_i32, encode_u32, encode_u64, le_bytes, le_value,
    lemma_i32_round_trip, lemma_le_bytes_of_value, lemma_le_value_bound, lemma_le_value_of_bytes,
    lemma_le_value_push, lemma_pow256_values, lemma_u32_round_trip, lemma_u64_round_trip, pow256,
};
use crate::error::{message_of, refused_with, Decoded, ErrorKind, MemoryPackError};
use crate::reader::{advanced, decode_bytes, read_as, str_to_string, MemoryPackReader};
use crate::reader::decode_string;
use crate::text::encode_str;
use crate::traits::strings::lemma_string_round_trip;
use crate::traits::{written, MemoryPackDeserialize, MemoryPackRoundTrip, MemoryPackSerialize};
use vstd::utf8::encode_utf8;
use crate::writer::{append_bytes, appended, MemoryPackWriter};
use num_bigint::{BigInt, BigUint, Sign};
use rust_decimal::Decimal;
use url::Url;
use uuid::Uuid;
use vstd::prelude::*;

verus! {

/// The parts of a decimal number: its sign, its scale (the power of ten
/// that divides the mantissa) and its 96-bit mantissa in three words.
#[derive(Clone, Copy, Debug, PartialEq, Eq, Structural)]
pub struct DecimalParts {
    pub negative: bool,
    pub scale: u32,
    pub hi: u32,
    pub mid: u32,
    pub lo: u32,
}

/// The flags word of a decimal: the sign in bit 31, the scale from bit 16.
pub open spec fn decimal_flags(p: DecimalParts) -> u32 {
    ((if p.negative { 1u32 } else { 0u32 }) << 31u32) | (p.scale << 16u32)
}

/// The low and middle mantissa words as one 64-bit value.
pub open spec fn decimal_lo64(p: DecimalParts) -> u64 {
    (p.lo as u64) | ((p.mid as u64) << 32u64)
}

/// The wire form of a decimal: flags, high word, then the low 64 bits.
pub open spec fn decimal_wire(p: DecimalParts) -> Seq<u8> {
    encode_u32(decimal_flags(p)) + encode_u32(p.hi) + encode_u64(decimal_lo64(p))
}

/// The parts that the three words of a decimal's wire form give.
pub open spec fn decimal_parts_of(flags: u32, hi: u32, lo64: u64) -> DecimalParts {
    DecimalParts {
        negative: flags & 0x8000_0000u32 != 0,
        scale: (flags >> 16u32) & 0xFFu32,
        hi,
        mid: (lo64 >> 32u64) as u32,
        lo: lo64 as u32,
    }
}

/// Decoding of a decimal's parts from the front of `b`.
pub open spec fn decode_decimal_parts(b: Seq<u8>) -> Decoded<DecimalParts> {
    if b.len() < 4 {
        (Err(ErrorKind::UnexpectedEndOfBuffer), 0)
    } else if b.len() < 8 {
        (Err(ErrorKind::UnexpectedEndOfBuffer), 4)
    } else if b.len() < 16 {
        (Err(ErrorKind::UnexpectedEndOfBuffer), 8)
    } else {
        (
            Ok(
                decimal_parts_of(
                    le_value(b.subrange(0, 4)) as u32,
                    le_value(b.subrange(4, 8)) as u32,
                    le_value(b.subrange(8, 16)) as u64,
                ),
            ),
            16,
        )
    }
}

/// Writes the wire form of a decimal given by its parts.
pub fn write_decimal_parts(writer: &mut MemoryPackWriter, parts: DecimalParts) -> (r: Result<(), MemoryPackError>)
    ensures
        r is Ok,
        appended(*old(writer), *final(writer), decimal_wire(parts)),
{
    let flags: u32 = ((if parts.negative { 1u32 } else { 0u32 }) << 31u32) | (parts.scale << 16u32);
    let lo64: u64 = (parts.lo as u64) | ((parts.mid as u64) << 32u64);
    let _ = writer.write_u32(flags);
    let _ = writer.write_u32(parts.hi);
    let _ = writer.write_u64(lo64);
    proof {
        assert(writer@ =~= old(writer)@ + decimal_wire(parts));
    }
    Ok(())
}

/// Reads the parts of a decimal from its wire form.
pub fn read_decimal_parts(reader: &mut MemoryPackReader) -> (r: Result<DecimalParts, MemoryPackError>)
    requires
        old(reader).wf(),
    ensures
        read_as(*old(reader), *final(reader), r, decode_decimal_parts(old(reader).rest())),
{
    let ghost b = reader.rest();
    proof {
        lemma_pow256_values();
    }
    let flags = match reader.read_u32() {
        Ok(v) => v,
        Err(e) => return Err(e),
    };
    proof {
        assert(reader.rest() =~= b.skip(4));
        assert(b.take(4) =~= b.subrange(0, 4));
    }
    let hi = match reader.read_u32() {
        Ok(v) => v,
        Err(e) => return Err(e),
    };
    proof {
        assert(reader.rest() =~= b.skip(8));
        assert(b.skip(4).take(4) =~= b.subrange(4, 8));
    }
    let lo64 = match reader.read_u64() {
        Ok(v) => v,
        Err(e) => return Err(e),
    };
    proof {
        assert(b.skip(8).take(8) =~= b.subrange(8, 16));
    }
    Ok(
        DecimalParts {
            negative: flags & 0x8000_0000u32 != 0,
            scale: (flags >> 16u32) & 0xFFu32,
            hi,
            mid: (lo64 >> 32u64) as u32,
            lo: lo64 as u32,
        },
    )
}

/// The parts of a decimal read back from its wire form, whatever follows,
/// when its scale fits the eight bits that the wire form gives it.
pub proof fn lemma_decimal_round_trip(p: DecimalParts, rest: Seq<u8>)
    requires
        p.scale <= 0xFF,
    ensures
        decode_decimal_parts(decimal_wire(p) + rest) == (Ok::<DecimalParts, ErrorKind>(p), 16int),
{
    let f = decimal_flags(p);
    let l = decimal_lo64(p);
    let b = decimal_wire(p) + rest;
    lemma_u32_round_trip(f, encode_u32(p.hi) + encode_u64(l) + rest);
    lemma_u32_round_trip(p.hi, encode_u64(l) + rest);
    lemma_u64_round_trip(l, rest);
    assert(b.subrange(0, 4) =~= (encode_u32(f) + (encode_u32(p.hi) + encode_u64(l) + rest)).take(4));
    assert(b.subrange(4, 8) =~= (encode_u32(p.hi) + (encode_u64(l) + rest)).take(4));
    assert(b.subrange(8, 16) =~= (encode_u64(l) + rest).take(8));
    let neg = p.negative;
    let s = p.scale;
    let lo = p.lo;
    let mid = p.mid;
    let nb: u32 = if neg { 1u32 } else { 0u32 };
    assert(nb <= 1);
    assert(((nb << 31u32) | (s << 16u32)) & 0x8000_0000u32 != 0 <==> nb == 1) by (bit_vector)
        requires
            nb <= 1,
            s <= 0xFF,
    ;
    assert((((nb << 31u32) | (s << 16u32)) >> 16u32) & 0xFFu32 == s) by (bit_vector)
        requires
            nb <= 1,
            s <= 0xFF,
    ;
    assert((((lo as u64) | ((mid as u64) << 32u64)) >> 32u64) as u32 == mid) by (bit_vector);
    assert(((lo as u64) | ((mid as u64) << 32u64)) as u32 == lo) by (bit_vector);
}

/// The two's complement of the little-endian number `s` within its own
/// width: the bytes of `256^n - s`, taken modulo `256^n`, where `n` is the
/// number of bytes.
pub open spec fn twos_complement(s: Seq<u8>) -> Seq<u8> {
    let n = pow256(s.len()) as int;
    le_bytes(((n - le_value(s)) % n) as nat, s.len())
}

/// Replaces the little-endian number in `bytes` by its two's complement:
/// every byte inverted, then one added with the carry running upwards.
pub fn twos_complement_invert(bytes: &mut Vec<u8>)
    ensures
        final(bytes)@ == twos_complement(old(bytes)@),
{
    let ghost orig = bytes@;
    let n = bytes.len();
    let mut carry = true;
    let mut i: usize = 0;
    proof {
        lemma_pow256_values();
        assert(bytes@.take(0) =~= Seq::<u8>::empty());
        assert(orig.take(0) =~= Seq::<u8>::empty());
    }
    while i < n
        invariant
            n == orig.len(),
            bytes@.len() == n,
            i <= n,
            forall|j: int| i <= j < n ==> #[trigger] bytes@[j] == orig[j],
            le_value(bytes@.take(i as int)) + (if carry { pow256(i as nat) } else { 0 })
                == pow256(i as nat) - le_value(orig.take(i as int)),
        decreases n - i,
    {
        let ghost before = bytes@;
        let b = bytes[i];
        let inverted: u8 = !b;
        assert(inverted == 255 - b) by (bit_vector)
            requires
                inverted == !b,
        ;
        let ghost was_carry = carry;
        let new_byte: u8 = if carry {
            if inverted == 255 {
                0
            } else {
                carry = false;
                inverted + 1
            }
        } else {
            inverted
        };
        bytes[i] = new_byte;
        proof {
            let p = pow256(i as nat);
            let o = orig[i as int];
            assert(o == b);
            assert(bytes@.take(i + 1) =~= before.take(i as int).push(new_byte));
            assert(orig.take(i + 1) =~= orig.take(i as int).push(o));
            lemma_le_value_push(before.take(i as int), new_byte);
            lemma_le_value_push(orig.take(i as int), o);
            assert(pow256((i + 1) as nat) == 256 * p);
            lemma_le_value_bound(before.take(i as int));
            lemma_le_value_bound(orig.take(i as int));
            let l = le_value(before.take(i as int));
            let v = le_value(orig.take(i as int));
            if was_carry {
                assert(l == 0 && v == 0);
                if o == 0 {
                    assert(new_byte == 0);
                } else {
                    assert(new_byte == 256 - o);
                    assert(p * (256 - o) == 256 * p - p * o) by (nonlinear_arith);
                }
            } else {
                assert(p * (255 - o) == 256 * p - p - p * o) by (nonlinear_arith);
            }
            assert forall|j: int| i + 1 <= j < n implies #[trigger] bytes@[j] == orig[j] by {
                assert(bytes@[j] == before[j]);
            }
        }
        i = i + 1;
    }
    proof {
        assert(bytes@.take(n as int) =~= bytes@);
        assert(orig.take(n as int) =~= orig);
        let nn = pow256(n as nat) as int;
        let v = le_value(orig);
        let l = le_value(bytes@);
        lemma_le_value_bound(orig);
        lemma_le_value_bound(bytes@);
        if carry {
            assert(l == 0 && v == 0);
            assert((nn - v) % nn == 0) by (nonlinear_arith)
                requires
                    v == 0,
                    nn >= 1,
            ;
        } else {
            assert(0 <= nn - v < nn);
            assert((nn - v) % nn == nn - v) by (nonlinear_arith)
                requires
                    0 <= nn - v < nn,
            ;
        }
        lemma_le_bytes_of_value(bytes@);
    }
}

/// Taking the two's complement twice gives the bytes back.
pub proof fn lemma_twos_complement_involution(s: Seq<u8>)
    ensures
        twos_complement(twos_complement(s)) == s,
{
    let n = s.len();
    let nn = pow256(n) as int;
    let v = le_value(s);
    lemma_le_value_bound(s);
    lemma_pow256_values();
    crate::encoding::lemma_pow256_monotonic(0, n);
    let w = (nn - v) % nn;
    assert(0 <= w < nn) by (nonlinear_arith)
        requires
            nn >= 1,
            w == (nn - v) % nn,
    ;
    let t = twos_complement(s);
    crate::encoding::lemma_le_bytes_len(w as nat, n);
    lemma_le_value_of_bytes(w as nat, n);
    assert((nn - w) % nn == v) by (nonlinear_arith)
        requires
            0 <= v < nn,
            w == (nn - v) % nn,
    ;
    lemma_le_bytes_of_value(s);
}

/// The bytes of a number, least significant first, with no zero byte at
/// the top; zero is the single byte `0`.
pub open spec fn minimal_le(s: Seq<u8>) -> bool {
    s.len() >= 1 && (s.len() == 1 || s.last() != 0)
}

/// The top bit of the last byte of `b` is set.
pub open spec fn top_bit_set(b: Seq<u8>) -> bool {
    b.len() > 0 && b.last() >= 0x80
}

/// The bytes that the wire form of a big integer carries: its magnitude,
/// in two's complement when it is negative.
pub open spec fn bigint_body(negative: bool, magnitude: Seq<u8>) -> Seq<u8> {
    if negative {
        twos_complement(magnitude)
    } else {
        magnitude
    }
}

/// The wire form of a big integer: the number of bytes of its magnitude,
/// then the body.
pub open spec fn bigint_wire(negative: bool, magnitude: Seq<u8>) -> Seq<u8> {
    encode_i32(magnitude.len() as i32) + bigint_body(negative, magnitude)
}

/// Decoding of a big integer's sign and magnitude from the front of `b`: a
/// negative byte count is refused; a body whose top bit is set is negative
/// and its magnitude is the two's complement of the body.
pub open spec fn decode_bigint_parts(b: Seq<u8>) -> Decoded<(bool, Seq<u8>)> {
    match decode_i32(b).0 {
        Err(e) => (Err(e), 0),
        Ok(len) => if len < 0 {
            (Err(ErrorKind::DeserializationError), 4)
        } else {
            match decode_bytes(b.skip(4), len as nat).0 {
                Err(e) => (Err(e), 4),
                Ok(w) => (
                    Ok(if top_bit_set(w) { (true, twos_complement(w)) } else { (false, w) }),
                    4 + len,
                ),
            }
        },
    }
}

/// The wire form of an unsigned big integer: its byte count, then its bytes.
pub open spec fn biguint_wire(bytes: Seq<u8>) -> Seq<u8> {
    encode_i32(bytes.len() as i32) + bytes
}

/// Decoding of an unsigned big integer's bytes from the front of `b`; a
/// negative byte count is refused.
pub open spec fn decode_biguint_bytes(b: Seq<u8>) -> Decoded<Seq<u8>> {
    match decode_i32(b).0 {
        Err(e) => (Err(e), 0),
        Ok(len) => if len < 0 {
            (Err(ErrorKind::DeserializationError), 4)
        } else {
            match decode_bytes(b.skip(4), len as nat).0 {
                Err(e) => (Err(e), 4),
                Ok(w) => (Ok(w), 4 + len),
            }
        },
    }
}

/// Writes the wire form of a big integer given by its sign and magnitude.
pub fn write_bigint_parts(writer: &mut MemoryPackWriter, negative: bool, magnitude: Vec<u8>) -> (r: Result<(), MemoryPackError>)
    ensures
        r is Ok,
        appended(*old(writer), *final(writer), bigint_wire(negative, magnitude@)),
{
    let ghost m = magnitude@;
    let mut bytes = magnitude;
    if negative {
        twos_complement_invert(&mut bytes);
        proof {
            crate::encoding::lemma_le_bytes_len(
                ((pow256(m.len()) as int - le_value(m)) % (pow256(m.len()) as int)) as nat,
                m.len(),
            );
        }
    }
    assert(bytes@ == bigint_body(negative, m));
    let _ = writer.write_i32(bytes.len() as i32);
    append_bytes(&mut writer.buffer, bytes.as_slice());
    proof {
        assert(writer@ =~= old(writer)@ + bigint_wire(negative, m));
    }
    Ok(())
}

/// Reads a big integer's sign and magnitude from its wire form.
pub fn read_bigint_parts(reader: &mut MemoryPackReader) -> (r: Result<(bool, Vec<u8>), MemoryPackError>)
    requires
        old(reader).wf(),
    ensures
        refused_with(r, "Negative length in BigInteger"@),
        advanced(*old(reader), *final(reader), decode_bigint_parts(old(reader).rest()).1),
        match r {
            Ok(p) => decode_bigint_parts(old(reader).rest()).0 == Ok::<(bool, Seq<u8>), ErrorKind>((p.0, p.1@)),
            Err(e) => decode_bigint_parts(old(reader).rest()).0 == Err::<(bool, Seq<u8>), ErrorKind>(e@),
        },
{
    let ghost b = reader.rest();
    let len = match reader.read_i32() {
        Ok(v) => v,
        Err(e) => return Err(e),
    };
    proof {
        assert(reader.rest() =~= b.skip(4));
    }
    if len < 0 {
        return Err(MemoryPackError::DeserializationError(str_to_string("Negative length in BigInteger")));
    }
    let mut bytes = match reader.read_bytes_vec(len as usize) {
        Ok(v) => v,
        Err(e) => return Err(e),
    };
    let n = bytes.len();
    let negative = n > 0 && bytes[n - 1] & 0x80 != 0;
    proof {
        if n > 0 {
            let x = bytes@[n - 1];
            assert(x & 0x80 != 0 <==> x >= 0x80) by (bit_vector);
        }
    }
    if negative {
        twos_complement_invert(&mut bytes);
    }
    Ok((negative, bytes))
}

/// Writes the wire form of an unsigned big integer given by its bytes.
pub fn write_biguint_bytes(writer: &mut MemoryPackWriter, bytes: &[u8]) -> (r: Result<(), MemoryPackError>)
    ensures
        r is Ok,
        appended(*old(writer), *final(writer), biguint_wire(bytes@)),
{
    let _ = writer.write_i32(bytes.len() as i32);
    append_bytes(&mut writer.buffer, bytes);
    proof {
        assert(writer@ =~= old(writer)@ + biguint_wire(bytes@));
    }
    Ok(())
}

/// Reads an unsigned big integer's bytes from its wire form.
pub fn read_biguint_bytes(reader: &mut MemoryPackReader) -> (r: Result<Vec<u8>, MemoryPackError>)
    requires
        old(reader).wf(),
    ensures
        advanced(*old(reader), *final(reader), decode_biguint_bytes(old(reader).rest()).1),
        match r {
            Ok(v) => decode_biguint_bytes(old(reader).rest()).0 == Ok::<Seq<u8>, ErrorKind>(v@),
            Err(e) => decode_biguint_bytes(old(reader).rest()).0 == Err::<Seq<u8>, ErrorKind>(e@),
        },
        refused_with(r, "Negative length in BigUint"@),
{
    let ghost b = reader.rest();
    let len = match reader.read_i32() {
        Ok(v) => v,
        Err(e) => return Err(e),
    };
    proof {
        assert(reader.rest() =~= b.skip(4));
    }
    if len < 0 {
        return Err(MemoryPackError::DeserializationError(str_to_string("Negative length in BigUint")));
    }
    reader.read_bytes_vec(len as usize)
}

/// A big integer's sign and magnitude read back from its wire form,
/// whatever follows, when its byte count fits the 32-bit header and the top
/// bit of the body agrees with its sign.
pub proof fn lemma_bigint_round_trip(negative: bool, magnitude: Seq<u8>, rest: Seq<u8>)
    requires
        magnitude.len() <= i32::MAX,
        top_bit_set(bigint_body(negative, magnitude)) == negative,
    ensures
        decode_bigint_parts(bigint_wire(negative, magnitude) + rest)
            == (Ok::<(bool, Seq<u8>), ErrorKind>((negative, magnitude)), 4 + magnitude.len() as int),
{
    let n = magnitude.len();
    let w = bigint_body(negative, magnitude);
    crate::encoding::lemma_le_bytes_len(
        ((pow256(n) as int - le_value(magnitude)) % (pow256(n) as int)) as nat,
        n,
    );
    assert(w.len() == n);
    let b = bigint_wire(negative, magnitude) + rest;
    assert(b =~= encode_i32(n as i32) + (w + rest));
    lemma_i32_round_trip(n as i32, w + rest);
    assert(b.skip(4) =~= w + rest);
    assert((w + rest).take(n as int) =~= w);
    if negative {
        lemma_twos_complement_involution(magnitude);
    }
}

/// The bytes of an unsigned big integer read back from its wire form,
/// whatever follows, when their count fits the 32-bit header.
pub proof fn lemma_biguint_round_trip(bytes: Seq<u8>, rest: Seq<u8>)
    requires
        bytes.len() <= i32::MAX,
    ensures
        decode_biguint_bytes(biguint_wire(bytes) + rest) == (Ok::<Seq<u8>, ErrorKind>(bytes), 4 + bytes.len() as int),
{
    let n = bytes.len();
    let b = biguint_wire(bytes) + rest;
    assert(b =~= encode_i32(n as i32) + (bytes + rest));
    lemma_i32_round_trip(n as i32, bytes + rest);
    assert(b.skip(4) =~= bytes + rest);
    assert((bytes + rest).take(n as int) =~= bytes);
}

#[verifier::external_type_specification]
#[verifier::external_body]
pub struct ExDecimal(rust_decimal::Decimal);

#[verifier::external_type_specification]
#[verifier::external_body]
pub struct ExBigInt(num_bigint::BigInt);

#[verifier::external_type_specification]
#[verifier::external_body]
pub struct ExBigUint(num_bigint::BigUint);

#[verifier::external_type_specification]
#[verifier::external_body]
pub struct ExUuid(uuid::Uuid);

#[verifier::external_type_specification]
#[verifier::external_body]
pub struct ExUrl(url::Url);

/// The sign, scale and mantissa words that `Decimal::unpack` gives for `d`.
pub uninterp spec fn decimal_unpacked(d: Decimal) -> DecimalParts;

/// The parts with the sign cleared when the mantissa is zero.
pub open spec fn sign_normalized(p: DecimalParts) -> DecimalParts {
    DecimalParts {
        negative: p.negative && !(p.lo == 0 && p.mid == 0 && p.hi == 0),
        scale: p.scale,
        hi: p.hi,
        mid: p.mid,
        lo: p.lo,
    }
}

/// `Decimal::unpack`: the sign, scale and mantissa words of the decimal,
/// named by `decimal_unpacked`. The scale is read from an eight-bit field
/// of the decimal's flags, so it is at most 255.
#[verifier::external_body]
fn decimal_unpack(d: &Decimal) -> (r: DecimalParts)
    ensures
        r == decimal_unpacked(*d),
        r.scale <= 0xFF,
{
    let u = d.unpack();
    DecimalParts { negative: u.negative, scale: u.scale, hi: u.hi, mid: u.mid, lo: u.lo }
}

/// `Decimal::from_parts`, which panics on a scale above 28: the decimal
/// built unpacks to the given parts, except that a zero mantissa is never
/// negative.
#[verifier::external_body]
fn decimal_from_parts(parts: DecimalParts) -> (r: Decimal)
    requires
        parts.scale <= 28,
    ensures
        decimal_unpacked(r) == sign_normalized(parts),
{
    Decimal::from_parts(parts.lo, parts.mid, parts.hi, parts.negative, parts.scale)
}

/// Whether a big integer is negative, as the sign that
/// `BigInt::to_bytes_le` gives for it says.
pub uninterp spec fn bigint_negative(x: BigInt) -> bool;

/// The bytes of a big integer's magnitude that `BigInt::to_bytes_le` gives.
pub uninterp spec fn bigint_magnitude(x: BigInt) -> Seq<u8>;

/// The bytes of the number `v`, least significant first, with no zero byte
/// at the top; zero is the single byte `0`.
pub open spec fn minimal_le_of(v: nat) -> Seq<u8>
    decreases v,
{
    if v < 256 {
        seq![v as u8]
    } else {
        seq![(v % 256) as u8] + minimal_le_of(v / 256)
    }
}

/// `BigInt::to_bytes_le`: whether the number is negative, and the bytes of
/// its magnitude, least significant first and with no zero byte at the top
/// (zero is the single byte `0`); a negative number is never zero.
#[verifier::external_body]
fn bigint_to_bytes_le(x: &BigInt) -> (r: (bool, Vec<u8>))
    ensures
        r.0 == bigint_negative(*x),
        r.1@ == bigint_magnitude(*x),
        minimal_le(r.1@),
        r.0 ==> r.1@ != seq![0u8],
{
    let (sign, bytes) = x.to_bytes_le();
    let negative = match sign {
        Sign::Minus => true,
        Sign::NoSign => false,
        Sign::Plus => false,
    };
    (negative, bytes)
}

/// `BigInt::from_bytes_le`, with the sign given as negative or positive:
/// the number whose magnitude the little-endian bytes give, negative when
/// asked for and not zero.
#[verifier::external_body]
fn bigint_from_bytes_le(negative: bool, bytes: &[u8]) -> (r: BigInt)
    ensures
        bigint_negative(r) == (negative && le_value(bytes@) != 0),
        bigint_magnitude(r) == minimal_le_of(le_value(bytes@)),
{
    let sign = match negative {
        true => Sign::Minus,
        false => Sign::Plus,
    };
    BigInt::from_bytes_le(sign, bytes)
}

/// The bytes that `BigUint::to_bytes_le` gives for `x`.
pub uninterp spec fn biguint_bytes(x: BigUint) -> Seq<u8>;

/// `BigUint::to_bytes_le`: the bytes of the number, least significant
/// first and with no zero byte at the top (zero is the single byte `0`).
#[verifier::external_body]
fn biguint_to_bytes_le(x: &BigUint) -> (r: Vec<u8>)
    ensures
        r@ == biguint_bytes(*x),
        minimal_le(r@),
{
    x.to_bytes_le()
}

/// `BigUint::from_bytes_le`: the number that the little-endian bytes give.
#[verifier::external_body]
fn biguint_from_bytes_le(bytes: &[u8]) -> (r: BigUint)
    ensures
        biguint_bytes(r) == minimal_le_of(le_value(bytes@)),
{
    BigUint::from_bytes_le(bytes)
}

/// The sixteen bytes that `Uuid::as_bytes` gives for `u`.
pub uninterp spec fn uuid_bytes_of(u: Uuid) -> Seq<u8>;

/// `Uuid::as_bytes`, copied out: the sixteen bytes of the identifier.
#[verifier::external_body]
fn uuid_as_bytes(u: &Uuid) -> (r: [u8; 16])
    ensures
        r@ == uuid_bytes_of(*u),
{
    *u.as_bytes()
}

/// `Uuid::from_bytes`: the identifier made of exactly those bytes.
#[verifier::external_body]
fn uuid_from_bytes(bytes: [u8; 16]) -> (r: Uuid)
    ensures
        uuid_bytes_of(r) == bytes@,
{
    Uuid::from_bytes(bytes)
}

/// The text that `Url::as_str` gives for `u`.
pub uninterp spec fn url_text(u: Url) -> Seq<char>;

/// `Url::as_str`: the text of the URL.
#[verifier::external_body]
fn url_as_str(u: &Url) -> (r: &str)
    ensures
        r@ == url_text(*u),
{
    u.as_str()
}

/// What `Url::parse` makes of the text, a function of the text alone: the
/// text of the URL it builds, or the message of the error it refuses the
/// text with.
pub uninterp spec fn url_parsed(s: Seq<char>) -> Result<Seq<char>, Seq<char>>;

/// `Url::parse`, with its error turned into its message: the URL whose
/// text, or the message, `url_parsed` names.
#[verifier::external_body]
fn url_parse(s: &str) -> (r: Result<Url, String>)
    ensures
        match r {
            Ok(u) => url_parsed(s@) == Ok::<Seq<char>, Seq<char>>(url_text(u)),
            Err(m) => url_parsed(s@) == Err::<Seq<char>, Seq<char>>(m@),
        },
{
    match Url::parse(s) {
        Ok(u) => Ok(u),
        Err(e) => Err(e.to_string()),
    }
}

/// Decoding of a decimal: its parts, refused when the scale is above the
/// largest one that a decimal can have (28), and with the sign of a zero
/// mantissa cleared.
pub open spec fn decode_decimal(b: Seq<u8>) -> Decoded<DecimalParts> {
    let d = decode_decimal_parts(b);
    match d.0 {
        Err(e) => (Err(e), d.1),
        Ok(p) => if p.scale > 28 {
            (Err(ErrorKind::DeserializationError), d.1)
        } else {
            (Ok(sign_normalized(p)), d.1)
        },
    }
}

/// Reads the parts of a decimal and checks its scale.
pub fn read_decimal_checked(reader: &mut MemoryPackReader) -> (r: Result<DecimalParts, MemoryPackError>)
    requires
        old(reader).wf(),
    ensures
        advanced(*old(reader), *final(reader), decode_decimal(old(reader).rest()).1),
        match r {
            Ok(p) => decode_decimal_parts(old(reader).rest()).0 == Ok::<DecimalParts, ErrorKind>(p)
                && p.scale <= 28,
            Err(e) => decode_decimal(old(reader).rest()).0 == Err::<DecimalParts, ErrorKind>(e@),
        },
        refused_with(r, "Scale exceeds maximum supported scale"@),
{
    let parts = match read_decimal_parts(reader) {
        Ok(p) => p,
        Err(e) => return Err(e),
    };
    if parts.scale > 28 {
        return Err(MemoryPackError::DeserializationError(str_to_string("Scale exceeds maximum supported scale")));
    }
    Ok(parts)
}

impl MemoryPackSerialize for Decimal {
    open spec fn serializes_as(&self, bytes: Seq<u8>) -> bool {
        bytes == decimal_wire(decimal_unpacked(*self))
    }

    fn serialize(&self, writer: &mut MemoryPackWriter) -> (r: Result<(), MemoryPackError>) {
        let parts = decimal_unpack(self);
        let r = write_decimal_parts(writer, parts);
        proof {
            assert(old(writer)@ =~= writer@.subrange(0, old(writer)@.len() as int));
            assert(written(*old(writer), *writer) =~= decimal_wire(parts));
        }
        r
    }
}

impl MemoryPackDeserialize for Decimal {
    type Model = DecimalParts;

    open spec fn model(&self) -> DecimalParts {
        decimal_unpacked(*self)
    }

    open spec fn spec_deserialize(bytes: Seq<u8>) -> Decoded<DecimalParts> {
        decode_decimal(bytes)
    }

    fn deserialize(reader: &mut MemoryPackReader) -> (r: Result<Self, MemoryPackError>) {
        match read_decimal_checked(reader) {
            Ok(parts) => Ok(decimal_from_parts(parts)),
            Err(e) => Err(e),
        }
    }
}

impl MemoryPackSerialize for BigInt {
    open spec fn serializes_as(&self, bytes: Seq<u8>) -> bool {
        bytes == bigint_wire(bigint_negative(*self), bigint_magnitude(*self))
    }

    fn serialize(&self, writer: &mut MemoryPackWriter) -> (r: Result<(), MemoryPackError>) {
        let (negative, magnitude) = bigint_to_bytes_le(self);
        let ghost m = magnitude@;
        let r = write_bigint_parts(writer, negative, magnitude);
        proof {
            assert(old(writer)@ =~= writer@.subrange(0, old(writer)@.len() as int));
            assert(written(*old(writer), *writer) =~= bigint_wire(negative, m));
        }
        r
    }
}

/// Decoding of a big integer: its sign and magnitude as they read, the
/// magnitude without zero bytes at the top and zero never negative.
pub open spec fn decode_bigint(b: Seq<u8>) -> Decoded<(bool, Seq<u8>)> {
    let d = decode_bigint_parts(b);
    match d.0 {
        Err(e) => (Err(e), d.1),
        Ok(p) => (Ok((p.0 && le_value(p.1) != 0, minimal_le_of(le_value(p.1)))), d.1),
    }
}

impl MemoryPackDeserialize for BigInt {
    /// Whether the number is negative, and the bytes of its magnitude.
    type Model = (bool, Seq<u8>);

    open spec fn model(&self) -> (bool, Seq<u8>) {
        (bigint_negative(*self), bigint_magnitude(*self))
    }

    open spec fn spec_deserialize(bytes: Seq<u8>) -> Decoded<(bool, Seq<u8>)> {
        decode_bigint(bytes)
    }

    fn deserialize(reader: &mut MemoryPackReader) -> (r: Result<Self, MemoryPackError>)
        ensures
            refused_with(r, "Negative length in BigInteger"@),
    {
        match read_bigint_parts(reader) {
            Ok((negative, magnitude)) => Ok(bigint_from_bytes_le(negative, magnitude.as_slice())),
            Err(e) => Err(e),
        }
    }
}

impl MemoryPackSerialize for BigUint {
    open spec fn serializes_as(&self, bytes: Seq<u8>) -> bool {
        bytes == biguint_wire(biguint_bytes(*self))
    }

    fn serialize(&self, writer: &mut MemoryPackWriter) -> (r: Result<(), MemoryPackError>) {
        let bytes = biguint_to_bytes_le(self);
        let r = write_biguint_bytes(writer, bytes.as_slice());
        proof {
            assert(old(writer)@ =~= writer@.subrange(0, old(writer)@.len() as int));
            assert(written(*old(writer), *writer) =~= biguint_wire(bytes@));
        }
        r
    }
}

/// Decoding of an unsigned big integer: its bytes as they read, without
/// zero bytes at the top.
pub open spec fn decode_biguint(b: Seq<u8>) -> Decoded<Seq<u8>> {
    let d = decode_biguint_bytes(b);
    match d.0 {
        Err(e) => (Err(e), d.1),
        Ok(w) => (Ok(minimal_le_of(le_value(w))), d.1),
    }
}

impl MemoryPackDeserialize for BigUint {
    /// The bytes of the number, least significant first.
    type Model = Seq<u8>;

    open spec fn model(&self) -> Seq<u8> {
        biguint_bytes(*self)
    }

    open spec fn spec_deserialize(bytes: Seq<u8>) -> Decoded<Seq<u8>> {
        decode_biguint(bytes)
    }

    fn deserialize(reader: &mut MemoryPackReader) -> (r: Result<Self, MemoryPackError>)
        ensures
            refused_with(r, "Negative length in BigUint"@),
    {
        match read_biguint_bytes(reader) {
            Ok(bytes) => Ok(biguint_from_bytes_le(bytes.as_slice())),
            Err(e) => Err(e),
        }
    }
}

impl MemoryPackSerialize for Uuid {
    open spec fn serializes_as(&self, bytes: Seq<u8>) -> bool {
        bytes == uuid_bytes_of(*self)
    }

    fn serialize(&self, writer: &mut MemoryPackWriter) -> (r: Result<(), MemoryPackError>) {
        let bytes = uuid_as_bytes(self);
        append_bytes(&mut writer.buffer, bytes.as_slice());
        proof {
            assert(old(writer)@ =~= writer@.subrange(0, old(writer)@.len() as int));
            assert(written(*old(writer), *writer) =~= bytes@);
        }
        Ok(())
    }
}

/// Decoding of a UUID: sixteen raw bytes.
pub open spec fn decode_uuid(b: Seq<u8>) -> Decoded<Seq<u8>> {
    decode_bytes(b, 16)
}

impl MemoryPackDeserialize for Uuid {
    /// The sixteen bytes of the identifier.
    type Model = Seq<u8>;

    open spec fn model(&self) -> Seq<u8> {
        uuid_bytes_of(*self)
    }

    open spec fn spec_deserialize(bytes: Seq<u8>) -> Decoded<Seq<u8>> {
        decode_uuid(bytes)
    }

    fn deserialize(reader: &mut MemoryPackReader) -> (r: Result<Self, MemoryPackError>) {
        match reader.read_fixed_bytes::<16>() {
            Ok(bytes) => Ok(uuid_from_bytes(bytes)),
            Err(e) => Err(e),
        }
    }
}

impl MemoryPackSerialize for Url {
    open spec fn serializes_as(&self, bytes: Seq<u8>) -> bool {
        bytes == encode_str(url_text(*self))
    }

    fn serialize(&self, writer: &mut MemoryPackWriter) -> (r: Result<(), MemoryPackError>) {
        let text = url_as_str(self);
        let r = writer.write_string(text);
        proof {
            assert(old(writer)@ =~= writer@.subrange(0, old(writer)@.len() as int));
            assert(written(*old(writer), *writer) =~= encode_str(text@));
        }
        r
    }
}

/// Decoding of a URL: a string, refused when it does not parse as a URL,
/// else the text of the URL it parses as.
pub open spec fn decode_url(b: Seq<u8>) -> Decoded<Seq<char>> {
    let d = decode_string(b);
    match d.0 {
        Err(e) => (Err(e), d.1),
        Ok(s) => match url_parsed(s) {
            Ok(t) => (Ok(t), d.1),
            Err(_) => (Err(ErrorKind::DeserializationError), d.1),
        },
    }
}

impl MemoryPackDeserialize for Url {
    /// The text of the URL.
    type Model = Seq<char>;

    open spec fn model(&self) -> Seq<char> {
        url_text(*self)
    }

    open spec fn spec_deserialize(bytes: Seq<u8>) -> Decoded<Seq<char>> {
        decode_url(bytes)
    }

    /// A text that does not parse is refused with the message of the
    /// parser's error.
    fn deserialize(reader: &mut MemoryPackReader) -> (r: Result<Self, MemoryPackError>)
        ensures
            r matches Err(e) ==> match decode_string(old(reader).rest()).0 {
                Ok(s) => url_parsed(s) matches Err(m) && message_of(e) == Some(m),
                Err(_) => true,
            },
    {
        let text = match reader.read_string() {
            Ok(s) => s,
            Err(e) => return Err(e),
        };
        match url_parse(text.as_str()) {
            Ok(u) => Ok(u),
            Err(message) => Err(MemoryPackError::DeserializationError(message)),
        }
    }
}


/// The bytes of a number with no zero byte at the top give a value of at
/// least `256` to the power of one less than their count.
pub proof fn lemma_minimal_le_value(b: Seq<u8>)
    requires
        minimal_le(b),
        b.len() > 1,
    ensures
        le_value(b.drop_first()) >= 1,
    decreases b.len(),
{
    let t = b.drop_first();
    if t.len() > 1 {
        assert(t.last() == b.last());
        lemma_minimal_le_value(t);
        assert(t.drop_first().len() >= 1);
    } else {
        crate::encoding::lemma_le_value_single(t);
    }
}

/// Bytes with no zero byte at the top are the bytes of their own value.
pub proof fn lemma_minimal_le_of_value(b: Seq<u8>)
    requires
        minimal_le(b),
    ensures
        minimal_le_of(le_value(b)) == b,
    decreases b.len(),
{
    if b.len() == 1 {
        crate::encoding::lemma_le_value_single(b);
        assert(minimal_le_of(le_value(b)) =~= b);
    } else {
        let t = b.drop_first();
        lemma_minimal_le_value(b);
        assert(t.last() == b.last());
        lemma_minimal_le_of_value(t);
        let v = le_value(b);
        assert(v == b[0] as nat + 256 * le_value(t));
        assert(v % 256 == b[0] as nat && v / 256 == le_value(t)) by (nonlinear_arith)
            requires
                v == b[0] as nat + 256 * le_value(t),
                b[0] < 256,
        ;
        assert(minimal_le_of(v) =~= seq![b[0]] + t);
        assert(seq![b[0]] + t =~= b);
    }
}

/// Bytes with no zero byte at the top, other than the single byte `0`,
/// have a value other than zero.
pub proof fn lemma_minimal_le_nonzero(b: Seq<u8>)
    requires
        minimal_le(b),
        b != seq![0u8],
    ensures
        le_value(b) != 0,
{
    if b.len() == 1 {
        crate::encoding::lemma_le_value_single(b);
        assert(b =~= seq![0u8] || b[0] != 0);
    } else {
        lemma_minimal_le_value(b);
    }
}

impl MemoryPackRoundTrip for Decimal {
    /// The scale is one that a decimal can have, and a zero mantissa is not
    /// negative.
    open spec fn fits_format(&self) -> bool {
        &&& decimal_unpacked(*self).scale <= 28
        &&& sign_normalized(decimal_unpacked(*self)) == decimal_unpacked(*self)
    }

    proof fn lemma_round_trip(&self, bytes: Seq<u8>, rest: Seq<u8>) {
        let p = decimal_unpacked(*self);
        lemma_decimal_round_trip(p, rest);
        crate::encoding::lemma_le_bytes_len(decimal_flags(p) as nat, 4);
        crate::encoding::lemma_le_bytes_len(p.hi as nat, 4);
        crate::encoding::lemma_le_bytes_len(decimal_lo64(p) as nat, 8);
        assert(bytes.len() == 16);
    }
}

impl MemoryPackRoundTrip for BigInt {
    /// The magnitude's byte count fits the 32-bit header, and the top bit
    /// of the body that carries it agrees with the sign.
    open spec fn fits_format(&self) -> bool {
        &&& bigint_magnitude(*self).len() <= i32::MAX
        &&& minimal_le(bigint_magnitude(*self))
        &&& bigint_negative(*self) ==> bigint_magnitude(*self) != seq![0u8]
        &&& top_bit_set(bigint_body(bigint_negative(*self), bigint_magnitude(*self))) == bigint_negative(*self)
    }

    proof fn lemma_round_trip(&self, bytes: Seq<u8>, rest: Seq<u8>) {
        let m = bigint_magnitude(*self);
        lemma_bigint_round_trip(bigint_negative(*self), m, rest);
        crate::encoding::lemma_le_bytes_len(((m.len() as i32) as u32) as nat, 4);
        crate::encoding::lemma_le_bytes_len(
            ((pow256(m.len()) as int - le_value(m)) % (pow256(m.len()) as int)) as nat,
            m.len(),
        );
        assert(bytes.len() == 4 + m.len());
        lemma_minimal_le_of_value(m);
        if bigint_negative(*self) {
            lemma_minimal_le_nonzero(m);
        }
    }
}

impl MemoryPackRoundTrip for BigUint {
    /// The byte count fits the 32-bit header, and the bytes have no zero
    /// byte at the top.
    open spec fn fits_format(&self) -> bool {
        &&& biguint_bytes(*self).len() <= i32::MAX
        &&& minimal_le(biguint_bytes(*self))
    }

    proof fn lemma_round_trip(&self, bytes: Seq<u8>, rest: Seq<u8>) {
        let b = biguint_bytes(*self);
        lemma_biguint_round_trip(b, rest);
        lemma_minimal_le_of_value(b);
        crate::encoding::lemma_le_bytes_len(((b.len() as i32) as u32) as nat, 4);
        assert(bytes.len() == 4 + b.len());
    }
}

impl MemoryPackRoundTrip for Uuid {
    /// The identifier has sixteen bytes.
    open spec fn fits_format(&self) -> bool {
        uuid_bytes_of(*self).len() == 16
    }

    proof fn lemma_round_trip(&self, bytes: Seq<u8>, rest: Seq<u8>) {
        assert((bytes + rest).take(16) =~= bytes);
    }
}

impl MemoryPackRoundTrip for Url {
    /// The text fits the format's string header, and parses back to itself.
    open spec fn fits_format(&self) -> bool {
        &&& encode_utf8(url_text(*self)).len() <= i32::MAX
        &&& url_parsed(url_text(*self)) == Ok::<Seq<char>, Seq<char>>(url_text(*self))
    }

    proof fn lemma_round_trip(&self, bytes: Seq<u8>, rest: Seq<u8>) {
        lemma_string_round_trip(url_text(*self), rest);
    }
}

} // verus!
