//! The little-endian byte encodings of the fixed-width values of the
//! MemoryPack wire format, with the facts that tie encoding and decoding
//! together.
use crate::error::{Decoded, ErrorKind};
use vstd::prelude::*;

verus! {

/// `256` raised to the power `n`.
pub open spec fn pow256(n: nat) -> nat
    decreases n,
{
    if n == 0 {
        1
    } else {
        256 * pow256((n - 1) as nat)
    }
}

/// The `n` low-order bytes of `v`, least significant first.
pub open spec fn le_bytes(v: nat, n: nat) -> Seq<u8>
    decreases n,
{
    if n == 0 {
        Seq::empty()
    } else {
        seq![(v % 256) as u8] + le_bytes(v / 256, (n - 1) as nat)
    }
}

/// The number whose little-endian bytes are `s`.
pub open spec fn le_value(s: Seq<u8>) -> nat
    decreases s.len(),
{
    if s.len() == 0 {
        0
    } else {
        s[0] as nat + 256 * le_value(s.drop_first())
    }
}

pub open spec fn encode_bool(b: bool) -> Seq<u8> {
    seq![if b { 1u8 } else { 0u8 }]
}

pub open spec fn encode_u8(x: u8) -> Seq<u8> {
    seq![x]
}

pub open spec fn encode_i8(x: i8) -> Seq<u8> {
    seq![x as u8]
}

pub open spec fn encode_u16(x: u16) -> Seq<u8> {
    le_bytes(x as nat, 2)
}

pub open spec fn encode_i16(x: i16) -> Seq<u8> {
    le_bytes((x as u16) as nat, 2)
}

pub open spec fn encode_u32(x: u32) -> Seq<u8> {
    le_bytes(x as nat, 4)
}

pub open spec fn encode_i32(x: i32) -> Seq<u8> {
    le_bytes((x as u32) as nat, 4)
}

pub open spec fn encode_u64(x: u64) -> Seq<u8> {
    le_bytes(x as nat, 8)
}

pub open spec fn encode_i64(x: i64) -> Seq<u8> {
    le_bytes((x as u64) as nat, 8)
}

pub open spec fn encode_u128(x: u128) -> Seq<u8> {
    le_bytes(x as nat, 16)
}

pub open spec fn encode_i128(x: i128) -> Seq<u8> {
    le_bytes((x as u128) as nat, 16)
}

/// Decoding of `n` raw little-endian bytes from the front of `b`.
pub open spec fn decode_le(b: Seq<u8>, n: nat) -> Decoded<nat> {
    if b.len() < n {
        (Err(ErrorKind::UnexpectedEndOfBuffer), 0)
    } else {
        (Ok(le_value(b.take(n as int))), n as int)
    }
}

/// Re-types the value of a decoded outcome.
pub open spec fn map_decoded<A, B>(d: Decoded<A>, f: spec_fn(A) -> B) -> Decoded<B> {
    match d.0 {
        Ok(v) => (Ok(f(v)), d.1),
        Err(e) => (Err(e), d.1),
    }
}

pub open spec fn decode_u8(b: Seq<u8>) -> Decoded<u8> {
    map_decoded(decode_le(b, 1), |v: nat| v as u8)
}

pub open spec fn decode_bool(b: Seq<u8>) -> Decoded<bool> {
    map_decoded(decode_u8(b), |v: u8| v == 1)
}

pub open spec fn decode_i8(b: Seq<u8>) -> Decoded<i8> {
    map_decoded(decode_u8(b), |v: u8| v as i8)
}

pub open spec fn decode_u16(b: Seq<u8>) -> Decoded<u16> {
    map_decoded(decode_le(b, 2), |v: nat| v as u16)
}

pub open spec fn decode_i16(b: Seq<u8>) -> Decoded<i16> {
    map_decoded(decode_le(b, 2), |v: nat| (v as u16) as i16)
}

pub open spec fn decode_u32(b: Seq<u8>) -> Decoded<u32> {
    map_decoded(decode_le(b, 4), |v: nat| v as u32)
}

pub open spec fn decode_i32(b: Seq<u8>) -> Decoded<i32> {
    map_decoded(decode_le(b, 4), |v: nat| (v as u32) as i32)
}

pub open spec fn decode_u64(b: Seq<u8>) -> Decoded<u64> {
    map_decoded(decode_le(b, 8), |v: nat| v as u64)
}

pub open spec fn decode_i64(b: Seq<u8>) -> Decoded<i64> {
    map_decoded(decode_le(b, 8), |v: nat| (v as u64) as i64)
}

pub open spec fn decode_u128(b: Seq<u8>) -> Decoded<u128> {
    map_decoded(decode_le(b, 16), |v: nat| v as u128)
}

pub open spec fn decode_i128(b: Seq<u8>) -> Decoded<i128> {
    map_decoded(decode_le(b, 16), |v: nat| (v as u128) as i128)
}

pub proof fn lemma_pow256_values()
    ensures
        pow256(0) == 1,
        pow256(1) == 0x100,
        pow256(2) == 0x1_0000,
        pow256(4) == 0x1_0000_0000,
        pow256(8) == 0x1_0000_0000_0000_0000,
        pow256(15) == 0x1_0000_0000_0000_0000_0000_0000_0000_00,
        pow256(16) == 0x1_0000_0000_0000_0000_0000_0000_0000_0000,
{
    reveal_with_fuel(pow256, 17);
}

pub proof fn lemma_pow256_monotonic(a: nat, b: nat)
    requires
        a <= b,
    ensures
        1 <= pow256(a) <= pow256(b),
    decreases b,
{
    if a < b {
        lemma_pow256_monotonic(a, (b - 1) as nat);
    } else if a > 0 {
        lemma_pow256_monotonic((a - 1) as nat, (a - 1) as nat);
    }
}

pub proof fn lemma_le_bytes_len(v: nat, n: nat)
    ensures
        le_bytes(v, n).len() == n,
    decreases n,
{
    if n > 0 {
        lemma_le_bytes_len(v / 256, (n - 1) as nat);
    }
}

/// A number made of `s.len()` bytes is less than `256` to that power.
pub proof fn lemma_le_value_bound(s: Seq<u8>)
    ensures
        le_value(s) < pow256(s.len()),
    decreases s.len(),
{
    if s.len() > 0 {
        lemma_le_value_bound(s.drop_first());
    }
}

/// Encoding a number that fits in `n` bytes and decoding it gives it back.
pub proof fn lemma_le_value_of_bytes(v: nat, n: nat)
    requires
        v < pow256(n),
    ensures
        le_value(le_bytes(v, n)) == v,
    decreases n,
{
    if n > 0 {
        let s = le_bytes(v, n);
        assert(s.drop_first() =~= le_bytes(v / 256, (n - 1) as nat));
        assert(v / 256 < pow256((n - 1) as nat));
        lemma_le_value_of_bytes(v / 256, (n - 1) as nat);
    }
}

/// Decoding bytes and encoding the number gives the same bytes back.
pub proof fn lemma_le_bytes_of_value(s: Seq<u8>)
    ensures
        le_bytes(le_value(s), s.len()) == s,
    decreases s.len(),
{
    if s.len() > 0 {
        let v = le_value(s);
        lemma_le_bytes_of_value(s.drop_first());
        assert(v % 256 == s[0] as nat);
        assert(v / 256 == le_value(s.drop_first()));
        assert(le_bytes(v, s.len()) =~= s);
    }
}

/// Appending a byte adds it at the next power of 256.
pub proof fn lemma_le_value_push(s: Seq<u8>, x: u8)
    ensures
        le_value(s.push(x)) == le_value(s) + pow256(s.len()) * x,
    decreases s.len(),
{
    if s.len() == 0 {
        assert(s.push(x).drop_first() =~= Seq::<u8>::empty());
        assert(le_value(s.push(x)) == x as nat + 256 * le_value(Seq::<u8>::empty()));
        assert(pow256(0) == 1);
    } else {
        assert(s.push(x).drop_first() =~= s.drop_first().push(x));
        lemma_le_value_push(s.drop_first(), x);
        let a = le_value(s.drop_first());
        let p = pow256((s.len() - 1) as nat);
        assert(256 * (a + p * x) == 256 * a + (256 * p) * x) by (nonlinear_arith);
        assert(s.push(x)[0] == s[0]);
        assert(pow256(s.len()) == 256 * p);
        assert(le_value(s.push(x)) == s[0] as nat + 256 * le_value(s.drop_first().push(x)));
    }
}

/// A single byte is its own value.
pub proof fn lemma_le_value_single(s: Seq<u8>)
    requires
        s.len() == 1,
    ensures
        le_value(s) == s[0] as nat,
{
    assert(s.drop_first().len() == 0);
    assert(le_value(s.drop_first()) == 0);
}

/// Decoding `n` bytes from an encoding of `v` followed by anything gives `v`.
pub proof fn lemma_decode_le_of_encoding(v: nat, n: nat, rest: Seq<u8>)
    requires
        v < pow256(n),
    ensures
        decode_le(le_bytes(v, n) + rest, n) == (Ok::<nat, ErrorKind>(v), n as int),
{
    lemma_le_bytes_len(v, n);
    assert((le_bytes(v, n) + rest).take(n as int) =~= le_bytes(v, n));
    lemma_le_value_of_bytes(v, n);
}

} // verus!

verus! {

pub proof fn lemma_u8_round_trip(x: u8, rest: Seq<u8>)
    ensures
        decode_u8(encode_u8(x) + rest) == (Ok::<u8, ErrorKind>(x), 1int),
{
    lemma_pow256_values();
    assert(le_bytes((x as nat) / 256, 0) =~= Seq::<u8>::empty());
    assert(encode_u8(x) =~= le_bytes(x as nat, 1));
    lemma_decode_le_of_encoding(x as nat, 1, rest);
}

pub proof fn lemma_bool_round_trip(x: bool, rest: Seq<u8>)
    ensures
        decode_bool(encode_bool(x) + rest) == (Ok::<bool, ErrorKind>(x), 1int),
{
    lemma_u8_round_trip(if x { 1u8 } else { 0u8 }, rest);
}

pub proof fn lemma_i8_round_trip(x: i8, rest: Seq<u8>)
    ensures
        decode_i8(encode_i8(x) + rest) == (Ok::<i8, ErrorKind>(x), 1int),
{
    lemma_u8_round_trip(x as u8, rest);
    assert((x as u8) as i8 == x) by (bit_vector);
}

pub proof fn lemma_u16_round_trip(x: u16, rest: Seq<u8>)
    ensures
        decode_u16(encode_u16(x) + rest) == (Ok::<u16, ErrorKind>(x), 2int),
        encode_u16(x).len() == 2,
{
    lemma_le_bytes_len(x as nat, 2);
    lemma_pow256_values();
    lemma_decode_le_of_encoding(x as nat, 2, rest);
}

pub proof fn lemma_i16_round_trip(x: i16, rest: Seq<u8>)
    ensures
        decode_i16(encode_i16(x) + rest) == (Ok::<i16, ErrorKind>(x), 2int),
        encode_i16(x).len() == 2,
{
    lemma_le_bytes_len((x as u16) as nat, 2);
    lemma_pow256_values();
    lemma_decode_le_of_encoding((x as u16) as nat, 2, rest);
    assert((x as u16) as i16 == x) by (bit_vector);
}

pub proof fn lemma_u32_round_trip(x: u32, rest: Seq<u8>)
    ensures
        decode_u32(encode_u32(x) + rest) == (Ok::<u32, ErrorKind>(x), 4int),
        encode_u32(x).len() == 4,
{
    lemma_le_bytes_len(x as nat, 4);
    lemma_pow256_values();
    lemma_decode_le_of_encoding(x as nat, 4, rest);
}

pub proof fn lemma_i32_round_trip(x: i32, rest: Seq<u8>)
    ensures
        decode_i32(encode_i32(x) + rest) == (Ok::<i32, ErrorKind>(x), 4int),
        encode_i32(x).len() == 4,
{
    lemma_le_bytes_len((x as u32) as nat, 4);
    lemma_pow256_values();
    lemma_decode_le_of_encoding((x as u32) as nat, 4, rest);
    assert((x as u32) as i32 == x) by (bit_vector);
}

pub proof fn lemma_u64_round_trip(x: u64, rest: Seq<u8>)
    ensures
        decode_u64(encode_u64(x) + rest) == (Ok::<u64, ErrorKind>(x), 8int),
        encode_u64(x).len() == 8,
{
    lemma_le_bytes_len(x as nat, 8);
    lemma_pow256_values();
    lemma_decode_le_of_encoding(x as nat, 8, rest);
}

pub proof fn lemma_i64_round_trip(x: i64, rest: Seq<u8>)
    ensures
        decode_i64(encode_i64(x) + rest) == (Ok::<i64, ErrorKind>(x), 8int),
        encode_i64(x).len() == 8,
{
    lemma_le_bytes_len((x as u64) as nat, 8);
    lemma_pow256_values();
    lemma_decode_le_of_encoding((x as u64) as nat, 8, rest);
    assert((x as u64) as i64 == x) by (bit_vector);
}

pub proof fn lemma_u128_round_trip(x: u128, rest: Seq<u8>)
    ensures
        decode_u128(encode_u128(x) + rest) == (Ok::<u128, ErrorKind>(x), 16int),
        encode_u128(x).len() == 16,
{
    lemma_le_bytes_len(x as nat, 16);
    lemma_pow256_values();
    lemma_decode_le_of_encoding(x as nat, 16, rest);
}

pub proof fn lemma_i128_round_trip(x: i128, rest: Seq<u8>)
    ensures
        decode_i128(encode_i128(x) + rest) == (Ok::<i128, ErrorKind>(x), 16int),
        encode_i128(x).len() == 16,
{
    lemma_le_bytes_len((x as u128) as nat, 16);
    lemma_pow256_values();
    lemma_decode_le_of_encoding((x as u128) as nat, 16, rest);
    assert((x as u128) as i128 == x) by (bit_vector);
}

} // verus!
