//! Variable-length signed integers: a value from -120 to 127 is one byte;
//! any other value is a code byte followed by the value in the narrowest
//! fixed width that holds it.
use crate::encoding::{
    decode_i16, decode_i32, decode_i64, decode_i8, decode_u16, decode_u32, decode_u64, decode_u8,
    encode_i16, encode_i32, encode_i64, encode_i8, encode_u16, encode_u32, encode_u8,
    lemma_i16_round_trip, lemma_i32_round_trip, lemma_i64_round_trip, lemma_i8_round_trip,
    lemma_u16_round_trip, lemma_u32_round_trip, lemma_u8_round_trip, map_decoded,
};
use crate::error::{refused_with, Decoded, ErrorKind, MemoryPackError};
use crate::reader::{read_as, shifted, str_to_string, MemoryPackReader};
use crate::writer::{appended, MemoryPackWriter};
use vstd::prelude::*;

verus! {

/// Code byte of an unsigned 8-bit payload.
pub const VARINT_BYTE: i8 = -121;
/// Code byte of a signed 8-bit payload.
pub const VARINT_SBYTE: i8 = -122;
/// Code byte of an unsigned 16-bit payload.
pub const VARINT_UINT16: i8 = -123;
/// Code byte of a signed 16-bit payload.
pub const VARINT_INT16: i8 = -124;
/// Code byte of an unsigned 32-bit payload.
pub const VARINT_UINT32: i8 = -125;
/// Code byte of a signed 32-bit payload.
pub const VARINT_INT32: i8 = -126;
/// Code byte of an unsigned 64-bit payload.
pub const VARINT_UINT64: i8 = -127;
/// Code byte of a signed 64-bit payload.
pub const VARINT_INT64: i8 = -128;

/// The bytes that `write_varint` writes for `x`.
pub open spec fn varint_bytes(x: i64) -> Seq<u8> {
    if 0 <= x {
        if x <= 127 {
            encode_i8(x as i8)
        } else if x <= 255 {
            encode_i8(VARINT_BYTE) + encode_u8(x as u8)
        } else if x <= 0xFFFF {
            encode_i8(VARINT_UINT16) + encode_u16(x as u16)
        } else if x <= 0xFFFF_FFFF {
            encode_i8(VARINT_UINT32) + encode_u32(x as u32)
        } else {
            encode_i8(VARINT_INT64) + encode_i64(x)
        }
    } else {
        if -120 <= x {
            encode_i8(x as i8)
        } else if -128 <= x {
            encode_i8(VARINT_SBYTE) + encode_i8(x as i8)
        } else if -32768 <= x {
            encode_i8(VARINT_INT16) + encode_i16(x as i16)
        } else if -0x8000_0000 <= x {
            encode_i8(VARINT_INT32) + encode_i32(x as i32)
        } else {
            encode_i8(VARINT_INT64) + encode_i64(x)
        }
    }
}

/// Decoding of a variable-length integer from the front of `b`.
pub open spec fn decode_varint(b: Seq<u8>) -> Decoded<i64> {
    let d = decode_i8(b);
    match d.0 {
        Err(e) => (Err(e), d.1),
        Ok(code) => {
            let rest = b.skip(1);
            if code == VARINT_BYTE {
                shifted(map_decoded(decode_u8(rest), |v: u8| v as i64), 1)
            } else if code == VARINT_SBYTE {
                shifted(map_decoded(decode_i8(rest), |v: i8| v as i64), 1)
            } else if code == VARINT_UINT16 {
                shifted(map_decoded(decode_u16(rest), |v: u16| v as i64), 1)
            } else if code == VARINT_INT16 {
                shifted(map_decoded(decode_i16(rest), |v: i16| v as i64), 1)
            } else if code == VARINT_UINT32 {
                shifted(map_decoded(decode_u32(rest), |v: u32| v as i64), 1)
            } else if code == VARINT_INT32 {
                shifted(map_decoded(decode_i32(rest), |v: i32| v as i64), 1)
            } else if code == VARINT_UINT64 {
                let d64 = decode_u64(rest);
                match d64.0 {
                    Err(e) => (Err(e), 1 + d64.1),
                    Ok(v) => if v <= i64::MAX as u64 {
                        (Ok(v as i64), 1 + d64.1)
                    } else {
                        (Err(ErrorKind::DeserializationError), 1 + d64.1)
                    },
                }
            } else if code == VARINT_INT64 {
                shifted(decode_i64(rest), 1)
            } else {
                (Ok(code as i64), 1)
            }
        },
    }
}

/// Writes `x` as a variable-length integer.
pub fn write_varint(writer: &mut MemoryPackWriter, x: i64) -> (r: Result<(), MemoryPackError>)
    ensures
        r is Ok,
        appended(*old(writer), *final(writer), varint_bytes(x)),
{
    if 0 <= x {
        if x <= 127 {
            let _ = writer.write_i8(x as i8);
        } else if x <= 255 {
            let _ = writer.write_i8(VARINT_BYTE);
            let _ = writer.write_u8(x as u8);
        } else if x <= 0xFFFF {
            let _ = writer.write_i8(VARINT_UINT16);
            let _ = writer.write_u16(x as u16);
        } else if x <= 0xFFFF_FFFF {
            let _ = writer.write_i8(VARINT_UINT32);
            let _ = writer.write_u32(x as u32);
        } else {
            let _ = writer.write_i8(VARINT_INT64);
            let _ = writer.write_i64(x);
        }
    } else {
        if -120 <= x {
            let _ = writer.write_i8(x as i8);
        } else if -128 <= x {
            let _ = writer.write_i8(VARINT_SBYTE);
            let _ = writer.write_i8(x as i8);
        } else if -32768 <= x {
            let _ = writer.write_i8(VARINT_INT16);
            let _ = writer.write_i16(x as i16);
        } else if -0x8000_0000 <= x {
            let _ = writer.write_i8(VARINT_INT32);
            let _ = writer.write_i32(x as i32);
        } else {
            let _ = writer.write_i8(VARINT_INT64);
            let _ = writer.write_i64(x);
        }
    }
    proof {
        assert(writer@ =~= old(writer)@ + varint_bytes(x));
    }
    Ok(())
}

/// Reads a variable-length integer.
pub fn read_varint(reader: &mut MemoryPackReader) -> (r: Result<i64, MemoryPackError>)
    requires
        old(reader).wf(),
    ensures
        read_as(*old(reader), *final(reader), r, decode_varint(old(reader).rest())),
        refused_with(r, "Variable-length integer overflows i64"@),
{
    let ghost b = reader.rest();
    let code = match reader.read_i8() {
        Ok(c) => c,
        Err(e) => return Err(e),
    };
    proof {
        assert(reader.rest() =~= b.skip(1));
    }
    if code == VARINT_BYTE {
        match reader.read_u8() {
            Ok(v) => Ok(v as i64),
            Err(e) => Err(e),
        }
    } else if code == VARINT_SBYTE {
        match reader.read_i8() {
            Ok(v) => Ok(v as i64),
            Err(e) => Err(e),
        }
    } else if code == VARINT_UINT16 {
        match reader.read_u16() {
            Ok(v) => Ok(v as i64),
            Err(e) => Err(e),
        }
    } else if code == VARINT_INT16 {
        match reader.read_i16() {
            Ok(v) => Ok(v as i64),
            Err(e) => Err(e),
        }
    } else if code == VARINT_UINT32 {
        match reader.read_u32() {
            Ok(v) => Ok(v as i64),
            Err(e) => Err(e),
        }
    } else if code == VARINT_INT32 {
        match reader.read_i32() {
            Ok(v) => Ok(v as i64),
            Err(e) => Err(e),
        }
    } else if code == VARINT_UINT64 {
        match reader.read_u64() {
            Ok(v) => if v <= i64::MAX as u64 {
                Ok(v as i64)
            } else {
                Err(MemoryPackError::DeserializationError(str_to_string("Variable-length integer overflows i64")))
            },
            Err(e) => Err(e),
        }
    } else if code == VARINT_INT64 {
        reader.read_i64()
    } else {
        Ok(code as i64)
    }
}

/// Reading back what `write_varint` wrote gives the same value and consumes
/// exactly the bytes written, whatever follows them.
pub proof fn lemma_varint_round_trip(x: i64, rest: Seq<u8>)
    ensures
        decode_varint(varint_bytes(x) + rest) == (Ok::<i64, ErrorKind>(x), varint_bytes(x).len() as int),
{
    let e = varint_bytes(x);
    let b = e + rest;
    if (0 <= x && x <= 127) || (-120 <= x && x < 0) {
        lemma_i8_round_trip(x as i8, rest);
        assert(decode_i8(b) == (Ok::<i8, ErrorKind>(x as i8), 1int));
    } else {
        let code: i8 = if 0 <= x {
            if x <= 255 { VARINT_BYTE } else if x <= 0xFFFF { VARINT_UINT16 } else if x <= 0xFFFF_FFFF { VARINT_UINT32 } else { VARINT_INT64 }
        } else {
            if -128 <= x { VARINT_SBYTE } else if -32768 <= x { VARINT_INT16 } else if -0x8000_0000 <= x { VARINT_INT32 } else { VARINT_INT64 }
        };
        let payload = e.skip(1);
        assert(e =~= encode_i8(code) + payload);
        assert(b =~= encode_i8(code) + (payload + rest));
        lemma_i8_round_trip(code, payload + rest);
        assert(decode_i8(b) == (Ok::<i8, ErrorKind>(code), 1int));
        assert(b.skip(1) =~= payload + rest);
        if 0 <= x {
            if x <= 255 {
                assert(payload =~= encode_u8(x as u8));
                lemma_u8_round_trip(x as u8, rest);
            } else if x <= 0xFFFF {
                assert(payload =~= encode_u16(x as u16));
                crate::encoding::lemma_le_bytes_len(x as nat, 2);
                lemma_u16_round_trip(x as u16, rest);
            } else if x <= 0xFFFF_FFFF {
                assert(payload =~= encode_u32(x as u32));
                crate::encoding::lemma_le_bytes_len(x as nat, 4);
                lemma_u32_round_trip(x as u32, rest);
            } else {
                assert(payload =~= encode_i64(x));
                crate::encoding::lemma_le_bytes_len((x as u64) as nat, 8);
                lemma_i64_round_trip(x, rest);
            }
        } else {
            if -128 <= x {
                assert(payload =~= encode_i8(x as i8));
                lemma_i8_round_trip(x as i8, rest);
            } else if -32768 <= x {
                assert(payload =~= encode_i16(x as i16));
                crate::encoding::lemma_le_bytes_len(((x as i16) as u16) as nat, 2);
                lemma_i16_round_trip(x as i16, rest);
            } else if -0x8000_0000 <= x {
                assert(payload =~= encode_i32(x as i32));
                crate::encoding::lemma_le_bytes_len(((x as i32) as u32) as nat, 4);
                lemma_i32_round_trip(x as i32, rest);
            } else {
                assert(payload =~= encode_i64(x));
                crate::encoding::lemma_le_bytes_len((x as u64) as nat, 8);
                lemma_i64_round_trip(x, rest);
            }
        }
    }
}

} // verus!
