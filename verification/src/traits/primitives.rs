//! The fixed-width primitive values.
use crate::encoding::{
    encode_bool, decode_bool, lemma_bool_round_trip,
    encode_i8, decode_i8, lemma_i8_round_trip,
    encode_u8, decode_u8, lemma_u8_round_trip,
    encode_i16, decode_i16, lemma_i16_round_trip,
    encode_u16, decode_u16, lemma_u16_round_trip,
    encode_i32, decode_i32, lemma_i32_round_trip,
    encode_u32, decode_u32, lemma_u32_round_trip,
    encode_i64, decode_i64, lemma_i64_round_trip,
    encode_u64, decode_u64, lemma_u64_round_trip,
};
use crate::error::{Decoded, MemoryPackError};
use crate::reader::MemoryPackReader;
use crate::traits::{
    written, MemoryPackDeserialize, MemoryPackRoundTrip, MemoryPackSerialize,
};
use crate::writer::MemoryPackWriter;
use vstd::prelude::*;

verus! {

impl MemoryPackSerialize for bool {
    open spec fn serializes_as(&self, bytes: Seq<u8>) -> bool {
        bytes == encode_bool(*self)
    }

    fn serialize(&self, writer: &mut MemoryPackWriter) -> (r: Result<(), MemoryPackError>) {
        let r = writer.write_bool(*self);
        proof {
            assert(old(writer)@ =~= writer@.subrange(0, old(writer)@.len() as int));
            assert(written(*old(writer), *writer) =~= encode_bool(*self));
        }
        r
    }
}

impl MemoryPackDeserialize for bool {
    type Model = bool;

    open spec fn model(&self) -> bool {
        *self
    }

    open spec fn spec_deserialize(bytes: Seq<u8>) -> Decoded<bool> {
        decode_bool(bytes)
    }

    fn deserialize(reader: &mut MemoryPackReader) -> (r: Result<Self, MemoryPackError>) {
        reader.read_bool()
    }
}

impl MemoryPackRoundTrip for bool {
    open spec fn fits_format(&self) -> bool {
        true
    }

    proof fn lemma_round_trip(&self, bytes: Seq<u8>, rest: Seq<u8>) {
        lemma_bool_round_trip(*self, rest);
    }
}

impl MemoryPackSerialize for i8 {
    open spec fn serializes_as(&self, bytes: Seq<u8>) -> bool {
        bytes == encode_i8(*self)
    }

    fn serialize(&self, writer: &mut MemoryPackWriter) -> (r: Result<(), MemoryPackError>) {
        let r = writer.write_i8(*self);
        proof {
            assert(old(writer)@ =~= writer@.subrange(0, old(writer)@.len() as int));
            assert(written(*old(writer), *writer) =~= encode_i8(*self));
        }
        r
    }
}

impl MemoryPackDeserialize for i8 {
    type Model = i8;

    open spec fn model(&self) -> i8 {
        *self
    }

    open spec fn spec_deserialize(bytes: Seq<u8>) -> Decoded<i8> {
        decode_i8(bytes)
    }

    fn deserialize(reader: &mut MemoryPackReader) -> (r: Result<Self, MemoryPackError>) {
        reader.read_i8()
    }
}

impl MemoryPackRoundTrip for i8 {
    open spec fn fits_format(&self) -> bool {
        true
    }

    proof fn lemma_round_trip(&self, bytes: Seq<u8>, rest: Seq<u8>) {
        lemma_i8_round_trip(*self, rest);
    }
}

impl MemoryPackSerialize for u8 {
    open spec fn serializes_as(&self, bytes: Seq<u8>) -> bool {
        bytes == encode_u8(*self)
    }

    fn serialize(&self, writer: &mut MemoryPackWriter) -> (r: Result<(), MemoryPackError>) {
        let r = writer.write_u8(*self);
        proof {
            assert(old(writer)@ =~= writer@.subrange(0, old(writer)@.len() as int));
            assert(written(*old(writer), *writer) =~= encode_u8(*self));
        }
        r
    }
}

impl MemoryPackDeserialize for u8 {
    type Model = u8;

    open spec fn model(&self) -> u8 {
        *self
    }

    open spec fn spec_deserialize(bytes: Seq<u8>) -> Decoded<u8> {
        decode_u8(bytes)
    }

    fn deserialize(reader: &mut MemoryPackReader) -> (r: Result<Self, MemoryPackError>) {
        reader.read_u8()
    }
}

impl MemoryPackRoundTrip for u8 {
    open spec fn fits_format(&self) -> bool {
        true
    }

    proof fn lemma_round_trip(&self, bytes: Seq<u8>, rest: Seq<u8>) {
        lemma_u8_round_trip(*self, rest);
    }
}

impl MemoryPackSerialize for i16 {
    open spec fn serializes_as(&self, bytes: Seq<u8>) -> bool {
        bytes == encode_i16(*self)
    }

    fn serialize(&self, writer: &mut MemoryPackWriter) -> (r: Result<(), MemoryPackError>) {
        let r = writer.write_i16(*self);
        proof {
            assert(old(writer)@ =~= writer@.subrange(0, old(writer)@.len() as int));
            assert(written(*old(writer), *writer) =~= encode_i16(*self));
        }
        r
    }
}

impl MemoryPackDeserialize for i16 {
    type Model = i16;

    open spec fn model(&self) -> i16 {
        *self
    }

    open spec fn spec_deserialize(bytes: Seq<u8>) -> Decoded<i16> {
        decode_i16(bytes)
    }

    fn deserialize(reader: &mut MemoryPackReader) -> (r: Result<Self, MemoryPackError>) {
        reader.read_i16()
    }
}

impl MemoryPackRoundTrip for i16 {
    open spec fn fits_format(&self) -> bool {
        true
    }

    proof fn lemma_round_trip(&self, bytes: Seq<u8>, rest: Seq<u8>) {
        lemma_i16_round_trip(*self, rest);
    }
}

impl MemoryPackSerialize for u16 {
    open spec fn serializes_as(&self, bytes: Seq<u8>) -> bool {
        bytes == encode_u16(*self)
    }

    fn serialize(&self, writer: &mut MemoryPackWriter) -> (r: Result<(), MemoryPackError>) {
        let r = writer.write_u16(*self);
        proof {
            assert(old(writer)@ =~= writer@.subrange(0, old(writer)@.len() as int));
            assert(written(*old(writer), *writer) =~= encode_u16(*self));
        }
        r
    }
}

impl MemoryPackDeserialize for u16 {
    type Model = u16;

    open spec fn model(&self) -> u16 {
        *self
    }

    open spec fn spec_deserialize(bytes: Seq<u8>) -> Decoded<u16> {
        decode_u16(bytes)
    }

    fn deserialize(reader: &mut MemoryPackReader) -> (r: Result<Self, MemoryPackError>) {
        reader.read_u16()
    }
}

impl MemoryPackRoundTrip for u16 {
    open spec fn fits_format(&self) -> bool {
        true
    }

    proof fn lemma_round_trip(&self, bytes: Seq<u8>, rest: Seq<u8>) {
        lemma_u16_round_trip(*self, rest);
    }
}

impl MemoryPackSerialize for i32 {
    open spec fn serializes_as(&self, bytes: Seq<u8>) -> bool {
        bytes == encode_i32(*self)
    }

    fn serialize(&self, writer: &mut MemoryPackWriter) -> (r: Result<(), MemoryPackError>) {
        let r = writer.write_i32(*self);
        proof {
            assert(old(writer)@ =~= writer@.subrange(0, old(writer)@.len() as int));
            assert(written(*old(writer), *writer) =~= encode_i32(*self));
        }
        r
    }
}

impl MemoryPackDeserialize for i32 {
    type Model = i32;

    open spec fn model(&self) -> i32 {
        *self
    }

    open spec fn spec_deserialize(bytes: Seq<u8>) -> Decoded<i32> {
        decode_i32(bytes)
    }

    fn deserialize(reader: &mut MemoryPackReader) -> (r: Result<Self, MemoryPackError>) {
        reader.read_i32()
    }
}

impl MemoryPackRoundTrip for i32 {
    open spec fn fits_format(&self) -> bool {
        true
    }

    proof fn lemma_round_trip(&self, bytes: Seq<u8>, rest: Seq<u8>) {
        lemma_i32_round_trip(*self, rest);
    }
}

impl MemoryPackSerialize for u32 {
    open spec fn serializes_as(&self, bytes: Seq<u8>) -> bool {
        bytes == encode_u32(*self)
    }

    fn serialize(&self, writer: &mut MemoryPackWriter) -> (r: Result<(), MemoryPackError>) {
        let r = writer.write_u32(*self);
        proof {
            assert(old(writer)@ =~= writer@.subrange(0, old(writer)@.len() as int));
            assert(written(*old(writer), *writer) =~= encode_u32(*self));
        }
        r
    }
}

impl MemoryPackDeserialize for u32 {
    type Model = u32;

    open spec fn model(&self) -> u32 {
        *self
    }

    open spec fn spec_deserialize(bytes: Seq<u8>) -> Decoded<u32> {
        decode_u32(bytes)
    }

    fn deserialize(reader: &mut MemoryPackReader) -> (r: Result<Self, MemoryPackError>) {
        reader.read_u32()
    }
}

impl MemoryPackRoundTrip for u32 {
    open spec fn fits_format(&self) -> bool {
        true
    }

    proof fn lemma_round_trip(&self, bytes: Seq<u8>, rest: Seq<u8>) {
        lemma_u32_round_trip(*self, rest);
    }
}

impl MemoryPackSerialize for i64 {
    open spec fn serializes_as(&self, bytes: Seq<u8>) -> bool {
        bytes == encode_i64(*self)
    }

    fn serialize(&self, writer: &mut MemoryPackWriter) -> (r: Result<(), MemoryPackError>) {
        let r = writer.write_i64(*self);
        proof {
            assert(old(writer)@ =~= writer@.subrange(0, old(writer)@.len() as int));
            assert(written(*old(writer), *writer) =~= encode_i64(*self));
        }
        r
    }
}

impl MemoryPackDeserialize for i64 {
    type Model = i64;

    open spec fn model(&self) -> i64 {
        *self
    }

    open spec fn spec_deserialize(bytes: Seq<u8>) -> Decoded<i64> {
        decode_i64(bytes)
    }

    fn deserialize(reader: &mut MemoryPackReader) -> (r: Result<Self, MemoryPackError>) {
        reader.read_i64()
    }
}

impl MemoryPackRoundTrip for i64 {
    open spec fn fits_format(&self) -> bool {
        true
    }

    proof fn lemma_round_trip(&self, bytes: Seq<u8>, rest: Seq<u8>) {
        lemma_i64_round_trip(*self, rest);
    }
}

impl MemoryPackSerialize for u64 {
    open spec fn serializes_as(&self, bytes: Seq<u8>) -> bool {
        bytes == encode_u64(*self)
    }

    fn serialize(&self, writer: &mut MemoryPackWriter) -> (r: Result<(), MemoryPackError>) {
        let r = writer.write_u64(*self);
        proof {
            assert(old(writer)@ =~= writer@.subrange(0, old(writer)@.len() as int));
            assert(written(*old(writer), *writer) =~= encode_u64(*self));
        }
        r
    }
}

impl MemoryPackDeserialize for u64 {
    type Model = u64;

    open spec fn model(&self) -> u64 {
        *self
    }

    open spec fn spec_deserialize(bytes: Seq<u8>) -> Decoded<u64> {
        decode_u64(bytes)
    }

    fn deserialize(reader: &mut MemoryPackReader) -> (r: Result<Self, MemoryPackError>) {
        reader.read_u64()
    }
}

impl MemoryPackRoundTrip for u64 {
    open spec fn fits_format(&self) -> bool {
        true
    }

    proof fn lemma_round_trip(&self, bytes: Seq<u8>, rest: Seq<u8>) {
        lemma_u64_round_trip(*self, rest);
    }
}

} // verus!
