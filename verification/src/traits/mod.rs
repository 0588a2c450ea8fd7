//! The serialization traits, and their implementations for the types that
//! the format carries.
use crate::error::{Decoded, ErrorKind, MemoryPackError};
use crate::reader::MemoryPackReader;
use crate::writer::MemoryPackWriter;
use vstd::prelude::*;

pub mod collections;
pub mod extended;
pub mod hashbrown_maps;
pub mod maps;
pub mod multidim;
pub mod options;
pub mod primitives;
pub mod smart_ptrs;
pub mod strings;
pub mod tuples;

verus! {

/// The bytes that a writer gained going from `w0` to `w1`, when `w1` only
/// appended to `w0`.
pub open spec fn written(w0: MemoryPackWriter, w1: MemoryPackWriter) -> Seq<u8> {
    w1@.skip(w0@.len() as int)
}

/// A type that can be written in the MemoryPack format.
pub trait MemoryPackSerialize {
    /// `bytes` is a serialized form of `self`.
    spec fn serializes_as(&self, bytes: Seq<u8>) -> bool;

    /// Appends a serialized form of `self` to the writer.
    fn serialize(&self, writer: &mut MemoryPackWriter) -> (r: Result<(), MemoryPackError>)
        ensures
            r is Ok,
            old(writer)@.is_prefix_of(final(writer)@),
            self.serializes_as(written(*old(writer), *final(writer))),
    ;
}

/// A reader went from `r0` to `r1` by consuming `n` bytes.
pub open spec fn consumed<'a>(r0: MemoryPackReader<'a>, r1: MemoryPackReader<'a>, n: int) -> bool {
    &&& 0 <= n
    &&& r1.wf()
    &&& r1.data() == r0.data()
    &&& r1.pos() == r0.pos() + n
}

/// A deserialization went from `r0` to `r1` and returned `r`, as the
/// outcome `d` of decoding the unread bytes of `r0` says.
pub open spec fn deserialized_as<'a, T: MemoryPackDeserialize>(
    r0: MemoryPackReader<'a>,
    r1: MemoryPackReader<'a>,
    r: Result<T, MemoryPackError>,
    d: Decoded<T::Model>,
) -> bool {
    &&& match r {
        Ok(v) => d.0 == Ok::<T::Model, ErrorKind>(v.model()),
        Err(e) => d.0 == Err::<T::Model, ErrorKind>(e@),
    }
    &&& consumed(r0, r1, d.1)
}

/// A type that can be read from the MemoryPack format.
pub trait MemoryPackDeserialize: Sized {
    /// The value that a `Self` stands for.
    type Model;

    spec fn model(&self) -> Self::Model;

    /// Decoding of a value from the front of `bytes`.
    spec fn spec_deserialize(bytes: Seq<u8>) -> Decoded<Self::Model>;

    /// Reads a value from the reader.
    fn deserialize(reader: &mut MemoryPackReader) -> (r: Result<Self, MemoryPackError>)
        requires
            old(reader).wf(),
        ensures
            consumed(*old(reader), *final(reader), Self::spec_deserialize(old(reader).rest()).1),
            match r {
                Ok(v) => Self::spec_deserialize(old(reader).rest()).0 == Ok::<Self::Model, ErrorKind>(v.model()),
                Err(e) => Self::spec_deserialize(old(reader).rest()).0 == Err::<Self::Model, ErrorKind>(e@),
            },
    ;
}

/// A type that can be read from the MemoryPack format while borrowing from
/// the data being read.
pub trait MemoryPackDeserializeZeroCopy<'a>: Sized {
    /// The value that a `Self` stands for.
    type Model;

    spec fn model(&self) -> Self::Model;

    /// Decoding of a value from the front of `bytes`.
    spec fn spec_deserialize(bytes: Seq<u8>) -> Decoded<Self::Model>;

    /// Reads a value from the reader.
    fn deserialize(reader: &mut MemoryPackReader<'a>) -> (r: Result<Self, MemoryPackError>)
        requires
            old(reader).wf(),
        ensures
            consumed(*old(reader), *final(reader), Self::spec_deserialize(old(reader).rest()).1),
            match r {
                Ok(v) => Self::spec_deserialize(old(reader).rest()).0 == Ok::<Self::Model, ErrorKind>(v.model()),
                Err(e) => Self::spec_deserialize(old(reader).rest()).0 == Err::<Self::Model, ErrorKind>(e@),
            },
    ;
}

/// A type whose serialized form reads back as the same value.
pub trait MemoryPackRoundTrip: MemoryPackSerialize + MemoryPackDeserialize {
    /// `self` can be carried by the format: every length it holds fits the
    /// format's fields.
    spec fn fits_format(&self) -> bool;

    /// Deserializing a serialized form of a value that fits the format gives
    /// the value back and consumes exactly that form, whatever follows it.
    proof fn lemma_round_trip(&self, bytes: Seq<u8>, rest: Seq<u8>)
        requires
            self.fits_format(),
            self.serializes_as(bytes),
        ensures
            Self::spec_deserialize(bytes + rest) == (Ok::<Self::Model, ErrorKind>(self.model()), bytes.len() as int),
    ;
}

} // verus!
