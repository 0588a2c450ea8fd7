//! Whole-value entry points: serialize to a new buffer, deserialize from a
//! byte slice.
use crate::error::{ErrorKind, MemoryPackError};
use crate::reader::MemoryPackReader;
use crate::traits::{consumed, written, MemoryPackDeserialize, MemoryPackRoundTrip, MemoryPackSerialize};
use crate::writer::MemoryPackWriter;
use vstd::prelude::*;

verus! {

/// Entry points for serializing and deserializing whole values.
pub struct MemoryPackSerializer;

impl MemoryPackSerializer {
    /// A serialized form of `value`, in a new buffer.
    pub fn serialize<T: MemoryPackSerialize>(value: &T) -> (r: Result<Vec<u8>, MemoryPackError>)
        ensures
            r matches Ok(bytes) && value.serializes_as(bytes@),
    {
        let mut writer = MemoryPackWriter::new();
        let _ = value.serialize(&mut writer);
        proof {
            assert(writer@.skip(0) =~= writer@);
        }
        Ok(writer.into_bytes())
    }

    /// Appends a serialized form of `value` to `writer`.
    pub fn serialize_to<T: MemoryPackSerialize>(value: &T, writer: &mut MemoryPackWriter) -> (r: Result<(), MemoryPackError>)
        ensures
            r is Ok,
            old(writer)@.is_prefix_of(final(writer)@),
            value.serializes_as(written(*old(writer), *final(writer))),
    {
        value.serialize(writer)
    }

    /// Deserializes a value from the front of `data`; bytes after it are
    /// not looked at.
    pub fn deserialize<T: MemoryPackDeserialize>(data: &[u8]) -> (r: Result<T, MemoryPackError>)
        ensures
            match r {
                Ok(v) => T::spec_deserialize(data@).0 == Ok::<T::Model, ErrorKind>(v.model()),
                Err(e) => T::spec_deserialize(data@).0 == Err::<T::Model, ErrorKind>(e@),
            },
    {
        let mut reader = MemoryPackReader::new(data);
        proof {
            assert(reader.rest() =~= data@);
        }
        T::deserialize(&mut reader)
    }

    /// Deserializes a value from `reader`.
    pub fn deserialize_from<T: MemoryPackDeserialize>(reader: &mut MemoryPackReader) -> (r: Result<T, MemoryPackError>)
        requires
            old(reader).wf(),
        ensures
            consumed(*old(reader), *final(reader), T::spec_deserialize(old(reader).rest()).1),
            match r {
                Ok(v) => T::spec_deserialize(old(reader).rest()).0 == Ok::<T::Model, ErrorKind>(v.model()),
                Err(e) => T::spec_deserialize(old(reader).rest()).0 == Err::<T::Model, ErrorKind>(e@),
            },
    {
        T::deserialize(reader)
    }
}

/// What `serialize` gives, `deserialize` reads back: decoding a serialized
/// form of a value that fits the format gives the value and consumes the
/// whole form.
pub proof fn lemma_serializer_round_trip<T: MemoryPackRoundTrip>(value: T, bytes: Seq<u8>)
    requires
        value.fits_format(),
        value.serializes_as(bytes),
    ensures
        T::spec_deserialize(bytes) == (Ok::<T::Model, ErrorKind>(value.model()), bytes.len() as int),
{
    value.lemma_round_trip(bytes, Seq::empty());
    assert(bytes + Seq::<u8>::empty() =~= bytes);
}


/// A value has one serialized form.
pub open spec fn has_one_form<T: MemoryPackSerialize>(value: T) -> bool {
    forall|b1: Seq<u8>, b2: Seq<u8>| #[trigger] value.serializes_as(b1) && #[trigger] value.serializes_as(b2) ==> b1 == b2
}

/// For a value with one serialized form, `serialize_to` appends exactly the
/// bytes that `serialize` returns, leaving what was there untouched.
pub proof fn lemma_serialize_to_appends_serialized<T: MemoryPackSerialize>(
    value: T,
    bytes: Seq<u8>,
    w0: MemoryPackWriter,
    w1: MemoryPackWriter,
)
    requires
        has_one_form(value),
        value.serializes_as(bytes),
        w0@.is_prefix_of(w1@),
        value.serializes_as(written(w0, w1)),
    ensures
        w1@ == w0@ + bytes,
{
    assert(written(w0, w1) == bytes);
    assert(w0@ =~= w1@.subrange(0, w0@.len() as int));
    assert(w1@ =~= w0@ + written(w0, w1));
}
} // verus!
