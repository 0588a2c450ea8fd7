//! Optional values: `Option<T>` with a presence flag, and the nullable
//! string and sequence forms that use a `-1` length for "none".
use crate::encoding::{decode_i32, encode_i32, lemma_i32_round_trip};
use crate::error::{Decoded, ErrorKind, MemoryPackError};
use crate::reader::{decode_string, MemoryPackReader};
use crate::text::encode_str;
use crate::traits::collections::{
    all_fit, decode_items, deserialize_items, items_serialize_as, lemma_items_round_trip, models,
    seq_serializes_as, serialize_items,
};
use crate::traits::strings::lemma_string_round_trip;
use crate::traits::{
    consumed, written, MemoryPackDeserialize, MemoryPackRoundTrip, MemoryPackSerialize,
};
use crate::writer::MemoryPackWriter;
use vstd::prelude::*;
use vstd::utf8::encode_utf8;

verus! {

/// `bytes` is a serialized form of `opt`: the flag `1` and the value, or
/// the flag `0` and a default value.
pub open spec fn option_serializes_as<T: MemoryPackSerialize + Default>(opt: Option<T>, bytes: Seq<u8>) -> bool {
    &&& bytes.len() >= 4
    &&& match opt {
        Some(v) => bytes.take(4) == encode_i32(1) && v.serializes_as(bytes.skip(4)),
        None => bytes.take(4) == encode_i32(0) && exists|d: T|
            #[trigger] call_ensures(T::default, (), d) && d.serializes_as(bytes.skip(4)),
    }
}

/// Decoding of an optional value: the 32-bit flag, then a value, which
/// stands for none when the flag is `0`.
pub open spec fn decode_option<T: MemoryPackDeserialize>(b: Seq<u8>) -> Decoded<Option<T::Model>> {
    match decode_i32(b).0 {
        Err(e) => (Err(e), 0),
        Ok(h) => {
            let (r, k) = T::spec_deserialize(b.skip(4));
            match r {
                Err(e) => (Err(e), 4 + k),
                Ok(v) => (Ok(if h == 0 { None } else { Some(v) }), 4 + k),
            }
        },
    }
}

/// The value that an optional value stands for.
pub open spec fn option_model<T: MemoryPackDeserialize>(opt: Option<T>) -> Option<T::Model> {
    match opt {
        Some(v) => Some(v.model()),
        None => None,
    }
}

fn serialize_option_generic<T: MemoryPackSerialize + Default>(opt: &Option<T>, writer: &mut MemoryPackWriter) -> (r: Result<(), MemoryPackError>)
    ensures
        r is Ok,
        old(writer)@.is_prefix_of(final(writer)@),
        option_serializes_as(*opt, written(*old(writer), *final(writer))),
{
    let ghost w0 = *writer;
    match opt {
        Some(value) => {
            let _ = writer.write_i32(1);
            let ghost w1 = *writer;
            let _ = value.serialize(writer);
            proof {
                crate::encoding::lemma_le_bytes_len(1, 4);
                assert(w1@ =~= writer@.subrange(0, w1@.len() as int));
                let w = written(w0, *writer);
                assert(encode_i32(1).len() == 4);
                assert(w1@ == w0@ + encode_i32(1));
                assert(w.take(4) =~= w1@.subrange(w0@.len() as int, w0@.len() + 4int));
                assert(w.take(4) =~= encode_i32(1));
                assert(w.skip(4) =~= written(w1, *writer));
            }
        },
        None => {
            let _ = writer.write_i32(0);
            let ghost w1 = *writer;
            let d = T::default();
            let _ = d.serialize(writer);
            proof {
                crate::encoding::lemma_le_bytes_len(0, 4);
                assert(w1@ =~= writer@.subrange(0, w1@.len() as int));
                let w = written(w0, *writer);
                assert(encode_i32(0).len() == 4);
                assert(w1@ == w0@ + encode_i32(0));
                assert(w.take(4) =~= w1@.subrange(w0@.len() as int, w0@.len() + 4int));
                assert(w.take(4) =~= encode_i32(0));
                assert(w.skip(4) =~= written(w1, *writer));
                assert(call_ensures(T::default, (), d) && d.serializes_as(w.skip(4)));
            }
        },
    }
    proof {
        assert(w0@ =~= writer@.subrange(0, w0@.len() as int));
    }
    Ok(())
}

fn deserialize_option_generic<T: MemoryPackDeserialize>(reader: &mut MemoryPackReader) -> (r: Result<Option<T>, MemoryPackError>)
    requires
        old(reader).wf(),
    ensures
        consumed(*old(reader), *final(reader), decode_option::<T>(old(reader).rest()).1),
        match r {
            Ok(v) => decode_option::<T>(old(reader).rest()).0 == Ok::<Option<T::Model>, ErrorKind>(option_model(v)),
            Err(e) => decode_option::<T>(old(reader).rest()).0 == Err::<Option<T::Model>, ErrorKind>(e@),
        },
{
    let ghost b = reader.rest();
    let has_value = match reader.read_i32() {
        Ok(h) => h,
        Err(e) => return Err(e),
    };
    proof {
        assert(reader.rest() =~= b.skip(4));
    }
    let value = match T::deserialize(reader) {
        Ok(v) => v,
        Err(e) => return Err(e),
    };
    if has_value == 0 {
        Ok(None)
    } else {
        Ok(Some(value))
    }
}

impl<T: MemoryPackSerialize + Default> MemoryPackSerialize for Option<T> {
    open spec fn serializes_as(&self, bytes: Seq<u8>) -> bool {
        option_serializes_as(*self, bytes)
    }

    fn serialize(&self, writer: &mut MemoryPackWriter) -> (r: Result<(), MemoryPackError>) {
        serialize_option_generic(self, writer)
    }
}

impl<T: MemoryPackDeserialize> MemoryPackDeserialize for Option<T> {
    type Model = Option<T::Model>;

    open spec fn model(&self) -> Option<T::Model> {
        option_model(*self)
    }

    open spec fn spec_deserialize(bytes: Seq<u8>) -> Decoded<Option<T::Model>> {
        decode_option::<T>(bytes)
    }

    fn deserialize(reader: &mut MemoryPackReader) -> (r: Result<Self, MemoryPackError>) {
        deserialize_option_generic(reader)
    }
}

impl<T: MemoryPackRoundTrip + Default> MemoryPackRoundTrip for Option<T> {
    /// A present value must fit the format; for an absent one, every value
    /// that `T::default` may give must.
    open spec fn fits_format(&self) -> bool {
        match self {
            Some(v) => v.fits_format(),
            None => forall|d: T| #[trigger] call_ensures(T::default, (), d) ==> d.fits_format(),
        }
    }

    proof fn lemma_round_trip(&self, bytes: Seq<u8>, rest: Seq<u8>) {
        let all = bytes + rest;
        let h: i32 = if self is Some { 1 } else { 0 };
        assert(bytes.take(4) == encode_i32(h));
        assert(all =~= encode_i32(h) + (bytes.skip(4) + rest));
        lemma_i32_round_trip(h, bytes.skip(4) + rest);
        assert(all.skip(4) =~= bytes.skip(4) + rest);
        match self {
            Some(v) => {
                v.lemma_round_trip(bytes.skip(4), rest);
            },
            None => {
                let d = choose|d: T| #[trigger] call_ensures(T::default, (), d) && d.serializes_as(bytes.skip(4));
                d.lemma_round_trip(bytes.skip(4), rest);
            },
        }
    }
}

fn serialize_nullable_string(opt: &Option<String>, writer: &mut MemoryPackWriter) -> (r: Result<(), MemoryPackError>)
    ensures
        r is Ok,
        final(writer)@ == old(writer)@ + nullable_string_bytes(*opt),
        final(writer).optional_state == old(writer).optional_state,
{
    match opt {
        Some(value) => writer.write_string(value.as_str()),
        None => writer.write_i32(-1),
    }
}

fn deserialize_nullable_string(reader: &mut MemoryPackReader) -> (r: Result<Option<String>, MemoryPackError>)
    requires
        old(reader).wf(),
    ensures
        consumed(*old(reader), *final(reader), decode_nullable_string(old(reader).rest()).1),
        match r {
            Ok(v) => decode_nullable_string(old(reader).rest()).0 == Ok::<Option<Seq<char>>, ErrorKind>(
                match v {
                    Some(s) => Some(s@),
                    None => None,
                },
            ),
            Err(e) => decode_nullable_string(old(reader).rest()).0 == Err::<Option<Seq<char>>, ErrorKind>(e@),
        },
{
    let len = match reader.read_i32() {
        Ok(l) => l,
        Err(e) => return Err(e),
    };
    if len == -1 {
        Ok(None)
    } else {
        let _ = reader.rewind(4);
        match String::deserialize(reader) {
            Ok(s) => Ok(Some(s)),
            Err(e) => Err(e),
        }
    }
}

/// The bytes of a nullable string: the string, or `-1` for none.
pub open spec fn nullable_string_bytes(opt: Option<String>) -> Seq<u8> {
    match opt {
        Some(s) => encode_str(s@),
        None => encode_i32(-1i32),
    }
}

/// Decoding of a nullable string: a header of `-1` stands for none;
/// otherwise a string.
pub open spec fn decode_nullable_string(b: Seq<u8>) -> Decoded<Option<Seq<char>>> {
    match decode_i32(b).0 {
        Err(e) => (Err(e), 0),
        Ok(len) => if len == -1 {
            (Ok(None), 4)
        } else {
            let (r, n) = decode_string(b);
            match r {
                Ok(s) => (Ok(Some(s)), n),
                Err(e) => (Err(e), n),
            }
        },
    }
}

/// A string that may be absent, written with a `-1` header for none.
#[derive(Debug, Clone, PartialEq, Eq)]
pub struct NullableString(pub Option<String>);

impl MemoryPackSerialize for NullableString {
    open spec fn serializes_as(&self, bytes: Seq<u8>) -> bool {
        bytes == nullable_string_bytes(self.0)
    }

    fn serialize(&self, writer: &mut MemoryPackWriter) -> (r: Result<(), MemoryPackError>) {
        let r = serialize_nullable_string(&self.0, writer);
        proof {
            assert(old(writer)@ =~= writer@.subrange(0, old(writer)@.len() as int));
            assert(written(*old(writer), *writer) =~= nullable_string_bytes(self.0));
        }
        r
    }
}

impl MemoryPackDeserialize for NullableString {
    type Model = Option<Seq<char>>;

    open spec fn model(&self) -> Option<Seq<char>> {
        match self.0 {
            Some(s) => Some(s@),
            None => None,
        }
    }

    open spec fn spec_deserialize(bytes: Seq<u8>) -> Decoded<Option<Seq<char>>> {
        decode_nullable_string(bytes)
    }

    fn deserialize(reader: &mut MemoryPackReader) -> (r: Result<Self, MemoryPackError>) {
        match deserialize_nullable_string(reader) {
            Ok(v) => Ok(NullableString(v)),
            Err(e) => Err(e),
        }
    }
}

impl MemoryPackRoundTrip for NullableString {
    open spec fn fits_format(&self) -> bool {
        match self.0 {
            Some(s) => encode_utf8(s@).len() <= i32::MAX,
            None => true,
        }
    }

    proof fn lemma_round_trip(&self, bytes: Seq<u8>, rest: Seq<u8>) {
        match self.0 {
            Some(s) => {
                lemma_string_round_trip(s@, rest);
                let all = bytes + rest;
                if s@.len() == 0 {
                    lemma_i32_round_trip(0, rest);
                } else {
                    let n = encode_utf8(s@).len();
                    let ni = n as i32;
                    assert(!ni == -ni - 1) by (bit_vector);
                    let tail = encode_i32(crate::text::utf16_len(s@) as i32) + encode_utf8(s@) + rest;
                    assert(all =~= encode_i32(!ni) + tail);
                    lemma_i32_round_trip(!ni, tail);
                }
            },
            None => {
                lemma_i32_round_trip(-1i32, rest);
            },
        }
    }
}

fn serialize_nullable_vec<T: MemoryPackSerialize>(opt: &Option<Vec<T>>, writer: &mut MemoryPackWriter) -> (r: Result<(), MemoryPackError>)
    ensures
        r is Ok,
        old(writer)@.is_prefix_of(final(writer)@),
        nullable_vec_serializes_as(*opt, written(*old(writer), *final(writer))),
{
    match opt {
        Some(vec) => {
            let _ = writer.write_i32(vec.len() as i32);
            let ghost mid = *writer;
            serialize_items(vec.as_slice(), writer);
            proof {
                crate::encoding::lemma_le_bytes_len((vec@.len() as i32 as u32) as nat, 4);
                let enc = encode_i32(vec@.len() as i32);
                assert(mid@ =~= writer@.subrange(0, mid@.len() as int));
                let w = written(*old(writer), *writer);
                assert(w.take(4) =~= mid@.subrange(old(writer)@.len() as int, old(writer)@.len() + 4int));
                assert(w.take(4) =~= enc);
                assert(w.skip(4) =~= written(mid, *writer));
                assert(old(writer)@ =~= writer@.subrange(0, old(writer)@.len() as int));
            }
            Ok(())
        },
        None => {
            let r = writer.write_i32(-1);
            proof {
                assert(old(writer)@ =~= writer@.subrange(0, old(writer)@.len() as int));
                assert(written(*old(writer), *writer) =~= encode_i32(-1i32));
            }
            r
        },
    }
}

fn deserialize_nullable_vec<T: MemoryPackDeserialize>(reader: &mut MemoryPackReader) -> (r: Result<Option<Vec<T>>, MemoryPackError>)
    requires
        old(reader).wf(),
    ensures
        consumed(*old(reader), *final(reader), decode_nullable_vec::<T>(old(reader).rest()).1),
        match r {
            Ok(v) => decode_nullable_vec::<T>(old(reader).rest()).0 == Ok::<Option<Seq<T::Model>>, ErrorKind>(
                match v {
                    Some(items) => Some(models(items@)),
                    None => None,
                },
            ),
            Err(e) => decode_nullable_vec::<T>(old(reader).rest()).0 == Err::<Option<Seq<T::Model>>, ErrorKind>(e@),
        },
{
    let ghost b = reader.rest();
    let size = match reader.read_i32() {
        Ok(s) => s,
        Err(e) => return Err(e),
    };
    proof {
        assert(reader.rest() =~= b.skip(4));
    }
    if size == -1 {
        return Ok(None);
    }
    if size < 0 {
        return Err(MemoryPackError::InvalidLength(size));
    }
    match deserialize_items(reader, size as usize) {
        Ok(items) => Ok(Some(items)),
        Err(e) => Err(e),
    }
}

/// `bytes` is a serialized form of a nullable sequence: the sequence, or
/// `-1` for none.
pub open spec fn nullable_vec_serializes_as<T: MemoryPackSerialize>(opt: Option<Vec<T>>, bytes: Seq<u8>) -> bool {
    match opt {
        Some(v) => seq_serializes_as(v@, bytes),
        None => bytes == encode_i32(-1i32),
    }
}

/// Decoding of a nullable sequence: a count of `-1` stands for none, any
/// other negative count is refused, and a count of zero or more is
/// followed by that many values.
pub open spec fn decode_nullable_vec<T: MemoryPackDeserialize>(b: Seq<u8>) -> Decoded<Option<Seq<T::Model>>> {
    match decode_i32(b).0 {
        Err(e) => (Err(e), 0),
        Ok(size) => if size == -1 {
            (Ok(None), 4)
        } else if size < 0 {
            (Err(ErrorKind::InvalidLength(size)), 4)
        } else {
            let (r, n) = decode_items::<T>(b.skip(4), size as nat);
            match r {
                Ok(items) => (Ok(Some(items)), 4 + n),
                Err(e) => (Err(e), 4 + n),
            }
        },
    }
}

/// A sequence that may be absent, written with a `-1` count for none.
#[derive(Debug, Clone, PartialEq, Eq)]
pub struct NullableVec<T>(pub Option<Vec<T>>);

impl<T: MemoryPackSerialize> MemoryPackSerialize for NullableVec<T> {
    open spec fn serializes_as(&self, bytes: Seq<u8>) -> bool {
        nullable_vec_serializes_as(self.0, bytes)
    }

    fn serialize(&self, writer: &mut MemoryPackWriter) -> (r: Result<(), MemoryPackError>) {
        serialize_nullable_vec(&self.0, writer)
    }
}

impl<T: MemoryPackDeserialize> MemoryPackDeserialize for NullableVec<T> {
    type Model = Option<Seq<T::Model>>;

    open spec fn model(&self) -> Option<Seq<T::Model>> {
        match self.0 {
            Some(items) => Some(models(items@)),
            None => None,
        }
    }

    open spec fn spec_deserialize(bytes: Seq<u8>) -> Decoded<Option<Seq<T::Model>>> {
        decode_nullable_vec::<T>(bytes)
    }

    fn deserialize(reader: &mut MemoryPackReader) -> (r: Result<Self, MemoryPackError>) {
        match deserialize_nullable_vec(reader) {
            Ok(v) => Ok(NullableVec(v)),
            Err(e) => Err(e),
        }
    }
}

impl<T: MemoryPackRoundTrip> MemoryPackRoundTrip for NullableVec<T> {
    open spec fn fits_format(&self) -> bool {
        match self.0 {
            Some(items) => items@.len() <= i32::MAX && all_fit(items@),
            None => true,
        }
    }

    proof fn lemma_round_trip(&self, bytes: Seq<u8>, rest: Seq<u8>) {
        match self.0 {
            Some(items) => {
                let all = bytes + rest;
                assert(all =~= encode_i32(items@.len() as i32) + (bytes.skip(4) + rest));
                lemma_i32_round_trip(items@.len() as i32, bytes.skip(4) + rest);
                assert(all.skip(4) =~= bytes.skip(4) + rest);
                lemma_items_round_trip(items@, bytes.skip(4), rest);
            },
            None => {
                lemma_i32_round_trip(-1i32, rest);
            },
        }
    }
}


/// What the option writer writes, the option reader reads back, whatever
/// follows: a flag (`1` for a value, `0` for none), then the value or a
/// default one, which is read and dropped.
pub proof fn lemma_option_round_trip<T: MemoryPackRoundTrip + Default>(opt: Option<T>, bytes: Seq<u8>, rest: Seq<u8>)
    requires
        opt.fits_format(),
        option_serializes_as(opt, bytes),
    ensures
        decode_option::<T>(bytes + rest) == (Ok::<Option<T::Model>, ErrorKind>(option_model(opt)), bytes.len() as int),
{
    opt.lemma_round_trip(bytes, rest);
}

/// What the nullable-string writer writes, the nullable-string reader reads
/// back, whatever follows: `-1` for none, else the string.
pub proof fn lemma_nullable_string_round_trip(opt: Option<String>, rest: Seq<u8>)
    requires
        opt matches Some(s) ==> encode_utf8(s@).len() <= i32::MAX,
    ensures
        decode_nullable_string(nullable_string_bytes(opt) + rest) == (
            Ok::<Option<Seq<char>>, ErrorKind>(NullableString(opt).model()),
            nullable_string_bytes(opt).len() as int,
        ),
{
    NullableString(opt).lemma_round_trip(nullable_string_bytes(opt), rest);
}
} // verus!
