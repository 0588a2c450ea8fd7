//! Strings: owned, and borrowed from the data being read.
use crate::encoding::{decode_i32, encode_i32, lemma_i32_round_trip};
use crate::error::{Decoded, ErrorKind, MemoryPackError};
use crate::reader::{decode_str, decode_string, decode_utf8_body, shifted, MemoryPackReader};
use crate::text::{
    encode_str, encode_utf16, lemma_utf16_bytes_units, lemma_utf16_round_trip, utf16_bytes, utf16_len,
};
use crate::traits::{
    written, MemoryPackDeserialize, MemoryPackDeserializeZeroCopy, MemoryPackRoundTrip,
    MemoryPackSerialize,
};
use crate::writer::MemoryPackWriter;
use vstd::prelude::*;
use vstd::utf8::{decode_utf8, encode_utf8, encode_utf8_decode_utf8, encode_utf8_valid_utf8, valid_utf8};

verus! {

impl MemoryPackSerialize for String {
    open spec fn serializes_as(&self, bytes: Seq<u8>) -> bool {
        bytes == encode_str(self@)
    }

    fn serialize(&self, writer: &mut MemoryPackWriter) -> (r: Result<(), MemoryPackError>) {
        let r = writer.write_string(self.as_str());
        proof {
            assert(old(writer)@ =~= writer@.subrange(0, old(writer)@.len() as int));
            assert(written(*old(writer), *writer) =~= encode_str(self@));
        }
        r
    }
}

impl MemoryPackDeserialize for String {
    type Model = Seq<char>;

    open spec fn model(&self) -> Seq<char> {
        self@
    }

    open spec fn spec_deserialize(bytes: Seq<u8>) -> Decoded<Seq<char>> {
        decode_string(bytes)
    }

    fn deserialize(reader: &mut MemoryPackReader) -> (r: Result<Self, MemoryPackError>) {
        reader.read_string()
    }
}

/// A string reads back as itself from its wire form, whatever follows, when
/// its UTF-8 length fits the 32-bit header.
pub proof fn lemma_string_round_trip(s: Seq<char>, rest: Seq<u8>)
    requires
        encode_utf8(s).len() <= i32::MAX,
    ensures
        decode_string(encode_str(s) + rest) == (Ok::<Seq<char>, ErrorKind>(s), encode_str(s).len() as int),
        decode_str(encode_str(s) + rest) == (Ok::<Seq<char>, ErrorKind>(s), encode_str(s).len() as int),
{
    if s.len() == 0 {
        lemma_i32_round_trip(0, rest);
        assert(s =~= Seq::<char>::empty());
    } else {
        let b = encode_utf8(s);
        let n = b.len();
        let ni = n as i32;
        let m = !ni;
        assert(ni == n);
        assert(n >= 1);
        assert(!ni == -ni - 1) by (bit_vector);
        let u = utf16_len(s) as i32;
        let tail = encode_i32(u) + b + rest;
        let all = encode_str(s) + rest;
        assert(all =~= encode_i32(m) + tail);
        lemma_i32_round_trip(m, tail);
        lemma_i32_round_trip(u, b + rest);
        assert(all.skip(4) =~= tail);
        assert(tail.subrange(4, 4 + n as int) =~= b);
        encode_utf8_valid_utf8(s);
        encode_utf8_decode_utf8(s);
        assert(decode_utf8_body(tail, n) == (Ok::<Seq<char>, ErrorKind>(s), 4 + n as int));
    }
}

impl MemoryPackRoundTrip for String {
    open spec fn fits_format(&self) -> bool {
        encode_utf8(self@).len() <= i32::MAX
    }

    proof fn lemma_round_trip(&self, bytes: Seq<u8>, rest: Seq<u8>) {
        lemma_string_round_trip(self@, rest);
    }
}

impl MemoryPackSerialize for &str {
    open spec fn serializes_as(&self, bytes: Seq<u8>) -> bool {
        bytes == encode_str(self@)
    }

    fn serialize(&self, writer: &mut MemoryPackWriter) -> (r: Result<(), MemoryPackError>) {
        let r = writer.write_string(*self);
        proof {
            assert(old(writer)@ =~= writer@.subrange(0, old(writer)@.len() as int));
            assert(written(*old(writer), *writer) =~= encode_str(self@));
        }
        r
    }
}

impl<'a> MemoryPackDeserializeZeroCopy<'a> for &'a str {
    type Model = Seq<char>;

    open spec fn model(&self) -> Seq<char> {
        self@
    }

    open spec fn spec_deserialize(bytes: Seq<u8>) -> Decoded<Seq<char>> {
        decode_str(bytes)
    }

    fn deserialize(reader: &mut MemoryPackReader<'a>) -> (r: Result<Self, MemoryPackError>) {
        reader.read_str()
    }
}

/// The UTF-16 wire form of a string, which other writers of the format use:
/// the number of code units, then the units.
pub open spec fn encode_str_utf16(s: Seq<char>) -> Seq<u8> {
    encode_i32(encode_utf16(s).len() as i32) + utf16_bytes(encode_utf16(s))
}

/// A non-empty string written in UTF-16 reads back as itself, whatever
/// follows, when its code-unit count fits the 32-bit header.
pub proof fn lemma_utf16_string_round_trip(s: Seq<char>, rest: Seq<u8>)
    requires
        s.len() > 0,
        encode_utf16(s).len() <= i32::MAX,
    ensures
        decode_string(encode_str_utf16(s) + rest)
            == (Ok::<Seq<char>, ErrorKind>(s), 4 + 2 * encode_utf16(s).len() as int),
{
    let u = encode_utf16(s);
    let n = u.len();
    let body = utf16_bytes(u);
    lemma_utf16_bytes_units(u);
    lemma_utf16_round_trip(s);
    let all = encode_str_utf16(s) + rest;
    assert(all =~= encode_i32(n as i32) + (body + rest));
    lemma_i32_round_trip(n as i32, body + rest);
    assert(all.skip(4) =~= body + rest);
    assert((body + rest).take(2 * n as int) =~= body);
}

/// A string whose 32-bit header is `-1` (the null marker) or `0` reads as
/// the empty string and consumes exactly the header, whatever follows; the
/// borrowed reader does the same.
pub proof fn lemma_empty_headers(header: i32, rest: Seq<u8>)
    requires
        header == -1 || header == 0,
    ensures
        decode_string(encode_i32(header) + rest) == (Ok::<Seq<char>, ErrorKind>(Seq::<char>::empty()), 4int),
        decode_str(encode_i32(header) + rest) == (Ok::<Seq<char>, ErrorKind>(Seq::<char>::empty()), 4int),
        <String as MemoryPackDeserialize>::spec_deserialize(encode_i32(header) + rest)
            == (Ok::<Seq<char>, ErrorKind>(Seq::<char>::empty()), 4int),
{
    lemma_i32_round_trip(header, rest);
}

} // verus!
