//! Reading MemoryPack data from a byte slice.
use crate::encoding::{
    decode_bool, decode_i128, decode_i16, decode_i32, decode_i64, decode_i8, decode_le, decode_u128,
    decode_u16, decode_u32, decode_u64, decode_u8, le_value, lemma_le_value_bound, lemma_pow256_values,
    pow256,
};
use crate::error::{matches_outcome, refused_with, Decoded, ErrorKind, MemoryPackError};
use crate::state::MemoryPackReaderOptionalState;
use crate::text::{
    decode_utf16, encode_char, high_surrogate, is_high_surrogate, is_low_surrogate, is_surrogate,
    pair_code_point, utf16_units,
};
use vstd::prelude::*;
use vstd::slice::{slice_subrange, slice_to_vec};
use vstd::utf8::{decode_utf8, is_scalar, valid_utf8};

verus! {

#[verifier::external_type_specification]
#[verifier::external_body]
pub struct ExSimdUtf8Error(simdutf8::basic::Utf8Error);

/// `simdutf8::basic::from_utf8`: the string that `bytes` hold when they
/// are well-formed UTF-8, and an error otherwise.
#[verifier::external_body]
fn validate_utf8<'b>(bytes: &'b [u8]) -> (r: Result<&'b str, simdutf8::basic::Utf8Error>)
    ensures
        r is Ok <==> valid_utf8(bytes@),
        r matches Ok(s) ==> s@ == decode_utf8(bytes@),
{
    simdutf8::basic::from_utf8(bytes)
}

/// `str::to_string`: an owned copy of the string.
#[verifier::external_body]
pub(crate) fn str_to_string(s: &str) -> (r: String)
    ensures
        r@ == s@,
{
    s.to_string()
}

/// `char::from_u32`: the character with the given code, when it is one.
#[verifier::external_body]
fn char_from_u32(v: u32) -> (r: Option<char>)
    ensures
        r is Some <==> is_scalar(v),
        r matches Some(c) ==> c as u32 == v,
{
    char::from_u32(v)
}

/// `String::push`: appends a character.
#[verifier::external_body]
pub(crate) fn string_push(s: &mut String, c: char)
    ensures
        final(s)@ == old(s)@.push(c),
{
    s.push(c)
}

/// `<[u8; N]>::try_from` on a slice of length `N`: the same bytes as an array.
#[verifier::external_body]
fn slice_to_array<const N: usize>(s: &[u8]) -> (r: [u8; N])
    requires
        s@.len() == N,
    ensures
        r@ == s@,
{
    s.try_into().unwrap()
}

/// Adds `k` to the number of bytes that an outcome consumed.
pub open spec fn shifted<T>(d: Decoded<T>, k: int) -> Decoded<T> {
    (d.0, d.1 + k)
}

/// Decoding of `n` raw bytes from the front of `b`.
pub open spec fn decode_bytes(b: Seq<u8>, n: nat) -> Decoded<Seq<u8>> {
    if b.len() < n {
        (Err(ErrorKind::UnexpectedEndOfBuffer), 0)
    } else {
        (Ok(b.take(n as int)), n as int)
    }
}

/// Decoding of a UTF-8 string body of `count` bytes: a 32-bit character
/// count, which is not used, then the bytes.
pub open spec fn decode_utf8_body(b: Seq<u8>, count: nat) -> Decoded<Seq<char>> {
    if b.len() < 4 {
        (Err(ErrorKind::UnexpectedEndOfBuffer), 0)
    } else if b.len() - 4 < count {
        (Err(ErrorKind::UnexpectedEndOfBuffer), 4)
    } else {
        let bytes = b.subrange(4, 4 + count as int);
        if valid_utf8(bytes) {
            (Ok(decode_utf8(bytes)), 4 + count as int)
        } else {
            (Err(ErrorKind::InvalidUtf8), 4 + count as int)
        }
    }
}

/// Decoding of a UTF-16 string body of `count` code units.
pub open spec fn decode_utf16_body(b: Seq<u8>, count: nat) -> Decoded<Seq<char>> {
    if b.len() < 2 * count {
        (Err(ErrorKind::UnexpectedEndOfBuffer), 0)
    } else {
        match decode_utf16(utf16_units(b.take(2 * count as int))) {
            Some(s) => (Ok(s), 2 * count as int),
            None => (Err(ErrorKind::InvalidUtf8), 2 * count as int),
        }
    }
}

/// Decoding of a string: a 32-bit header that is `-1` or `0` for an empty
/// string, the complement of the UTF-8 byte count for a UTF-8 body, and the
/// number of code units for a UTF-16 body.
pub open spec fn decode_string(b: Seq<u8>) -> Decoded<Seq<char>> {
    match decode_i32(b).0 {
        Err(e) => (Err(e), 0),
        Ok(marker) => {
            let rest = b.skip(4);
            if marker == -1 || marker == 0 {
                (Ok(Seq::empty()), 4)
            } else if marker < 0 {
                shifted(decode_utf8_body(rest, (-marker - 1) as nat), 4)
            } else {
                shifted(decode_utf16_body(rest, marker as nat), 4)
            }
        },
    }
}

/// Decoding of a borrowed string: as `decode_string`, but a UTF-16 body is
/// refused.
pub open spec fn decode_str(b: Seq<u8>) -> Decoded<Seq<char>> {
    match decode_i32(b).0 {
        Err(e) => (Err(e), 0),
        Ok(marker) => {
            if marker == -1 || marker == 0 {
                (Ok(Seq::empty()), 4)
            } else if marker < 0 {
                shifted(decode_utf8_body(b.skip(4), (-marker - 1) as nat), 4)
            } else {
                (Err(ErrorKind::Utf16NotSupportedForZeroCopy), 4)
            }
        },
    }
}

/// Decoding of a single character from one UTF-16 code unit; a surrogate
/// cannot stand alone for a character.
pub open spec fn decode_char(b: Seq<u8>) -> Decoded<char> {
    let d = decode_u16(b);
    match d.0 {
        Err(e) => (Err(e), d.1),
        Ok(u) => if !is_surrogate(u) {
            (Ok((u as u32) as char), d.1)
        } else {
            (Err(ErrorKind::DeserializationError), d.1)
        },
    }
}

/// Prefixes the characters of a successful UTF-16 decoding.
pub open spec fn prepend_chars(pre: Seq<char>, o: Option<Seq<char>>) -> Option<Seq<char>> {
    match o {
        Some(s) => Some(pre + s),
        None => None,
    }
}

/// Reads MemoryPack data from a byte slice, front to back.
pub struct MemoryPackReader<'a> {
    data: &'a [u8],
    pos: usize,
    pub optional_state: Option<MemoryPackReaderOptionalState>,
}

/// A reader went from `r0` to `r1` by consuming `n` bytes and nothing else.
pub open spec fn advanced<'a>(r0: MemoryPackReader<'a>, r1: MemoryPackReader<'a>, n: int) -> bool {
    &&& r1.wf()
    &&& r1.data() == r0.data()
    &&& r1.pos() == r0.pos() + n
    &&& r1.state() == r0.state()
}

/// A read went from `r0` to `r1` and returned `r`, as the outcome `d` of
/// decoding the unread bytes of `r0` says.
pub open spec fn read_as<'a, T>(
    r0: MemoryPackReader<'a>,
    r1: MemoryPackReader<'a>,
    r: Result<T, MemoryPackError>,
    d: Decoded<T>,
) -> bool {
    matches_outcome(r, d.0) && advanced(r0, r1, d.1)
}

/// A read of text went from `r0` to `r1` and returned `r`, whose characters
/// the outcome `d` of decoding the unread bytes of `r0` gives.
pub open spec fn read_text_as<'a, S: View<V = Seq<char>>>(
    r0: MemoryPackReader<'a>,
    r1: MemoryPackReader<'a>,
    r: Result<S, MemoryPackError>,
    d: Decoded<Seq<char>>,
) -> bool {
    &&& match r {
        Ok(s) => d.0 == Ok::<Seq<char>, ErrorKind>(s@),
        Err(e) => d.0 == Err::<Seq<char>, ErrorKind>(e@),
    }
    &&& advanced(r0, r1, d.1)
}

/// A read of raw bytes went from `r0` to `r1` and returned `r`, as the
/// outcome `d` of decoding the unread bytes of `r0` says.
pub open spec fn read_bytes_as<'a, S: View<V = Seq<u8>>>(
    r0: MemoryPackReader<'a>,
    r1: MemoryPackReader<'a>,
    r: Result<S, MemoryPackError>,
    d: Decoded<Seq<u8>>,
) -> bool {
    &&& match r {
        Ok(s) => d.0 == Ok::<Seq<u8>, ErrorKind>(s@),
        Err(e) => d.0 == Err::<Seq<u8>, ErrorKind>(e@),
    }
    &&& advanced(r0, r1, d.1)
}

impl<'a> MemoryPackReader<'a> {
    /// The bytes being read.
    pub closed spec fn data(&self) -> Seq<u8> {
        self.data@
    }

    /// The index of the next byte to read.
    pub closed spec fn pos(&self) -> int {
        self.pos as int
    }

    /// The reference-tracking state.
    pub closed spec fn state(&self) -> Option<MemoryPackReaderOptionalState> {
        self.optional_state
    }

    /// The position is within the data.
    pub open spec fn wf(&self) -> bool {
        0 <= self.pos() <= self.data().len()
    }

    /// The bytes not read yet.
    pub open spec fn rest(&self) -> Seq<u8> {
        self.data().subrange(self.pos(), self.data().len() as int)
    }

    pub fn new(data: &'a [u8]) -> (r: Self)
        ensures
            r.wf(),
            r.data() == data@,
            r.pos() == 0,
            r.state() is None,
    {
        Self { data, pos: 0, optional_state: None }
    }

    pub fn new_with_state(data: &'a [u8]) -> (r: Self)
        ensures
            r.wf(),
            r.data() == data@,
            r.pos() == 0,
            r.state() matches Some(s) && s.ids() == Set::<u32>::empty(),
    {
        Self { data, pos: 0, optional_state: Some(MemoryPackReaderOptionalState::new()) }
    }

    /// The reference-tracking state, borrowed.
    pub fn reference_state(&self) -> (r: &Option<MemoryPackReaderOptionalState>)
        ensures
            *r == self.state(),
    {
        &self.optional_state
    }

    /// Reads `n` bytes as a little-endian number.
    fn read_le(&mut self, n: usize) -> (r: Result<u128, MemoryPackError>)
        requires
            old(self).wf(),
            n <= 16,
        ensures
            match decode_le(old(self).rest(), n as nat).0 {
                Ok(v) => r == Ok::<u128, MemoryPackError>(v as u128) && v < pow256(n as nat),
                Err(e) => r matches Err(x) && x@ == e,
            },
            advanced(*old(self), *final(self), decode_le(old(self).rest(), n as nat).1),
    {
        let len = self.data.len();
        if n > len - self.pos {
            return Err(MemoryPackError::UnexpectedEndOfBuffer);
        }
        let ghost s = self.rest().take(n as int);
        let mut acc: u128 = 0;
        let mut i: usize = n;
        proof {
            lemma_pow256_values();
        }
        while i > 0
            invariant
                self.wf(),
                self.data@ == old(self).data@,
                self.pos == old(self).pos,
                self.pos + n <= self.data@.len(),
                i <= n <= 16,
                s == self.data@.subrange(self.pos as int, self.pos + n),
                len == self.data@.len(),
                acc as nat == le_value(s.subrange(i as int, n as int)),
                pow256(15) == 0x1_0000_0000_0000_0000_0000_0000_0000_00,
            decreases i,
        {
            i = i - 1;
            assert(self.pos + i < self.data@.len());
            let b = self.data[self.pos + i];
            proof {
                let t = s.subrange(i + 1, n as int);
                lemma_le_value_bound(t);
                crate::encoding::lemma_pow256_monotonic(t.len(), 15);
                assert(s.subrange(i as int, n as int).drop_first() =~= t);
            }
            acc = acc * 256 + b as u128;
        }
        proof {
            assert(s.subrange(0, n as int) =~= s);
            lemma_le_value_bound(s);
            crate::encoding::lemma_pow256_monotonic(n as nat, 16);
        }
        self.pos = self.pos + n;
        Ok(acc)
    }

    pub fn read_u8(&mut self) -> (r: Result<u8, MemoryPackError>)
        requires
            old(self).wf(),
        ensures
            read_as(*old(self), *final(self), r, decode_u8(old(self).rest())),
    {
        if self.pos >= self.data.len() {
            return Err(MemoryPackError::UnexpectedEndOfBuffer);
        }
        let value = self.data[self.pos];
        proof {
            let b = self.rest();
            crate::encoding::lemma_le_value_single(b.take(1));
        }
        self.pos = self.pos + 1;
        Ok(value)
    }

    pub fn read_bool(&mut self) -> (r: Result<bool, MemoryPackError>)
        requires
            old(self).wf(),
        ensures
            read_as(*old(self), *final(self), r, decode_bool(old(self).rest())),
    {
        match self.read_u8() {
            Ok(v) => Ok(v == 1),
            Err(e) => Err(e),
        }
    }

    pub fn read_i8(&mut self) -> (r: Result<i8, MemoryPackError>)
        requires
            old(self).wf(),
        ensures
            read_as(*old(self), *final(self), r, decode_i8(old(self).rest())),
    {
        match self.read_u8() {
            Ok(v) => Ok(v as i8),
            Err(e) => Err(e),
        }
    }

    pub fn read_i16(&mut self) -> (r: Result<i16, MemoryPackError>)
        requires
            old(self).wf(),
        ensures
            read_as(*old(self), *final(self), r, decode_i16(old(self).rest())),
    {
        proof {
            lemma_pow256_values();
        }
        match self.read_le(2) {
            Ok(v) => Ok((v as u16) as i16),
            Err(e) => Err(e),
        }
    }

    pub fn read_u16(&mut self) -> (r: Result<u16, MemoryPackError>)
        requires
            old(self).wf(),
        ensures
            read_as(*old(self), *final(self), r, decode_u16(old(self).rest())),
    {
        proof {
            lemma_pow256_values();
        }
        match self.read_le(2) {
            Ok(v) => Ok(v as u16),
            Err(e) => Err(e),
        }
    }

    pub fn read_i32(&mut self) -> (r: Result<i32, MemoryPackError>)
        requires
            old(self).wf(),
        ensures
            read_as(*old(self), *final(self), r, decode_i32(old(self).rest())),
    {
        proof {
            lemma_pow256_values();
        }
        match self.read_le(4) {
            Ok(v) => Ok((v as u32) as i32),
            Err(e) => Err(e),
        }
    }

    pub fn read_u32(&mut self) -> (r: Result<u32, MemoryPackError>)
        requires
            old(self).wf(),
        ensures
            read_as(*old(self), *final(self), r, decode_u32(old(self).rest())),
    {
        proof {
            lemma_pow256_values();
        }
        match self.read_le(4) {
            Ok(v) => Ok(v as u32),
            Err(e) => Err(e),
        }
    }

    pub fn read_i64(&mut self) -> (r: Result<i64, MemoryPackError>)
        requires
            old(self).wf(),
        ensures
            read_as(*old(self), *final(self), r, decode_i64(old(self).rest())),
    {
        proof {
            lemma_pow256_values();
        }
        match self.read_le(8) {
            Ok(v) => Ok((v as u64) as i64),
            Err(e) => Err(e),
        }
    }

    pub fn read_u64(&mut self) -> (r: Result<u64, MemoryPackError>)
        requires
            old(self).wf(),
        ensures
            read_as(*old(self), *final(self), r, decode_u64(old(self).rest())),
    {
        proof {
            lemma_pow256_values();
        }
        match self.read_le(8) {
            Ok(v) => Ok(v as u64),
            Err(e) => Err(e),
        }
    }

    pub fn read_i128(&mut self) -> (r: Result<i128, MemoryPackError>)
        requires
            old(self).wf(),
        ensures
            read_as(*old(self), *final(self), r, decode_i128(old(self).rest())),
    {
        proof {
            lemma_pow256_values();
        }
        match self.read_le(16) {
            Ok(v) => Ok(v as i128),
            Err(e) => Err(e),
        }
    }

    pub fn read_u128(&mut self) -> (r: Result<u128, MemoryPackError>)
        requires
            old(self).wf(),
        ensures
            read_as(*old(self), *final(self), r, decode_u128(old(self).rest())),
    {
        self.read_le(16)
    }

    /// Reads one UTF-16 code unit as a character.
    pub fn read_char(&mut self) -> (r: Result<char, MemoryPackError>)
        requires
            old(self).wf(),
        ensures
            read_as(*old(self), *final(self), r, decode_char(old(self).rest())),
            refused_with(r, "Surrogate code unit cannot be converted to Rust char"@),
    {
        let code_unit = match self.read_u16() {
            Ok(v) => v,
            Err(e) => return Err(e),
        };
        if !(0xD800 <= code_unit && code_unit <= 0xDFFF) {
            return match char_from_u32(code_unit as u32) {
                Some(c) => {
                    proof {
                        vstd::utf8::char_u32_cast(c, code_unit as u32);
                    }
                    Ok(c)
                },
                None => Err(MemoryPackError::InvalidCodePoint),
            };
        }
        Err(
            MemoryPackError::DeserializationError(
                str_to_string("Surrogate code unit cannot be converted to Rust char"),
            ),
        )
    }

    /// Reads the next `length` bytes, borrowed from the data.
    pub fn read_bytes(&mut self, length: usize) -> (r: Result<&'a [u8], MemoryPackError>)
        requires
            old(self).wf(),
        ensures
            read_bytes_as(*old(self), *final(self), r, decode_bytes(old(self).rest(), length as nat)),
    {
        let pos = self.pos;
        let len = self.data.len();
        let end = match pos.checked_add(length) {
            Some(e) => e,
            None => return Err(MemoryPackError::UnexpectedEndOfBuffer),
        };
        if end > len {
            return Err(MemoryPackError::UnexpectedEndOfBuffer);
        }
        let slice = slice_subrange(self.data, pos, end);
        proof {
            assert(slice@ =~= self.rest().take(length as int));
        }
        self.pos = end;
        Ok(slice)
    }

    /// Reads the next `length` bytes into a new vector.
    pub fn read_bytes_vec(&mut self, length: usize) -> (r: Result<Vec<u8>, MemoryPackError>)
        requires
            old(self).wf(),
        ensures
            read_bytes_as(*old(self), *final(self), r, decode_bytes(old(self).rest(), length as nat)),
    {
        match self.read_bytes(length) {
            Ok(s) => Ok(slice_to_vec(s)),
            Err(e) => Err(e),
        }
    }

    /// Reads the next `N` bytes into an array.
    pub fn read_fixed_bytes<const N: usize>(&mut self) -> (r: Result<[u8; N], MemoryPackError>)
        requires
            old(self).wf(),
        ensures
            read_bytes_as(*old(self), *final(self), r, decode_bytes(old(self).rest(), N as nat)),
    {
        match self.read_bytes(N) {
            Ok(s) => Ok(slice_to_array::<N>(s)),
            Err(e) => Err(e),
        }
    }

    /// Reads a string.
    pub fn read_string(&mut self) -> (r: Result<String, MemoryPackError>)
        requires
            old(self).wf(),
        ensures
            read_text_as(*old(self), *final(self), r, decode_string(old(self).rest())),
    {
        let ghost b = self.rest();
        let length_or_marker = match self.read_i32() {
            Ok(v) => v,
            Err(e) => return Err(e),
        };
        proof {
            assert(self.rest() =~= b.skip(4));
        }
        if length_or_marker == -1 {
            return Ok(String::new());
        }
        if length_or_marker < 0 {
            proof {
                assert(!length_or_marker == -length_or_marker - 1) by (bit_vector);
            }
            return self.read_utf8_string(!length_or_marker as usize);
        }
        let char_count = length_or_marker as usize;
        if char_count == 0 {
            return Ok(String::new());
        }
        self.read_utf16_string(char_count)
    }

    fn read_utf8_string(&mut self, byte_count: usize) -> (r: Result<String, MemoryPackError>)
        requires
            old(self).wf(),
        ensures
            read_text_as(*old(self), *final(self), r, decode_utf8_body(old(self).rest(), byte_count as nat)),
    {
        let ghost b = self.rest();
        let _char_length = match self.read_i32() {
            Ok(v) => v,
            Err(e) => return Err(e),
        };
        proof {
            assert(self.rest() =~= b.skip(4));
        }
        let slice = match self.read_bytes(byte_count) {
            Ok(s) => s,
            Err(e) => return Err(e),
        };
        proof {
            assert(slice@ =~= b.subrange(4, 4 + byte_count));
        }
        match validate_utf8(slice) {
            Ok(s) => Ok(str_to_string(s)),
            Err(_) => Err(MemoryPackError::InvalidUtf8),
        }
    }

    /// Reads a string whose bytes stay borrowed from the data; only UTF-8
    /// strings can be read so.
    pub fn read_str(&mut self) -> (r: Result<&'a str, MemoryPackError>)
        requires
            old(self).wf(),
        ensures
            read_text_as(*old(self), *final(self), r, decode_str(old(self).rest())),
    {
        let ghost b = self.rest();
        let length_or_marker = match self.read_i32() {
            Ok(v) => v,
            Err(e) => return Err(e),
        };
        proof {
            assert(self.rest() =~= b.skip(4));
        }
        if length_or_marker == -1 || length_or_marker == 0 {
            proof {
                reveal_strlit("");
                assert(""@ =~= Seq::<char>::empty());
            }
            return Ok("");
        }
        if length_or_marker < 0 {
            proof {
                assert(!length_or_marker == -length_or_marker - 1) by (bit_vector);
            }
            return self.read_utf8_str(!length_or_marker as usize);
        }
        Err(MemoryPackError::Utf16NotSupportedForZeroCopy)
    }

    fn read_utf8_str(&mut self, byte_count: usize) -> (r: Result<&'a str, MemoryPackError>)
        requires
            old(self).wf(),
        ensures
            read_text_as(*old(self), *final(self), r, decode_utf8_body(old(self).rest(), byte_count as nat)),
    {
        let ghost b = self.rest();
        let _char_length = match self.read_i32() {
            Ok(v) => v,
            Err(e) => return Err(e),
        };
        proof {
            assert(self.rest() =~= b.skip(4));
        }
        let slice = match self.read_bytes(byte_count) {
            Ok(s) => s,
            Err(e) => return Err(e),
        };
        proof {
            assert(slice@ =~= b.subrange(4, 4 + byte_count));
        }
        match validate_utf8(slice) {
            Ok(s) => Ok(s),
            Err(_) => Err(MemoryPackError::InvalidUtf8),
        }
    }

    fn read_utf16_string(&mut self, char_count: usize) -> (r: Result<String, MemoryPackError>)
        requires
            old(self).wf(),
            char_count <= i32::MAX,
        ensures
            read_text_as(*old(self), *final(self), r, decode_utf16_body(old(self).rest(), char_count as nat)),
    {
        let byte_count = char_count * 2;
        let slice = match self.read_bytes(byte_count) {
            Ok(s) => s,
            Err(e) => return Err(e),
        };
        let ghost units = utf16_units(slice@);
        let mut result = String::new();
        let mut i: usize = 0;
        proof {
            assert(units.skip(0) =~= units);
            assert(Seq::<char>::empty() + decode_utf16(units).unwrap_or(Seq::empty()) =~= decode_utf16(units).unwrap_or(Seq::empty()));
        }
        while i < byte_count
            invariant
                slice@.len() == byte_count,
                byte_count == 2 * char_count,
                old(self).rest().len() >= byte_count,
                slice@ == old(self).rest().take(byte_count as int),
                advanced(*old(self), *self, byte_count as int),
                units == utf16_units(slice@),
                i % 2 == 0,
                i <= byte_count,
                decode_utf16(units) == prepend_chars(result@, decode_utf16(units.skip(i as int / 2))),
            decreases byte_count - i,
        {
            let ghost k = i as int / 2;
            let ghost u = units.skip(k);
            assert(units.len() == char_count);
            assert(u.len() == char_count - k);
            let code_unit = slice[i] as u16 + (slice[i + 1] as u16) * 256;
            assert(code_unit == u[0]);
            i = i + 2;
            if !(0xD800 <= code_unit && code_unit <= 0xDFFF) {
                match char_from_u32(code_unit as u32) {
                    Some(c) => {
                        proof {
                            vstd::utf8::char_u32_cast(c, code_unit as u32);
                            assert(u.drop_first() =~= units.skip(k + 1));
                            let tail = decode_utf16(u.drop_first());
                            if tail is Some {
                                assert(result@.push(c) + tail.unwrap() =~= result@ + (seq![c] + tail.unwrap()));
                            }
                        }
                        string_push(&mut result, c);
                    },
                    None => {
                        return Err(MemoryPackError::InvalidUtf8);
                    },
                }
            } else if code_unit <= 0xDBFF {
                if byte_count - i < 2 {
                    assert(decode_utf16(u) is None);
                    return Err(MemoryPackError::InvalidUtf8);
                }
                let low = slice[i] as u16 + (slice[i + 1] as u16) * 256;
                assert(low == u[1]);
                i = i + 2;
                if !(0xDC00 <= low && low <= 0xDFFF) {
                    return Err(MemoryPackError::InvalidUtf8);
                }
                let hi_bits: u32 = code_unit as u32 - 0xD800;
                assert(hi_bits << 10 == hi_bits * 1024) by (bit_vector)
                    requires
                        hi_bits < 1024,
                ;
                let code_point = 0x10000 + (hi_bits << 10) + (low as u32 - 0xDC00);
                assert(code_point == pair_code_point(u[0], u[1]));
                match char_from_u32(code_point) {
                    Some(c) => {
                        proof {
                            vstd::utf8::char_u32_cast(c, code_point);
                            assert(u.skip(2) =~= units.skip(k + 2));
                            let tail = decode_utf16(u.skip(2));
                            if tail is Some {
                                assert(result@.push(c) + tail.unwrap() =~= result@ + (seq![c] + tail.unwrap()));
                            }
                        }
                        string_push(&mut result, c);
                    },
                    None => {
                        return Err(MemoryPackError::InvalidUtf8);
                    },
                }
            } else {
                assert(decode_utf16(u) is None);
                return Err(MemoryPackError::InvalidUtf8);
            }
        }
        proof {
            assert(units.skip(char_count as int) =~= Seq::<u16>::empty());
            assert(result@ + Seq::<char>::empty() =~= result@);
            assert(slice@.take(byte_count as int) =~= slice@);
        }
        Ok(result)
    }

    /// Moves past the next `n` bytes.
    pub fn skip(&mut self, n: usize) -> (r: Result<(), MemoryPackError>)
        requires
            old(self).wf(),
        ensures
            n <= old(self).rest().len() ==> r is Ok && advanced(*old(self), *final(self), n as int),
            n > old(self).rest().len() ==> (r matches Err(e) && e@ == ErrorKind::UnexpectedEndOfBuffer)
                && advanced(*old(self), *final(self), 0),
    {
        let len = self.data.len();
        let new_pos = match self.pos.checked_add(n) {
            Some(p) => p,
            None => return Err(MemoryPackError::UnexpectedEndOfBuffer),
        };
        if new_pos > len {
            return Err(MemoryPackError::UnexpectedEndOfBuffer);
        }
        self.pos = new_pos;
        Ok(())
    }

    /// Moves back over the last `n` bytes read.
    pub fn rewind(&mut self, n: usize) -> (r: Result<(), MemoryPackError>)
        requires
            old(self).wf(),
        ensures
            n <= old(self).pos() ==> r is Ok && advanced(*old(self), *final(self), -(n as int)),
            n > old(self).pos() ==> (r matches Err(e) && e@ == ErrorKind::UnexpectedEndOfBuffer)
                && advanced(*old(self), *final(self), 0),
    {
        if n > self.pos {
            return Err(MemoryPackError::UnexpectedEndOfBuffer);
        }
        self.pos = self.pos - n;
        Ok(())
    }

    /// The number of bytes read so far.
    pub fn position(&self) -> (r: u64)
        ensures
            r == self.pos(),
    {
        self.pos as u64
    }
}

/// A character of the basic plane reads back from its wire form, whatever
/// follows; a character beyond it is written as a lone high surrogate,
/// which is refused when read.
pub proof fn lemma_char_round_trip(c: char, rest: Seq<u8>)
    ensures
        c as u32 <= 0xFFFF ==> decode_char(encode_char(c) + rest) == (Ok::<char, ErrorKind>(c), 2int),
        c as u32 > 0xFFFF ==> decode_char(encode_char(c) + rest) == (
            Err::<char, ErrorKind>(ErrorKind::DeserializationError),
            2int,
        ),
{
    vstd::utf8::char_is_scalar(c);
    let cu = c as u32;
    vstd::utf8::char_u32_cast(c, cu);
    if cu <= 0xFFFF {
        crate::encoding::lemma_u16_round_trip(c as u16, rest);
        assert((c as u16) as u32 == cu);
    } else {
        let h = high_surrogate(c);
        crate::encoding::lemma_u16_round_trip(h, rest);
        assert(is_surrogate(h));
    }
}

/// Rewinding by what a successful skip moved over succeeds and brings the
/// reader back to where it was.
pub proof fn lemma_skip_then_rewind<'a>(r0: MemoryPackReader<'a>, r1: MemoryPackReader<'a>, r2: MemoryPackReader<'a>, n: usize)
    requires
        r0.wf(),
        advanced(r0, r1, n as int),
        advanced(r1, r2, -(n as int)),
    ensures
        n <= r1.pos(),
        r2.pos() == r0.pos(),
        r2.rest() == r0.rest(),
        r2.state() == r0.state(),
{
}

} // verus!
