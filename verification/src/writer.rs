//! Writing MemoryPack data into a growing byte buffer.
use crate::encoding::{
    encode_bool, encode_i128, encode_i16, encode_i32, encode_i64, encode_i8, encode_u128,
    encode_u16, encode_u32, encode_u64, encode_u8, le_bytes,
};
use crate::error::MemoryPackError;
use crate::state::MemoryPackWriterOptionalState;
use crate::text::{encode_char, encode_str, high_surrogate, lemma_utf16_len_concat, lemma_utf16_len_le_utf8_len, utf16_len, utf16_width};
use crate::varint::{varint_bytes, write_varint};
use vstd::prelude::*;
use vstd::utf8::encode_utf8;

verus! {

broadcast use vstd::string::group_string_axioms;

/// Writes MemoryPack data into a byte buffer.
pub struct MemoryPackWriter {
    pub buffer: Vec<u8>,
    pub optional_state: Option<MemoryPackWriterOptionalState>,
}

impl View for MemoryPackWriter {
    type V = Seq<u8>;

    open spec fn view(&self) -> Seq<u8> {
        self.buffer@
    }
}

/// A writer went from `w0` to `w1` by appending `bytes` and nothing else.
pub open spec fn appended(w0: MemoryPackWriter, w1: MemoryPackWriter, bytes: Seq<u8>) -> bool {
    &&& w1@ == w0@ + bytes
    &&& w1.optional_state == w0.optional_state
}

/// Appends the `n` low-order bytes of `v`, least significant first.
fn append_le(buffer: &mut Vec<u8>, v: u128, n: usize)
    ensures
        final(buffer)@ == old(buffer)@ + le_bytes(v as nat, n as nat),
{
    let mut x = v;
    let mut i: usize = 0;
    proof {
        assert(old(buffer)@ =~= old(buffer)@ + Seq::<u8>::empty());
    }
    while i < n
        invariant
            i <= n,
            buffer@ + le_bytes(x as nat, (n - i) as nat) == old(buffer)@ + le_bytes(v as nat, n as nat),
        decreases n - i,
    {
        let ghost before = buffer@;
        buffer.push((x % 256) as u8);
        proof {
            let k = (n - i) as nat;
            assert(le_bytes(x as nat, k) == seq![(x % 256) as u8] + le_bytes((x / 256) as nat, (k - 1) as nat));
            assert(buffer@ + le_bytes((x / 256) as nat, (k - 1) as nat) =~= before + (seq![(x % 256) as u8] + le_bytes((x / 256) as nat, (k - 1) as nat)));
        }
        x = x / 256;
        i = i + 1;
    }
    proof {
        assert(buffer@ + le_bytes(x as nat, 0) =~= buffer@);
    }
}

/// Appends a slice of bytes.
pub(crate) fn append_bytes(buffer: &mut Vec<u8>, bytes: &[u8])
    ensures
        final(buffer)@ == old(buffer)@ + bytes@,
{
    let mut i: usize = 0;
    while i < bytes.len()
        invariant
            i <= bytes@.len(),
            buffer@ == old(buffer)@ + bytes@.take(i as int),
        decreases bytes@.len() - i,
    {
        buffer.push(bytes[i]);
        proof {
            assert(bytes@.take(i + 1) =~= bytes@.take(i as int).push(bytes@[i as int]));
        }
        i = i + 1;
    }
    proof {
        assert(bytes@.take(bytes@.len() as int) =~= bytes@);
    }
}

/// The number of UTF-16 code units needed for `s`.
fn count_utf16_code_units(s: &str) -> (n: usize)
    ensures
        n == utf16_len(s@),
{
    let total = s.as_bytes().len();
    let mut n: usize = 0;
    proof {
        lemma_utf16_len_le_utf8_len(s@);
    }
    for c in it: s.chars()
        invariant
            it.seq() == s@,
            n == utf16_len(s@.take(it.index() as int)),
            utf16_len(s@) <= total,
    {
        proof {
            let i = it.index() as int;
            assert(c == s@[i]);
            assert(s@.take(i + 1) =~= s@.take(i) + seq![c]);
            lemma_utf16_len_concat(s@.take(i), seq![c]);
            assert(seq![c].drop_first() =~= Seq::<char>::empty());
            assert(utf16_len(seq![c].drop_first()) == 0);
            assert(utf16_len(seq![c]) == utf16_width(c));
            assert(s@ =~= s@.take(i + 1) + s@.skip(i + 1));
            lemma_utf16_len_concat(s@.take(i + 1), s@.skip(i + 1));
        }
        n = n + if (c as u32) > 0xFFFF { 2 } else { 1 };
    }
    proof {
        assert(s@.take(s@.len() as int) =~= s@);
    }
    n
}

impl MemoryPackWriter {
    pub fn new() -> (w: Self)
        ensures
            w@ == Seq::<u8>::empty(),
            w.optional_state is None,
    {
        Self { buffer: Vec::new(), optional_state: None }
    }

    pub fn new_with_state() -> (w: Self)
        ensures
            w@ == Seq::<u8>::empty(),
            w.optional_state matches Some(s) && s.wf() && s.next_id() == 0
                && s.references() == Map::<usize, u32>::empty(),
    {
        Self { buffer: Vec::new(), optional_state: Some(MemoryPackWriterOptionalState::new()) }
    }

    pub fn with_capacity(capacity: usize) -> (w: Self)
        ensures
            w@ == Seq::<u8>::empty(),
            w.optional_state is None,
    {
        Self { buffer: Vec::with_capacity(capacity), optional_state: None }
    }

    /// The number of bytes written.
    pub fn len(&self) -> (n: usize)
        ensures
            n == self@.len(),
    {
        self.buffer.len()
    }

    pub fn is_empty(&self) -> (b: bool)
        ensures
            b <==> self@.len() == 0,
    {
        self.buffer.len() == 0
    }

    /// Writes a string: `0` when it is empty; otherwise the complement of its
    /// UTF-8 length, its UTF-16 length, then its UTF-8 bytes.
    pub fn write_string(&mut self, value: &str) -> (r: Result<(), MemoryPackError>)
        ensures
            r is Ok,
            appended(*old(self), *final(self), encode_str(value@)),
    {
        if value.is_empty() {
            return self.write_i32(0);
        }
        let bytes = value.as_bytes();
        let utf16_length = count_utf16_code_units(value) as i32;
        let _ = self.write_i32(!(bytes.len() as i32));
        let _ = self.write_i32(utf16_length);
        append_bytes(&mut self.buffer, bytes);
        proof {
            assert(self@ =~= old(self)@ + encode_str(value@));
        }
        Ok(())
    }

    /// Writes a string, or `-1` for none.
    pub fn write_string_option(&mut self, value: Option<&str>) -> (r: Result<(), MemoryPackError>)
        ensures
            r is Ok,
            appended(
                *old(self),
                *final(self),
                match value {
                    Some(s) => encode_str(s@),
                    None => encode_i32(-1i32),
                },
            ),
    {
        match value {
            Some(s) => self.write_string(s),
            None => self.write_i32(-1),
        }
    }

    pub fn write_bool(&mut self, value: bool) -> (r: Result<(), MemoryPackError>)
        ensures
            r is Ok,
            appended(*old(self), *final(self), encode_bool(value)),
    {
        self.buffer.push(if value { 1u8 } else { 0u8 });
        proof {
            assert(self@ =~= old(self)@ + encode_bool(value));
        }
        Ok(())
    }

    pub fn write_i8(&mut self, value: i8) -> (r: Result<(), MemoryPackError>)
        ensures
            r is Ok,
            appended(*old(self), *final(self), encode_i8(value)),
    {
        self.buffer.push(value as u8);
        proof {
            assert(self@ =~= old(self)@ + encode_i8(value));
        }
        Ok(())
    }

    pub fn write_u8(&mut self, value: u8) -> (r: Result<(), MemoryPackError>)
        ensures
            r is Ok,
            appended(*old(self), *final(self), encode_u8(value)),
    {
        self.buffer.push(value);
        proof {
            assert(self@ =~= old(self)@ + encode_u8(value));
        }
        Ok(())
    }

    pub fn write_i16(&mut self, value: i16) -> (r: Result<(), MemoryPackError>)
        ensures
            r is Ok,
            appended(*old(self), *final(self), encode_i16(value)),
    {
        append_le(&mut self.buffer, (value as u16) as u128, 2);
        Ok(())
    }

    pub fn write_u16(&mut self, value: u16) -> (r: Result<(), MemoryPackError>)
        ensures
            r is Ok,
            appended(*old(self), *final(self), encode_u16(value)),
    {
        append_le(&mut self.buffer, value as u128, 2);
        Ok(())
    }

    pub fn write_i32(&mut self, value: i32) -> (r: Result<(), MemoryPackError>)
        ensures
            r is Ok,
            appended(*old(self), *final(self), encode_i32(value)),
    {
        append_le(&mut self.buffer, (value as u32) as u128, 4);
        Ok(())
    }

    pub fn write_u32(&mut self, value: u32) -> (r: Result<(), MemoryPackError>)
        ensures
            r is Ok,
            appended(*old(self), *final(self), encode_u32(value)),
    {
        append_le(&mut self.buffer, value as u128, 4);
        Ok(())
    }

    pub fn write_i64(&mut self, value: i64) -> (r: Result<(), MemoryPackError>)
        ensures
            r is Ok,
            appended(*old(self), *final(self), encode_i64(value)),
    {
        append_le(&mut self.buffer, (value as u64) as u128, 8);
        Ok(())
    }

    pub fn write_u64(&mut self, value: u64) -> (r: Result<(), MemoryPackError>)
        ensures
            r is Ok,
            appended(*old(self), *final(self), encode_u64(value)),
    {
        append_le(&mut self.buffer, value as u128, 8);
        Ok(())
    }

    pub fn write_i128(&mut self, value: i128) -> (r: Result<(), MemoryPackError>)
        ensures
            r is Ok,
            appended(*old(self), *final(self), encode_i128(value)),
    {
        append_le(&mut self.buffer, value as u128, 16);
        Ok(())
    }

    pub fn write_u128(&mut self, value: u128) -> (r: Result<(), MemoryPackError>)
        ensures
            r is Ok,
            appended(*old(self), *final(self), encode_u128(value)),
    {
        append_le(&mut self.buffer, value, 16);
        Ok(())
    }

    /// Writes a character as one UTF-16 code unit; a character outside the
    /// basic plane is written as its high surrogate alone.
    pub fn write_char(&mut self, value: char) -> (r: Result<(), MemoryPackError>)
        ensures
            r is Ok,
            appended(*old(self), *final(self), encode_char(value)),
    {
        let code = value as u32;
        if code <= 0xFFFF {
            append_le(&mut self.buffer, (code as u16) as u128, 2);
        } else {
            let adjusted = code - 0x10000;
            assert(adjusted >> 10 == adjusted / 1024) by (bit_vector);
            assert(adjusted / 1024 < 1024);
            let high = ((adjusted >> 10) as u16) + 0xD800;
            assert(high == high_surrogate(value));
            append_le(&mut self.buffer, high as u128, 2);
        }
        Ok(())
    }

    /// The bytes written, taking the writer apart.
    pub fn into_bytes(self) -> (b: Vec<u8>)
        ensures
            b@ == self@,
    {
        self.buffer
    }

    /// The bytes written.
    pub fn as_bytes(&self) -> (b: &[u8])
        ensures
            b@ == self@,
    {
        self.buffer.as_slice()
    }

    /// Writes a reference to an object written before: the marker `250`, then
    /// the reference id as a variable-length integer.
    pub fn write_object_reference_id(&mut self, reference_id: u32) -> (r: Result<(), MemoryPackError>)
        ensures
            r is Ok,
            appended(*old(self), *final(self), encode_u8(250) + varint_bytes(reference_id as i64)),
    {
        let _ = self.write_u8(250);
        let _ = write_varint(self, reference_id as i64);
        proof {
            assert(self@ =~= old(self)@ + (encode_u8(250) + varint_bytes(reference_id as i64)));
        }
        Ok(())
    }
}

impl Default for MemoryPackWriter {
    fn default() -> (w: Self)
        ensures
            w@ == Seq::<u8>::empty(),
            w.optional_state is None,
    {
        Self::new()
    }
}

} // verus!
