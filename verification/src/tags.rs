//! The leading value that tells which case of an enum follows: the tag of a
//! union (the index of its variant, in one byte) and the discriminant of a
//! C-like enum (an `i32`).
use crate::encoding::{decode_i32, decode_u8};
use crate::error::{refused_with, Decoded, ErrorKind, MemoryPackError};
use crate::reader::{read_as, str_to_string, string_push, MemoryPackReader};
use crate::state::{decimal_text, push_decimal};
use vstd::prelude::*;
use vstd::string::StringExecFns;

verus! {

/// The decimal text of `v`, with a minus sign when it is negative.
pub open spec fn signed_text(v: int) -> Seq<char> {
    if v < 0 {
        seq!['-'] + decimal_text((-v) as nat)
    } else {
        decimal_text(v as nat)
    }
}

/// Decoding of a union's tag: one byte, refused when it is not below the
/// number of variants.
pub open spec fn decode_union_tag(b: Seq<u8>, variants: nat) -> Decoded<u8> {
    let d = decode_u8(b);
    match d.0 {
        Err(e) => (Err(e), d.1),
        Ok(t) => if (t as nat) < variants {
            (Ok(t), d.1)
        } else {
            (Err(ErrorKind::DeserializationError), d.1)
        },
    }
}

/// The message for a union tag that no variant has.
pub open spec fn union_tag_text(tag: u8, name: Seq<char>) -> Seq<char> {
    "Unknown union tag "@ + decimal_text(tag as nat) + " for "@ + name
}

/// Decoding of a C-like enum's discriminant: an `i32`, refused when no
/// variant has it.
pub open spec fn decode_discriminant(b: Seq<u8>, known: Seq<i32>) -> Decoded<i32> {
    let d = decode_i32(b);
    match d.0 {
        Err(e) => (Err(e), d.1),
        Ok(v) => if known.contains(v) {
            (Ok(v), d.1)
        } else {
            (Err(ErrorKind::DeserializationError), d.1)
        },
    }
}

/// The message for a discriminant that no variant has.
pub open spec fn discriminant_text(value: i32, name: Seq<char>) -> Seq<char> {
    "Invalid discriminant "@ + signed_text(value as int) + " for enum "@ + name
}

/// `text`, then `n` in decimal.
fn text_then_number(text: &str, n: u32) -> (r: String)
    ensures
        r@ == text@ + decimal_text(n as nat),
{
    let mut s = str_to_string(text);
    push_decimal(&mut s, n);
    s
}

/// Whether `value` is among `known`.
fn holds(known: &[i32], value: i32) -> (r: bool)
    ensures
        r == known@.contains(value),
{
    let mut i: usize = 0;
    while i < known.len()
        invariant
            i <= known@.len(),
            forall|j: int| 0 <= j < i ==> known@[j] != value,
        decreases known@.len() - i,
    {
        if known[i] == value {
            proof {
                assert(known@[i as int] == value);
            }
            return true;
        }
        i = i + 1;
    }
    false
}

/// Reads the tag of a union of `variants` variants named `name`. A tag
/// that no variant has is refused, with a message that names the tag and
/// the union.
pub fn read_union_tag(reader: &mut MemoryPackReader, variants: usize, name: &str) -> (r: Result<u8, MemoryPackError>)
    requires
        old(reader).wf(),
    ensures
        read_as(*old(reader), *final(reader), r, decode_union_tag(old(reader).rest(), variants as nat)),
        decode_u8(old(reader).rest()).0 matches Ok(t) ==> refused_with(r, union_tag_text(t, name@)),
{
    let tag = match reader.read_u8() {
        Ok(t) => t,
        Err(e) => return Err(e),
    };
    if (tag as usize) < variants {
        Ok(tag)
    } else {
        let mut message = text_then_number("Unknown union tag ", tag as u32);
        message.append(" for ");
        message.append(name);
        proof {
            assert(message@ =~= union_tag_text(tag, name@));
        }
        Err(MemoryPackError::DeserializationError(message))
    }
}

/// Reads the discriminant of a C-like enum named `name` whose variants have
/// the discriminants `known`. A discriminant that no variant has is
/// refused, with a message that names it and the enum.
pub fn read_discriminant(reader: &mut MemoryPackReader, known: &[i32], name: &str) -> (r: Result<i32, MemoryPackError>)
    requires
        old(reader).wf(),
    ensures
        read_as(*old(reader), *final(reader), r, decode_discriminant(old(reader).rest(), known@)),
        decode_i32(old(reader).rest()).0 matches Ok(v) ==> refused_with(r, discriminant_text(v, name@)),
{
    let value = match reader.read_i32() {
        Ok(v) => v,
        Err(e) => return Err(e),
    };
    if holds(known, value) {
        return Ok(value);
    }
    let mut message = str_to_string("Invalid discriminant ");
    if value < 0 {
        string_push(&mut message, '-');
        let magnitude: u32 = (-(value as i64)) as u32;
        push_decimal(&mut message, magnitude);
    } else {
        push_decimal(&mut message, value as u32);
    }
    message.append(" for enum ");
    message.append(name);
    proof {
        assert(message@ =~= discriminant_text(value, name@));
    }
    Err(MemoryPackError::DeserializationError(message))
}

} // verus!
