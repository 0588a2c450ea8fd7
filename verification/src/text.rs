//! How strings and characters are laid out on the wire: UTF-8 strings with
//! a header, and UTF-16 code units (which the reader also accepts).
use crate::encoding::{encode_i32, encode_u16};
use vstd::prelude::*;
use vstd::utf8::*;

verus! {

/// The number of UTF-16 code units of a character.
pub open spec fn utf16_width(c: char) -> nat {
    if c as u32 > 0xFFFF {
        2
    } else {
        1
    }
}

/// The number of UTF-16 code units needed for `s`.
pub open spec fn utf16_len(s: Seq<char>) -> nat
    decreases s.len(),
{
    if s.len() == 0 {
        0
    } else {
        utf16_width(s[0]) + utf16_len(s.drop_first())
    }
}

/// The wire form of a string: `0` for the empty string; otherwise the
/// complement of its UTF-8 length, its UTF-16 length, then its UTF-8 bytes.
pub open spec fn encode_str(s: Seq<char>) -> Seq<u8> {
    if s.len() == 0 {
        encode_i32(0)
    } else {
        let b = encode_utf8(s);
        encode_i32(!(b.len() as i32)) + encode_i32(utf16_len(s) as i32) + b
    }
}

/// The high (leading) surrogate of a character outside the basic plane.
pub open spec fn high_surrogate(c: char) -> u16 {
    (((c as u32 - 0x10000) / 1024) + 0xD800) as u16
}

/// The low (trailing) surrogate of a character outside the basic plane.
pub open spec fn low_surrogate(c: char) -> u16 {
    (((c as u32 - 0x10000) % 1024) + 0xDC00) as u16
}

/// The wire form of a single character: one UTF-16 code unit; for a
/// character outside the basic plane, only its high surrogate.
pub open spec fn encode_char(c: char) -> Seq<u8> {
    if c as u32 <= 0xFFFF {
        encode_u16(c as u16)
    } else {
        encode_u16(high_surrogate(c))
    }
}

/// The UTF-16 code units of `s`.
pub open spec fn encode_utf16(s: Seq<char>) -> Seq<u16>
    decreases s.len(),
{
    if s.len() == 0 {
        seq![]
    } else if s[0] as u32 <= 0xFFFF {
        seq![s[0] as u16] + encode_utf16(s.drop_first())
    } else {
        seq![high_surrogate(s[0]), low_surrogate(s[0])] + encode_utf16(s.drop_first())
    }
}

pub open spec fn is_surrogate(u: u16) -> bool {
    0xD800 <= u <= 0xDFFF
}

pub open spec fn is_high_surrogate(u: u16) -> bool {
    0xD800 <= u <= 0xDBFF
}

pub open spec fn is_low_surrogate(u: u16) -> bool {
    0xDC00 <= u <= 0xDFFF
}

/// The code point that a surrogate pair stands for.
pub open spec fn pair_code_point(high: u16, low: u16) -> u32 {
    (0x10000 + (high - 0xD800) * 1024 + (low - 0xDC00)) as u32
}

/// The characters that UTF-16 code units stand for, or `None` when they
/// hold a surrogate that is not part of a well-formed pair.
pub open spec fn decode_utf16(u: Seq<u16>) -> Option<Seq<char>>
    decreases u.len(),
{
    if u.len() == 0 {
        Some(seq![])
    } else if !is_surrogate(u[0]) {
        match decode_utf16(u.drop_first()) {
            Some(rest) => Some(seq![(u[0] as u32) as char] + rest),
            None => None,
        }
    } else if is_high_surrogate(u[0]) && u.len() >= 2 && is_low_surrogate(u[1]) {
        match decode_utf16(u.skip(2)) {
            Some(rest) => Some(seq![pair_code_point(u[0], u[1]) as char] + rest),
            None => None,
        }
    } else {
        None
    }
}

/// The little-endian code units held by an even number of bytes.
pub open spec fn utf16_units(b: Seq<u8>) -> Seq<u16> {
    Seq::new(b.len() / 2, |k: int| (b[2 * k] + 256 * b[2 * k + 1]) as u16)
}

/// The little-endian bytes of UTF-16 code units.
pub open spec fn utf16_bytes(u: Seq<u16>) -> Seq<u8>
    decreases u.len(),
{
    if u.len() == 0 {
        seq![]
    } else {
        encode_u16(u[0]) + utf16_bytes(u.drop_first())
    }
}

pub proof fn lemma_utf16_len_concat(a: Seq<char>, b: Seq<char>)
    ensures
        utf16_len(a + b) == utf16_len(a) + utf16_len(b),
    decreases a.len(),
{
    if a.len() > 0 {
        assert((a + b).drop_first() =~= a.drop_first() + b);
        lemma_utf16_len_concat(a.drop_first(), b);
    }
}

/// A string never needs more UTF-16 code units than UTF-8 bytes.
pub proof fn lemma_utf16_len_le_utf8_len(s: Seq<char>)
    ensures
        utf16_len(s) <= encode_utf8(s).len(),
    decreases s.len(),
{
    if s.len() > 0 {
        lemma_utf16_len_le_utf8_len(s.drop_first());
    }
}

/// The bytes of UTF-16 code units give the units back.
pub proof fn lemma_utf16_bytes_units(u: Seq<u16>)
    ensures
        utf16_bytes(u).len() == 2 * u.len(),
        utf16_units(utf16_bytes(u)) == u,
    decreases u.len(),
{
    if u.len() > 0 {
        let t = u.drop_first();
        lemma_utf16_bytes_units(t);
        let x = u[0];
        let b = utf16_bytes(u);
        let tb = utf16_bytes(t);
        crate::encoding::lemma_le_bytes_len(x as nat, 2);
        crate::encoding::lemma_le_bytes_len((x as nat) / 256, 1);
        assert(b == encode_u16(x) + tb);
        assert(b[0] == (x as nat % 256) as u8);
        assert(b[1] == ((x as nat / 256) % 256) as u8);
        assert forall|k: int| 0 <= k < u.len() implies #[trigger] utf16_units(b)[k] == u[k] by {
            if k == 0 {
                assert((b[0] + 256 * b[1]) as u16 == x);
            } else {
                assert(b[2 * k] == tb[2 * (k - 1)]);
                assert(b[2 * k + 1] == tb[2 * (k - 1) + 1]);
                assert(utf16_units(tb)[k - 1] == t[k - 1]);
            }
        }
        assert(utf16_units(b) =~= u);
    }
}

/// Decoding the UTF-16 code units of a string gives the string back.
pub proof fn lemma_utf16_round_trip(s: Seq<char>)
    ensures
        decode_utf16(encode_utf16(s)) == Some(s),
    decreases s.len(),
{
    if s.len() > 0 {
        let c = s[0];
        let r = s.drop_first();
        lemma_utf16_round_trip(r);
        let u = encode_utf16(s);
        let t = encode_utf16(r);
        assert(s =~= seq![c] + r);
        vstd::utf8::char_is_scalar(c);
        let cu = c as u32;
        vstd::utf8::char_u32_cast(c, cu);
        if cu <= 0xFFFF {
            assert(u =~= seq![c as u16] + t);
            assert(u.drop_first() =~= t);
            assert((c as u16) as u32 == cu);
            assert(!is_surrogate(c as u16));
            assert(((c as u16) as u32) as char == c);
        } else {
            let v = (cu - 0x10000) as u32;
            assert(v / 1024 * 1024 + v % 1024 == v);
            let hi = high_surrogate(c);
            let lo = low_surrogate(c);
            assert(is_high_surrogate(hi));
            assert(is_low_surrogate(lo));
            assert(pair_code_point(hi, lo) == cu);
            assert(u =~= seq![hi, lo] + t);
            assert(u.skip(2) =~= t);
            assert(pair_code_point(hi, lo) as char == c);
        }
    }
}

} // verus!
