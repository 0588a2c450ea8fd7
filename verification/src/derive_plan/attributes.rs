//! The attributes that steer the derive.
use crate::derive_plan::text::{chars_of, contains_text, text_contains, text_is};
use vstd::prelude::*;

verus! {

/// What the derive reads of one attribute: its path when that is a single
/// plain identifier, and the text of its tokens when the attribute is a
/// list (`#[name(tokens)]`).
#[derive(Clone, Debug)]
pub struct AttrInfo {
    pub ident: Option<String>,
    pub tokens: Option<String>,
}

/// `a` is a list attribute named `name` whose tokens contain `word`.
pub open spec fn list_contains(a: AttrInfo, name: Seq<char>, word: Seq<char>) -> bool {
    &&& a.ident matches Some(id) && id@ == name
    &&& a.tokens matches Some(t) && contains_text(t@, word)
}

/// Some attribute of `attrs` is a list named `name` whose tokens contain
/// `word`.
pub open spec fn any_list_contains(attrs: Seq<AttrInfo>, name: Seq<char>, word: Seq<char>) -> bool {
    exists|i: int| 0 <= i < attrs.len() && #[trigger] list_contains(attrs[i], name, word)
}

/// Whether `a` is a list attribute named `name` whose tokens contain `word`.
pub fn attr_list_contains(a: &AttrInfo, name: &str, word: &str) -> (r: bool)
    ensures
        r == list_contains(*a, name@, word@),
{
    match (&a.ident, &a.tokens) {
        (Some(id), Some(t)) => {
            if !text_is(id.as_str(), name) {
                return false;
            }
            let chars = chars_of(t.as_str());
            text_contains(&chars, word)
        },
        _ => false,
    }
}

/// Whether some attribute of `attrs` is a list named `name` whose tokens
/// contain `word`.
pub fn any_attr_list_contains(attrs: &[AttrInfo], name: &str, word: &str) -> (r: bool)
    ensures
        r == any_list_contains(attrs@, name@, word@),
{
    let mut i: usize = 0;
    while i < attrs.len()
        invariant
            i <= attrs@.len(),
            forall|j: int| 0 <= j < i ==> !#[trigger] list_contains(attrs@[j], name@, word@),
        decreases attrs@.len() - i,
    {
        if attr_list_contains(&attrs[i], name, word) {
            return true;
        }
        i = i + 1;
    }
    false
}

/// The options that the attributes of an item ask of the derive.
#[derive(Clone, Copy, Debug, PartialEq, Eq, Structural)]
pub struct AttributeFlags {
    /// `#[repr(transparent)]`
    pub is_transparent: bool,
    /// `#[memorypack(flags)]`
    pub is_flags: bool,
    /// `#[memorypack(union)]`
    pub is_union: bool,
    /// `#[memorypack(version_tolerant)]`
    pub is_version_tolerant: bool,
    /// `#[memorypack(circular)]`
    pub is_circular: bool,
    /// `#[memorypack(zero_copy)]`
    pub is_zero_copy: bool,
    /// `#[repr(i32)]`
    pub has_repr_i32: bool,
}

/// The tokens of the last list attribute of `attrs` named `name`, if any.
pub open spec fn last_list(attrs: Seq<AttrInfo>, name: Seq<char>) -> Option<Seq<char>>
    decreases attrs.len(),
{
    if attrs.len() == 0 {
        None
    } else {
        let a = attrs.last();
        if a.ident matches Some(id) && id@ == name && a.tokens is Some {
            Some(a.tokens->0@)
        } else {
            last_list(attrs.drop_last(), name)
        }
    }
}

/// The last list attribute of `attrs` named `name` contains `word`.
pub open spec fn last_list_contains(attrs: Seq<AttrInfo>, name: Seq<char>, word: Seq<char>) -> bool {
    match last_list(attrs, name) {
        Some(t) => contains_text(t, word),
        None => false,
    }
}

impl AttributeFlags {
    /// The flags that `attrs` set: each `repr` list sets the representation
    /// options and each `memorypack` list sets the others, an option being on
    /// when the list's tokens contain its word; a later list of the same name
    /// replaces what an earlier one set.
    pub open spec fn flags_of(attrs: Seq<AttrInfo>) -> AttributeFlags {
        AttributeFlags {
            is_transparent: last_list_contains(attrs, "repr"@, "transparent"@),
            is_flags: last_list_contains(attrs, "memorypack"@, "flags"@),
            is_union: last_list_contains(attrs, "memorypack"@, "union"@),
            is_version_tolerant: last_list_contains(attrs, "memorypack"@, "version_tolerant"@),
            is_circular: last_list_contains(attrs, "memorypack"@, "circular"@),
            is_zero_copy: last_list_contains(attrs, "memorypack"@, "zero_copy"@),
            has_repr_i32: last_list_contains(attrs, "repr"@, "i32"@),
        }
    }

    /// Reads the flags from the attributes of an item.
    pub fn parse(attrs: &[AttrInfo]) -> (r: Self)
        ensures
            r == Self::flags_of(attrs@),
    {
        let mut result = AttributeFlags {
            is_transparent: false,
            is_flags: false,
            is_union: false,
            is_version_tolerant: false,
            is_circular: false,
            is_zero_copy: false,
            has_repr_i32: false,
        };
        let mut i: usize = 0;
        proof {
            assert(attrs@.take(0).len() == 0);
        }
        while i < attrs.len()
            invariant
                i <= attrs@.len(),
                result == Self::flags_of(attrs@.take(i as int)),
            decreases attrs@.len() - i,
        {
            let ghost prev = attrs@.take(i as int);
            let ghost next = attrs@.take(i + 1);
            proof {
                assert(next.drop_last() =~= prev);
                assert(next.last() == attrs@[i as int]);
            }
            let a = &attrs[i];
            match (&a.ident, &a.tokens) {
                (Some(id), Some(t)) => {
                    if text_is(id.as_str(), "repr") {
                        let chars = chars_of(t.as_str());
                        result.is_transparent = text_contains(&chars, "transparent");
                        result.has_repr_i32 = text_contains(&chars, "i32");
                        proof {
                            reveal_strlit("repr");
                            reveal_strlit("memorypack");
                            assert(id@.len() != "memorypack"@.len());
                        }
                    } else if text_is(id.as_str(), "memorypack") {
                        let chars = chars_of(t.as_str());
                        result.is_flags = text_contains(&chars, "flags");
                        result.is_union = text_contains(&chars, "union");
                        result.is_version_tolerant = text_contains(&chars, "version_tolerant");
                        result.is_circular = text_contains(&chars, "circular");
                        result.is_zero_copy = text_contains(&chars, "zero_copy");
                    }
                },
                _ => {},
            }
            i = i + 1;
        }
        proof {
            assert(attrs@.take(attrs@.len() as int) =~= attrs@);
        }
        result
    }
}

} // verus!
