//! Fields and their types, as the derive sees them.
use crate::derive_plan::attributes::{any_attr_list_contains, any_list_contains, list_contains, AttrInfo};
use crate::derive_plan::text::{
    chars_of, contains_text, find_text, is_first_occurrence, occurs_at, text_is,
};
use vstd::prelude::*;

verus! {

/// What the derive reads of a field's type.
#[derive(Clone, Debug)]
pub enum TypeInfo {
    /// A path type: `ident` is the path when it is one plain identifier,
    /// `last` the name of its last segment, and `first_arg_last` the name of
    /// the last segment of that segment's first generic argument, when the
    /// argument is a path type.
    Path { ident: Option<String>, last: Option<String>, first_arg_last: Option<String> },
    /// A reference: whether it refers to a slice, and the referred type's
    /// path when that is one plain identifier.
    Reference { elem_is_slice: bool, elem_ident: Option<String> },
    /// Any other type.
    Other,
}

/// What the derive reads of a field: its name (none for a tuple field),
/// its attributes and its type.
#[derive(Clone, Debug)]
pub struct FieldInfo {
    pub ident: Option<String>,
    pub attrs: Vec<AttrInfo>,
    pub ty: TypeInfo,
}

/// The field is left out of the wire form: a `memorypack` list attribute
/// mentions `skip` or `ignore`, or its name starts with an underscore.
pub open spec fn skips(f: FieldInfo) -> bool {
    ||| any_list_contains(f.attrs@, "memorypack"@, "skip"@)
    ||| any_list_contains(f.attrs@, "memorypack"@, "ignore"@)
    ||| (f.ident matches Some(n) && n@.len() > 0 && n@[0] == '_')
}

/// Whether the field is left out of the wire form.
pub fn should_skip_field(field: &FieldInfo) -> (r: bool)
    ensures
        r == skips(*field),
{
    if any_attr_list_contains(field.attrs.as_slice(), "memorypack", "skip") {
        return true;
    }
    if any_attr_list_contains(field.attrs.as_slice(), "memorypack", "ignore") {
        return true;
    }
    match &field.ident {
        Some(n) => {
            let chars = chars_of(n.as_str());
            chars.len() > 0 && chars[0] == '_'
        },
        None => false,
    }
}

/// Whether a `memorypack` list attribute of the field mentions `zero_copy`.
pub fn is_zero_copy_field(field: &FieldInfo) -> (r: bool)
    ensures
        r == any_list_contains(field.attrs@, "memorypack"@, "zero_copy"@),
{
    any_attr_list_contains(field.attrs.as_slice(), "memorypack", "zero_copy")
}

/// The type is `&str`.
pub open spec fn borrowed_str(ty: TypeInfo) -> bool {
    ty matches TypeInfo::Reference { elem_ident: Some(i), .. } && i@ == "str"@
}

/// The type is a borrowed slice.
pub open spec fn borrowed_slice(ty: TypeInfo) -> bool {
    ty matches TypeInfo::Reference { elem_is_slice: true, .. }
}

/// The type is `Option<Box<..>>`, by the names of the last path segments.
pub open spec fn option_box(ty: TypeInfo) -> bool {
    &&& ty matches TypeInfo::Path { last: Some(l), first_arg_last: Some(a), .. }
    &&& l@ == "Option"@
    &&& a@ == "Box"@
}

/// Whether the type is `&str`.
pub fn is_borrowed_str(ty: &TypeInfo) -> (r: bool)
    ensures
        r == borrowed_str(*ty),
{
    match ty {
        TypeInfo::Reference { elem_ident: Some(i), .. } => text_is(i.as_str(), "str"),
        _ => false,
    }
}

/// Whether the type is a borrowed slice.
pub fn is_borrowed_slice(ty: &TypeInfo) -> (r: bool)
    ensures
        r == borrowed_slice(*ty),
{
    match ty {
        TypeInfo::Reference { elem_is_slice, .. } => *elem_is_slice,
        _ => false,
    }
}

/// Whether the type is `Option<Box<..>>`.
pub fn is_option_box(ty: &TypeInfo) -> (r: bool)
    ensures
        r == option_box(*ty),
{
    match ty {
        TypeInfo::Path { last: Some(l), first_arg_last: Some(a), .. } => text_is(l.as_str(), "Option")
            && text_is(a.as_str(), "Box"),
        _ => false,
    }
}

/// The type is the plain path `i32`.
pub open spec fn is_i32_path(ty: TypeInfo) -> bool {
    ty matches TypeInfo::Path { ident: Some(i), .. } && i@ == "i32"@
}

/// Whether the fields are a single unnamed `i32`.
pub fn is_single_field_i32(fields: &FieldsInfo) -> (r: bool)
    ensures
        r == (fields matches FieldsInfo::Unnamed(fs) && fs@.len() == 1 && is_i32_path(fs@[0].ty)),
{
    match fields {
        FieldsInfo::Unnamed(fs) => {
            if fs.len() != 1 {
                return false;
            }
            match &fs[0].ty {
                TypeInfo::Path { ident: Some(i), .. } => text_is(i.as_str(), "i32"),
                _ => false,
            }
        },
        _ => false,
    }
}

/// The fields of a struct or of an enum variant.
#[derive(Clone, Debug)]
pub enum FieldsInfo {
    Named(Vec<FieldInfo>),
    Unnamed(Vec<FieldInfo>),
    Unit,
}

/// What the derive reads of an enum variant.
#[derive(Clone, Debug)]
pub struct VariantInfo {
    pub name: String,
    pub has_discriminant: bool,
    pub fields: FieldsInfo,
}

/// Whether every variant gives its discriminant.
pub fn has_explicit_discriminants(variants: &[VariantInfo]) -> (r: bool)
    ensures
        r == forall|i: int| 0 <= i < variants@.len() ==> #[trigger] variants@[i].has_discriminant,
{
    let mut i: usize = 0;
    while i < variants.len()
        invariant
            i <= variants@.len(),
            forall|j: int| 0 <= j < i ==> #[trigger] variants@[j].has_discriminant,
        decreases variants@.len() - i,
    {
        if !variants[i].has_discriminant {
            return false;
        }
        i = i + 1;
    }
    true
}

/// `char::is_ascii_digit`.
pub open spec fn is_ascii_digit(c: char) -> bool {
    '0' <= c && c <= '9'
}

/// `char::is_whitespace`: the characters with the Unicode `White_Space`
/// property.
pub open spec fn is_white_space(c: char) -> bool {
    ||| '\t' <= c && c <= '\r'
    ||| c == ' '
    ||| c == '\u{85}'
    ||| c == '\u{a0}'
    ||| c == '\u{1680}'
    ||| '\u{2000}' <= c && c <= '\u{200a}'
    ||| c == '\u{2028}'
    ||| c == '\u{2029}'
    ||| c == '\u{202f}'
    ||| c == '\u{205f}'
    ||| c == '\u{3000}'
}

/// The number of leading characters of `s` that satisfy `pred`.
pub open spec fn leading(s: Seq<char>, pred: spec_fn(char) -> bool) -> nat
    decreases s.len(),
{
    if s.len() > 0 && pred(s[0]) {
        1 + leading(s.drop_first(), pred)
    } else {
        0
    }
}

/// The number that the decimal digits `s` write.
pub open spec fn decimal_value(s: Seq<char>) -> nat
    decreases s.len(),
{
    if s.len() == 0 {
        0
    } else {
        decimal_value(s.drop_last()) * 10 + ((s.last() as u32) - ('0' as u32)) as nat
    }
}

/// The index of the first occurrence of `p` in `h`, if any.
pub open spec fn first_occurrence(h: Seq<char>, p: Seq<char>) -> Option<int> {
    if contains_text(h, p) {
        Some(choose|i: int| occurs_at(h, p, i) && forall|j: int| 0 <= j < i ==> !#[trigger] occurs_at(h, p, j))
    } else {
        None
    }
}

/// The order that the tokens of a `memorypack` list give: the decimal
/// number that follows, past any white space, the first `=` after the
/// first `order`. There is none when there is no `order`, no `=` after it
/// or no digit after that, or when the number does not fit a `usize`.
pub open spec fn order_in_tokens(t: Seq<char>) -> Option<usize> {
    match first_occurrence(t, "order"@) {
        None => None,
        Some(o) => {
            let e = o + leading(t.skip(o), |c: char| c != '=');
            if e >= t.len() {
                None
            } else {
                let a = t.skip(e + 1);
                let b = a.skip(leading(a, |c: char| is_white_space(c)) as int);
                let digits = b.take(leading(b, |c: char| is_ascii_digit(c)) as int);
                if digits.len() == 0 || decimal_value(digits) > usize::MAX {
                    None
                } else {
                    Some(decimal_value(digits) as usize)
                }
            }
        },
    }
}

/// The order that one attribute gives: only a `memorypack` list gives one.
pub open spec fn attr_order(a: AttrInfo) -> Option<usize> {
    if a.ident matches Some(id) && id@ == "memorypack"@ && a.tokens is Some {
        order_in_tokens(a.tokens->0@)
    } else {
        None
    }
}

/// The order of a field: the first that its attributes give.
pub open spec fn field_order(attrs: Seq<AttrInfo>) -> Option<usize>
    decreases attrs.len(),
{
    if attrs.len() == 0 {
        None
    } else {
        match attr_order(attrs[0]) {
            Some(v) => Some(v),
            None => field_order(attrs.drop_first()),
        }
    }
}

/// `leading` counts up to the first character that fails the predicate.
pub proof fn lemma_leading(s: Seq<char>, pred: spec_fn(char) -> bool, k: int)
    requires
        0 <= k <= s.len(),
        forall|j: int| 0 <= j < k ==> pred(#[trigger] s[j]),
        k == s.len() || !pred(s[k]),
    ensures
        leading(s, pred) == k,
    decreases k,
{
    if k > 0 {
        assert forall|j: int| 0 <= j < k - 1 implies pred(#[trigger] s.drop_first()[j]) by {
            assert(s.drop_first()[j] == s[j + 1]);
        }
        lemma_leading(s.drop_first(), pred, k - 1);
    }
}

/// The first occurrence that a search found is the one the spec names.
pub proof fn lemma_first_occurrence(h: Seq<char>, p: Seq<char>, r: Option<usize>)
    requires
        is_first_occurrence(h, p, r),
    ensures
        first_occurrence(h, p) == match r {
            Some(i) => Some(i as int),
            None => None::<int>,
        },
{
    match r {
        Some(i) => {
            assert(contains_text(h, p));
            let k = choose|k: int| occurs_at(h, p, k) && forall|j: int| 0 <= j < k ==> !#[trigger] occurs_at(h, p, j);
            assert(occurs_at(h, p, i as int));
            if k < i {
                assert(!occurs_at(h, p, k));
            }
            if k > i {
                assert(!occurs_at(h, p, i as int));
            }
        },
        None => {
            if contains_text(h, p) {
                let k = choose|k: int| #[trigger] occurs_at(h, p, k);
                assert(!occurs_at(h, p, k));
            }
        },
    }
}

/// Adding a digit to a number that no longer fits keeps it too large.
proof fn lemma_decimal_value_grows(s: Seq<char>)
    requires
        s.len() > 0,
    ensures
        decimal_value(s) >= decimal_value(s.drop_last()) * 10,
{
}

/// The order that the tokens of one `memorypack` list give.
fn order_in(t: &Vec<char>) -> (r: Option<usize>)
    ensures
        r == order_in_tokens(t@),
{
    let pattern = chars_of("order");
    let found = find_text(t, &pattern);
    proof {
        lemma_first_occurrence(t@, pattern@, found);
    }
    let o = match found {
        Some(o) => o,
        None => return None,
    };
    let n = t.len();
    let mut e = o;
    while e < n && t[e] != '='
        invariant
            n == t@.len(),
            o <= e <= n,
            forall|j: int| o <= j < e ==> t@[j] != '=',
        decreases n - e,
    {
        e = e + 1;
    }
    proof {
        let s = t@.skip(o as int);
        assert forall|j: int| 0 <= j < e - o implies (|c: char| c != '=')(#[trigger] s[j]) by {
            assert(s[j] == t@[o + j]);
        }
        lemma_leading(s, |c: char| c != '=', e - o);
    }
    if e == n {
        return None;
    }
    let mut b = e + 1;
    while b < n && (('\t' <= t[b] && t[b] <= '\r') || t[b] == ' ' || t[b] == '\u{85}' || t[b] == '\u{a0}'
        || t[b] == '\u{1680}' || ('\u{2000}' <= t[b] && t[b] <= '\u{200a}') || t[b] == '\u{2028}'
        || t[b] == '\u{2029}' || t[b] == '\u{202f}' || t[b] == '\u{205f}' || t[b] == '\u{3000}')
        invariant
            n == t@.len(),
            e < n,
            e + 1 <= b <= n,
            forall|j: int| e + 1 <= j < b ==> is_white_space(#[trigger] t@[j]),
        decreases n - b,
    {
        b = b + 1;
    }
    proof {
        let a = t@.skip(e + 1);
        assert forall|j: int| 0 <= j < b - (e + 1) implies (|c: char| is_white_space(c))(#[trigger] a[j]) by {
            assert(a[j] == t@[e + 1 + j]);
        }
        if b < n {
            assert(a[b - (e + 1)] == t@[b as int]);
        }
        lemma_leading(a, |c: char| is_white_space(c), b - (e + 1));
        assert(a.skip(b - (e + 1)) =~= t@.skip(b as int));
    }
    let mut d = b;
    let mut value: usize = 0;
    let mut overflow = false;
    while d < n && '0' <= t[d] && t[d] <= '9'
        invariant
            n == t@.len(),
            b <= d <= n,
            forall|j: int| b <= j < d ==> is_ascii_digit(#[trigger] t@[j]),
            !overflow ==> value == decimal_value(t@.subrange(b as int, d as int)),
            overflow ==> decimal_value(t@.subrange(b as int, d as int)) > usize::MAX,
        decreases n - d,
    {
        let digit = (t[d] as u32 - '0' as u32) as usize;
        proof {
            let s = t@.subrange(b as int, d + 1);
            assert(s.drop_last() =~= t@.subrange(b as int, d as int));
            assert(s.last() == t@[d as int]);
            lemma_decimal_value_grows(s);
        }
        if !overflow {
            match value.checked_mul(10) {
                Some(m) => match m.checked_add(digit) {
                    Some(v) => {
                        value = v;
                    },
                    None => {
                        overflow = true;
                    },
                },
                None => {
                    overflow = true;
                },
            }
        }
        d = d + 1;
    }
    proof {
        let bs = t@.skip(b as int);
        assert forall|j: int| 0 <= j < d - b implies (|c: char| is_ascii_digit(c))(#[trigger] bs[j]) by {
            assert(bs[j] == t@[b + j]);
        }
        if d < n {
            assert(bs[d - b] == t@[d as int]);
        }
        lemma_leading(bs, |c: char| is_ascii_digit(c), d - b);
        assert(bs.take(d - b) =~= t@.subrange(b as int, d as int));
    }
    if d == b || overflow {
        None
    } else {
        Some(value)
    }
}

/// The order that the attributes of a field give it: the first that a
/// `memorypack` list attribute gives.
pub fn get_field_order(field: &FieldInfo) -> (r: Option<usize>)
    ensures
        r == field_order(field.attrs@),
{
    let attrs = &field.attrs;
    let mut i: usize = 0;
    proof {
        assert(attrs@.skip(0) =~= attrs@);
    }
    while i < attrs.len()
        invariant
            attrs@ == field.attrs@,
            i <= attrs@.len(),
            field_order(attrs@) == field_order(attrs@.skip(i as int)),
        decreases attrs@.len() - i,
    {
        proof {
            assert(attrs@.skip(i as int).drop_first() =~= attrs@.skip(i + 1));
            assert(attrs@.skip(i as int)[0] == attrs@[i as int]);
        }
        let a = &attrs[i];
        let found = match (&a.ident, &a.tokens) {
            (Some(id), Some(t)) => {
                if text_is(id.as_str(), "memorypack") {
                    let chars = chars_of(t.as_str());
                    order_in(&chars)
                } else {
                    None
                }
            },
            _ => None,
        };
        assert(found == attr_order(attrs@[i as int]));
        proof {
            let x = attrs@.skip(i as int);
            assert(x.len() > 0);
            assert(field_order(x) == match attr_order(x[0]) {
                Some(v) => Some(v),
                None => field_order(x.drop_first()),
            });
        }
        if found.is_some() {
            return found;
        }
        i = i + 1;
    }
    proof {
        assert(attrs@.skip(i as int).len() == 0);
    }
    None
}

/// How a field is read in a struct that may borrow from the data.
#[derive(Clone, Copy, Debug, PartialEq, Eq, Structural)]
pub enum FieldRead {
    /// A skipped field: its type is read from no data, and it is given its
    /// default.
    SkipDefault,
    /// A `&str` read in place.
    BorrowedStr,
    /// A byte slice read in place.
    BorrowedBytes,
    /// A field read with the borrowing deserialization.
    ZeroCopy,
    /// A field read with the owning deserialization.
    Regular,
}

/// How `f` is read, in a struct that borrows from the data when
/// `zero_copy_struct` holds.
pub open spec fn field_read_of(f: FieldInfo, zero_copy_struct: bool) -> FieldRead {
    let field_zero_copy = any_list_contains(f.attrs@, "memorypack"@, "zero_copy"@);
    if skips(f) {
        FieldRead::SkipDefault
    } else if (zero_copy_struct || field_zero_copy) && borrowed_str(f.ty) {
        FieldRead::BorrowedStr
    } else if (zero_copy_struct || field_zero_copy) && borrowed_slice(f.ty) {
        FieldRead::BorrowedBytes
    } else if field_zero_copy {
        FieldRead::ZeroCopy
    } else {
        FieldRead::Regular
    }
}

/// Decides how a field is read.
pub fn field_read_kind(field: &FieldInfo, is_zero_copy_struct: bool) -> (r: FieldRead)
    ensures
        r == field_read_of(*field, is_zero_copy_struct),
{
    if should_skip_field(field) {
        return FieldRead::SkipDefault;
    }
    let field_zero_copy = is_zero_copy_field(field);
    if is_zero_copy_struct || field_zero_copy {
        if is_borrowed_str(&field.ty) {
            return FieldRead::BorrowedStr;
        }
        if is_borrowed_slice(&field.ty) {
            return FieldRead::BorrowedBytes;
        }
        if field_zero_copy {
            return FieldRead::ZeroCopy;
        }
    }
    FieldRead::Regular
}

/// `a` is a `memorypack` list attribute whose tokens hold `word` from
/// position `j` on.
pub open spec fn memorypack_word_at(a: AttrInfo, word: Seq<char>, j: int) -> bool {
    &&& a.ident matches Some(id) && id@ == "memorypack"@
    &&& a.tokens matches Some(t) && 0 <= j && j + word.len() <= t@.len() && t@.subrange(j, j + word.len()) == word
}

/// Some attribute of `f`, wherever it stands, is a `memorypack` list whose
/// tokens hold `word` somewhere.
pub open spec fn some_memorypack_word(f: FieldInfo, word: Seq<char>) -> bool {
    exists|i: int, j: int| 0 <= i < f.attrs@.len() && #[trigger] memorypack_word_at(f.attrs@[i], word, j)
}

/// A `memorypack` list of `a` holding `word` somewhere is one that
/// `list_contains` sees.
proof fn lemma_word_seen(a: AttrInfo, word: Seq<char>, j: int)
    requires
        memorypack_word_at(a, word, j),
    ensures
        list_contains(a, "memorypack"@, word),
{
    assert(occurs_at(a.tokens->0@, word, j));
}

/// A field is skipped exactly when one of its attributes, wherever it
/// stands, is a `memorypack` list whose tokens hold `skip` or `ignore`, or
/// its name starts with an underscore.
pub proof fn lemma_skip_rule(f: FieldInfo)
    ensures
        skips(f) <==> (some_memorypack_word(f, "skip"@) || some_memorypack_word(f, "ignore"@) || (
        f.ident matches Some(n) && n@.len() > 0 && n@[0] == '_')),
{
    if some_memorypack_word(f, "skip"@) {
        let (i, j) = choose|i: int, j: int| 0 <= i < f.attrs@.len() && #[trigger] memorypack_word_at(f.attrs@[i], "skip"@, j);
        lemma_word_seen(f.attrs@[i], "skip"@, j);
    }
    if some_memorypack_word(f, "ignore"@) {
        let (i, j) = choose|i: int, j: int| 0 <= i < f.attrs@.len() && #[trigger] memorypack_word_at(f.attrs@[i], "ignore"@, j);
        lemma_word_seen(f.attrs@[i], "ignore"@, j);
    }
    lemma_listed_word(f, "skip"@);
    lemma_listed_word(f, "ignore"@);
}

/// A word that `any_list_contains` sees in a `memorypack` list of `f` is one
/// that the field holds at some position of some attribute.
proof fn lemma_listed_word(f: FieldInfo, word: Seq<char>)
    ensures
        any_list_contains(f.attrs@, "memorypack"@, word) ==> some_memorypack_word(f, word),
{
    if any_list_contains(f.attrs@, "memorypack"@, word) {
        let i = choose|i: int| 0 <= i < f.attrs@.len() && #[trigger] list_contains(f.attrs@[i], "memorypack"@, word);
        let t = f.attrs@[i].tokens->0@;
        let j = choose|j: int| #[trigger] occurs_at(t, word, j);
        assert(memorypack_word_at(f.attrs@[i], word, j));
    }
}

/// How a field is read, for every field and both kinds of struct: a skipped
/// field is given its default; a `&str` or a borrowed slice is read in place
/// when the struct or the field is zero-copy; a field that a `memorypack`
/// list marks `zero_copy` is otherwise read with the borrowing
/// deserialization; and any other field, whether or not the struct is
/// zero-copy, with the owning one.
pub proof fn lemma_field_reads(f: FieldInfo, zero_copy_struct: bool)
    ensures
        skips(f) ==> field_read_of(f, zero_copy_struct) == FieldRead::SkipDefault,
        !skips(f) && (zero_copy_struct || some_memorypack_word(f, "zero_copy"@))
            && (f.ty matches TypeInfo::Reference { elem_ident: Some(i), .. } && i@ == "str"@)
            ==> field_read_of(f, zero_copy_struct) == FieldRead::BorrowedStr,
        !skips(f) && (zero_copy_struct || some_memorypack_word(f, "zero_copy"@))
            && !(f.ty matches TypeInfo::Reference { elem_ident: Some(i), .. } && i@ == "str"@)
            && (f.ty matches TypeInfo::Reference { elem_is_slice: true, .. })
            ==> field_read_of(f, zero_copy_struct) == FieldRead::BorrowedBytes,
        !skips(f) && some_memorypack_word(f, "zero_copy"@)
            && !(f.ty matches TypeInfo::Reference { elem_ident: Some(i), .. } && i@ == "str"@)
            && !(f.ty matches TypeInfo::Reference { elem_is_slice: true, .. })
            ==> field_read_of(f, zero_copy_struct) == FieldRead::ZeroCopy,
        !skips(f) && !some_memorypack_word(f, "zero_copy"@)
            && !(f.ty matches TypeInfo::Reference { elem_ident: Some(i), .. } && i@ == "str"@)
            && !(f.ty matches TypeInfo::Reference { elem_is_slice: true, .. })
            ==> field_read_of(f, zero_copy_struct) == FieldRead::Regular,
{
    lemma_listed_word(f, "zero_copy"@);
    if some_memorypack_word(f, "zero_copy"@) {
        let (i, j) = choose|i: int, j: int| 0 <= i < f.attrs@.len() && #[trigger] memorypack_word_at(f.attrs@[i], "zero_copy"@, j);
        lemma_word_seen(f.attrs@[i], "zero_copy"@, j);
    }
}

} // verus!
