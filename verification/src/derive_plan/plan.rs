//! The order in which fields are written and read, and the layout that the
//! derive picks for an item.
use crate::derive_plan::attributes::AttributeFlags;
use crate::derive_plan::fields::{
    field_order, get_field_order, has_explicit_discriminants, is_i32_path, is_single_field_i32,
    should_skip_field, skips, FieldInfo, FieldsInfo, TypeInfo, VariantInfo,
};
use vstd::prelude::*;

verus! {

/// A field placed by its order: the order, and the field's index in the
/// list that was ordered.
#[derive(Clone, Copy, Debug, PartialEq, Eq, Structural)]
pub struct OrderedField {
    pub order: usize,
    pub index: usize,
}

/// The order of the field at index `i` of `fields`: the one its attributes
/// give, else its index.
pub open spec fn order_of(fields: Seq<FieldInfo>, i: int) -> usize {
    match field_order(fields[i].attrs@) {
        Some(o) => o,
        None => i as usize,
    }
}

/// `a` comes before `b`: by order, then by index.
pub open spec fn placed_before(a: OrderedField, b: OrderedField) -> bool {
    a.order < b.order || (a.order == b.order && a.index < b.index)
}

/// `r` lists the fields of `fields` with their orders, sorted by order and,
/// for equal orders, by index: one entry per field.
pub open spec fn is_ordering_of(r: Seq<OrderedField>, fields: Seq<FieldInfo>) -> bool {
    &&& r.len() == fields.len()
    &&& forall|k: int| 0 <= k < r.len() ==> #[trigger] r[k].index < fields.len()
        && r[k].order == order_of(fields, r[k].index as int)
    &&& forall|a: int, b: int| 0 <= a < b < r.len() ==> placed_before(#[trigger] r[a], #[trigger] r[b])
}

/// The fields at the positions `kept`, in that sequence.
pub open spec fn kept_fields(kept: Seq<usize>, fields: Seq<FieldInfo>) -> Seq<FieldInfo> {
    kept.map_values(|p: usize| fields[p as int])
}

/// The fields at the positions `kept` with their orders, sorted by order;
/// fields of equal order keep their relative places.
fn order_kept(fields: &[FieldInfo], kept: &Vec<usize>) -> (r: Vec<OrderedField>)
    requires
        forall|k: int| 0 <= k < kept@.len() ==> #[trigger] kept@[k] < fields@.len(),
    ensures
        is_ordering_of(r@, kept_fields(kept@, fields@)),
{
    let ghost kf = kept_fields(kept@, fields@);
    let mut r: Vec<OrderedField> = Vec::new();
    let mut i: usize = 0;
    while i < kept.len()
        invariant
            kf == kept_fields(kept@, fields@),
            forall|k: int| 0 <= k < kept@.len() ==> #[trigger] kept@[k] < fields@.len(),
            i <= kept@.len(),
            r@.len() == i,
            forall|k: int| 0 <= k < r@.len() ==> #[trigger] r@[k].index < i
                && r@[k].order == order_of(kf, r@[k].index as int),
            forall|a: int, b: int| 0 <= a < b < r@.len() ==> placed_before(#[trigger] r@[a], #[trigger] r@[b]),
        decreases kept@.len() - i,
    {
        assert(kf[i as int] == fields@[kept@[i as int] as int]);
        let order = match get_field_order(&fields[kept[i]]) {
            Some(o) => o,
            None => i,
        };
        let entry = OrderedField { order, index: i };
        let mut p: usize = 0;
        while p < r.len() && r[p].order <= order
            invariant
                r@.len() == i,
                p <= r@.len(),
                forall|k: int| 0 <= k < p ==> #[trigger] r@[k].order <= order,
                forall|k: int| 0 <= k < r@.len() ==> #[trigger] r@[k].index < i,
                forall|a: int, b: int| 0 <= a < b < r@.len() ==> placed_before(#[trigger] r@[a], #[trigger] r@[b]),
            decreases r@.len() - p,
        {
            p = p + 1;
        }
        let ghost before = r@;
        r.insert(p, entry);
        proof {
            assert(r@ == before.insert(p as int, entry));
            assert forall|a: int, b: int| 0 <= a < b < r@.len() implies placed_before(#[trigger] r@[a], #[trigger] r@[b]) by {
                if b < p {
                    assert(r@[a] == before[a] && r@[b] == before[b]);
                } else if b == p {
                    assert(r@[a] == before[a]);
                    assert(before[a].order <= order && before[a].index < i);
                } else if a == p {
                    assert(r@[b] == before[b - 1]);
                    if p < before.len() {
                        assert(before[p as int].order > order);
                        if b - 1 > p {
                            assert(placed_before(before[p as int], before[b - 1]));
                        }
                    }
                } else if a < p {
                    assert(r@[a] == before[a] && r@[b] == before[b - 1]);
                } else {
                    assert(r@[a] == before[a - 1] && r@[b] == before[b - 1]);
                }
            }
        }
        i = i + 1;
    }
    r
}

/// The fields with their orders, sorted by order; fields of equal order
/// keep their relative places.
pub fn prepare_ordered_fields(fields: &[FieldInfo]) -> (r: Vec<OrderedField>)
    ensures
        is_ordering_of(r@, fields@),
{
    let mut all: Vec<usize> = Vec::new();
    let mut i: usize = 0;
    while i < fields.len()
        invariant
            i <= fields@.len(),
            all@.len() == i,
            forall|k: int| 0 <= k < i ==> #[trigger] all@[k] == k,
        decreases fields@.len() - i,
    {
        all.push(i);
        i = i + 1;
    }
    proof {
        assert(kept_fields(all@, fields@) =~= fields@);
    }
    order_kept(fields, &all)
}

/// The first field of `ordered` with order `o`, by its index.
pub open spec fn first_with_order(ordered: Seq<OrderedField>, o: int) -> Option<usize> {
    if exists|k: int| 0 <= k < ordered.len() && #[trigger] ordered[k].order == o {
        let k = choose|k: int|
            0 <= k < ordered.len() && ordered[k].order == o && forall|j: int|
                0 <= j < k ==> #[trigger] ordered[j].order != o;
        Some(ordered[k].index)
    } else {
        None
    }
}

/// The members of a version-tolerant or circular layout: one slot for each
/// order up to the last field's, holding the first field with that order.
pub fn member_slots(ordered: &[OrderedField]) -> (r: Vec<Option<usize>>)
    requires
        ordered@.len() > 0,
        ordered@.last().order < usize::MAX,
    ensures
        r@.len() == ordered@.last().order + 1,
        forall|o: int| 0 <= o < r@.len() ==> #[trigger] r@[o] == first_with_order(ordered@, o),
{
    let count = ordered[ordered.len() - 1].order + 1;
    let mut r: Vec<Option<usize>> = Vec::new();
    let mut o: usize = 0;
    while o < count
        invariant
            count == ordered@.last().order + 1,
            o <= count,
            r@.len() == o,
            forall|q: int| 0 <= q < o ==> #[trigger] r@[q] == first_with_order(ordered@, q),
        decreases count - o,
    {
        let mut k: usize = 0;
        while k < ordered.len() && ordered[k].order != o
            invariant
                k <= ordered@.len(),
                forall|j: int| 0 <= j < k ==> #[trigger] ordered@[j].order != o,
            decreases ordered@.len() - k,
        {
            k = k + 1;
        }
        let slot = if k < ordered.len() {
            Some(ordered[k].index)
        } else {
            None
        };
        proof {
            let oo = o as int;
            if k < ordered@.len() {
                assert(ordered@[k as int].order == o);
                let c = choose|c: int|
                    0 <= c < ordered@.len() && ordered@[c].order == oo && forall|j: int|
                        0 <= j < c ==> #[trigger] ordered@[j].order != oo;
                assert(c == k) by {
                    if c < k {
                        assert(ordered@[c].order != o);
                    }
                    if c > k {
                        assert(ordered@[k as int].order != oo);
                    }
                }
            }
            assert(slot == first_with_order(ordered@, oo));
        }
        r.push(slot);
        o = o + 1;
    }
    r
}

/// `kept` lists, in increasing order, the positions of the fields of
/// `fields` that are not skipped.
pub open spec fn is_kept_positions(kept: Seq<usize>, fields: Seq<FieldInfo>) -> bool {
    &&& forall|a: int, b: int| 0 <= a < b < kept.len() ==> #[trigger] kept[a] < #[trigger] kept[b]
    &&& forall|k: int| 0 <= k < kept.len() ==> #[trigger] kept[k] < fields.len() && !skips(
        fields[kept[k] as int],
    )
    &&& forall|p: int|
        0 <= p < fields.len() && !skips(#[trigger] fields[p]) ==> exists|k: int|
            0 <= k < kept.len() && #[trigger] kept[k] == p
}

/// How the fields of a struct with named fields are written and read.
pub struct NamedFieldsPlan {
    /// The positions of the fields that are written, in declaration order.
    pub kept: Vec<usize>,
    /// The written fields in the order they are written; `index` is a place
    /// in `kept`.
    pub ordered: Vec<OrderedField>,
    /// For each place of the read sequence, the position of the field read
    /// there: a skipped field at its own place, and at the places of the
    /// written fields, the written fields in the order they were written.
    pub read_sequence: Vec<usize>,
}

/// The plan for a struct with named fields.
pub fn plan_named_fields(fields: &[FieldInfo]) -> (r: NamedFieldsPlan)
    ensures
        is_kept_positions(r.kept@, fields@),
        is_ordering_of(r.ordered@, kept_fields(r.kept@, fields@)),
        r.read_sequence@.len() == fields@.len(),
        forall|p: int| 0 <= p < fields@.len() && skips(#[trigger] fields@[p]) ==> r.read_sequence@[p] == p,
        forall|k: int|
            0 <= k < r.kept@.len() ==> r.read_sequence@[#[trigger] r.kept@[k] as int]
                == r.kept@[r.ordered@[k].index as int],
{
    let n = fields.len();
    let mut kept: Vec<usize> = Vec::new();
    let mut p: usize = 0;
    while p < n
        invariant
            n == fields@.len(),
            p <= n,
            forall|a: int, b: int| 0 <= a < b < kept@.len() ==> #[trigger] kept@[a] < #[trigger] kept@[b],
            forall|k: int| 0 <= k < kept@.len() ==> #[trigger] kept@[k] < p && !skips(
                fields@[kept@[k] as int],
            ),
            forall|q: int|
                0 <= q < p && !skips(#[trigger] fields@[q]) ==> exists|k: int|
                    0 <= k < kept@.len() && #[trigger] kept@[k] == q,
        decreases n - p,
    {
        if !should_skip_field(&fields[p]) {
            let ghost before = kept@;
            kept.push(p);
            proof {
                assert forall|q: int| 0 <= q < p + 1 && !skips(#[trigger] fields@[q]) implies exists|k: int|
                    0 <= k < kept@.len() && #[trigger] kept@[k] == q by {
                    if q < p {
                        let k = choose|k: int| 0 <= k < before.len() && before[k] == q;
                        assert(kept@[k] == q);
                    } else {
                        assert(kept@[before.len() as int] == q);
                    }
                }
            }
        }
        p = p + 1;
    }
    let ordered = order_kept(fields, &kept);
    proof {
        assert forall|k: int| 0 <= k < ordered@.len() implies #[trigger] ordered@[k].index < kept@.len() by {
            assert(kept_fields(kept@, fields@).len() == kept@.len());
        }
    }
    let kl = kept.len();
    let mut read_sequence: Vec<usize> = Vec::new();
    let mut ord_idx: usize = 0;
    let mut q: usize = 0;
    while q < n
        invariant
            n == fields@.len(),
            q <= n,
            forall|a: int, b: int| 0 <= a < b < kept@.len() ==> #[trigger] kept@[a] < #[trigger] kept@[b],
            forall|x: int|
                0 <= x < n && !skips(#[trigger] fields@[x]) ==> exists|k: int|
                    0 <= k < kept@.len() && #[trigger] kept@[k] == x,
            forall|k: int| 0 <= k < kept@.len() ==> #[trigger] kept@[k] < n && !skips(
                fields@[kept@[k] as int],
            ),
            kl == kept@.len(),
            ordered@.len() == kept@.len(),
            forall|k: int| 0 <= k < ordered@.len() ==> #[trigger] ordered@[k].index < kept@.len(),
            ord_idx <= kept@.len(),
            ord_idx == kept@.len() || kept@[ord_idx as int] >= q,
            ord_idx > 0 ==> kept@[ord_idx - 1] < q,
            read_sequence@.len() == q,
            forall|x: int| 0 <= x < q && skips(#[trigger] fields@[x]) ==> read_sequence@[x] == x,
            forall|k: int|
                0 <= k < ord_idx ==> read_sequence@[#[trigger] kept@[k] as int]
                    == kept@[ordered@[k].index as int],
        decreases n - q,
    {
        if should_skip_field(&fields[q]) {
            read_sequence.push(q);
            proof {
                if ord_idx < kept@.len() {
                    assert(kept@[ord_idx as int] != q);
                }
            }
        } else {
            proof {
                let k = choose|k: int| 0 <= k < kept@.len() && #[trigger] kept@[k] == q;
                if k < ord_idx {
                    assert(kept@[k] <= kept@[ord_idx - 1]);
                }
                if k > ord_idx {
                    assert(kept@[ord_idx as int] < kept@[k]);
                }
                assert(k == ord_idx);
                assert(ordered@[ord_idx as int].index < kept@.len());
            }
            read_sequence.push(kept[ordered[ord_idx].index]);
            ord_idx = ord_idx + 1;
        }
        proof {
            if ord_idx < kept@.len() && ord_idx > 0 {
                assert(kept@[ord_idx - 1] < kept@[ord_idx as int]);
            }
        }
        q = q + 1;
    }
    NamedFieldsPlan { kept, ordered, read_sequence }
}

/// What the derive is applied to.
#[derive(Clone, Debug)]
pub enum DataInfo {
    Struct(FieldsInfo),
    Enum(Vec<VariantInfo>),
    Union,
}

/// The wire layout that the derive gives an item.
#[derive(Clone, Copy, Debug, PartialEq, Eq, Structural)]
pub enum Layout {
    /// A `#[repr(transparent)]` struct of one `i32`: the number alone.
    Transparent,
    /// A struct that may be reached more than once: reference ids, member
    /// lengths, then the members.
    Circular,
    /// A struct whose members are framed by their lengths, so that readers
    /// with fewer or more members can read it.
    VersionTolerant,
    /// A struct: a member count, then the members.
    Regular,
    /// An enum of one-field variants: a tag, then the field.
    Union,
    /// A field-less enum with explicit discriminants, checked when read.
    EnumChecked,
    /// A field-less `#[repr(i32)]` enum read without a check.
    EnumUnchecked,
}

/// Why the derive refuses an item.
#[derive(Clone, Copy, Debug, PartialEq, Eq, Structural)]
pub enum DeriveRefusal {
    /// A field-less enum with neither `#[repr(i32)]` nor explicit
    /// discriminants.
    EnumWithoutRepr,
    /// A Rust `union`.
    RustUnion,
}

/// Every variant gives its discriminant.
pub open spec fn all_discriminants(vs: Seq<VariantInfo>) -> bool {
    forall|i: int| 0 <= i < vs.len() ==> #[trigger] vs[i].has_discriminant
}

/// The fields are a single unnamed `i32`.
pub open spec fn single_i32(fields: FieldsInfo) -> bool {
    fields matches FieldsInfo::Unnamed(fs) && fs@.len() == 1 && is_i32_path(fs@[0].ty)
}

/// The layout for an item with the given flags and shape: for a struct,
/// transparent (a single `i32` under `repr(transparent)`), else circular,
/// else version-tolerant, else regular; for an enum, a union when asked,
/// else a checked or unchecked field-less enum, which needs either
/// explicit discriminants or `repr(i32)`.
pub open spec fn layout_of(flags: AttributeFlags, data: DataInfo) -> Result<Layout, DeriveRefusal> {
    match data {
        DataInfo::Struct(fields) => if flags.is_transparent && single_i32(fields) {
            Ok(Layout::Transparent)
        } else if flags.is_circular {
            Ok(Layout::Circular)
        } else if flags.is_version_tolerant {
            Ok(Layout::VersionTolerant)
        } else {
            Ok(Layout::Regular)
        },
        DataInfo::Enum(vs) => if flags.is_union {
            Ok(Layout::Union)
        } else if all_discriminants(vs@) {
            Ok(Layout::EnumChecked)
        } else if flags.has_repr_i32 {
            Ok(Layout::EnumUnchecked)
        } else {
            Err(DeriveRefusal::EnumWithoutRepr)
        },
        DataInfo::Union => Err(DeriveRefusal::RustUnion),
    }
}

/// Picks the layout for an item.
pub fn select_layout(flags: &AttributeFlags, data: &DataInfo) -> (r: Result<Layout, DeriveRefusal>)
    ensures
        r == layout_of(*flags, *data),
{
    match data {
        DataInfo::Struct(fields) => {
            if flags.is_transparent && is_single_field_i32(fields) {
                Ok(Layout::Transparent)
            } else if flags.is_circular {
                Ok(Layout::Circular)
            } else if flags.is_version_tolerant {
                Ok(Layout::VersionTolerant)
            } else {
                Ok(Layout::Regular)
            }
        },
        DataInfo::Enum(vs) => {
            if flags.is_union {
                Ok(Layout::Union)
            } else if has_explicit_discriminants(vs.as_slice()) {
                Ok(Layout::EnumChecked)
            } else if flags.has_repr_i32 {
                Ok(Layout::EnumUnchecked)
            } else {
                Err(DeriveRefusal::EnumWithoutRepr)
            }
        },
        DataInfo::Union => Err(DeriveRefusal::RustUnion),
    }
}

/// Whether the derive also gives the type the bit operations of a flag
/// set: asked by `flags` on a transparent type.
pub fn emits_flag_operations(flags: &AttributeFlags) -> (r: bool)
    ensures
        r == (flags.is_flags && flags.is_transparent),
{
    flags.is_flags && flags.is_transparent
}

/// The layout of an enum: a union when asked; otherwise, when every
/// variant gives its discriminant, the checked field-less enum, whatever
/// its `repr`; otherwise the unchecked one under `repr(i32)`, and a refusal
/// without it.
pub proof fn lemma_enum_layouts(flags: AttributeFlags, vs: Vec<VariantInfo>)
    ensures
        flags.is_union ==> layout_of(flags, DataInfo::Enum(vs)) == Ok::<Layout, DeriveRefusal>(Layout::Union),
        !flags.is_union && (forall|i: int| 0 <= i < vs@.len() ==> (#[trigger] vs@[i]).has_discriminant)
            ==> layout_of(flags, DataInfo::Enum(vs)) == Ok::<Layout, DeriveRefusal>(Layout::EnumChecked),
        !flags.is_union && (exists|i: int| 0 <= i < vs@.len() && !(#[trigger] vs@[i]).has_discriminant)
            && flags.has_repr_i32 ==> layout_of(flags, DataInfo::Enum(vs)) == Ok::<Layout, DeriveRefusal>(
            Layout::EnumUnchecked,
        ),
        !flags.is_union && (exists|i: int| 0 <= i < vs@.len() && !(#[trigger] vs@[i]).has_discriminant)
            && !flags.has_repr_i32 ==> layout_of(flags, DataInfo::Enum(vs)) == Err::<Layout, DeriveRefusal>(
            DeriveRefusal::EnumWithoutRepr,
        ),
{
}

/// The layout of a struct: transparent for a single unnamed `i32` under
/// `repr(transparent)`; otherwise circular, version-tolerant or regular, in
/// that order of precedence. A Rust `union` is refused.
pub proof fn lemma_struct_layouts(flags: AttributeFlags, fields: FieldsInfo)
    ensures
        flags.is_transparent && (fields matches FieldsInfo::Unnamed(fs) && fs@.len() == 1
            && (fs@[0].ty matches TypeInfo::Path { ident: Some(id), .. } && id@ == "i32"@))
            ==> layout_of(flags, DataInfo::Struct(fields)) == Ok::<Layout, DeriveRefusal>(Layout::Transparent),
        !flags.is_transparent && flags.is_circular
            ==> layout_of(flags, DataInfo::Struct(fields)) == Ok::<Layout, DeriveRefusal>(Layout::Circular),
        !flags.is_transparent && !flags.is_circular && flags.is_version_tolerant
            ==> layout_of(flags, DataInfo::Struct(fields)) == Ok::<Layout, DeriveRefusal>(Layout::VersionTolerant),
        !flags.is_transparent && !flags.is_circular && !flags.is_version_tolerant
            ==> layout_of(flags, DataInfo::Struct(fields)) == Ok::<Layout, DeriveRefusal>(Layout::Regular),
        layout_of(flags, DataInfo::Union) == Err::<Layout, DeriveRefusal>(DeriveRefusal::RustUnion),
{
}

} // verus!
