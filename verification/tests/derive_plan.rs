use memorypack::derive_plan::attributes::{AttrInfo, AttributeFlags};
use memorypack::derive_plan::fields::{
    field_read_kind, FieldRead, get_field_order, has_explicit_discriminants, is_borrowed_slice, is_borrowed_str,
    is_option_box, is_single_field_i32, is_zero_copy_field, should_skip_field, FieldInfo,
    FieldsInfo, TypeInfo, VariantInfo,
};
use memorypack::derive_plan::plan::{
    member_slots, plan_named_fields, prepare_ordered_fields, select_layout, DataInfo,
    DeriveRefusal, Layout, OrderedField,
};
use memorypack::derive_plan::text::{chars_of, find_text, text_contains};

fn list(name: &str, tokens: &str) -> AttrInfo {
    AttrInfo { ident: Some(name.to_string()), tokens: Some(tokens.to_string()) }
}

fn field(name: &str, attrs: Vec<AttrInfo>) -> FieldInfo {
    FieldInfo { ident: Some(name.to_string()), attrs, ty: TypeInfo::Other }
}

fn path(ident: Option<&str>, last: Option<&str>, arg: Option<&str>) -> TypeInfo {
    TypeInfo::Path {
        ident: ident.map(|s| s.to_string()),
        last: last.map(|s| s.to_string()),
        first_arg_last: arg.map(|s| s.to_string()),
    }
}

#[test]
fn text_search() {
    let h = chars_of("order = 3");
    assert_eq!(find_text(&h, &chars_of("der")), Some(2));
    assert_eq!(find_text(&h, &chars_of("x")), None);
    assert_eq!(find_text(&h, &chars_of("")), Some(0));
    assert!(text_contains(&h, "= 3"));
    assert!(!text_contains(&h, "order = 4"));
}

#[test]
fn flags_come_from_repr_and_memorypack_lists() {
    let attrs = vec![
        list("repr", "transparent"),
        list("memorypack", "flags"),
        AttrInfo { ident: Some("derive".to_string()), tokens: Some("circular".to_string()) },
        AttrInfo { ident: Some("memorypack".to_string()), tokens: None },
    ];
    let f = AttributeFlags::parse(&attrs);
    assert!(f.is_transparent && f.is_flags);
    assert!(!f.is_circular && !f.is_union && !f.is_version_tolerant && !f.is_zero_copy && !f.has_repr_i32);
    let g = AttributeFlags::parse(&[list("repr", "i32"), list("memorypack", "version_tolerant, zero_copy")]);
    assert!(g.has_repr_i32 && g.is_version_tolerant && g.is_zero_copy && !g.is_transparent);
    let h = AttributeFlags::parse(&[list("memorypack", "union"), list("memorypack", "circular")]);
    assert!(!h.is_union && h.is_circular);
}

#[test]
fn skipped_fields() {
    assert!(should_skip_field(&field("a", vec![list("memorypack", "skip")])));
    assert!(should_skip_field(&field("_hidden", vec![])));
    assert!(!should_skip_field(&field("shown", vec![list("serde", "skip")])));
    let unnamed = FieldInfo { ident: None, attrs: vec![], ty: TypeInfo::Other };
    assert!(!should_skip_field(&unnamed));
    assert!(is_zero_copy_field(&field("z", vec![list("memorypack", "zero_copy")])));
    assert!(!is_zero_copy_field(&field("z", vec![list("repr", "zero_copy")])));
}

#[test]
fn ignored_fields_are_skipped() {
    assert!(should_skip_field(&field("a", vec![list("memorypack", "ignore")])));
    assert!(should_skip_field(&field("a", vec![list("memorypack", "order = 0, ignore")])));
    let p = plan_named_fields(&[field("only", vec![list("memorypack", "ignore")])]);
    assert!(p.kept.is_empty());
    assert!(p.ordered.is_empty());
    assert_eq!(p.read_sequence, vec![0]);
}

#[test]
fn later_attribute_lists_replace_earlier_flags() {
    let f = AttributeFlags::parse(&[list("memorypack", "version_tolerant"), list("memorypack", "zero_copy")]);
    assert!(f.is_zero_copy && !f.is_version_tolerant);
    let g = AttributeFlags::parse(&[list("repr", "i32"), list("repr", "transparent"), list("memorypack", "flags")]);
    assert!(g.is_transparent && !g.has_repr_i32 && g.is_flags);
}

#[test]
fn field_order_parsing() {
    assert_eq!(get_field_order(&field("a", vec![list("memorypack", "order = 3")])), Some(3));
    assert_eq!(get_field_order(&field("a", vec![list("memorypack", "order=12, skip")])), Some(12));
    assert_eq!(get_field_order(&field("a", vec![list("memorypack", "order = x")])), None);
    assert_eq!(get_field_order(&field("a", vec![list("memorypack", "order")])), None);
    assert_eq!(get_field_order(&field("a", vec![list("memorypack", "zero_copy")])), None);
    assert_eq!(
        get_field_order(&field("a", vec![list("memorypack", "order = 99999999999999999999999")])),
        None
    );
    assert_eq!(
        get_field_order(&field("a", vec![list("memorypack", "skip"), list("memorypack", "order = 1")])),
        Some(1)
    );
    assert_eq!(get_field_order(&field("a", vec![list("other", "order = 1")])), None);
}

#[test]
fn type_shapes() {
    let s = TypeInfo::Reference { elem_is_slice: false, elem_ident: Some("str".to_string()) };
    let sl = TypeInfo::Reference { elem_is_slice: true, elem_ident: None };
    assert!(is_borrowed_str(&s) && !is_borrowed_slice(&s));
    assert!(is_borrowed_slice(&sl) && !is_borrowed_str(&sl));
    assert!(is_option_box(&path(None, Some("Option"), Some("Box"))));
    assert!(!is_option_box(&path(None, Some("Option"), Some("Rc"))));
    assert!(!is_option_box(&path(Some("Box"), Some("Box"), None)));
    let one = FieldsInfo::Unnamed(vec![FieldInfo { ident: None, attrs: vec![], ty: path(Some("i32"), Some("i32"), None) }]);
    assert!(is_single_field_i32(&one));
    let other = FieldsInfo::Unnamed(vec![FieldInfo { ident: None, attrs: vec![], ty: path(Some("u32"), Some("u32"), None) }]);
    assert!(!is_single_field_i32(&other));
    assert!(!is_single_field_i32(&FieldsInfo::Unit));
}

#[test]
fn ordering_is_stable() {
    let fields = vec![
        field("a", vec![list("memorypack", "order = 2")]),
        field("b", vec![]),
        field("c", vec![list("memorypack", "order = 0")]),
        field("d", vec![list("memorypack", "order = 1")]),
    ];
    let o = prepare_ordered_fields(&fields);
    assert_eq!(
        o,
        vec![
            OrderedField { order: 0, index: 2 },
            OrderedField { order: 1, index: 1 },
            OrderedField { order: 1, index: 3 },
            OrderedField { order: 2, index: 0 },
        ]
    );
    assert_eq!(member_slots(&o), vec![Some(2), Some(1), Some(0)]);
    let gap = vec![OrderedField { order: 0, index: 0 }, OrderedField { order: 3, index: 1 }];
    assert_eq!(member_slots(&gap), vec![Some(0), None, None, Some(1)]);
}

#[test]
fn named_plan_keeps_skipped_fields_in_place() {
    let fields = vec![
        field("a", vec![list("memorypack", "order = 1")]),
        field("_b", vec![]),
        field("c", vec![list("memorypack", "order = 0")]),
    ];
    let p = plan_named_fields(&fields);
    assert_eq!(p.kept, vec![0, 2]);
    assert_eq!(p.ordered, vec![OrderedField { order: 0, index: 1 }, OrderedField { order: 1, index: 0 }]);
    assert_eq!(p.read_sequence, vec![2, 1, 0]);
}

#[test]
fn layout_selection() {
    let plain = AttributeFlags::parse(&[]);
    let i32_field = FieldsInfo::Unnamed(vec![FieldInfo { ident: None, attrs: vec![], ty: path(Some("i32"), Some("i32"), None) }]);
    let transparent = AttributeFlags::parse(&[list("repr", "transparent"), list("memorypack", "circular")]);
    assert_eq!(select_layout(&transparent, &DataInfo::Struct(i32_field.clone())), Ok(Layout::Transparent));
    assert_eq!(select_layout(&transparent, &DataInfo::Struct(FieldsInfo::Unit)), Ok(Layout::Circular));
    let tolerant = AttributeFlags::parse(&[list("memorypack", "version_tolerant")]);
    assert_eq!(select_layout(&tolerant, &DataInfo::Struct(FieldsInfo::Unit)), Ok(Layout::VersionTolerant));
    assert_eq!(select_layout(&plain, &DataInfo::Struct(i32_field)), Ok(Layout::Regular));
    let unit_variant = |d: bool| VariantInfo { name: "V".to_string(), has_discriminant: d, fields: FieldsInfo::Unit };
    assert!(has_explicit_discriminants(&[unit_variant(true), unit_variant(true)]));
    assert!(!has_explicit_discriminants(&[unit_variant(true), unit_variant(false)]));
    assert_eq!(select_layout(&plain, &DataInfo::Enum(vec![unit_variant(true)])), Ok(Layout::EnumChecked));
    assert_eq!(select_layout(&plain, &DataInfo::Enum(vec![unit_variant(false)])), Err(DeriveRefusal::EnumWithoutRepr));
    let repr = AttributeFlags::parse(&[list("repr", "i32")]);
    assert_eq!(select_layout(&repr, &DataInfo::Enum(vec![unit_variant(false)])), Ok(Layout::EnumUnchecked));
    let union = AttributeFlags::parse(&[list("memorypack", "union")]);
    assert_eq!(select_layout(&union, &DataInfo::Enum(vec![])), Ok(Layout::Union));
    assert_eq!(select_layout(&plain, &DataInfo::Union), Err(DeriveRefusal::RustUnion));
}

#[test]
fn field_read_decisions() {
    let s = TypeInfo::Reference { elem_is_slice: false, elem_ident: Some("str".to_string()) };
    let f = FieldInfo { ident: Some("name".to_string()), attrs: vec![], ty: s.clone() };
    assert_eq!(field_read_kind(&f, true), FieldRead::BorrowedStr);
    assert_eq!(field_read_kind(&f, false), FieldRead::Regular);
    let z = FieldInfo { ident: Some("v".to_string()), attrs: vec![list("memorypack", "zero_copy")], ty: TypeInfo::Other };
    assert_eq!(field_read_kind(&z, false), FieldRead::ZeroCopy);
    let sl = FieldInfo { ident: Some("b".to_string()), attrs: vec![], ty: TypeInfo::Reference { elem_is_slice: true, elem_ident: None } };
    assert_eq!(field_read_kind(&sl, true), FieldRead::BorrowedBytes);
    let skipped = FieldInfo { ident: Some("_x".to_string()), attrs: vec![], ty: s };
    assert_eq!(field_read_kind(&skipped, true), FieldRead::SkipDefault);
}
