use pbf_derive::model::{
    DataEnum, DataStruct, DeriveError, Field, FieldAttributes, FieldType, Fields,
    GenericArgument, PathArguments, PathSegment, TypePath, Variant,
};
use pbf_derive::read::{
    derive_proto_read_enum, derive_proto_read_struct, field_type_to_read_enum,
    field_type_to_read_method, proto_read_enum_refusal, proto_read_struct_refusal,
};
use pbf_derive::text::tag_literal;
use pbf_derive::write::{
    derive_proto_write_enum, derive_proto_write_struct, field_type_to_write_method,
    proto_write_enum_refusal, proto_write_struct_refusal,
};

fn attrs() -> FieldAttributes {
    FieldAttributes { tag: None, signed: false, fixed: false, nested: false, ignore: false }
}

fn path(ident: &str) -> FieldType {
    FieldType::Path(TypePath {
        leading_colon: false,
        prefix: vec![],
        last: PathSegment { ident: ident.to_string(), arguments: PathArguments::Empty },
        text: ident.to_string(),
    })
}

fn text_of(ty: &FieldType) -> String {
    match ty {
        FieldType::Path(p) => p.text.clone(),
        FieldType::Other(t) => t.clone(),
    }
}

fn generic(ident: &str, inner: FieldType) -> FieldType {
    let text = format!("{} < {} >", ident, text_of(&inner));
    FieldType::Path(TypePath {
        leading_colon: false,
        prefix: vec![],
        last: PathSegment {
            ident: ident.to_string(),
            arguments: PathArguments::AngleBracketed(Some(Box::new(GenericArgument::Type(inner)))),
        },
        text,
    })
}

fn field(name: &str, ty: FieldType, a: FieldAttributes) -> Field {
    Field { ident: name.to_string(), ty, attrs: Ok(a) }
}

fn named(fields: Vec<Field>) -> DataStruct {
    DataStruct { fields: Fields::Named(fields) }
}

fn read_struct(fields: Vec<Field>) -> String {
    derive_proto_read_struct(&named(fields), &"Msg".to_string(), &core_crate())
}

fn write_struct(fields: Vec<Field>) -> String {
    derive_proto_write_struct(&named(fields), &"Msg".to_string(), &core_crate())
}

fn core_crate() -> String {
    "pbf".to_string()
}

fn wrap(item: &str) -> String {
    format!(
        "#[doc(hidden)] #[allow(non_upper_case_globals, unused_attributes, unused_qualifications, clippy::absolute_paths,)] const _: () = {{ #[allow(unused_extern_crates, clippy::useless_attribute)] extern crate pbf as _pbf_core; #[allow(unused_extern_crates, clippy::useless_attribute)] extern crate alloc; use _pbf_core::*; #[automatically_derived] {} }};",
        item
    )
}

fn read_impl(arms: &str) -> String {
    wrap(&format!(
        "impl ProtoRead for Msg {{ fn read(&mut self, tag: u64, pb: &mut Protobuf) {{ match tag {{ {}_ => panic!(\"unknown tag {{}}\", tag), }} }} }}",
        arms
    ))
}

fn write_impl(stmts: &str) -> String {
    wrap(&format!("impl ProtoWrite for Msg {{ fn write(&self, pbf: &mut Protobuf) {{ {}}} }}", stmts))
}

#[test]
fn readme_message_is_written_with_tags_from_zero() {
    let fields = || vec![field("a", path("i32"), attrs()), field("b", path("String"), attrs())];
    assert_eq!(
        write_struct(fields()),
        write_impl("pbf.write_varint_field(0u64, self.a); pbf.write_string_field(1u64, &self.b); ")
    );
    assert_eq!(
        read_struct(fields()),
        read_impl("0u64 => self.a = pb.read_varint(), 1u64 => self.b = pb.read_string(), ")
    );
}

#[test]
fn explicit_tags_and_ignored_fields() {
    let fields = || {
        vec![
            field("a", path("u32"), FieldAttributes { tag: Some(5), ..attrs() }),
            field("skip", path("u32"), FieldAttributes { ignore: true, ..attrs() }),
            field("b", path("u64"), attrs()),
            field("c", path("bool"), FieldAttributes { tag: Some(2), ..attrs() }),
            field("d", path("i8"), attrs()),
        ]
    };
    assert_eq!(
        read_struct(fields()),
        read_impl(
            "5u64 => self.a = pb.read_varint(), 6u64 => self.b = pb.read_varint(), 2u64 => self.c = pb.read_varint(), 3u64 => self.d = pb.read_varint(), "
        )
    );
    assert_eq!(
        write_struct(fields()),
        write_impl(
            "pbf.write_varint_field(5u64, self.a); pbf.write_varint_field(6u64, self.b); pbf.write_varint_field(2u64, self.c); pbf.write_varint_field(3u64, self.d); "
        )
    );
}

#[test]
fn signed_takes_precedence_over_fixed() {
    let fields = || {
        vec![
            field("a", path("i32"), FieldAttributes { signed: true, fixed: true, ..attrs() }),
            field("b", path("f64"), FieldAttributes { fixed: true, ..attrs() }),
        ]
    };
    assert_eq!(
        read_struct(fields()),
        read_impl("0u64 => self.a = pb.read_s_varint(), 1u64 => self.b = pb.read_fixed(), ")
    );
    assert_eq!(
        write_struct(fields()),
        write_impl(
            "pbf.write_s_varint_field(0u64, self.a); pbf.write_fixed_field(1u64, self.b); "
        )
    );
}

#[test]
fn vectors_are_bytes_or_packed() {
    let fields = || {
        vec![
            field("raw", generic("Vec", path("u8")), attrs()),
            field("xs", generic("Vec", path("u32")), attrs()),
            field("ys", generic("Vec", path("i64")), FieldAttributes { signed: true, ..attrs() }),
        ]
    };
    assert_eq!(
        read_struct(fields()),
        read_impl(
            "0u64 => self.raw = pb.read_bytes(), 1u64 => self.xs = pb.read_packed(), 2u64 => self.ys = pb.read_s_packed(), "
        )
    );
    assert_eq!(
        write_struct(fields()),
        write_impl(
            "pbf.write_bytes_field(0u64, &self.raw); pbf.write_packed_varint(1u64, &self.xs); pbf.write_packed_s_varint(2u64, &self.ys); "
        )
    );
}

#[test]
fn optional_fields() {
    let fields = || {
        vec![
            field("a", generic("Option", path("u32")), attrs()),
            field("s", generic("Option", path("String")), attrs()),
            field("v", generic("Option", generic("Vec", path("u8"))), attrs()),
        ]
    };
    assert_eq!(
        read_struct(fields()),
        read_impl(
            "0u64 => self.a = Some(pb.read_varint()), 1u64 => self.s = Some(pb.read_string()), 2u64 => self.v = Some(pb.read_bytes()), "
        )
    );
    assert_eq!(
        write_struct(fields()),
        write_impl(
            "if let Some(a) = &self.a { pbf.write_varint_field(0u64, *a); } if let Some(s) = &self.s { pbf.write_string_field(1u64, &s); } if let Some(v) = &self.v { pbf.write_bytes_field(2u64, &*v); } "
        )
    );
}

#[test]
fn nested_messages() {
    let nested = FieldAttributes { nested: true, ..attrs() };
    let fields = || {
        vec![
            field("inner", path("Inner"), nested),
            field("maybe", generic("Option", path("Inner")), nested),
        ]
    };
    assert_eq!(
        read_struct(fields()),
        read_impl(
            "0u64 => { let mut nested_value = Inner::default(); pb.read_message(&mut nested_value); self.inner = nested_value; } 1u64 => { let mut nested_value = Inner::default(); pb.read_message(&mut nested_value); self.maybe = Some(nested_value); } "
        )
    );
    assert_eq!(
        write_struct(fields()),
        write_impl(
            "pbf.write_message(0u64, &self.inner); if let Some(maybe) = &self.maybe { pbf.write_message(1u64, &*maybe); } "
        )
    );
}

#[test]
fn other_paths_are_plain_varints() {
    // An enum stored as an integer ignores `signed` and `fixed`.
    let fields = || vec![field("kind", path("Kind"), FieldAttributes { signed: true, ..attrs() })];
    assert_eq!(read_struct(fields()), read_impl("0u64 => self.kind = pb.read_varint(), "));
    assert_eq!(write_struct(fields()), write_impl("pbf.write_varint_field(0u64, self.kind); "));
}

#[test]
fn qualified_string_path_is_not_a_string() {
    let ty = FieldType::Path(TypePath {
        leading_colon: true,
        prefix: vec!["std".to_string(), "string".to_string()],
        last: PathSegment { ident: "String".to_string(), arguments: PathArguments::Empty },
        text: ":: std :: string :: String".to_string(),
    });
    let out = field_type_to_read_method(&ty, &"s".to_string(), 0, &attrs(), false);
    assert_eq!(out, Some("0u64 => self.s = pb.read_varint(),".to_string()));
}

#[test]
fn unsupported_type_is_refused() {
    let fields = || {
        vec![
            field("a", path("u32"), attrs()),
            field("r", FieldType::Other("& 'static str".to_string()), attrs()),
        ]
    };
    match proto_read_struct_refusal(&named(fields())) {
        Some(DeriveError::UnsupportedType(t)) => assert_eq!(t, "& 'static str"),
        other => panic!("unexpected {:?}", other),
    }
    match proto_write_struct_refusal(&named(fields())) {
        Some(DeriveError::UnsupportedType(t)) => assert_eq!(t, "& 'static str"),
        other => panic!("unexpected {:?}", other),
    }
}

#[test]
fn unsupported_inner_type_reports_the_field_type() {
    let ty = generic("Option", FieldType::Other("(u8 , u8)".to_string()));
    let expected = text_of(&ty);
    let fields = vec![field("p", ty, attrs())];
    match proto_write_struct_refusal(&named(fields)) {
        Some(DeriveError::UnsupportedType(t)) => assert_eq!(t, expected),
        other => panic!("unexpected {:?}", other),
    }
}

#[test]
fn ignored_field_of_unsupported_type_is_accepted() {
    let fields = vec![
        field("r", FieldType::Other("& str".to_string()), FieldAttributes { ignore: true, ..attrs() }),
        field("a", path("u32"), attrs()),
    ];
    assert_eq!(read_struct(fields), read_impl("0u64 => self.a = pb.read_varint(), "));
}

#[test]
fn vec_of_non_path_is_read_but_not_written() {
    let ty = || generic("Vec", FieldType::Other("[u8 ; 4]".to_string()));
    assert_eq!(read_struct(vec![field("v", ty(), attrs())]), read_impl("0u64 => self.v = pb.read_packed(), "));
    assert!(matches!(
        proto_write_struct_refusal(&named(vec![field("v", ty(), attrs())])),
        Some(DeriveError::UnsupportedType(_))
    ));
}

#[test]
fn vec_without_arguments_is_refused() {
    let ty = FieldType::Path(TypePath {
        leading_colon: false,
        prefix: vec![],
        last: PathSegment { ident: "Vec".to_string(), arguments: PathArguments::AngleBracketed(None) },
        text: "Vec < >".to_string(),
    });
    assert_eq!(field_type_to_read_method(&ty, &"v".to_string(), 0, &attrs(), false), None);
    assert_eq!(field_type_to_write_method(&ty, &"v".to_string(), 0, &attrs(), false), None);
    let lifetime = FieldType::Path(TypePath {
        leading_colon: false,
        prefix: vec![],
        last: PathSegment {
            ident: "Option".to_string(),
            arguments: PathArguments::AngleBracketed(Some(Box::new(GenericArgument::Other))),
        },
        text: "Option < 'a >".to_string(),
    });
    assert_eq!(field_type_to_read_method(&lifetime, &"o".to_string(), 0, &attrs(), false), None);
    assert_eq!(field_type_to_write_method(&lifetime, &"o".to_string(), 0, &attrs(), false), None);
}

#[test]
fn qualified_u8_vector_is_bytes_for_write_only() {
    let inner = FieldType::Path(TypePath {
        leading_colon: false,
        prefix: vec!["core".to_string(), "primitive".to_string()],
        last: PathSegment { ident: "u8".to_string(), arguments: PathArguments::Empty },
        text: "core :: primitive :: u8".to_string(),
    });
    let ty = generic("Vec", inner);
    assert_eq!(
        field_type_to_write_method(&ty, &"b".to_string(), 3, &attrs(), false),
        Some("pbf.write_bytes_field(3u64, &self.b);".to_string())
    );
    assert_eq!(
        field_type_to_read_method(&ty, &"b".to_string(), 3, &attrs(), false),
        Some("3u64 => self.b = pb.read_packed(),".to_string())
    );
}

#[test]
fn tuple_and_unit_structs_are_refused() {
    for fields in [Fields::Unnamed, Fields::Unit] {
        let data = DataStruct { fields };
        assert!(matches!(
            proto_read_struct_refusal(&data),
            Some(DeriveError::NotNamedFields)
        ));
        assert!(matches!(
            proto_write_struct_refusal(&data),
            Some(DeriveError::NotNamedFields)
        ));
    }
}

#[test]
fn attribute_errors_are_reported_in_order() {
    let fields = || {
        vec![
            field("a", path("u32"), attrs()),
            Field { ident: "b".to_string(), ty: path("u32"), attrs: Err("bad tag".to_string()) },
            field("c", FieldType::Other("& str".to_string()), attrs()),
        ]
    };
    match proto_read_struct_refusal(&named(fields())) {
        Some(DeriveError::Attributes(m)) => assert_eq!(m, "bad tag"),
        other => panic!("unexpected {:?}", other),
    }
    match proto_write_struct_refusal(&named(fields())) {
        Some(DeriveError::Attributes(m)) => assert_eq!(m, "bad tag"),
        other => panic!("unexpected {:?}", other),
    }
}

#[test]
fn tag_past_the_last_u64_is_refused() {
    let fields = || {
        vec![field("a", path("u32"), FieldAttributes { tag: Some(u64::MAX), ..attrs() })]
    };
    assert!(matches!(
        proto_read_struct_refusal(&named(fields())),
        Some(DeriveError::TagOverflow)
    ));
    assert!(matches!(
        proto_write_struct_refusal(&named(fields())),
        Some(DeriveError::TagOverflow)
    ));
    let last = vec![field("a", path("u32"), FieldAttributes { tag: Some(u64::MAX - 1), ..attrs() })];
    assert_eq!(
        read_struct(last),
        read_impl("18446744073709551614u64 => self.a = pb.read_varint(), ")
    );
}

#[test]
fn tag_literals() {
    assert_eq!(tag_literal(0), "0u64");
    assert_eq!(tag_literal(7), "7u64");
    assert_eq!(tag_literal(10), "10u64");
    assert_eq!(tag_literal(1234567890), "1234567890u64");
    assert_eq!(tag_literal(u64::MAX), "18446744073709551615u64");
}

fn variant(name: &str, a: FieldAttributes, fields: Vec<FieldType>) -> Variant {
    Variant { ident: name.to_string(), attrs: Ok(a), fields }
}

#[test]
fn enum_read_numbers_variants_with_fields() {
    let data = DataEnum {
        variants: vec![
            variant("Empty", attrs(), vec![]),
            variant("Num", attrs(), vec![path("u32")]),
            variant("Text", attrs(), vec![path("String")]),
            variant("None2", attrs(), vec![]),
            variant("Sub", FieldAttributes { nested: true, ..attrs() }, vec![path("Inner")]),
        ],
    };
    assert_eq!(
        derive_proto_read_enum(&data, &"E".to_string(), &core_crate()),
        wrap("impl ProtoRead for E { fn read(&mut self, tag: u64, pb: &mut Protobuf) { *self = match tag { 0u64 => E::Empty, 0u64 => { E::Num(pb.read_varint()) } 1u64 => { E::Text(pb.read_string()) } 2u64 => E::None2, 2u64 => { { let mut nested_value = Inner::default(); pb.read_message(&mut nested_value); E::Sub(nested_value) } } _ => panic!(\"unknown tag {}\", tag), } } }")
    );
}

#[test]
fn enum_write_numbers_variants_with_fields() {
    let data = DataEnum {
        variants: vec![
            variant("Empty", attrs(), vec![]),
            variant("Num", attrs(), vec![path("u32")]),
            variant("Text", FieldAttributes { tag: Some(7), ..attrs() }, vec![path("String")]),
            variant("Last", attrs(), vec![generic("Option", path("i64"))]),
        ],
    };
    assert_eq!(
        derive_proto_write_enum(&data, &"E".to_string(), &core_crate()),
        wrap("impl ProtoWrite for E { fn write(&self, pbf: &mut Protobuf) { match self { E::Empty => pbf.write_field(0u64, Type::None), E::Num(field0) => { pbf.write_varint_field(0u64, *field0); }, E::Text(field0) => { pbf.write_string_field(7u64, &field0); }, E::Last(field0) => { if let Some(field0) = &field0 { pbf.write_varint_field(8u64, *field0); } }, } } }")
    );
}

#[test]
fn unit_variant_tags_differ_between_read_and_write() {
    let data = || DataEnum {
        variants: vec![
            variant("A", FieldAttributes { tag: Some(4), ..attrs() }, vec![]),
            variant("B", attrs(), vec![path("u8")]),
        ],
    };
    let read = derive_proto_read_enum(&data(), &"E".to_string(), &core_crate());
    assert!(read.contains("4u64 => E::A,"));
    assert!(read.contains("4u64 => { E::B(pb.read_varint()) }"));
    let write = derive_proto_write_enum(&data(), &"E".to_string(), &core_crate());
    assert!(write.contains("E::A => pbf.write_field(0u64, Type::None),"));
    assert!(write.contains("E::B(field0) => { pbf.write_varint_field(0u64, *field0); },"));
}

#[test]
fn enum_variant_with_several_fields_binds_by_position() {
    let data = || DataEnum {
        variants: vec![variant("Pair", attrs(), vec![path("u8"), path("String")])],
    };
    assert_eq!(
        derive_proto_write_enum(&data(), &"E".to_string(), &core_crate()),
        wrap("impl ProtoWrite for E { fn write(&self, pbf: &mut Protobuf) { match self { E::Pair(field0) => { pbf.write_varint_field(0u64, *field0); }, E::Pair(field1) => { pbf.write_string_field(0u64, &field1); }, } } }")
    );
    assert_eq!(
        derive_proto_read_enum(&data(), &"E".to_string(), &core_crate()),
        wrap("impl ProtoRead for E { fn read(&mut self, tag: u64, pb: &mut Protobuf) { *self = match tag { 0u64 => { E::Pair(pb.read_varint()) } 0u64 => { E::Pair(pb.read_string()) } _ => panic!(\"unknown tag {}\", tag), } } }")
    );
}

#[test]
fn ignored_enum_variant_still_takes_a_tag() {
    let data = || DataEnum {
        variants: vec![
            variant("Gone", FieldAttributes { ignore: true, ..attrs() }, vec![path("u8")]),
            variant("Kept", attrs(), vec![path("u8")]),
        ],
    };
    assert_eq!(
        derive_proto_read_enum(&data(), &"E".to_string(), &core_crate()),
        wrap("impl ProtoRead for E { fn read(&mut self, tag: u64, pb: &mut Protobuf) { *self = match tag { 1u64 => { E::Kept(pb.read_varint()) } _ => panic!(\"unknown tag {}\", tag), } } }")
    );
    assert_eq!(
        derive_proto_write_enum(&data(), &"E".to_string(), &core_crate()),
        wrap("impl ProtoWrite for E { fn write(&self, pbf: &mut Protobuf) { match self { E::Kept(field0) => { pbf.write_varint_field(1u64, *field0); }, } } }")
    );
}

#[test]
fn enum_errors() {
    let bad = DataEnum {
        variants: vec![Variant { ident: "V".to_string(), attrs: Err("oops".to_string()), fields: vec![] }],
    };
    assert!(matches!(proto_read_enum_refusal(&bad), Some(DeriveError::Attributes(_))));
    assert!(matches!(proto_write_enum_refusal(&bad), Some(DeriveError::Attributes(_))));
    let unsupported = DataEnum {
        variants: vec![variant("V", attrs(), vec![FieldType::Other("& str".to_string())])],
    };
    assert!(matches!(
        proto_read_enum_refusal(&unsupported),
        Some(DeriveError::UnsupportedType(_))
    ));
    assert!(matches!(
        proto_write_enum_refusal(&unsupported),
        Some(DeriveError::UnsupportedType(_))
    ));
    let overflow = DataEnum {
        variants: vec![variant("V", FieldAttributes { tag: Some(u64::MAX), ..attrs() }, vec![path("u8")])],
    };
    assert!(matches!(proto_read_enum_refusal(&overflow), Some(DeriveError::TagOverflow)));
    assert!(matches!(proto_write_enum_refusal(&overflow), Some(DeriveError::TagOverflow)));
    let empty = DataEnum { variants: vec![] };
    assert_eq!(
        derive_proto_write_enum(&empty, &"E".to_string(), &core_crate()),
        wrap("impl ProtoWrite for E { fn write(&self, pbf: &mut Protobuf) { match self { } } }")
    );
}

#[test]
fn read_enum_expression_for_optional_value() {
    let ty = generic("Option", path("u16"));
    assert_eq!(
        field_type_to_read_enum(&ty, &"E".to_string(), &"V".to_string(), &attrs(), false),
        Some("E::V(Some(pb.read_varint()))".to_string())
    );
}

#[test]
fn accepted_items_have_no_refusal() {
    let fields = || vec![field("a", path("u32"), attrs()), field("b", generic("Vec", path("u8")), attrs())];
    assert!(proto_read_struct_refusal(&named(fields())).is_none());
    assert!(proto_write_struct_refusal(&named(fields())).is_none());
    let data = DataEnum { variants: vec![variant("A", attrs(), vec![]), variant("B", attrs(), vec![path("u8")])] };
    assert!(proto_read_enum_refusal(&data).is_none());
    assert!(proto_write_enum_refusal(&data).is_none());
}

#[test]
fn wrapper_names_the_core_crate() {
    let out = derive_proto_write_struct(
        &named(vec![field("a", path("u32"), attrs())]),
        &"Msg".to_string(),
        &"my_pbf".to_string(),
    );
    assert!(out.contains("extern crate my_pbf as _pbf_core;"));
    assert!(out.starts_with("#[doc(hidden)]"));
    assert!(out.ends_with("pbf.write_varint_field(0u64, self.a); } } };"));
}
