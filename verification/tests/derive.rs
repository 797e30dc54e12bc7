use speq::derive::{
    build_field, derive_reflect, DeriveData, DeriveField, DeriveFields, DeriveInput,
    DeriveVariant, Derived, TagType,
};
use speq::error::{SpecError, Unsupported};
use speq::reflection::{
    EnumTag, EnumType, EnumVariant, EnumVariantKind, Field, IntWidth, PrimitiveType, StructType,
    Type, TypeDecl,
};

fn int32() -> Type {
    Type::Primitive(PrimitiveType::Int(IntWidth::W32))
}

fn field(name: &str, ty: Type) -> DeriveField {
    DeriveField { serialize_name: name.to_string(), flatten: false, has_default: false, ty }
}

fn variant(name: &str, fields: DeriveFields) -> DeriveVariant {
    DeriveVariant { ident: name.to_string(), serialize_name: name.to_string(), fields }
}

fn internal(tag: &str) -> TagType {
    TagType::Internal { tag: tag.to_string() }
}

fn input(ident: &str, tag: TagType, data: DeriveData) -> DeriveInput {
    DeriveInput { module: "shop::model".to_string(), ident: ident.to_string(), tag, data }
}

fn two_variants() -> Vec<DeriveVariant> {
    vec![
        variant("A", DeriveFields::Unit),
        variant("B", DeriveFields::Struct(vec![field("x", int32())])),
    ]
}

fn refusal(ident: &str, variant: Option<&str>, what: Unsupported) -> SpecError {
    SpecError::UnsupportedEncoding {
        type_ident: ident.to_string(),
        variant: variant.map(|v| v.to_string()),
        what,
    }
}

#[test]
fn field_without_default_is_required() {
    let built = build_field(&field("count", int32()));
    assert_eq!(
        built,
        Field { name: "count".to_string(), flatten: false, required: true, type_desc: int32() }
    );
}

#[test]
fn field_with_default_is_not_required() {
    let built = build_field(&DeriveField {
        serialize_name: "count".to_string(),
        flatten: false,
        has_default: true,
        ty: int32(),
    });
    assert!(!built.required);
    assert_eq!(built.name, "count");
}

#[test]
fn field_keeps_wire_name_flatten_and_shape() {
    let shape = Type::Option(Box::new(Type::Id("shop::model::Extra".to_string())));
    let built = build_field(&DeriveField {
        serialize_name: "renamedField".to_string(),
        flatten: true,
        has_default: false,
        ty: shape.clone(),
    });
    assert_eq!(
        built,
        Field {
            name: "renamedField".to_string(),
            flatten: true,
            required: true,
            type_desc: shape,
        }
    );
}

#[test]
fn struct_derives_its_fields_in_order() {
    let derived = derive_reflect(&input(
        "Item",
        TagType::External,
        DeriveData::Struct(DeriveFields::Struct(vec![
            field("id", Type::Primitive(PrimitiveType::UInt(IntWidth::W64))),
            DeriveField {
                serialize_name: "note".to_string(),
                flatten: false,
                has_default: true,
                ty: Type::Primitive(PrimitiveType::String),
            },
        ])),
    ));
    assert_eq!(
        derived,
        Ok(Derived {
            id: "shop::model::Item".to_string(),
            decl: TypeDecl::Struct(StructType {
                name: "Item".to_string(),
                fields: vec![
                    Field {
                        name: "id".to_string(),
                        flatten: false,
                        required: true,
                        type_desc: Type::Primitive(PrimitiveType::UInt(IntWidth::W64)),
                    },
                    Field {
                        name: "note".to_string(),
                        flatten: false,
                        required: false,
                        type_desc: Type::Primitive(PrimitiveType::String),
                    },
                ],
            }),
        })
    );
}

#[test]
fn internally_tagged_enum_round_trip() {
    let derived =
        derive_reflect(&input("Shape", internal("kind"), DeriveData::Enum(two_variants())));
    assert_eq!(
        derived,
        Ok(Derived {
            id: "shop::model::Shape".to_string(),
            decl: TypeDecl::Enum(EnumType {
                name: "Shape".to_string(),
                tag: Some(EnumTag::Internal("kind".to_string())),
                variants: vec![
                    EnumVariant {
                        name: "A".to_string(),
                        tag_value: "A".to_string(),
                        kind: EnumVariantKind::Unit,
                    },
                    EnumVariant {
                        name: "B".to_string(),
                        tag_value: "B".to_string(),
                        kind: EnumVariantKind::Struct(vec![Field {
                            name: "x".to_string(),
                            flatten: false,
                            required: true,
                            type_desc: int32(),
                        }]),
                    },
                ],
            }),
        })
    );
}

#[test]
fn enum_variant_keeps_source_name_and_wire_name_apart() {
    let derived = derive_reflect(&input(
        "Event",
        internal("type"),
        DeriveData::Enum(vec![DeriveVariant {
            ident: "UserCreated".to_string(),
            serialize_name: "user_created".to_string(),
            fields: DeriveFields::Newtype(field("0", Type::Id("shop::model::User".to_string()))),
        }]),
    ))
    .unwrap();
    assert_eq!(
        derived.decl,
        TypeDecl::Enum(EnumType {
            name: "Event".to_string(),
            tag: Some(EnumTag::Internal("type".to_string())),
            variants: vec![EnumVariant {
                name: "UserCreated".to_string(),
                tag_value: "user_created".to_string(),
                kind: EnumVariantKind::NewType(Type::Id("shop::model::User".to_string())),
            }],
        })
    );
}

#[test]
fn externally_tagged_enum_is_refused() {
    let derived =
        derive_reflect(&input("Shape", TagType::External, DeriveData::Enum(two_variants())));
    assert_eq!(derived, Err(refusal("Shape", None, Unsupported::ExternalTag)));
}

#[test]
fn adjacently_tagged_enum_is_refused() {
    let tag = TagType::Adjacent { tag: "t".to_string(), content: "c".to_string() };
    let derived = derive_reflect(&input("Shape", tag, DeriveData::Enum(two_variants())));
    assert_eq!(derived, Err(refusal("Shape", None, Unsupported::AdjacentTag)));
}

#[test]
fn untagged_enum_is_refused() {
    let derived =
        derive_reflect(&input("Shape", TagType::Untagged, DeriveData::Enum(two_variants())));
    assert_eq!(derived, Err(refusal("Shape", None, Unsupported::Untagged)));
}

#[test]
fn externally_tagged_enum_without_variants_is_refused() {
    let derived = derive_reflect(&input("Never", TagType::External, DeriveData::Enum(vec![])));
    assert_eq!(derived, Err(refusal("Never", None, Unsupported::ExternalTag)));
}

#[test]
fn tuple_variant_is_refused_by_name() {
    let derived = derive_reflect(&input(
        "Shape",
        internal("kind"),
        DeriveData::Enum(vec![
            variant("A", DeriveFields::Unit),
            variant("Pair", DeriveFields::Tuple(vec![field("0", int32()), field("1", int32())])),
            variant("Other", DeriveFields::Tuple(vec![])),
        ]),
    ));
    assert_eq!(derived, Err(refusal("Shape", Some("Pair"), Unsupported::TupleVariant)));
}

#[test]
fn tag_is_held_before_variants() {
    let derived = derive_reflect(&input(
        "Shape",
        TagType::Untagged,
        DeriveData::Enum(vec![variant("Pair", DeriveFields::Tuple(vec![]))]),
    ));
    assert_eq!(derived, Err(refusal("Shape", None, Unsupported::Untagged)));
}

#[test]
fn structs_without_named_fields_are_refused() {
    let tuple = DeriveData::Struct(DeriveFields::Tuple(vec![field("0", int32())]));
    assert_eq!(
        derive_reflect(&input("Pair", TagType::External, tuple)),
        Err(refusal("Pair", None, Unsupported::TupleStruct))
    );
    let newtype = DeriveData::Struct(DeriveFields::Newtype(field("0", int32())));
    assert_eq!(
        derive_reflect(&input("Wrapper", TagType::External, newtype)),
        Err(refusal("Wrapper", None, Unsupported::NewtypeStruct))
    );
    let unit = DeriveData::Struct(DeriveFields::Unit);
    assert_eq!(
        derive_reflect(&input("Marker", TagType::External, unit)),
        Err(refusal("Marker", None, Unsupported::UnitStruct))
    );
}

#[test]
fn empty_struct_and_empty_enum_derive() {
    let empty = derive_reflect(&input(
        "Empty",
        TagType::External,
        DeriveData::Struct(DeriveFields::Struct(vec![])),
    ))
    .unwrap();
    assert_eq!(
        empty.decl,
        TypeDecl::Struct(StructType { name: "Empty".to_string(), fields: vec![] })
    );
    let none = derive_reflect(&input("Never", internal("k"), DeriveData::Enum(vec![]))).unwrap();
    assert_eq!(none.id, "shop::model::Never");
    assert_eq!(
        none.decl,
        TypeDecl::Enum(EnumType {
            name: "Never".to_string(),
            tag: Some(EnumTag::Internal("k".to_string())),
            variants: vec![],
        })
    );
}
