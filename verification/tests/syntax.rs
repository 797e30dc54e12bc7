use speq::reflection::{FloatWidth, IntWidth, PrimitiveType, Type};
use speq::syntax::{primitive_of, shape_of, TypeSyntax};

fn name(name: &str) -> TypeSyntax {
    TypeSyntax::Path { segments: vec![name.to_string()], args: vec![] }
}

fn generic(name: &str, args: Vec<TypeSyntax>) -> TypeSyntax {
    TypeSyntax::Path { segments: vec![name.to_string()], args }
}

fn path(segments: &[&str]) -> TypeSyntax {
    TypeSyntax::Path { segments: segments.iter().map(|s| s.to_string()).collect(), args: vec![] }
}

fn id(name: &str) -> Type {
    Type::Id(name.to_string())
}

#[test]
fn names_of_primitives_stand_for_them() {
    let table = [
        ("i8", PrimitiveType::Int(IntWidth::W8)),
        ("i16", PrimitiveType::Int(IntWidth::W16)),
        ("i32", PrimitiveType::Int(IntWidth::W32)),
        ("i64", PrimitiveType::Int(IntWidth::W64)),
        ("i128", PrimitiveType::Int(IntWidth::W128)),
        ("u8", PrimitiveType::UInt(IntWidth::W8)),
        ("u16", PrimitiveType::UInt(IntWidth::W16)),
        ("u32", PrimitiveType::UInt(IntWidth::W32)),
        ("u64", PrimitiveType::UInt(IntWidth::W64)),
        ("u128", PrimitiveType::UInt(IntWidth::W128)),
        ("f32", PrimitiveType::Float(FloatWidth::F32)),
        ("f64", PrimitiveType::Float(FloatWidth::F64)),
        ("bool", PrimitiveType::Bool),
        ("String", PrimitiveType::String),
        ("str", PrimitiveType::String),
        ("Utf8Path", PrimitiveType::String),
        ("Utf8PathBuf", PrimitiveType::String),
    ];
    for (written, primitive) in table {
        assert_eq!(primitive_of(written), Some(primitive));
        assert_eq!(shape_of(&name(written), "m"), Type::Primitive(primitive));
    }
}

#[test]
fn other_names_stand_for_no_primitive() {
    for written in ["", "i", "i9", "I8", "usize", "isize", "char", "string", "Bool", "u8 "] {
        assert_eq!(primitive_of(written), None);
    }
}

#[test]
fn single_name_is_an_identifier_in_its_module() {
    assert_eq!(shape_of(&name("Item"), "shop::model"), id("shop::model::Item"));
    assert_eq!(shape_of(&name("usize"), "m"), id("m::usize"));
    assert_eq!(shape_of(&name("Item"), ""), id("::Item"));
    assert_eq!(shape_of(&generic("Page", vec![name("Item")]), "m"), id("m::Page"));
}

#[test]
fn longer_path_is_the_identifier_it_spells() {
    assert_eq!(shape_of(&path(&["shop", "Item"]), "elsewhere"), id("shop::Item"));
    assert_eq!(shape_of(&path(&["a", "b", "C"]), "m"), id("a::b::C"));
    assert_eq!(shape_of(&path(&["std", "string", "String"]), "m"), id("std::string::String"));
    assert_eq!(shape_of(&path(&[]), "m"), id(""));
}

#[test]
fn containers_resolve_their_arguments() {
    let byte = Type::Primitive(PrimitiveType::UInt(IntWidth::W8));
    assert_eq!(
        shape_of(&generic("Option", vec![name("u8")]), "m"),
        Type::Option(Box::new(byte.clone()))
    );
    assert_eq!(
        shape_of(&generic("Vec", vec![name("Item")]), "m"),
        Type::Array(Box::new(id("m::Item")))
    );
    assert_eq!(
        shape_of(&generic("HashMap", vec![name("String"), name("u8")]), "m"),
        Type::Mapping(Box::new(byte.clone()))
    );
    assert_eq!(
        shape_of(&generic("BTreeMap", vec![name("Key"), name("Item")]), "m"),
        Type::Mapping(Box::new(id("m::Item")))
    );
    assert_eq!(
        shape_of(&TypeSyntax::Array(Box::new(name("u8"))), "m"),
        Type::Array(Box::new(byte.clone()))
    );
    assert_eq!(
        shape_of(
            &TypeSyntax::Tuple(vec![
                name("u8"),
                generic("Option", vec![generic("Vec", vec![name("Item")])]),
                TypeSyntax::Tuple(vec![]),
            ]),
            "m"
        ),
        Type::Tuple(vec![
            byte,
            Type::Option(Box::new(Type::Array(Box::new(id("m::Item"))))),
            Type::Tuple(vec![]),
        ])
    );
}

#[test]
fn container_names_with_other_argument_counts_are_identifiers() {
    assert_eq!(shape_of(&name("Option"), "m"), id("m::Option"));
    assert_eq!(shape_of(&generic("Vec", vec![name("u8"), name("u8")]), "m"), id("m::Vec"));
    assert_eq!(shape_of(&generic("HashMap", vec![name("u8")]), "m"), id("m::HashMap"));
}
