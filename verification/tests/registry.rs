use speq::reflection::{
    EnumTag, EnumType, Field, FloatWidth, IntWidth, PrimitiveType, Reflect, StructType, Type,
    TypeDecl,
};
use speq::TypeContext;

fn unit_struct(name: &str) -> TypeDecl {
    TypeDecl::Struct(StructType { name: name.to_string(), fields: vec![] })
}

fn id(name: &str) -> Type {
    Type::Id(name.to_string())
}

struct Node;

impl Reflect for Node {
    fn type_id() -> Option<String> {
        Some("tests::Node".to_string())
    }

    fn reflect(cx: &mut TypeContext) -> Type {
        let id = Self::type_id().unwrap();
        cx.insert_with(id.clone(), |cx| {
            TypeDecl::Struct(StructType {
                name: "Node".to_string(),
                fields: vec![Field {
                    name: "next".to_string(),
                    flatten: false,
                    required: true,
                    type_desc: <Option<Node> as Reflect>::reflect(cx),
                }],
            })
        });
        Type::Id(id)
    }
}

struct Ping;

struct Pong;

impl Reflect for Ping {
    fn type_id() -> Option<String> {
        Some("tests::Ping".to_string())
    }

    fn reflect(cx: &mut TypeContext) -> Type {
        cx.reflect_with("tests::Ping".to_string(), |cx| {
            TypeDecl::Struct(StructType {
                name: "Ping".to_string(),
                fields: vec![Field {
                    name: "pong".to_string(),
                    flatten: false,
                    required: true,
                    type_desc: <Vec<Pong> as Reflect>::reflect(cx),
                }],
            })
        })
    }
}

impl Reflect for Pong {
    fn type_id() -> Option<String> {
        Some("tests::Pong".to_string())
    }

    fn reflect(cx: &mut TypeContext) -> Type {
        let id = Self::type_id().unwrap();
        cx.insert_with(id.clone(), |cx| {
            TypeDecl::Struct(StructType {
                name: "Pong".to_string(),
                fields: vec![Field {
                    name: "ping".to_string(),
                    flatten: false,
                    required: false,
                    type_desc: <Ping as Reflect>::reflect(cx),
                }],
            })
        });
        Type::Id(id)
    }
}

#[test]
fn int_width_as_u8_gives_the_bits() {
    assert_eq!(IntWidth::W8.as_u8(), 8);
    assert_eq!(IntWidth::W16.as_u8(), 16);
    assert_eq!(IntWidth::W32.as_u8(), 32);
    assert_eq!(IntWidth::W64.as_u8(), 64);
    assert_eq!(IntWidth::W128.as_u8(), 128);
}

#[test]
fn float_width_as_u8_gives_the_bits() {
    assert_eq!(FloatWidth::F32.as_u8(), 32);
    assert_eq!(FloatWidth::F64.as_u8(), 64);
}

#[test]
fn as_id_gives_the_identifier_of_a_reference_only() {
    assert_eq!(id("a::B").as_id(), Some("a::B"));
    assert_eq!(Type::Primitive(PrimitiveType::Bool).as_id(), None);
    assert_eq!(Type::Option(Box::new(id("a::B"))).as_id(), None);
    assert_eq!(Type::Tuple(vec![]).as_id(), None);
}

#[test]
fn as_struct_gives_a_struct_only() {
    let decl = unit_struct("S");
    assert_eq!(decl.as_struct().map(|s| s.name.as_str()), Some("S"));
    let other = TypeDecl::Enum(EnumType {
        name: "E".to_string(),
        tag: Some(EnumTag::Internal("kind".to_string())),
        variants: vec![],
    });
    assert!(other.as_struct().is_none());
}

#[test]
fn duplicate_and_clone_copy_a_shape_in_depth() {
    let shape = Type::Tuple(vec![
        Type::Option(Box::new(id("a::B"))),
        Type::Array(Box::new(Type::Mapping(Box::new(Type::Primitive(
            PrimitiveType::Float(FloatWidth::F64),
        ))))),
        Type::Tuple(vec![]),
    ]);
    assert_eq!(shape.duplicate(), shape);
    assert_eq!(shape.clone(), shape);
    let decl = TypeDecl::Struct(StructType {
        name: "S".to_string(),
        fields: vec![Field {
            name: "f".to_string(),
            flatten: true,
            required: false,
            type_desc: shape,
        }],
    });
    assert_eq!(decl.clone(), decl);
}

#[test]
fn new_registry_is_empty() {
    let cx = TypeContext::new();
    assert_eq!(cx.len(), 0);
    assert!(!cx.contains("a"));
    assert!(!cx.is_known("a"));
    assert!(cx.get("a").is_none());
    assert!(cx.into_types().is_empty());
}

#[test]
fn insert_with_files_what_the_builder_returns() {
    let mut cx = TypeContext::new();
    cx.insert_with("a".to_string(), |_| unit_struct("A"));
    assert_eq!(cx.len(), 1);
    assert!(cx.contains("a"));
    assert!(cx.is_known("a"));
    assert!(!cx.contains("b"));
    assert!(!cx.contains(""));
    assert!(!cx.contains("aa"));
    assert_eq!(cx.get("a"), Some(&unit_struct("A")));
    assert_eq!(cx.get("b"), None);
}

#[test]
fn insert_with_leaves_a_present_entry_alone() {
    let mut cx = TypeContext::new();
    cx.insert_with("a".to_string(), |_| unit_struct("First"));
    let mut called = false;
    cx.insert_with("a".to_string(), |_| {
        called = true;
        unit_struct("Second")
    });
    assert!(!called);
    assert_eq!(cx.get("a"), Some(&unit_struct("First")));
    assert_eq!(cx.len(), 1);
}

#[test]
fn identifier_is_reserved_while_its_declaration_is_built() {
    let mut cx = TypeContext::new();
    let mut inner_called = false;
    let mut known_inside = false;
    let mut held_inside = true;
    cx.insert_with("a".to_string(), |cx| {
        known_inside = cx.is_known("a");
        held_inside = cx.contains("a");
        cx.insert_with("a".to_string(), |_| {
            inner_called = true;
            unit_struct("Inner")
        });
        cx.insert_with("b".to_string(), |_| unit_struct("B"));
        unit_struct("Outer")
    });
    assert!(known_inside);
    assert!(!held_inside);
    assert!(!inner_called);
    assert_eq!(cx.get("a"), Some(&unit_struct("Outer")));
    assert_eq!(cx.get("b"), Some(&unit_struct("B")));
    assert_eq!(cx.len(), 2);
}

#[test]
fn into_types_lists_each_identifier_once_in_filing_order() {
    let mut cx = TypeContext::new();
    cx.insert_with("outer".to_string(), |cx| {
        cx.insert_with("inner".to_string(), |_| unit_struct("Inner"));
        unit_struct("Outer")
    });
    cx.insert_with("inner".to_string(), |_| unit_struct("Again"));
    cx.insert_with("last".to_string(), |_| unit_struct("Last"));
    let types = cx.into_types();
    let ids: Vec<&str> = types.iter().map(|(id, _)| id.as_str()).collect();
    assert_eq!(ids, vec!["inner", "outer", "last"]);
    assert_eq!(types[0].1, unit_struct("Inner"));
}

#[test]
fn self_referential_type_reflects_once() {
    let mut cx = TypeContext::new();
    let shape = Node::reflect(&mut cx);
    assert_eq!(shape, id("tests::Node"));
    assert_eq!(cx.len(), 1);
    let decl = cx.get("tests::Node").unwrap().as_struct().unwrap();
    assert_eq!(decl.fields.len(), 1);
    assert_eq!(decl.fields[0].type_desc, Type::Option(Box::new(id("tests::Node"))));
    assert_eq!(Node::reflect(&mut cx), id("tests::Node"));
    assert_eq!(cx.len(), 1);
}

#[test]
fn mutually_referential_types_reflect_once_each() {
    let mut cx = TypeContext::new();
    assert_eq!(Ping::reflect(&mut cx), id("tests::Ping"));
    assert_eq!(cx.len(), 2);
    let ping = cx.get("tests::Ping").unwrap().as_struct().unwrap();
    assert_eq!(ping.fields[0].type_desc, Type::Array(Box::new(id("tests::Pong"))));
    let pong = cx.get("tests::Pong").unwrap().as_struct().unwrap();
    assert_eq!(pong.fields[0].type_desc, id("tests::Ping"));
    assert_eq!(Pong::reflect(&mut cx), id("tests::Pong"));
    assert_eq!(cx.len(), 2);
}

#[test]
fn primitives_reflect_in_place() {
    let mut cx = TypeContext::new();
    let signed = |w| Type::Primitive(PrimitiveType::Int(w));
    let unsigned = |w| Type::Primitive(PrimitiveType::UInt(w));
    assert_eq!(<i8 as Reflect>::reflect(&mut cx), signed(IntWidth::W8));
    assert_eq!(<i16 as Reflect>::reflect(&mut cx), signed(IntWidth::W16));
    assert_eq!(<i32 as Reflect>::reflect(&mut cx), signed(IntWidth::W32));
    assert_eq!(<i64 as Reflect>::reflect(&mut cx), signed(IntWidth::W64));
    assert_eq!(<i128 as Reflect>::reflect(&mut cx), signed(IntWidth::W128));
    assert_eq!(<u8 as Reflect>::reflect(&mut cx), unsigned(IntWidth::W8));
    assert_eq!(<u16 as Reflect>::reflect(&mut cx), unsigned(IntWidth::W16));
    assert_eq!(<u32 as Reflect>::reflect(&mut cx), unsigned(IntWidth::W32));
    assert_eq!(<u64 as Reflect>::reflect(&mut cx), unsigned(IntWidth::W64));
    assert_eq!(<u128 as Reflect>::reflect(&mut cx), unsigned(IntWidth::W128));
    assert_eq!(<bool as Reflect>::reflect(&mut cx), Type::Primitive(PrimitiveType::Bool));
    assert_eq!(<String as Reflect>::reflect(&mut cx), Type::Primitive(PrimitiveType::String));
    assert_eq!(<u64 as Reflect>::type_id(), None);
    assert_eq!(<String as Reflect>::type_id(), None);
    assert_eq!(cx.len(), 0);
}

#[test]
fn containers_reflect_their_parts() {
    let mut cx = TypeContext::new();
    let byte = Type::Primitive(PrimitiveType::UInt(IntWidth::W8));
    let flag = Type::Primitive(PrimitiveType::Bool);
    assert_eq!(<Option<u8> as Reflect>::reflect(&mut cx), Type::Option(Box::new(byte.clone())));
    assert_eq!(<Vec<bool> as Reflect>::reflect(&mut cx), Type::Array(Box::new(flag.clone())));
    assert_eq!(<() as Reflect>::reflect(&mut cx), Type::Tuple(vec![]));
    assert_eq!(<(u8,) as Reflect>::reflect(&mut cx), Type::Tuple(vec![byte.clone()]));
    assert_eq!(
        <(u8, bool, Node) as Reflect>::reflect(&mut cx),
        Type::Tuple(vec![byte.clone(), flag.clone(), id("tests::Node")])
    );
    assert_eq!(<Option<u8> as Reflect>::type_id(), None);
    assert_eq!(<(u8, bool) as Reflect>::type_id(), None);
    assert_eq!(cx.len(), 1);
    assert!(cx.contains("tests::Node"));
}

#[test]
fn tuple_of_twelve_reflects_in_order() {
    let mut cx = TypeContext::new();
    let shape =
        <(u8, u16, u32, u64, u128, i8, i16, i32, i64, i128, bool, String) as Reflect>::reflect(
            &mut cx,
        );
    let signed = |w| Type::Primitive(PrimitiveType::Int(w));
    let unsigned = |w| Type::Primitive(PrimitiveType::UInt(w));
    assert_eq!(
        shape,
        Type::Tuple(vec![
            unsigned(IntWidth::W8),
            unsigned(IntWidth::W16),
            unsigned(IntWidth::W32),
            unsigned(IntWidth::W64),
            unsigned(IntWidth::W128),
            signed(IntWidth::W8),
            signed(IntWidth::W16),
            signed(IntWidth::W32),
            signed(IntWidth::W64),
            signed(IntWidth::W128),
            Type::Primitive(PrimitiveType::Bool),
            Type::Primitive(PrimitiveType::String),
        ])
    );
}

#[test]
fn paths_keep_an_identifier_and_travel_as_strings() {
    let mut cx = TypeContext::new();
    assert_eq!(
        <camino::Utf8Path as Reflect>::type_id(),
        Some("camino::Utf8Path".to_string())
    );
    assert_eq!(
        <camino::Utf8PathBuf as Reflect>::type_id(),
        Some("camino::Utf8PathBuf".to_string())
    );
    assert_eq!(
        <camino::Utf8Path as Reflect>::reflect(&mut cx),
        Type::Primitive(PrimitiveType::String)
    );
    assert_eq!(
        <camino::Utf8PathBuf as Reflect>::reflect(&mut cx),
        Type::Primitive(PrimitiveType::String)
    );
    assert_eq!(cx.len(), 0);
}

#[test]
fn reflect_with_refers_to_the_declaration_it_files() {
    let mut cx = TypeContext::new();
    let shape = cx.reflect_with("a".to_string(), |_| unit_struct("A"));
    assert_eq!(shape, id("a"));
    assert_eq!(cx.get("a"), Some(&unit_struct("A")));
    let again = cx.reflect_with("a".to_string(), |_| unit_struct("Other"));
    assert_eq!(again, id("a"));
    assert_eq!(cx.get("a"), Some(&unit_struct("A")));
    assert_eq!(cx.len(), 1);
}

#[test]
fn default_registry_is_empty_and_clone_is_equal() {
    let mut cx = TypeContext::default();
    assert_eq!(cx.len(), 0);
    cx.insert_with("a".to_string(), |_| unit_struct("A"));
    let copy = cx.clone();
    cx.insert_with("b".to_string(), |_| unit_struct("B"));
    assert_eq!(copy.len(), 1);
    assert_eq!(copy.get("a"), Some(&unit_struct("A")));
    assert!(!copy.contains("b"));
    assert_eq!(cx.len(), 2);
}
