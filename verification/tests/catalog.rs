use speq::catalog::Catalog;
use speq::derive::{
    derive_reflect, DeriveData, DeriveField, DeriveFields, DeriveInput, DeriveVariant, Derived,
    TagType,
};
use speq::reflection::{
    EnumVariantKind, Field, IntWidth, PrimitiveType, StructType, Type, TypeDecl,
};
use speq::TypeContext;

fn id(name: &str) -> Type {
    Type::Id(name.to_string())
}

fn text() -> Type {
    Type::Primitive(PrimitiveType::String)
}

fn field(name: &str, ty: Type) -> DeriveField {
    DeriveField { serialize_name: name.to_string(), flatten: false, has_default: false, ty }
}

fn record(ident: &str, fields: Vec<DeriveField>) -> Derived {
    derive_reflect(&DeriveInput {
        module: "m".to_string(),
        ident: ident.to_string(),
        tag: TagType::External,
        data: DeriveData::Struct(DeriveFields::Struct(fields)),
    })
    .unwrap()
}

fn catalog(items: Vec<Derived>) -> Catalog {
    let mut cat = Catalog::new();
    for item in items {
        cat.add(item);
    }
    cat
}

fn keys(cx: &TypeContext, all: &[&str]) -> Vec<String> {
    all.iter().filter(|id| cx.contains(id)).map(|id| id.to_string()).collect()
}

fn family() -> Catalog {
    catalog(vec![
        record("Node", vec![field("next", Type::Option(Box::new(id("m::Node"))))]),
        record("Ping", vec![field("pong", Type::Array(Box::new(id("m::Pong"))))]),
        record("Pong", vec![field("ping", id("m::Ping")), field("leaf", id("m::Leaf"))]),
        record("Leaf", vec![field("name", text())]),
        record("Lone", vec![field("gone", id("m::Missing"))]),
    ])
}

#[test]
fn catalog_finds_by_identifier() {
    let cat = family();
    assert_eq!(cat.len(), 5);
    assert_eq!(cat.find("m::Leaf").map(|d| d.id.as_str()), Some("m::Leaf"));
    assert!(cat.find("m::Missing").is_none());
    assert!(cat.find("Leaf").is_none());
    assert!(Catalog::new().find("m::Leaf").is_none());
}

#[test]
fn first_entry_stands_for_a_repeated_identifier() {
    let cat = catalog(vec![
        record("Twin", vec![field("first", text())]),
        record("Twin", vec![field("second", text())]),
    ]);
    let found = cat.find("m::Twin").unwrap();
    assert_eq!(found.decl.as_struct().unwrap().fields[0].name, "first");
    let mut cx = TypeContext::new();
    cat.register(&mut cx, &id("m::Twin"));
    assert_eq!(cx.len(), 1);
    assert_eq!(cx.get("m::Twin").unwrap().as_struct().unwrap().fields[0].name, "first");
}

#[test]
fn cyclic_struct_registers_without_looping() {
    let cat = family();
    let mut cx = TypeContext::new();
    cat.register(&mut cx, &id("m::Node"));
    assert_eq!(cx.len(), 1);
    let node = cx.get("m::Node").unwrap().as_struct().unwrap();
    assert_eq!(
        node.fields,
        vec![Field {
            name: "next".to_string(),
            flatten: false,
            required: true,
            type_desc: Type::Option(Box::new(id("m::Node"))),
        }]
    );
    assert!(!cx.is_known("m::Ping"));
}

#[test]
fn mutual_references_register_all_that_is_reached() {
    let cat = family();
    let mut cx = TypeContext::new();
    cat.register(&mut cx, &Type::Array(Box::new(id("m::Ping"))));
    let all = ["m::Node", "m::Ping", "m::Pong", "m::Leaf", "m::Lone", "m::Missing"];
    assert_eq!(keys(&cx, &all), vec!["m::Ping", "m::Pong", "m::Leaf"]);
    assert_eq!(cx.len(), 3);
    let ids: Vec<String> = cx.into_types().into_iter().map(|(id, _)| id).collect();
    assert_eq!(ids, vec!["m::Leaf", "m::Pong", "m::Ping"]);
}

#[test]
fn uncatalogued_identifier_is_passed_over() {
    let cat = family();
    let mut cx = TypeContext::new();
    cat.register(&mut cx, &id("m::Missing"));
    assert_eq!(cx.len(), 0);
    cat.register(&mut cx, &id("m::Lone"));
    assert_eq!(cx.len(), 1);
    assert!(cx.contains("m::Lone"));
    assert!(!cx.is_known("m::Missing"));
}

#[test]
fn shapes_without_identifiers_register_nothing() {
    let cat = family();
    let mut cx = TypeContext::new();
    cat.register(&mut cx, &text());
    cat.register(&mut cx, &Type::Tuple(vec![]));
    cat.register(
        &mut cx,
        &Type::Mapping(Box::new(Type::Option(Box::new(Type::Primitive(PrimitiveType::UInt(
            IntWidth::W8,
        )))))),
    );
    assert_eq!(cx.len(), 0);
}

#[test]
fn tuple_registers_what_each_item_reaches() {
    let cat = family();
    let mut cx = TypeContext::new();
    cat.register(&mut cx, &Type::Tuple(vec![id("m::Leaf"), text(), id("m::Node"), id("m::Leaf")]));
    let all = ["m::Node", "m::Ping", "m::Pong", "m::Leaf", "m::Lone"];
    assert_eq!(keys(&cx, &all), vec!["m::Node", "m::Leaf"]);
}

#[test]
fn registering_again_changes_nothing() {
    let cat = family();
    let mut cx = TypeContext::new();
    cat.register(&mut cx, &id("m::Ping"));
    let before = format!("{:?}", cx);
    cat.register(&mut cx, &id("m::Ping"));
    cat.register(&mut cx, &id("m::Pong"));
    cat.register(&mut cx, &id("m::Leaf"));
    assert_eq!(format!("{:?}", cx), before);
    assert_eq!(cx.len(), 3);
}

#[test]
fn entry_held_before_is_kept_as_it_is() {
    let cat = family();
    let mut cx = TypeContext::new();
    let own = TypeDecl::Struct(StructType { name: "Mine".to_string(), fields: vec![] });
    cx.insert_with("m::Pong".to_string(), |_| own.clone());
    cat.register(&mut cx, &id("m::Ping"));
    assert_eq!(cx.get("m::Pong"), Some(&own));
    assert!(cx.contains("m::Ping"));
    assert!(!cx.contains("m::Leaf"));
    assert_eq!(cx.len(), 2);
}

#[test]
fn enum_payloads_are_followed() {
    let choice = derive_reflect(&DeriveInput {
        module: "m".to_string(),
        ident: "Choice".to_string(),
        tag: TagType::Internal { tag: "kind".to_string() },
        data: DeriveData::Enum(vec![
            DeriveVariant {
                ident: "None".to_string(),
                serialize_name: "none".to_string(),
                fields: DeriveFields::Unit,
            },
            DeriveVariant {
                ident: "One".to_string(),
                serialize_name: "one".to_string(),
                fields: DeriveFields::Newtype(field("0", id("m::Leaf"))),
            },
            DeriveVariant {
                ident: "Many".to_string(),
                serialize_name: "many".to_string(),
                fields: DeriveFields::Struct(vec![
                    field("again", id("m::Choice")),
                    field("node", id("m::Node")),
                ]),
            },
        ]),
    })
    .unwrap();
    let mut cat = family();
    cat.add(choice);
    let mut cx = TypeContext::new();
    cat.register(&mut cx, &id("m::Choice"));
    let all = ["m::Node", "m::Ping", "m::Pong", "m::Leaf", "m::Lone", "m::Choice"];
    assert_eq!(keys(&cx, &all), vec!["m::Node", "m::Leaf", "m::Choice"]);
    match cx.get("m::Choice").unwrap() {
        TypeDecl::Enum(e) => {
            assert_eq!(e.variants.len(), 3);
            assert_eq!(e.variants[1].kind, EnumVariantKind::NewType(id("m::Leaf")));
        }
        TypeDecl::Struct(_) => panic!("an enum was derived"),
    }
}

#[test]
fn long_chain_registers_to_its_end() {
    let mut cat = Catalog::new();
    for i in 0..200 {
        cat.add(record(&format!("T{}", i), vec![field("next", id(&format!("m::T{}", i + 1)))]));
    }
    let mut cx = TypeContext::new();
    cat.register(&mut cx, &id("m::T0"));
    assert_eq!(cx.len(), 200);
    assert!(cx.contains("m::T199"));
    assert!(!cx.is_known("m::T200"));
}
