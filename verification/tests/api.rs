use speq::catalog::Catalog;
use speq::derive::{derive_reflect, DeriveData, DeriveField, DeriveFields, DeriveInput, TagType};
use speq::method::{Method, StatusCode};
use speq::reflection::{Field, IntWidth, PrimitiveType, Reflect, StructType, Type, TypeDecl};
use speq::route::{route, Arg, HandlerAttr, HandlerFn, HandlerParam, ParamAttr};
use speq::{
    spec, ApiSpec, PathSpec, QuerySpec, RequestSpec, ResponseSpec, RouteHandlerInput,
    RouteHandlerInputContext, RouteSpec, RouteSpecFn, TypeContext,
};

fn id(name: &str) -> Type {
    Type::Id(name.to_string())
}

fn field(name: &str, ty: Type) -> DeriveField {
    DeriveField { serialize_name: name.to_string(), flatten: false, has_default: false, ty }
}

fn record(ident: &str, fields: Vec<DeriveField>) -> DeriveInput {
    DeriveInput {
        module: "shop".to_string(),
        ident: ident.to_string(),
        tag: TagType::External,
        data: DeriveData::Struct(DeriveFields::Struct(fields)),
    }
}

fn shop() -> Catalog {
    let mut cat = Catalog::new();
    let inputs = vec![
        record("ItemId", vec![field("id", Type::Primitive(PrimitiveType::UInt(IntWidth::W64)))]),
        record("Item", vec![field("name", Type::Primitive(PrimitiveType::String))]),
        record("Order", vec![field("items", Type::Array(Box::new(id("shop::Item"))))]),
        record("Unused", vec![field("item", id("shop::Item"))]),
    ];
    for input in inputs {
        cat.add(derive_reflect(&input).unwrap());
    }
    cat
}

fn empty_route(name: &str, path: &str) -> RouteSpec {
    RouteSpec {
        name: name.to_string(),
        path: PathSpec { value: path.to_string(), params: None },
        method: Method::Get,
        src_file: "src/api.rs".to_string(),
        doc: None,
        query: None,
        request: None,
        responses: vec![],
    }
}

fn with_response(mut route: RouteSpec, body: Type) -> RouteSpec {
    route.responses.push(ResponseSpec {
        status: StatusCode::from_u16(200).unwrap(),
        description: None,
        type_desc: Some(body),
    });
    route
}

fn ids(api: &ApiSpec) -> Vec<&str> {
    api.types.iter().map(|(id, _)| id.as_str()).collect()
}

fn get_item(cx: &mut TypeContext) -> RouteSpec {
    let mut route = empty_route("get_item", "/items/:id");
    let mut input = RouteHandlerInputContext::new(cx);
    <axum::extract::Path<u64> as RouteHandlerInput>::describe(&mut input, &mut route);
    route
}

fn list_items(cx: &mut TypeContext) -> RouteSpec {
    let mut route = empty_route("list_items", "/items");
    cx.insert_with("api::Page".to_string(), |_| {
        TypeDecl::Struct(StructType { name: "Page".to_string(), fields: vec![] })
    });
    route.query = Some(QuerySpec { type_desc: id("api::Page"), is_optional: true });
    route
}

#[test]
fn get_items_by_id_describes_both_types() {
    let item = HandlerFn {
        name: "get_item".to_string(),
        src_file: "src/items.rs".to_string(),
        attrs: vec![HandlerAttr::Response {
            status: Some(Arg::Int("200".to_string())),
            description: None,
            model: Some(Arg::Model(id("shop::Item"))),
        }],
        params: vec![HandlerParam { attrs: vec![ParamAttr::Path], ty: id("shop::ItemId") }],
    };
    let made = route(Method::Get, &Arg::Str("/items/:id".to_string()), &item).unwrap();
    let api = ApiSpec::build(&shop(), vec![made.spec]);
    assert_eq!(api.routes.len(), 1);
    assert_eq!(api.routes[0].method, Method::Get);
    assert_eq!(api.routes[0].path.value, "/items/:id");
    assert_eq!(api.routes[0].path.params, Some(id("shop::ItemId")));
    assert_eq!(api.routes[0].query, None);
    assert_eq!(api.routes[0].request, None);
    assert_eq!(api.routes[0].responses.len(), 1);
    assert_eq!(api.routes[0].responses[0].status.as_u16(), 200);
    assert_eq!(
        api.types,
        vec![
            (
                "shop::ItemId".to_string(),
                TypeDecl::Struct(StructType {
                    name: "ItemId".to_string(),
                    fields: vec![Field {
                        name: "id".to_string(),
                        flatten: false,
                        required: true,
                        type_desc: Type::Primitive(PrimitiveType::UInt(IntWidth::W64)),
                    }],
                }),
            ),
            (
                "shop::Item".to_string(),
                TypeDecl::Struct(StructType {
                    name: "Item".to_string(),
                    fields: vec![Field {
                        name: "name".to_string(),
                        flatten: false,
                        required: true,
                        type_desc: Type::Primitive(PrimitiveType::String),
                    }],
                }),
            ),
        ]
    );
}

#[test]
fn type_reached_from_two_routes_appears_once() {
    let routes = vec![
        with_response(empty_route("a", "/a"), id("shop::Item")),
        with_response(
            with_response(empty_route("b", "/b"), id("shop::Order")),
            Type::Option(Box::new(id("shop::Item"))),
        ),
    ];
    let api = ApiSpec::build(&shop(), routes);
    assert_eq!(ids(&api), vec!["shop::Item", "shop::Order"]);
}

#[test]
fn type_reached_twice_from_one_route_appears_once() {
    let mut route = with_response(
        with_response(empty_route("a", "/a"), id("shop::Item")),
        id("shop::Item"),
    );
    route.path.params = Some(id("shop::Item"));
    route.query = Some(QuerySpec { type_desc: id("shop::Item"), is_optional: false });
    route.request = Some(RequestSpec { type_desc: id("shop::Item"), is_optional: false });
    let api = ApiSpec::build(&shop(), vec![route]);
    assert_eq!(ids(&api), vec!["shop::Item"]);
}

#[test]
fn building_twice_gives_the_same_description() {
    let routes = || {
        vec![
            with_response(empty_route("a", "/a"), id("shop::Order")),
            with_response(empty_route("b", "/b"), id("shop::ItemId")),
        ]
    };
    let first = ApiSpec::build(&shop(), routes());
    let second = ApiSpec::build(&shop(), routes());
    assert_eq!(first, second);
    assert_eq!(ids(&first), vec!["shop::Item", "shop::Order", "shop::ItemId"]);
    assert_eq!(first.routes[0].name, "a");
    assert_eq!(first.routes[1].name, "b");
}

#[test]
fn build_without_routes_is_empty() {
    let api = ApiSpec::build(&shop(), vec![]);
    assert!(api.routes.is_empty());
    assert!(api.types.is_empty());
}

#[test]
fn build_keeps_the_routes_and_passes_over_what_is_not_catalogued() {
    let routes = vec![
        with_response(empty_route("a", "/a"), id("elsewhere::Thing")),
        empty_route("b", "/b"),
    ];
    let api = ApiSpec::build(&shop(), routes);
    assert_eq!(api.routes.len(), 2);
    assert_eq!(api.routes[0].responses[0].type_desc, Some(id("elsewhere::Thing")));
    assert_eq!(api.routes[1], empty_route("b", "/b"));
    assert!(api.types.is_empty());
}

#[test]
fn route_register_follows_every_slot() {
    let mut route = with_response(empty_route("a", "/a"), id("shop::Item"));
    route.path.params = Some(id("shop::ItemId"));
    route.request = Some(RequestSpec { type_desc: id("shop::Order"), is_optional: false });
    let mut cx = TypeContext::new();
    route.register(&shop(), &mut cx);
    assert_eq!(cx.len(), 3);
    assert!(cx.contains("shop::ItemId"));
    assert!(cx.contains("shop::Order"));
    assert!(cx.contains("shop::Item"));
    assert!(!cx.contains("shop::Unused"));
}

#[test]
fn route_clone_is_equal() {
    let mut route = with_response(empty_route("a", "/a"), id("shop::Item"));
    route.doc = Some("doc".to_string());
    route.query = Some(QuerySpec { type_desc: id("shop::Item"), is_optional: true });
    assert_eq!(route.clone(), route);
}

#[test]
fn spec_calls_every_provider_once_in_order() {
    let providers: Vec<RouteSpecFn<fn(&mut TypeContext) -> RouteSpec>> =
        vec![RouteSpecFn(get_item), RouteSpecFn(list_items), RouteSpecFn(list_items)];
    let api = spec(&providers);
    let names: Vec<&str> = api.routes.iter().map(|r| r.name.as_str()).collect();
    assert_eq!(names, vec!["get_item", "list_items", "list_items"]);
    assert_eq!(
        api.routes[0].path.params,
        Some(Type::Primitive(PrimitiveType::UInt(IntWidth::W64)))
    );
    assert_eq!(ids(&api), vec!["api::Page"]);
}

#[test]
fn spec_without_providers_is_empty() {
    let providers: Vec<RouteSpecFn<fn(&mut TypeContext) -> RouteSpec>> = vec![];
    let api = spec(&providers);
    assert!(api.routes.is_empty());
    assert!(api.types.is_empty());
}

#[test]
fn provider_builds_its_route() {
    let mut cx = TypeContext::new();
    let provider = RouteSpecFn(list_items);
    let route = provider.build(&mut cx);
    assert_eq!(route.name, "list_items");
    assert!(cx.contains("api::Page"));
}

#[test]
fn handler_input_context_starts_not_optional() {
    let mut cx = TypeContext::new();
    let input = RouteHandlerInputContext::new(&mut cx);
    assert!(!input.is_optional);
    assert_eq!(input.type_cx.len(), 0);
}

#[test]
fn extractors_enter_their_shapes() {
    let mut cx = TypeContext::new();
    let mut route = empty_route("r", "/r/:a");
    let byte = Type::Primitive(PrimitiveType::UInt(IntWidth::W8));
    let flag = Type::Primitive(PrimitiveType::Bool);
    let mut input = RouteHandlerInputContext::new(&mut cx);
    <axum::extract::Path<u8> as RouteHandlerInput>::describe(&mut input, &mut route);
    <serde_qs::axum::QsQuery<bool> as RouteHandlerInput>::describe(&mut input, &mut route);
    <axum::extract::Json<Vec<u8>> as RouteHandlerInput>::describe(&mut input, &mut route);
    assert!(!input.is_optional);
    let mut expected = empty_route("r", "/r/:a");
    expected.path.params = Some(byte.clone());
    expected.query = Some(QuerySpec { type_desc: flag, is_optional: false });
    expected.request =
        Some(RequestSpec { type_desc: Type::Array(Box::new(byte)), is_optional: false });
    assert_eq!(route, expected);
}

#[test]
fn optional_and_fallible_inputs_are_optional() {
    let mut cx = TypeContext::new();
    let mut route = empty_route("r", "/r");
    let mut input = RouteHandlerInputContext::new(&mut cx);
    <Option<axum::extract::Json<u8>> as RouteHandlerInput>::describe(&mut input, &mut route);
    assert!(input.is_optional);
    assert_eq!(route.request.as_ref().map(|r| r.is_optional), Some(true));
    let mut input = RouteHandlerInputContext::new(&mut cx);
    <Result<serde_qs::axum::QsQuery<u8>, String> as RouteHandlerInput>::describe(
        &mut input, &mut route,
    );
    assert_eq!(route.query.as_ref().map(|q| q.is_optional), Some(true));
    assert_eq!(
        route.query.as_ref().map(|q| q.type_desc.clone()),
        Some(<u8 as Reflect>::reflect(&mut cx))
    );
}

#[test]
fn inputs_without_a_shape_enter_nothing() {
    let mut cx = TypeContext::new();
    let mut route = empty_route("r", "/r");
    let mut input = RouteHandlerInputContext::new(&mut cx);
    <axum::extract::Multipart as RouteHandlerInput>::describe(&mut input, &mut route);
    <axum::extract::Extension<u8> as RouteHandlerInput>::describe(&mut input, &mut route);
    <axum_extra::extract::cookie::CookieJar as RouteHandlerInput>::describe(
        &mut input, &mut route,
    );
    <axum_extra::extract::cookie::PrivateCookieJar as RouteHandlerInput>::describe(
        &mut input, &mut route,
    );
    assert!(!input.is_optional);
    assert_eq!(route, empty_route("r", "/r"));
    assert_eq!(cx.len(), 0);
}
