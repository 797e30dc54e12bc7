use speq::error::{Metadata, SpecError};
use speq::method::{InvalidStatusCode, Method, StatusCode};
use speq::reflection::{IntWidth, PrimitiveType, Type};
use speq::route::{
    count_params, parse_u16, route, Arg, HandlerAttr, HandlerFn, HandlerParam, ParamAttr,
};
use speq::{PathSpec, QuerySpec, RequestSpec, ResponseSpec, RouteSpec};

fn id(name: &str) -> Type {
    Type::Id(name.to_string())
}

fn uint64() -> Type {
    Type::Primitive(PrimitiveType::UInt(IntWidth::W64))
}

fn text(s: &str) -> Arg {
    Arg::Str(s.to_string())
}

fn digits(s: &str) -> Arg {
    Arg::Int(s.to_string())
}

fn status(n: u16) -> StatusCode {
    StatusCode::from_u16(n).unwrap()
}

fn handler(attrs: Vec<HandlerAttr>, params: Vec<HandlerParam>) -> HandlerFn {
    HandlerFn {
        name: "get_item".to_string(),
        src_file: "src/items.rs".to_string(),
        attrs,
        params,
    }
}

fn response(status: Option<Arg>, description: Option<Arg>, model: Option<Arg>) -> HandlerAttr {
    HandlerAttr::Response { status, description, model }
}

fn malformed(piece: Metadata) -> SpecError {
    SpecError::MalformedMetadata { route: "get_item".to_string(), piece }
}

#[test]
fn status_code_takes_100_to_999() {
    assert_eq!(StatusCode::from_u16(99), Err(InvalidStatusCode {}));
    assert_eq!(StatusCode::from_u16(100).map(|s| s.as_u16()), Ok(100));
    assert_eq!(StatusCode::from_u16(200).map(|s| s.as_u16()), Ok(200));
    assert_eq!(StatusCode::from_u16(999).map(|s| s.as_u16()), Ok(999));
    assert_eq!(StatusCode::from_u16(1000), Err(InvalidStatusCode {}));
    assert_eq!(StatusCode::from_u16(0), Err(InvalidStatusCode {}));
    assert_eq!(StatusCode::from_u16(65535), Err(InvalidStatusCode {}));
}

#[test]
fn connect_is_the_method_without_a_router_entry() {
    let routable = [
        Method::Get,
        Method::Post,
        Method::Put,
        Method::Delete,
        Method::Head,
        Method::Options,
        Method::Patch,
        Method::Trace,
    ];
    for method in routable {
        assert!(method.is_routable());
    }
    assert!(!Method::Connect.is_routable());
}

#[test]
fn parse_u16_reads_decimal_digits() {
    assert_eq!(parse_u16("0"), Some(0));
    assert_eq!(parse_u16("7"), Some(7));
    assert_eq!(parse_u16("200"), Some(200));
    assert_eq!(parse_u16("0404"), Some(404));
    assert_eq!(parse_u16("65535"), Some(65535));
    assert_eq!(parse_u16("00065535"), Some(65535));
}

#[test]
fn parse_u16_refuses_what_is_no_16_bit_number() {
    assert_eq!(parse_u16(""), None);
    assert_eq!(parse_u16("65536"), None);
    assert_eq!(parse_u16("99999999999999999999"), None);
    assert_eq!(parse_u16("-1"), None);
    assert_eq!(parse_u16("+1"), None);
    assert_eq!(parse_u16("12a"), None);
    assert_eq!(parse_u16("a12"), None);
    assert_eq!(parse_u16("1 2"), None);
    assert_eq!(parse_u16("２"), None);
}

#[test]
fn count_params_counts_the_segments_that_open_a_parameter() {
    assert_eq!(count_params(""), 0);
    assert_eq!(count_params("/"), 0);
    assert_eq!(count_params("/items"), 0);
    assert_eq!(count_params("/items/:id"), 1);
    assert_eq!(count_params("/items/{id}"), 1);
    assert_eq!(count_params("/files/*rest"), 1);
    assert_eq!(count_params("/a/:x/b/:y/{z}"), 3);
    assert_eq!(count_params(":x"), 1);
    assert_eq!(count_params("/a:b/c*d/e{f}"), 0);
    assert_eq!(count_params("/::/:"), 2);
    assert_eq!(count_params("/é/:ü"), 1);
}

#[test]
fn route_of_get_items_by_id() {
    let item = handler(
        vec![response(Some(digits("200")), None, Some(Arg::Model(id("m::Item"))))],
        vec![HandlerParam { attrs: vec![ParamAttr::Path], ty: id("m::ItemId") }],
    );
    let made = route(Method::Get, &text("/items/:id"), &item).unwrap();
    assert_eq!(
        made.spec,
        RouteSpec {
            name: "get_item".to_string(),
            path: PathSpec { value: "/items/:id".to_string(), params: Some(id("m::ItemId")) },
            method: Method::Get,
            src_file: "src/items.rs".to_string(),
            doc: None,
            query: None,
            request: None,
            responses: vec![ResponseSpec {
                status: status(200),
                description: None,
                type_desc: Some(id("m::Item")),
            }],
        }
    );
}

#[test]
fn route_gathers_every_annotation() {
    let item = handler(
        vec![
            HandlerAttr::Doc(text(" Creates an item.")),
            HandlerAttr::Other("tracing".to_string()),
            HandlerAttr::Request { model: Some(Arg::Model(id("m::NewItem"))) },
            response(None, Some(text("created")), Some(Arg::Model(id("m::Item")))),
            HandlerAttr::Doc(text(" Fails where the name is taken.")),
            response(Some(digits("409")), None, None),
            HandlerAttr::Request { model: Some(Arg::Model(id("m::Draft"))) },
        ],
        vec![
            HandlerParam { attrs: vec![], ty: id("m::State") },
            HandlerParam {
                attrs: vec![ParamAttr::Other("x".to_string()), ParamAttr::Query],
                ty: id("m::Page"),
            },
        ],
    );
    let made = route(Method::Post, &text("/items"), &item).unwrap();
    assert_eq!(
        made.spec,
        RouteSpec {
            name: "get_item".to_string(),
            path: PathSpec { value: "/items".to_string(), params: None },
            method: Method::Post,
            src_file: "src/items.rs".to_string(),
            doc: Some(" Creates an item.\n Fails where the name is taken.\n".to_string()),
            query: Some(QuerySpec { type_desc: id("m::Page"), is_optional: false }),
            request: Some(RequestSpec { type_desc: id("m::Draft"), is_optional: false }),
            responses: vec![
                ResponseSpec {
                    status: status(200),
                    description: Some("created".to_string()),
                    type_desc: Some(id("m::Item")),
                },
                ResponseSpec { status: status(409), description: None, type_desc: None },
            ],
        }
    );
}

#[test]
fn route_takes_its_annotations_off_the_handler() {
    let item = handler(
        vec![
            HandlerAttr::Doc(text("doc")),
            HandlerAttr::Path(vec![Arg::Model(uint64())]),
            HandlerAttr::Other("tracing".to_string()),
            HandlerAttr::Request { model: Some(Arg::Model(id("m::A"))) },
            response(None, None, None),
        ],
        vec![
            HandlerParam {
                attrs: vec![
                    ParamAttr::Path,
                    ParamAttr::Other("a".to_string()),
                    ParamAttr::Query,
                    ParamAttr::Other("b".to_string()),
                ],
                ty: uint64(),
            },
            HandlerParam { attrs: vec![], ty: id("m::State") },
        ],
    );
    let made = route(Method::Put, &text("/items/:id"), &item).unwrap();
    assert_eq!(
        made.item,
        handler(
            vec![HandlerAttr::Doc(text("doc")), HandlerAttr::Other("tracing".to_string())],
            vec![
                HandlerParam {
                    attrs: vec![
                        ParamAttr::Other("a".to_string()),
                        ParamAttr::Other("b".to_string()),
                    ],
                    ty: uint64(),
                },
                HandlerParam { attrs: vec![], ty: id("m::State") },
            ],
        )
    );
}

#[test]
fn last_marked_parameter_gives_the_path_parameters() {
    let item = handler(
        vec![HandlerAttr::Path(vec![Arg::Model(id("m::FromAttr"))])],
        vec![
            HandlerParam { attrs: vec![ParamAttr::Path], ty: id("m::First") },
            HandlerParam { attrs: vec![ParamAttr::Path], ty: id("m::Last") },
            HandlerParam { attrs: vec![], ty: id("m::Unmarked") },
        ],
    );
    let made = route(Method::Get, &text("/x/:a"), &item).unwrap();
    assert_eq!(made.spec.path.params, Some(id("m::Last")));
}

#[test]
fn path_models_give_the_path_parameters_without_a_marked_parameter() {
    let none = handler(vec![HandlerAttr::Path(vec![])], vec![]);
    assert_eq!(route(Method::Get, &text("/x"), &none).unwrap().spec.path.params, None);
    let one = handler(vec![HandlerAttr::Path(vec![Arg::Model(uint64())])], vec![]);
    assert_eq!(
        route(Method::Get, &text("/x/:a"), &one).unwrap().spec.path.params,
        Some(uint64())
    );
    let two = handler(
        vec![
            HandlerAttr::Path(vec![Arg::Model(uint64())]),
            HandlerAttr::Path(vec![Arg::Model(id("m::Slug"))]),
        ],
        vec![],
    );
    assert_eq!(
        route(Method::Get, &text("/x/:a/:b"), &two).unwrap().spec.path.params,
        Some(Type::Tuple(vec![uint64(), id("m::Slug")]))
    );
}

#[test]
fn path_that_is_no_string_is_malformed() {
    let item = handler(vec![], vec![]);
    assert_eq!(route(Method::Get, &digits("7"), &item), Err(malformed(Metadata::Path)));
    assert_eq!(route(Method::Get, &Arg::Other, &item), Err(malformed(Metadata::Path)));
    assert_eq!(
        route(Method::Get, &Arg::Model(uint64()), &item),
        Err(malformed(Metadata::Path))
    );
}

#[test]
fn each_malformed_piece_is_named() {
    let cases = vec![
        (HandlerAttr::Doc(digits("1")), Metadata::Doc),
        (HandlerAttr::Path(vec![Arg::Model(uint64()), text("x")]), Metadata::PathModel),
        (HandlerAttr::Request { model: None }, Metadata::RequestModel),
        (HandlerAttr::Request { model: Some(text("x")) }, Metadata::RequestModel),
        (response(Some(text("200")), None, None), Metadata::StatusLiteral),
        (response(Some(digits("70000")), None, None), Metadata::StatusLiteral),
        (response(Some(digits("2x")), None, None), Metadata::StatusLiteral),
        (response(Some(digits("")), None, None), Metadata::StatusLiteral),
        (response(Some(digits("99")), None, None), Metadata::StatusRange),
        (response(Some(digits("1000")), None, None), Metadata::StatusRange),
        (response(None, Some(digits("1")), None), Metadata::Description),
        (response(None, None, Some(text("x"))), Metadata::ResponseModel),
    ];
    for (attr, piece) in cases {
        let item = handler(vec![HandlerAttr::Doc(text("fine")), attr], vec![]);
        assert_eq!(route(Method::Get, &text("/x"), &item), Err(malformed(piece)));
    }
}

#[test]
fn first_malformed_piece_is_the_one_reported() {
    let item = handler(
        vec![
            response(Some(digits("99")), Some(digits("1")), Some(text("x"))),
            HandlerAttr::Doc(digits("1")),
        ],
        vec![],
    );
    assert_eq!(route(Method::Get, &text("/x"), &item), Err(malformed(Metadata::StatusRange)));
    let item = handler(
        vec![HandlerAttr::Doc(digits("1")), response(Some(digits("99")), None, None)],
        vec![],
    );
    assert_eq!(route(Method::Get, &text("/x"), &item), Err(malformed(Metadata::Doc)));
}

#[test]
fn path_parameters_are_held_against_the_pattern() {
    let pair = Type::Tuple(vec![uint64(), uint64()]);
    let item = handler(vec![], vec![HandlerParam { attrs: vec![ParamAttr::Path], ty: pair }]);
    assert!(route(Method::Get, &text("/a/:x/:y"), &item).is_ok());
    assert_eq!(
        route(Method::Get, &text("/a/:x"), &item),
        Err(SpecError::ConfigurationMismatch {
            route: "get_item".to_string(),
            path: "/a/:x".to_string(),
            declared: 1,
            provided: 2,
        })
    );
    assert_eq!(
        route(Method::Get, &text("/a/:x/:y/:z"), &item),
        Err(SpecError::ConfigurationMismatch {
            route: "get_item".to_string(),
            path: "/a/:x/:y/:z".to_string(),
            declared: 3,
            provided: 2,
        })
    );
    let single = handler(
        vec![],
        vec![HandlerParam {
            attrs: vec![ParamAttr::Path],
            ty: Type::Option(Box::new(uint64())),
        }],
    );
    assert!(route(Method::Get, &text("/a/:x"), &single).is_ok());
    assert_eq!(
        route(Method::Get, &text("/a"), &single),
        Err(SpecError::ConfigurationMismatch {
            route: "get_item".to_string(),
            path: "/a".to_string(),
            declared: 0,
            provided: 1,
        })
    );
}

#[test]
fn shapes_that_do_not_tell_their_number_are_not_held_against_the_pattern() {
    for ty in [id("m::Params"), Type::Array(Box::new(uint64())), Type::Mapping(Box::new(uint64()))]
    {
        let item = handler(vec![], vec![HandlerParam { attrs: vec![ParamAttr::Path], ty }]);
        assert!(route(Method::Get, &text("/a"), &item).is_ok());
        assert!(route(Method::Get, &text("/a/:x/:y"), &item).is_ok());
    }
    let bare = handler(vec![], vec![]);
    assert!(route(Method::Get, &text("/a/:x/:y"), &bare).is_ok());
}

#[test]
fn malformed_annotation_is_reported_before_a_mismatch() {
    let item = handler(
        vec![HandlerAttr::Doc(Arg::Other)],
        vec![HandlerParam { attrs: vec![ParamAttr::Path], ty: uint64() }],
    );
    assert_eq!(route(Method::Get, &text("/a"), &item), Err(malformed(Metadata::Doc)));
}
