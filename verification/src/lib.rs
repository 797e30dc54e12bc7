//! Reflection of data shapes into a deduplicated, cycle-safe registry of
//! type declarations, and the description of HTTP routes over it.

pub mod catalog;
pub mod derive;
pub mod error;
mod extract;
pub mod method;
mod outside;
pub mod reflection;
pub mod registry;
pub mod route;
pub mod syntax;
mod text;

pub use method::{Method, StatusCode};
pub use reflection::{Reflect, Type, TypeDecl};
pub use registry::TypeContext;

use catalog::{
    closure, expanded, lemma_expanded_exact, lemma_expanded_nothing, lemma_expanded_then,
    shape_ids, Catalog,
};
use derive::DerivedView;
use reflection::{TypeDeclView, TypeView};
use registry::{entries_map, entry_ids};
use vstd::prelude::*;

verus! {

/// The model of an optional string.
pub open spec fn text_view(text: Option<String>) -> Option<Seq<char>> {
    match text {
        Some(t) => Some(t@),
        None => None,
    }
}

/// The model of an optional shape.
pub open spec fn shape_view(shape: Option<Type>) -> Option<TypeView> {
    match shape {
        Some(s) => Some(s@),
        None => None,
    }
}

/// The identifiers that an optional shape mentions.
pub open spec fn optional_ids(shape: Option<TypeView>) -> Set<Seq<char>> {
    match shape {
        Some(s) => shape_ids(s),
        None => Set::empty(),
    }
}

/// A deep copy of an optional string.
fn clone_text(text: &Option<String>) -> (copy: Option<String>)
    ensures
        text_view(copy) == text_view(*text),
{
    match text {
        Some(t) => Some(t.clone()),
        None => None,
    }
}

/// A deep copy of an optional shape.
fn clone_shape(shape: &Option<Type>) -> (copy: Option<Type>)
    ensures
        shape_view(copy) == shape_view(*shape),
{
    match shape {
        Some(s) => Some(s.duplicate()),
        None => None,
    }
}

/// The path of a route: its pattern, and the shape of the parameters that
/// the pattern binds.
#[derive(Debug, PartialEq, Eq)]
pub struct PathSpec {
    pub value: String,
    pub params: Option<Type>,
}

/// Model of a `PathSpec`.
pub struct PathSpecView {
    pub value: Seq<char>,
    pub params: Option<TypeView>,
}

impl View for PathSpec {
    type V = PathSpecView;

    open spec fn view(&self) -> PathSpecView {
        PathSpecView { value: self.value@, params: shape_view(self.params) }
    }
}

impl Clone for PathSpec {
    fn clone(&self) -> (copy: PathSpec)
        ensures
            copy@ == self@,
    {
        PathSpec { value: self.value.clone(), params: clone_shape(&self.params) }
    }
}

/// The query string of a route.
#[derive(Debug, PartialEq, Eq)]
pub struct QuerySpec {
    pub type_desc: Type,
    pub is_optional: bool,
}

/// Model of a `QuerySpec`.
pub struct QuerySpecView {
    pub type_desc: TypeView,
    pub is_optional: bool,
}

impl View for QuerySpec {
    type V = QuerySpecView;

    open spec fn view(&self) -> QuerySpecView {
        QuerySpecView { type_desc: self.type_desc@, is_optional: self.is_optional }
    }
}

impl Clone for QuerySpec {
    fn clone(&self) -> (copy: QuerySpec)
        ensures
            copy@ == self@,
    {
        QuerySpec { type_desc: self.type_desc.duplicate(), is_optional: self.is_optional }
    }
}

/// The request body of a route.
#[derive(Debug, PartialEq, Eq)]
pub struct RequestSpec {
    pub type_desc: Type,
    pub is_optional: bool,
}

/// Model of a `RequestSpec`.
pub struct RequestSpecView {
    pub type_desc: TypeView,
    pub is_optional: bool,
}

impl View for RequestSpec {
    type V = RequestSpecView;

    open spec fn view(&self) -> RequestSpecView {
        RequestSpecView { type_desc: self.type_desc@, is_optional: self.is_optional }
    }
}

impl Clone for RequestSpec {
    fn clone(&self) -> (copy: RequestSpec)
        ensures
            copy@ == self@,
    {
        RequestSpec { type_desc: self.type_desc.duplicate(), is_optional: self.is_optional }
    }
}

/// One response that a route may give.
#[derive(Debug, PartialEq, Eq)]
pub struct ResponseSpec {
    pub status: StatusCode,
    pub description: Option<String>,
    pub type_desc: Option<Type>,
}

/// Model of a `ResponseSpec`.
pub struct ResponseSpecView {
    pub status: int,
    pub description: Option<Seq<char>>,
    pub type_desc: Option<TypeView>,
}

impl View for ResponseSpec {
    type V = ResponseSpecView;

    open spec fn view(&self) -> ResponseSpecView {
        ResponseSpecView {
            status: self.status@,
            description: text_view(self.description),
            type_desc: shape_view(self.type_desc),
        }
    }
}

impl Clone for ResponseSpec {
    fn clone(&self) -> (copy: ResponseSpec)
        ensures
            copy@ == self@,
    {
        ResponseSpec {
            status: self.status,
            description: clone_text(&self.description),
            type_desc: clone_shape(&self.type_desc),
        }
    }
}

/// Models of `responses`, in order.
pub open spec fn responses_view(responses: Seq<ResponseSpec>) -> Seq<ResponseSpecView> {
    Seq::new(responses.len(), |i: int| responses[i]@)
}

/// The identifiers that the bodies of `responses` mention.
pub open spec fn responses_ids(responses: Seq<ResponseSpecView>) -> Set<Seq<char>> {
    Set::new(
        |id: Seq<char>|
            exists|i: int|
                0 <= i < responses.len() && optional_ids((#[trigger] responses[i]).type_desc).contains(
                    id,
                ),
    )
}

/// One route of an API.
#[derive(Debug, PartialEq, Eq)]
pub struct RouteSpec {
    pub name: String,
    pub path: PathSpec,
    pub method: Method,
    pub src_file: String,
    pub doc: Option<String>,
    pub query: Option<QuerySpec>,
    pub request: Option<RequestSpec>,
    pub responses: Vec<ResponseSpec>,
}

/// Model of a `RouteSpec`.
pub struct RouteSpecView {
    pub name: Seq<char>,
    pub path: PathSpecView,
    pub method: Method,
    pub src_file: Seq<char>,
    pub doc: Option<Seq<char>>,
    pub query: Option<QuerySpecView>,
    pub request: Option<RequestSpecView>,
    pub responses: Seq<ResponseSpecView>,
}

impl View for RouteSpec {
    type V = RouteSpecView;

    open spec fn view(&self) -> RouteSpecView {
        RouteSpecView {
            name: self.name@,
            path: self.path@,
            method: self.method,
            src_file: self.src_file@,
            doc: text_view(self.doc),
            query: match self.query {
                Some(q) => Some(q@),
                None => None,
            },
            request: match self.request {
                Some(r) => Some(r@),
                None => None,
            },
            responses: responses_view(self.responses@),
        }
    }
}

impl RouteSpecView {
    /// The identifiers that the route's shapes mention: those of its path
    /// parameters, its query, its request body and its response bodies.
    pub open spec fn ids(self) -> Set<Seq<char>> {
        optional_ids(self.path.params).union(
            match self.query {
                Some(q) => shape_ids(q.type_desc),
                None => Set::empty(),
            },
        ).union(
            match self.request {
                Some(r) => shape_ids(r.type_desc),
                None => Set::empty(),
            },
        ).union(responses_ids(self.responses))
    }
}

impl Clone for RouteSpec {
    fn clone(&self) -> (copy: RouteSpec)
        ensures
            copy@ == self@,
    {
        let mut responses: Vec<ResponseSpec> = Vec::new();
        let mut i: usize = 0;
        while i < self.responses.len()
            invariant
                i <= self.responses.len(),
                responses.len() == i,
                forall|j: int| 0 <= j < i ==> responses@[j]@ == self.responses@[j]@,
            decreases self.responses.len() - i,
        {
            responses.push(self.responses[i].clone());
            i += 1;
        }
        assert(responses_view(responses@) =~= responses_view(self.responses@));
        RouteSpec {
            name: self.name.clone(),
            path: self.path.clone(),
            method: self.method,
            src_file: self.src_file.clone(),
            doc: clone_text(&self.doc),
            query: match &self.query {
                Some(q) => Some(q.clone()),
                None => None,
            },
            request: match &self.request {
                Some(r) => Some(r.clone()),
                None => None,
            },
            responses,
        }
    }
}

/// Models of `routes`, in order.
pub open spec fn routes_view(routes: Seq<RouteSpec>) -> Seq<RouteSpecView> {
    Seq::new(routes.len(), |i: int| routes[i]@)
}

/// The description of an API: its routes in order, and the declarations
/// that their shapes refer to, each under its identifier, none twice.
#[derive(Debug, PartialEq, Eq)]
pub struct ApiSpec {
    pub routes: Vec<RouteSpec>,
    pub types: Vec<(String, TypeDecl)>,
}

/// Model of an `ApiSpec`.
pub struct ApiSpecView {
    pub routes: Seq<RouteSpecView>,
    pub types: Map<Seq<char>, TypeDeclView>,
}

impl View for ApiSpec {
    type V = ApiSpecView;

    open spec fn view(&self) -> ApiSpecView {
        ApiSpecView { routes: routes_view(self.routes@), types: entries_map(self.types@) }
    }
}

impl Clone for ApiSpec {
    fn clone(&self) -> (copy: ApiSpec)
        ensures
            copy@ == self@,
    {
        let mut routes: Vec<RouteSpec> = Vec::new();
        let mut i: usize = 0;
        while i < self.routes.len()
            invariant
                i <= self.routes.len(),
                routes.len() == i,
                forall|j: int| 0 <= j < i ==> routes@[j]@ == self.routes@[j]@,
            decreases self.routes.len() - i,
        {
            routes.push(self.routes[i].clone());
            i += 1;
        }
        let mut types: Vec<(String, TypeDecl)> = Vec::new();
        let mut k: usize = 0;
        while k < self.types.len()
            invariant
                k <= self.types.len(),
                types.len() == k,
                forall|j: int|
                    0 <= j < k ==> (#[trigger] types@[j]).0@ == self.types@[j].0@ && types@[j].1@
                        == self.types@[j].1@,
            decreases self.types.len() - k,
        {
            types.push((self.types[k].0.clone(), self.types[k].1.clone()));
            k += 1;
        }
        proof {
            assert(routes_view(routes@) =~= routes_view(self.routes@));
            assert(entry_ids(types@) =~= entry_ids(self.types@));
            assert(entries_map(types@) =~= entries_map(self.types@)) by {
                assert forall|id: Seq<char>| entry_ids(types@).contains(id) implies entries_map(
                    types@,
                )[id] == entries_map(self.types@)[id] by {
                    let at = entry_ids(types@).index_of(id);
                    assert(types@[at].1@ == self.types@[at].1@);
                }
            }
        }
        ApiSpec { routes, types }
    }
}

/// The identifiers that the shapes of `routes` mention.
pub open spec fn routes_ids(routes: Seq<RouteSpecView>) -> Set<Seq<char>> {
    Set::new(
        |id: Seq<char>|
            exists|i: int| 0 <= i < routes.len() && (#[trigger] routes[i]).ids().contains(id),
    )
}

/// Expands `cx` by an optional shape.
fn register_optional(catalog: &Catalog, cx: &mut TypeContext, shape: &Option<Type>)
    ensures
        expanded(catalog@, *old(cx), optional_ids(shape_view(*shape)), *final(cx)),
{
    match shape {
        Some(s) => {
            catalog.register(cx, s);
        },
        None => {
            proof {
                lemma_expanded_nothing(catalog@, *cx, Set::<Seq<char>>::empty());
            }
        },
    }
}

impl RouteSpec {
    /// Expands `cx` by the shapes of this route: those of its path
    /// parameters, its query, its request body and its response bodies, in
    /// this order.
    pub fn register(&self, catalog: &Catalog, cx: &mut TypeContext)
        ensures
            expanded(catalog@, *old(cx), self@.ids(), *final(cx)),
    {
        let ghost start = *cx;
        let ghost params = optional_ids(self@.path.params);
        register_optional(catalog, cx, &self.path.params);
        let ghost after_params = *cx;
        let ghost query = match self@.query {
            Some(q) => shape_ids(q.type_desc),
            None => Set::empty(),
        };
        match &self.query {
            Some(q) => {
                catalog.register(cx, &q.type_desc);
            },
            None => {
                proof {
                    lemma_expanded_nothing(catalog@, *cx, query);
                }
            },
        }
        let ghost after_query = *cx;
        let ghost request = match self@.request {
            Some(r) => shape_ids(r.type_desc),
            None => Set::empty(),
        };
        match &self.request {
            Some(r) => {
                catalog.register(cx, &r.type_desc);
            },
            None => {
                proof {
                    lemma_expanded_nothing(catalog@, *cx, request);
                }
            },
        }
        let ghost fixed = params.union(query).union(request);
        proof {
            lemma_expanded_then(catalog@, start, params, after_params, query, after_query);
            lemma_expanded_then(catalog@, start, params.union(query), after_query, request, *cx);
        }
        let ghost models = responses_view(self.responses@);
        let mut i: usize = 0;
        proof {
            assert(fixed.union(responses_ids(models.subrange(0, 0))) =~= fixed);
        }
        while i < self.responses.len()
            invariant
                i <= self.responses.len(),
                models == responses_view(self.responses@),
                expanded(
                    catalog@,
                    start,
                    fixed.union(responses_ids(models.subrange(0, i as int))),
                    *cx,
                ),
            decreases self.responses.len() - i,
        {
            let ghost middle = *cx;
            register_optional(catalog, cx, &self.responses[i].type_desc);
            proof {
                let before = fixed.union(responses_ids(models.subrange(0, i as int)));
                let here = optional_ids(models[i as int].type_desc);
                let after = fixed.union(responses_ids(models.subrange(0, i + 1)));
                lemma_expanded_then(catalog@, start, before, middle, here, *cx);
                lemma_prefix_responses_ids(models, i as int);
                assert(after =~= before.union(here));
            }
            i += 1;
        }
        assert(models.subrange(0, self.responses@.len() as int) =~= models);
    }
}

/// The identifiers in the first `i + 1` responses are those in the first
/// `i` and those in the response at `i`.
proof fn lemma_prefix_responses_ids(responses: Seq<ResponseSpecView>, i: int)
    requires
        0 <= i < responses.len(),
    ensures
        responses_ids(responses.subrange(0, i + 1)) == responses_ids(
            responses.subrange(0, i),
        ).union(optional_ids(responses[i].type_desc)),
{
    let shorter = responses.subrange(0, i);
    let longer = responses.subrange(0, i + 1);
    assert forall|id: Seq<char>|
        responses_ids(longer).contains(id) <==> responses_ids(shorter).contains(id) || optional_ids(
            responses[i].type_desc,
        ).contains(id) by {
        if responses_ids(longer).contains(id) {
            let j = choose|j: int|
                0 <= j < longer.len() && optional_ids((#[trigger] longer[j]).type_desc).contains(
                    id,
                );
            if j < i {
                assert(optional_ids(shorter[j].type_desc).contains(id));
            }
        }
        if responses_ids(shorter).contains(id) {
            let j = choose|j: int|
                0 <= j < shorter.len() && optional_ids((#[trigger] shorter[j]).type_desc).contains(
                    id,
                );
            assert(optional_ids(longer[j].type_desc).contains(id));
        }
        if optional_ids(responses[i].type_desc).contains(id) {
            assert(optional_ids(longer[i].type_desc).contains(id));
        }
    }
    assert(responses_ids(longer) =~= responses_ids(shorter).union(
        optional_ids(responses[i].type_desc),
    ));
}

/// The identifiers in the first `i + 1` routes are those in the first `i`
/// and those in the route at `i`.
proof fn lemma_prefix_routes_ids(routes: Seq<RouteSpecView>, i: int)
    requires
        0 <= i < routes.len(),
    ensures
        routes_ids(routes.subrange(0, i + 1)) == routes_ids(routes.subrange(0, i)).union(
            routes[i].ids(),
        ),
{
    let shorter = routes.subrange(0, i);
    let longer = routes.subrange(0, i + 1);
    assert forall|id: Seq<char>|
        routes_ids(longer).contains(id) <==> routes_ids(shorter).contains(id)
            || routes[i].ids().contains(id) by {
        if routes_ids(longer).contains(id) {
            let j = choose|j: int|
                0 <= j < longer.len() && (#[trigger] longer[j]).ids().contains(id);
            if j < i {
                assert(shorter[j].ids().contains(id));
            }
        }
        if routes_ids(shorter).contains(id) {
            let j = choose|j: int|
                0 <= j < shorter.len() && (#[trigger] shorter[j]).ids().contains(id);
            assert(longer[j].ids().contains(id));
        }
        if routes[i].ids().contains(id) {
            assert(longer[i].ids().contains(id));
        }
    }
    assert(routes_ids(longer) =~= routes_ids(shorter).union(routes[i].ids()));
}

impl ApiSpec {
    /// The description of the API with the routes `routes`: the routes as
    /// they stand, and the catalog's declaration of every identifier that
    /// their shapes reach, each once.
    pub fn build(catalog: &Catalog, routes: Vec<RouteSpec>) -> (api: ApiSpec)
        ensures
            describes(catalog@, routes_view(routes@), api@),
            entry_ids(api.types@).no_duplicates(),
    {
        let mut cx = TypeContext::new();
        let ghost start = cx;
        let ghost models = routes_view(routes@);
        proof {
            assert(routes_ids(models.subrange(0, 0)) =~= Set::<Seq<char>>::empty());
            lemma_expanded_nothing(catalog@, start, routes_ids(models.subrange(0, 0)));
        }
        let mut i: usize = 0;
        while i < routes.len()
            invariant
                i <= routes.len(),
                models == routes_view(routes@),
                expanded(catalog@, start, routes_ids(models.subrange(0, i as int)), cx),
            decreases routes.len() - i,
        {
            let ghost middle = cx;
            routes[i].register(catalog, &mut cx);
            proof {
                let before = routes_ids(models.subrange(0, i as int));
                lemma_expanded_then(catalog@, start, before, middle, models[i as int].ids(), cx);
                lemma_prefix_routes_ids(models, i as int);
            }
            i += 1;
        }
        proof {
            assert(models.subrange(0, routes@.len() as int) =~= models);
            lemma_expanded_exact(catalog@, start, routes_ids(models), cx);
            assert(cx@ =~= closure(catalog@, routes_ids(models)));
        }
        ApiSpec { routes, types: cx.into_types() }
    }
}

/// Whether `api` is the description of the API with the routes `routes`
/// over the catalog `cat`: what `ApiSpec::build` returns.
pub open spec fn describes(
    cat: Seq<DerivedView>,
    routes: Seq<RouteSpecView>,
    api: ApiSpecView,
) -> bool {
    &&& api.routes == routes
    &&& api.types == closure(cat, routes_ids(routes))
}

/// Building is determined by its inputs: two descriptions of the same
/// routes over the same catalog have the same routes in the same order,
/// and the same table.
pub proof fn lemma_build_deterministic(
    cat: Seq<DerivedView>,
    routes: Seq<RouteSpecView>,
    one: ApiSpecView,
    other: ApiSpecView,
)
    requires
        describes(cat, routes, one),
        describes(cat, routes, other),
    ensures
        one == other,
{
}

/// A declaration is held once, under its identifier, however many routes
/// reach it and however often: the table of a description holds exactly
/// the identifiers that some route reaches, each with the catalog's
/// declaration.
pub proof fn lemma_build_holds_each_once(
    cat: Seq<DerivedView>,
    routes: Seq<RouteSpecView>,
    api: ApiSpecView,
    id: Seq<char>,
)
    requires
        describes(cat, routes, api),
    ensures
        api.types.dom().contains(id) <==> catalog::reached(cat, routes_ids(routes), id),
        api.types.dom().contains(id) ==> api.types[id] == catalog::decl_in(cat, id),
{
}

/// What a handler input is described against: the registry, and whether the
/// input stands in an optional position.
pub struct RouteHandlerInputContext<'a> {
    pub type_cx: &'a mut TypeContext,
    pub is_optional: bool,
}

impl RouteHandlerInputContext<'_> {
    /// A context over `type_cx` for an input that is not optional.
    pub fn new(type_cx: &mut TypeContext) -> (cx: RouteHandlerInputContext)
        ensures
            !cx.is_optional,
            *cx.type_cx == *old(type_cx),
            *final(cx.type_cx) == *final(type_cx),
    {
        RouteHandlerInputContext { type_cx, is_optional: false }
    }
}

/// Whether `after` is `before` but for the shapes of the inputs: the path
/// parameters, the query and the request body.
pub open spec fn same_but_inputs(before: RouteSpecView, after: RouteSpecView) -> bool {
    after == (RouteSpecView {
        path: PathSpecView { params: after.path.params, ..before.path },
        query: after.query,
        request: after.request,
        ..before
    })
}

/// The capability of a handler's input to enter itself into the
/// description of the handler's route.
///
/// An input may set the shapes of the route's inputs, and nothing else of
/// the route. It may register declarations on the way; it leaves in place
/// what the registry held. An input that stands in an optional position
/// stays there.
pub trait RouteHandlerInput {
    /// Describes this input into `route`.
    fn describe(cx: &mut RouteHandlerInputContext, route: &mut RouteSpec)
        ensures
            same_but_inputs(old(route)@, final(route)@),
            final(cx).type_cx.extends(old(cx).type_cx),
            *final(final(cx).type_cx) == *final(old(cx).type_cx),
            old(cx).is_optional ==> final(cx).is_optional,
    ;
}

/// An optional input is what it wraps, in an optional position.
impl<T: RouteHandlerInput> RouteHandlerInput for Option<T> {
    fn describe(cx: &mut RouteHandlerInputContext, route: &mut RouteSpec)
        ensures
            exists|c: &mut RouteHandlerInputContext, r: &mut RouteSpec|
                {
                    &&& c.is_optional
                    &&& *c.type_cx == *old(cx).type_cx
                    &&& *r == *old(route)
                    &&& #[trigger] call_ensures(T::describe, (c, r), ())
                    &&& *final(r) == *final(route)
                    &&& *final(c).type_cx == *final(cx).type_cx
                    &&& final(c).is_optional == final(cx).is_optional
                },
    {
        cx.is_optional = true;
        T::describe(cx, route);
    }
}

/// An input that may fail to be read is what it wraps, in an optional
/// position.
impl<T: RouteHandlerInput, E> RouteHandlerInput for Result<T, E> {
    fn describe(cx: &mut RouteHandlerInputContext, route: &mut RouteSpec)
        ensures
            exists|c: &mut RouteHandlerInputContext, r: &mut RouteSpec|
                {
                    &&& c.is_optional
                    &&& *c.type_cx == *old(cx).type_cx
                    &&& *r == *old(route)
                    &&& #[trigger] call_ensures(T::describe, (c, r), ())
                    &&& *final(r) == *final(route)
                    &&& *final(c).type_cx == *final(cx).type_cx
                    &&& final(c).is_optional == final(cx).is_optional
                },
    {
        cx.is_optional = true;
        T::describe(cx, route);
    }
}

/// A provider of one route: a function that builds the route's record,
/// reflecting its shapes into the registry it is given.
#[derive(Clone, Copy)]
pub struct RouteSpecFn<F>(pub F);

impl<F: Fn(&mut TypeContext) -> RouteSpec> RouteSpecFn<F> {
    /// Builds the route.
    pub fn build(&self, cx: &mut TypeContext) -> (route: RouteSpec)
        requires
            forall|c: &mut TypeContext| *c == *old(cx) ==> call_requires(self.0, (c,)),
        ensures
            exists|c: &mut TypeContext|
                *c == *old(cx) && *final(c) == *final(cx) && #[trigger] call_ensures(
                    self.0,
                    (c,),
                    route,
                ),
    {
        (self.0)(cx)
    }
}

/// Whether `i` is a place in a list of `n` items.
pub open spec fn place(i: int, n: nat) -> bool {
    0 <= i < n
}

/// The description of the API whose routes `providers` build.
///
/// Every provider is called once, in order, on one registry: the first
/// finds it empty, each later one finds it as the one before left it, and
/// what the last one leaves is the table of the description. The routes
/// are what the providers returned, in the providers' order.
pub fn spec<F: Fn(&mut TypeContext) -> RouteSpec>(providers: &Vec<RouteSpecFn<F>>) -> (api:
    ApiSpec)
    requires
        forall|i: int, c: &mut TypeContext|
            0 <= i < providers@.len() ==> #[trigger] call_requires(providers@[i].0, (c,)),
    ensures
        api.routes@.len() == providers@.len(),
        entry_ids(api.types@).no_duplicates(),
        exists|states: Seq<TypeContext>|
            {
                &&& states.len() == providers@.len() + 1
                &&& states[0]@ == Map::<Seq<char>, TypeDeclView>::empty()
                &&& states[0].reserved() == Set::<Seq<char>>::empty()
                &&& states.last()@ == api@.types
                &&& forall|i: int| #[trigger]
                    place(i, providers@.len()) ==> exists|c: &mut TypeContext|
                        {
                            &&& *c == states[i]
                            &&& #[trigger] call_ensures(providers@[i].0, (c,), api.routes@[i])
                            &&& *final(c) == states[i + 1]
                        }
            },
{
    let mut cx = TypeContext::new();
    let mut routes: Vec<RouteSpec> = Vec::new();
    let ghost mut states: Seq<TypeContext> = seq![cx];
    let mut i: usize = 0;
    while i < providers.len()
        invariant
            i <= providers.len(),
            routes.len() == i,
            forall|j: int, c: &mut TypeContext|
                0 <= j < providers@.len() ==> #[trigger] call_requires(providers@[j].0, (c,)),
            states.len() == i + 1,
            states[0]@ == Map::<Seq<char>, TypeDeclView>::empty(),
            states[0].reserved() == Set::<Seq<char>>::empty(),
            states.last() == cx,
            forall|j: int| #[trigger]
                place(j, i as nat) ==> exists|c: &mut TypeContext|
                    {
                        &&& *c == states[j]
                        &&& #[trigger] call_ensures(providers@[j].0, (c,), routes@[j])
                        &&& *final(c) == states[j + 1]
                    },
        decreases providers.len() - i,
    {
        let ghost earlier_states = states;
        let ghost earlier_routes = routes@;
        let route = providers[i].build(&mut cx);
        routes.push(route);
        i += 1;
        proof {
            states = states.push(cx);
            assert forall|j: int| #[trigger] place(j, i as nat) implies exists|
                c: &mut TypeContext,
            |
                {
                    &&& *c == states[j]
                    &&& #[trigger] call_ensures(providers@[j].0, (c,), routes@[j])
                    &&& *final(c) == states[j + 1]
                } by {
                if j < i - 1 {
                    assert(place(j, (i - 1) as nat));
                    let kept = choose|c: &mut TypeContext|
                        {
                            &&& *c == earlier_states[j]
                            &&& #[trigger] call_ensures(providers@[j].0, (c,), earlier_routes[j])
                            &&& *final(c) == earlier_states[j + 1]
                        };
                    assert(call_ensures(providers@[j].0, (kept,), routes@[j]));
                } else {
                    let made = choose|c: &mut TypeContext|
                        {
                            &&& *c == earlier_states.last()
                            &&& *final(c) == cx
                            &&& #[trigger] call_ensures(providers@[j].0, (c,), route)
                        };
                    assert(call_ensures(providers@[j].0, (made,), routes@[j]));
                }
            }
        }
    }
    ApiSpec { routes, types: cx.into_types() }
}

} // verus!
