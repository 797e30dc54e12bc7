//! Handler inputs of the web framework: what each of its extractors enters
//! into the description of a route.

use crate::reflection::{Reflect, Type};
use crate::registry::TypeContext;
use crate::{
    PathSpecView, QuerySpec, QuerySpecView, RequestSpec, RequestSpecView, RouteHandlerInput,
    RouteHandlerInputContext, RouteSpec, RouteSpecView,
};
use vstd::prelude::*;

verus! {

/// The parameters of the path have the shape that `T` reports.
impl<T: Reflect> RouteHandlerInput for axum::extract::Path<T> {
    fn describe(cx: &mut RouteHandlerInputContext, route: &mut RouteSpec)
        ensures
            final(cx).is_optional == old(cx).is_optional,
            exists|c: &mut TypeContext, shape: Type|
                {
                    &&& *c == *old(cx).type_cx
                    &&& #[trigger] call_ensures(T::reflect, (c,), shape)
                    &&& *final(c) == *final(cx).type_cx
                    &&& final(route)@ == (RouteSpecView {
                        path: PathSpecView { params: Some(shape@), ..old(route)@.path },
                        ..old(route)@
                    })
                },
    {
        route.path.params = Some(T::reflect(cx.type_cx));
    }
}

/// The query has the shape that `T` reports, and is optional where the
/// input is.
impl<T: Reflect> RouteHandlerInput for serde_qs::axum::QsQuery<T> {
    fn describe(cx: &mut RouteHandlerInputContext, route: &mut RouteSpec)
        ensures
            final(cx).is_optional == old(cx).is_optional,
            exists|c: &mut TypeContext, shape: Type|
                {
                    &&& *c == *old(cx).type_cx
                    &&& #[trigger] call_ensures(T::reflect, (c,), shape)
                    &&& *final(c) == *final(cx).type_cx
                    &&& final(route)@ == (RouteSpecView {
                        query: Some(
                            QuerySpecView {
                                type_desc: shape@,
                                is_optional: old(cx).is_optional,
                            },
                        ),
                        ..old(route)@
                    })
                },
    {
        route.query = Some(
            QuerySpec { type_desc: T::reflect(cx.type_cx), is_optional: cx.is_optional },
        );
    }
}

/// The request body has the shape that `T` reports, and is optional where
/// the input is.
impl<T: Reflect> RouteHandlerInput for axum::extract::Json<T> {
    fn describe(cx: &mut RouteHandlerInputContext, route: &mut RouteSpec)
        ensures
            final(cx).is_optional == old(cx).is_optional,
            exists|c: &mut TypeContext, shape: Type|
                {
                    &&& *c == *old(cx).type_cx
                    &&& #[trigger] call_ensures(T::reflect, (c,), shape)
                    &&& *final(c) == *final(cx).type_cx
                    &&& final(route)@ == (RouteSpecView {
                        request: Some(
                            RequestSpecView {
                                type_desc: shape@,
                                is_optional: old(cx).is_optional,
                            },
                        ),
                        ..old(route)@
                    })
                },
    {
        route.request = Some(
            RequestSpec { type_desc: T::reflect(cx.type_cx), is_optional: cx.is_optional },
        );
    }
}

/// A multipart request body enters nothing.
impl RouteHandlerInput for axum::extract::Multipart {
    fn describe(cx: &mut RouteHandlerInputContext, route: &mut RouteSpec)
        ensures
            *final(route) == *old(route),
            *final(cx) == *old(cx),
    {
    }
}

/// A value shared through the request's extensions enters nothing.
impl<T> RouteHandlerInput for axum::extract::Extension<T> {
    fn describe(cx: &mut RouteHandlerInputContext, route: &mut RouteSpec)
        ensures
            *final(route) == *old(route),
            *final(cx) == *old(cx),
    {
    }
}

/// The cookies of a request enter nothing.
impl RouteHandlerInput for axum_extra::extract::cookie::CookieJar {
    fn describe(cx: &mut RouteHandlerInputContext, route: &mut RouteSpec)
        ensures
            *final(route) == *old(route),
            *final(cx) == *old(cx),
    {
    }
}

/// The private cookies of a request enter nothing, whatever key they are
/// kept under.
impl<K> RouteHandlerInput for axum_extra::extract::cookie::PrivateCookieJar<K> {
    fn describe(cx: &mut RouteHandlerInputContext, route: &mut RouteSpec)
        ensures
            *final(route) == *old(route),
            *final(cx) == *old(cx),
    {
    }
}

} // verus!
