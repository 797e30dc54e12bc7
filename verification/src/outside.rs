//! Types of other crates that the library names. Each is opaque here: the
//! library implements its own traits for them and reads nothing of their
//! values.

use vstd::prelude::*;

verus! {

/// camino's borrowed UTF-8 path.
#[verifier::external_type_specification]
#[verifier::external_body]
pub struct ExUtf8Path(camino::Utf8Path);

/// camino's owned UTF-8 path.
#[verifier::external_type_specification]
#[verifier::external_body]
pub struct ExUtf8PathBuf(camino::Utf8PathBuf);

/// axum's extractor of path parameters.
#[verifier::external_type_specification]
#[verifier::external_body]
#[verifier::reject_recursive_types(T)]
pub struct ExPath<T>(axum::extract::Path<T>);

/// axum's extractor of a JSON request body.
#[verifier::external_type_specification]
#[verifier::external_body]
#[verifier::reject_recursive_types(T)]
pub struct ExJson<T>(axum::extract::Json<T>);

/// axum's extractor of a value from the request's extensions.
#[verifier::external_type_specification]
#[verifier::external_body]
#[verifier::reject_recursive_types(T)]
pub struct ExExtension<T>(axum::extract::Extension<T>);

/// axum's extractor of a multipart request body.
#[verifier::external_type_specification]
#[verifier::external_body]
pub struct ExMultipart(axum::extract::Multipart);

/// serde_qs's extractor of a query string.
#[verifier::external_type_specification]
#[verifier::external_body]
#[verifier::reject_recursive_types(T)]
pub struct ExQsQuery<T>(serde_qs::axum::QsQuery<T>);

/// axum-extra's extractor of the request's cookies.
#[verifier::external_type_specification]
#[verifier::external_body]
pub struct ExCookieJar(axum_extra::extract::cookie::CookieJar);

/// axum-extra's extractor of the request's private cookies.
#[verifier::external_type_specification]
#[verifier::external_body]
#[verifier::reject_recursive_types(K)]
pub struct ExPrivateCookieJar<K>(axum_extra::extract::cookie::PrivateCookieJar<K>);

} // verus!
