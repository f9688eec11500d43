//! What an intercepted call reads from, and writes to, the request it
//! carries.
//!
//! A request is opaque to the proofs. What the library needs of it has a
//! name here, and each function below states, over those names, what the
//! one call it makes into the HTTP types returns.

use hyper::{Body, Request};
use vstd::prelude::*;

verus! {

/// `http::Request`, as `hyper` hands it on: carried, never looked into.
#[verifier::external_type_specification]
#[verifier::external_body]
#[verifier::reject_recursive_types(T)]
pub struct ExRequest<T>(Request<T>);

/// `hyper::Body`: carried, never looked into.
#[verifier::external_type_specification]
#[verifier::external_body]
pub struct ExBody(Body);

/// The path component of the request's URI.
pub uninterp spec fn request_path(req: Request<Body>) -> Seq<char>;

/// The bytes of the first value that the request's headers hold under
/// `name`, if they hold one.
pub uninterp spec fn request_header(req: Request<Body>, name: Seq<char>) -> Option<Seq<u8>>;

/// The `u32` kept among the request's extensions, if one is kept there.
pub uninterp spec fn request_marker(req: Request<Body>) -> Option<u32>;

/// `marked` is `incoming` with `marker` among its extensions: path and
/// headers are those of `incoming`.
pub open spec fn is_marked(incoming: Request<Body>, marker: u32, marked: Request<Body>) -> bool {
    &&& request_marker(marked) == Some(marker)
    &&& request_path(marked) == request_path(incoming)
    &&& forall|name: Seq<char>| #[trigger]
        request_header(marked, name) == request_header(incoming, name)
}

/// Calls `Uri::path` on the request's URI and copies the answer.
///
/// Not proved: that the answer is the path component. The contract only
/// gives it its name.
#[verifier::external_body]
pub(crate) fn path_of(req: &Request<Body>) -> (path: String)
    ensures
        path@ == request_path(*req),
{
    req.uri().path().to_string()
}

/// Calls `HeaderMap::get` on the request's headers and copies the bytes of
/// the value found.
///
/// Not proved: that `get` answers with the first value stored under `name`,
/// and with nothing where no value is stored under it or `name` is no
/// header name. The contract only gives the answer its name.
#[verifier::external_body]
pub(crate) fn header_of(req: &Request<Body>, name: &str) -> (found: Option<Vec<u8>>)
    ensures
        match found {
            Some(bytes) => request_header(*req, name@) == Some(bytes@),
            None => request_header(*req, name@) is None,
        },
{
    match req.headers().get(name) {
        Some(value) => Some(value.as_bytes().to_vec()),
        None => None,
    }
}

/// Calls `Extensions::insert` on the request's extensions with `marker`.
///
/// Not proved: that the insertion replaces any `u32` kept there before and
/// that it leaves the URI and the headers of the request as they were.
#[verifier::external_body]
pub(crate) fn with_marker(req: Request<Body>, marker: u32) -> (marked: Request<Body>)
    ensures
        request_marker(marked) == Some(marker),
        request_path(marked) == request_path(req),
        forall|name: Seq<char>| #[trigger]
            request_header(marked, name) == request_header(req, name),
{
    let mut marked = req;
    marked.extensions_mut().insert(marker);
    marked
}

} // verus!
