//! The HTTP adapter's engine side: driving the keyed router from an HTTP
//! request.
//!
//! The runtime glue collects the request body and decodes it with the
//! configured serializer; the engine builds the routed request — route is
//! the request target, key is the verb, value is the decoded body — and
//! wraps the encoded reply in a success response. Any stage's failure
//! propagates as an error instead; the embedding HTTP server chooses status
//! codes for those.

use vstd::prelude::*;

use crate::router::{Keyed, RouteKeyEq, RoutedRequest};

verus! {

/// The engine's model of an HTTP method, the key the adapter routes by.
#[derive(Clone, Copy, Debug, PartialEq, Eq, Hash, Structural)]
pub enum Verb {
    Get,
    Head,
    Post,
    Put,
    Delete,
    Connect,
    Options,
    Trace,
    Patch,
}

impl RouteKeyEq for Verb {
    fn key_eq(&self, other: &Self) -> (r: bool)
        ensures
            r == (self == other),
    {
        *self == *other
    }
}

/// An HTTP response reduced to what the adapter produces: a status code and
/// an encoded body.
pub struct HttpResponseParts {
    pub status: u16,
    pub body: Vec<u8>,
}

/// Builds the routed request an HTTP request stands for: the route is the
/// request target, the key is the verb, and the value is the body as the
/// configured serializer decoded it.
pub fn route_http_request<Req>(method: Verb, target: String, value: Req) -> (r: RoutedRequest<
    Req,
    Keyed<Verb>,
>)
    ensures
        r.route == target,
        r.key == method,
        r.value == value,
{
    RoutedRequest { route: target, key: method, value }
}

/// Wraps an encoded reply in the adapter's success response: when every
/// stage succeeded the answer is status 200 carrying the serialized value.
pub fn ok_response(body: Vec<u8>) -> (r: HttpResponseParts)
    ensures
        r.status == 200,
        r.body == body,
{
    HttpResponseParts { status: 200, body }
}

} // verus!
