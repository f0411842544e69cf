//! The layers wrapped around a user service by the protocol drivers.
//!
//! Each layer is a value transformation around an inner service: the
//! multiplex layer strips the tag before the inner call and echoes it on the
//! response; the demultiplex layer is its client-side mirror; the request
//! layer injects the connection's context so user handlers receive the full
//! envelope. Driving the inner service's readiness and futures is the
//! runtime glue's job; the transformations themselves are stated here.

use core::marker::PhantomData;
use vstd::prelude::*;

use crate::request::{ConnectionContext, Request};
use crate::tagged::Tagged;

verus! {

/// Server-side multiplex layer: the inner service sees bare values while the
/// layer preserves each request's tag for its response.
#[derive(Clone, Debug)]
pub struct MultiplexService<S> {
    pub inner: S,
}

impl<S> MultiplexService<S> {
    pub fn new(inner: S) -> (r: Self)
        ensures
            r.inner == inner,
    {
        MultiplexService { inner }
    }

    /// Opens an inbound envelope: the bare value goes to the inner service,
    /// the tag is kept for the response.
    pub fn open_request<Req>(req: Tagged<Req>) -> (r: (usize, Req))
        ensures
            r.0 == req.tag,
            r.1 == req.value,
    {
        (req.tag, req.value)
    }

    /// Seals the inner service's response under the request's tag: the tag
    /// is echoed unchanged, as the protocol requires.
    pub fn seal_response<Res>(tag: usize, value: Res) -> (r: Tagged<Res>)
        ensures
            r.tag == tag,
            r.value == value,
    {
        Tagged { tag, value }
    }
}

/// Client-side mirror of the multiplex layer: callers pass bare values; the
/// layer wraps them for the tagged transport and strips inbound envelopes.
/// The placeholder tag is overwritten by the in-flight table when the
/// request is actually sent.
pub struct DemultiplexService<S, Res> {
    pub inner: S,
    pub marker: PhantomData<Res>,
}

impl<S, Res> DemultiplexService<S, Res> {
    pub fn new(inner: S) -> (r: Self)
        ensures
            r.inner == inner,
    {
        DemultiplexService { inner, marker: PhantomData }
    }

    /// Wraps an outbound value with the placeholder tag.
    pub fn seal_request<Req>(value: Req) -> (r: Tagged<Req>)
        ensures
            r.tag == 0,
            r.value == value,
    {
        Tagged { tag: 0, value }
    }

    /// Strips an inbound envelope down to the value the caller awaits.
    pub fn open_response(res: Tagged<Res>) -> (r: Res)
        ensures
            r == res.value,
    {
        res.value
    }
}

/// Per-connection layer that injects the connection's context, so the user
/// service receives the full request envelope.
pub struct RequestService<S, Res> {
    pub context: ConnectionContext,
    pub inner: S,
    pub marker: PhantomData<Res>,
}

impl<S, Res> RequestService<S, Res> {
    pub fn new(context: ConnectionContext, inner: S) -> (r: Self)
        ensures
            r.context == context,
            r.inner == inner,
    {
        RequestService { context, inner, marker: PhantomData }
    }

    /// Builds the envelope handed to the user service: the bare value plus
    /// this connection's context.
    pub fn envelope<Req>(&self, value: Req) -> (r: Request<Req>)
        ensures
            r.context == self.context,
            r.value == value,
    {
        Request { context: self.context, value }
    }
}

} // verus!
