//! The typed client handle over a framed connection.

use core::marker::PhantomData;
use vstd::prelude::*;

verus! {

/// A typed client over a framed bidirectional stream: `Req` frames out,
/// `Res` frames in. The handle only carries the stream; the protocol engine
/// that correlates calls with responses is `pipeline::PipelineClient` or
/// `multiplex::MultiplexClient`, driven by the runtime glue that owns the
/// stream's I/O.
pub struct Client<S, Req, Res> {
    stream: S,
    _phantom: PhantomData<(Req, Res)>,
}

impl<S, Req, Res> Client<S, Req, Res> {
    /// The framed stream this client will drive.
    pub closed spec fn stream(self) -> S {
        self.stream
    }

    pub fn new(stream: S) -> (r: Self)
        ensures
            r.stream() == stream,
    {
        Client { stream, _phantom: PhantomData }
    }

    /// Releases the stream to the glue that pumps the protocol engine.
    pub fn into_stream(self) -> (r: S)
        ensures
            r == self.stream(),
    {
        self.stream
    }
}

/// An opaque client-side failure: a transport, decode or protocol error
/// surfaced to a caller, carried as text for operator diagnosis.
#[derive(Clone, Debug)]
pub struct ClientError {
    msg: String,
}

impl ClientError {
    /// The diagnostic text.
    pub closed spec fn msg(self) -> Seq<char> {
        self.msg@
    }

    pub fn new(msg: String) -> (r: Self)
        ensures
            r.msg() == msg@,
    {
        ClientError { msg }
    }

    /// The diagnostic text, for display by the embedding program.
    pub fn message(&self) -> (r: &str)
        ensures
            r@ == self.msg(),
    {
        self.msg.as_str()
    }
}

} // verus!
