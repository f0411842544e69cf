//! The server: an acceptor, a handler factory, and the accept loop's rule.
//!
//! The runtime glue pumps the acceptor and, for each accepted connection,
//! derives a child cancellation scope, builds a fresh user service from the
//! factory, and spawns the protocol driver (`pipeline::PipelineServer` or
//! the multiplex engines) as a child task. The engine side is the accept
//! rule itself: which observations spawn a connection task, which are
//! passed over, and which end the loop.

use core::marker::PhantomData;
use vstd::prelude::*;

use crate::{Multiplex, Pipeline, ServerMode};

verus! {

/// A server under one of the two protocol markers: the acceptor yielding
/// connections, and the factory that builds one user service instance per
/// connection. The factory is shared by all live connections; each
/// connection gets a fresh instance.
pub struct Server<K, H, S, I, E, M: ServerMode, Req, Res> {
    pub incoming: S,
    pub handler: K,
    pub marker: PhantomData<(M, H, I, E, Req, Res)>,
}

impl<K, H, S, I, E, Req, Res> Server<K, H, S, I, E, Pipeline, Req, Res> {
    /// A server that drives each connection with the pipeline protocol.
    pub fn pipeline(incoming: S, handler: K) -> (r: Self)
        ensures
            r.incoming == incoming,
            r.handler == handler,
    {
        Server { incoming, handler, marker: PhantomData }
    }
}

impl<K, H, S, I, E, Req, Res> Server<K, H, S, I, E, Multiplex, Req, Res> {
    /// A server that drives each connection with the multiplex protocol.
    pub fn multiplex(incoming: S, handler: K) -> (r: Self)
        ensures
            r.incoming == incoming,
            r.handler == handler,
    {
        Server { incoming, handler, marker: PhantomData }
    }
}

/// What one turn of the accept loop observed.
pub enum AcceptEvent<C> {
    /// The acceptor yielded a connection.
    Accepted(C),
    /// The acceptor reported an error in place of a connection.
    AcceptFailed,
    /// The acceptor is exhausted: the binding is gone.
    Closed,
    /// The server's scope was cancelled.
    Cancelled,
}

/// What the accept loop does with one observation.
pub enum AcceptStep<C> {
    /// Spawn a connection task — a child scope, a fresh service from the
    /// factory, and the protocol driver — and keep accepting.
    Spawn(C),
    /// Pass over this item and keep accepting.
    Skip,
    /// Stop accepting and wind the server down.
    Stop,
}

/// The accept rule: exactly the accepted connections are spawned; an accept
/// error is non-fatal for the server — the item is skipped and the loop
/// keeps accepting — while an exhausted acceptor or cancellation ends it.
/// One connection task's later failure never ends the loop — only what the
/// acceptor itself yields does.
pub fn accept_step<C>(event: AcceptEvent<C>) -> (r: AcceptStep<C>)
    ensures
        event matches AcceptEvent::Accepted(c) ==> r == AcceptStep::Spawn(c),
        event is AcceptFailed ==> r is Skip,
        event is Closed || event is Cancelled ==> r is Stop,
{
    match event {
        AcceptEvent::Accepted(c) => AcceptStep::Spawn(c),
        AcceptEvent::AcceptFailed => AcceptStep::Skip,
        AcceptEvent::Closed => AcceptStep::Stop,
        AcceptEvent::Cancelled => AcceptStep::Stop,
    }
}

} // verus!
