//! A transport-agnostic, codec-agnostic request/response RPC core.
//!
//! The crate verifies the engine that turns a bidirectional stream of typed
//! frames into a typed client/server pair: tag allocation and the in-flight
//! table for multiplexed calls, FIFO correlation for pipelined calls, the
//! route table with its head-of-line readiness queue, length-delimited
//! framing, the request envelope layers, and the hierarchical cancellation
//! scopes that drive orderly shutdown. Byte plumbing (sockets, pipes, HTTP
//! serving) stays outside; it hands the engine plain values and takes plain
//! values back.

use vstd::prelude::*;

pub mod cancel;
pub mod client;
pub mod codec;
pub mod frame;
pub mod http;
pub mod multiplex;
pub mod pipeline;
pub mod request;
pub mod router;
pub mod rpc_service;
pub mod server;
pub mod tagged;
pub mod transport;

verus! {

/// Implemented only by the crate's own protocol markers.
pub trait Sealed {}

/// Marker for the two request-delivery protocols a server can run.
pub trait ServerMode: Sealed {}

/// Strict FIFO correlation: one request outstanding per response slot,
/// responses returned in issue order.
pub struct Pipeline;

impl Sealed for Pipeline {}

impl ServerMode for Pipeline {}

/// Concurrent correlation: many requests outstanding, matched by tag.
pub struct Multiplex {}

impl Sealed for Multiplex {}

impl ServerMode for Multiplex {}

} // verus!
