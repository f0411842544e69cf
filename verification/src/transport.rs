//! Transport endpoints: the values and decisions around byte-stream
//! plumbing.
//!
//! The byte streams themselves (sockets, pipes, child processes) live with
//! the runtime glue; the engine owns the endpoint naming, the bind conflict
//! policy, and the reconnect decision a self-healing client stream makes on
//! every poll.

use vstd::prelude::*;
use vstd::string::StringExecFns;

verus! {

/// A bidirectional byte transport assembled from one readable half and one
/// writable half: a process's own stdin/stdout on the server side, or a
/// spawned child's stdout/stdin on the client side. Its acceptor yields
/// exactly one connection.
pub struct StdioTransport<I, O> {
    pub stdin: I,
    pub stdout: O,
}

impl<I, O> StdioTransport<I, O> {
    /// Pairs an arbitrary readable half with a writable half.
    pub fn attach(stdin: I, stdout: O) -> (r: Self)
        ensures
            r.stdin == stdin,
            r.stdout == stdout,
    {
        StdioTransport { stdin, stdout }
    }
}

/// What binding an IPC endpoint does when its socket path already exists on
/// disk.
#[derive(Clone, Copy, Debug, PartialEq, Eq, Structural)]
pub enum ConflictPolicy {
    /// Leave the stale endpoint; the bind then fails with address-in-use.
    Ignore,
    /// Refuse to bind: report that the endpoint already exists.
    Error,
    /// Remove the stale endpoint and bind in its place.
    Overwrite,
}

/// The step the binder takes, decided from the policy and whether the
/// socket path exists.
#[derive(Clone, Copy, Debug, PartialEq, Eq, Structural)]
pub enum BindAction {
    /// Bind directly (the OS reports address-in-use if a live endpoint
    /// remains).
    Bind,
    /// Remove the stale socket path, then bind.
    RemoveThenBind,
    /// Fail with an already-exists error without touching the path.
    FailAlreadyExists,
}

/// The bind conflict rule: an existing path is fatal under `Error`, swept
/// away under `Overwrite`, and left alone under `Ignore`; a free path is
/// always bound directly.
pub open spec fn spec_bind_action(policy: ConflictPolicy, path_exists: bool) -> BindAction {
    if !path_exists {
        BindAction::Bind
    } else {
        match policy {
            ConflictPolicy::Ignore => BindAction::Bind,
            ConflictPolicy::Error => BindAction::FailAlreadyExists,
            ConflictPolicy::Overwrite => BindAction::RemoveThenBind,
        }
    }
}

/// Decides what the binder does for a given policy and path state.
pub fn bind_action(policy: ConflictPolicy, path_exists: bool) -> (r: BindAction)
    ensures
        r == spec_bind_action(policy, path_exists),
{
    if !path_exists {
        BindAction::Bind
    } else {
        match policy {
            ConflictPolicy::Ignore => BindAction::Bind,
            ConflictPolicy::Error => BindAction::FailAlreadyExists,
            ConflictPolicy::Overwrite => BindAction::RemoveThenBind,
        }
    }
}

/// The OS path an IPC server-id names: `/tmp/`, the id, `.sock`.
pub fn socket_address(id: &str) -> (r: String)
    ensures
        r@ == "/tmp/"@ + id@ + ".sock"@,
{
    let mut s = String::from_str("/tmp/");
    s.append(id);
    s.append(".sock");
    s
}

/// What one poll of a self-healing IPC client stream observed from its
/// current connection, if any.
pub enum StreamPoll<T> {
    /// The operation completed with a value.
    Output(T),
    /// The connection failed: it must be dropped and redialed.
    Failed,
    /// The connection is alive but not ready yet.
    NotReady,
}

/// What the stream does next: either hand the value out, or park the caller
/// until the connection produces or the dialer installs a fresh one.
pub enum StreamStep<T> {
    /// Deliver the value to the caller.
    Deliver(T),
    /// Park the caller: the connection is not ready yet, or a dial is
    /// already underway; a wake follows either way.
    Wait,
    /// Drop the failed connection, start a redial in the background, and
    /// park the caller until the new connection is up.
    RedialAndWait,
}

/// The reconnect rule a self-healing client stream applies on every poll:
/// with no connection installed it only parks the caller — a dial is
/// already running and will wake it — a healthy result is delivered, a
/// pending one is waited for, and a failure drops the connection and starts
/// the redial.
pub open spec fn spec_reconnect_step<T>(poll: Option<StreamPoll<T>>) -> StreamStep<T> {
    match poll {
        None => StreamStep::Wait,
        Some(StreamPoll::Output(v)) => StreamStep::Deliver(v),
        Some(StreamPoll::Failed) => StreamStep::RedialAndWait,
        Some(StreamPoll::NotReady) => StreamStep::Wait,
    }
}

/// Decides how a self-healing client stream reacts to one poll: `poll` is
/// what polling the installed connection observed, or `None` when no
/// connection is installed (a dial is then already underway).
pub fn reconnect_step<T>(poll: Option<StreamPoll<T>>) -> (r: StreamStep<T>)
    ensures
        r == spec_reconnect_step(poll),
{
    match poll {
        None => StreamStep::Wait,
        Some(StreamPoll::Output(v)) => StreamStep::Deliver(v),
        Some(StreamPoll::Failed) => StreamStep::RedialAndWait,
        Some(StreamPoll::NotReady) => StreamStep::Wait,
    }
}

} // verus!
