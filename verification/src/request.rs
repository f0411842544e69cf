//! The envelope a per-connection user service observes.

use vstd::prelude::*;

verus! {

/// The connection's place in the server's cancellation-scope tree: the
/// identifier of the child scope created when the connection was accepted
/// (see the `cancel` module).
#[derive(Clone, Copy, Debug, PartialEq, Eq, Structural)]
pub struct ConnectionContext {
    pub scope: usize,
}

impl ConnectionContext {
    pub fn new(scope: usize) -> (r: Self)
        ensures
            r.scope == scope,
    {
        ConnectionContext { scope }
    }
}

/// What the user service receives for each call: the decoded value together
/// with the context of the connection's enclosing scope.
#[derive(Clone, Debug)]
pub struct Request<T> {
    pub context: ConnectionContext,
    pub value: T,
}

impl<T> Request<T> {
    pub fn new(context: ConnectionContext, value: T) -> (r: Self)
        ensures
            r.context == context,
            r.value == value,
    {
        Request { context, value }
    }
}

} // verus!
