//! The tagged envelope carried by multiplexed connections.

use vstd::prelude::*;

verus! {

/// A value paired with the connection-local tag that correlates a multiplexed
/// request with its response. Tags are assigned by the client's in-flight
/// table and must be echoed unchanged by the server.
#[derive(Clone, Debug)]
pub struct Tagged<T> {
    pub tag: usize,
    pub value: T,
}

impl<T> Tagged<T> {
    pub fn new(tag: usize, value: T) -> (r: Self)
        ensures
            r.tag == tag,
            r.value == value,
    {
        Tagged { tag, value }
    }

    /// Strips the envelope, keeping only the carried value.
    pub fn into_value(self) -> (r: T)
        ensures
            r == self.value,
    {
        self.value
    }
}

} // verus!
