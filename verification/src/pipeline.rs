//! Strict FIFO request/response correlation for pipelined connections.
//!
//! A pipelined connection carries no tags: responses are matched to requests
//! purely by order. The client engine keeps the outstanding completion
//! handles in a queue and a ghost log of every call ever issued, so its
//! contract can say exactly which call each response completes.

use vstd::prelude::*;

verus! {

/// The client half of the pipeline protocol. Requests travel in the order
/// `start_call` is invoked; each inbound response completes the oldest
/// outstanding call, so responses are delivered in issue order regardless of
/// server-side latencies.
pub struct PipelineClient<P> {
    queue: Vec<P>,
    issued: Ghost<Seq<P>>,
    delivered: Ghost<nat>,
}

impl<P> PipelineClient<P> {
    /// Every completion handle ever registered, in issue order.
    pub closed spec fn issued(self) -> Seq<P> {
        self.issued@
    }

    /// How many responses have been delivered so far.
    pub closed spec fn delivered(self) -> nat {
        self.delivered@
    }

    /// The handles still awaiting a response, oldest first.
    pub open spec fn outstanding(self) -> Seq<P> {
        self.issued().skip(self.delivered() as int)
    }

    /// The queue holds exactly the issued calls that were not yet delivered.
    pub closed spec fn wf(self) -> bool {
        &&& self.delivered@ <= self.issued@.len()
        &&& self.queue@ == self.issued@.skip(self.delivered@ as int)
    }

    /// A connection starts with nothing issued.
    pub fn new() -> (r: Self)
        ensures
            r.wf(),
            r.issued() == Seq::<P>::empty(),
            r.delivered() == 0,
    {
        let r = PipelineClient {
            queue: Vec::new(),
            issued: Ghost(Seq::empty()),
            delivered: Ghost(0),
        };
        proof {
            assert(r.queue@ =~= r.issued@.skip(0));
        }
        r
    }

    /// Registers the completion handle for the next request sent down the
    /// connection. Calls are serialized behind every earlier call.
    pub fn start_call(&mut self, handle: P)
        requires
            old(self).wf(),
        ensures
            final(self).wf(),
            final(self).issued() == old(self).issued().push(handle),
            final(self).delivered() == old(self).delivered(),
    {
        self.queue.push(handle);
        proof {
            self.issued@ = self.issued@.push(handle);
            assert(self.queue@ =~= self.issued@.skip(self.delivered@ as int));
        }
    }

    /// An inbound response completes the oldest outstanding call: after `k`
    /// responses, the next response is delivered to the handle of the
    /// `k`-th issued call. A response with no outstanding call is reported
    /// so the caller can treat it as a transport error.
    pub fn on_response(&mut self) -> (r: Option<P>)
        requires
            old(self).wf(),
        ensures
            final(self).wf(),
            final(self).issued() == old(self).issued(),
            old(self).delivered() < old(self).issued().len() ==> {
                &&& r == Some(old(self).issued()[old(self).delivered() as int])
                &&& final(self).delivered() == old(self).delivered() + 1
            },
            old(self).delivered() == old(self).issued().len() ==> {
                &&& r is None
                &&& final(self).delivered() == old(self).delivered()
            },
    {
        if self.queue.len() == 0 {
            None
        } else {
            let h = self.queue.remove(0);
            proof {
                self.delivered@ = self.delivered@ + 1;
                assert(old(self).queue@[0]
                    == old(self).issued@[old(self).delivered@ as int]);
                assert(self.queue@ =~= self.issued@.skip(self.delivered@ as int));
            }
            Some(h)
        }
    }

    /// The number of calls still awaiting a response.
    pub fn outstanding_len(&self) -> (r: usize)
        requires
            self.wf(),
        ensures
            r == self.outstanding().len(),
    {
        self.queue.len()
    }

    /// Tears the connection down: every outstanding handle is returned, in
    /// issue order, so each pending caller can be failed with a transport
    /// error. Afterwards nothing is outstanding.
    pub fn fail_all(&mut self) -> (r: Vec<P>)
        requires
            old(self).wf(),
        ensures
            final(self).wf(),
            r@ == old(self).outstanding(),
            final(self).issued() == old(self).issued(),
            final(self).delivered() == final(self).issued().len(),
    {
        let mut out: Vec<P> = Vec::new();
        core::mem::swap(&mut out, &mut self.queue);
        proof {
            self.delivered@ = self.issued@.len();
            assert(self.queue@ =~= self.issued@.skip(self.issued@.len() as int));
        }
        out
    }
}

/// The server half of the pipeline protocol, under strict sequential
/// processing: a new request is accepted only after the previous request's
/// response has been emitted. The protocol would also allow the server to
/// begin later requests early as long as responses are emitted in arrival
/// order; this engine takes the strict choice, which makes that ordering
/// immediate.
pub struct PipelineServer<Req> {
    busy: bool,
    received: Ghost<Seq<Req>>,
    responded: Ghost<nat>,
}

impl<Req> PipelineServer<Req> {
    /// Every request accepted so far, in arrival order.
    pub closed spec fn received(self) -> Seq<Req> {
        self.received@
    }

    /// How many responses have been emitted so far.
    pub closed spec fn responded(self) -> nat {
        self.responded@
    }

    /// True while a request is being handled and its response is owed.
    pub closed spec fn busy(self) -> bool {
        self.busy
    }

    /// At most one request is outstanding, and responses pair with requests
    /// in arrival order.
    pub closed spec fn wf(self) -> bool {
        self.responded@ + (if self.busy {
            1int
        } else {
            0int
        }) == self.received@.len()
    }

    /// A connection starts idle with nothing received.
    pub fn new() -> (r: Self)
        ensures
            r.wf(),
            !r.busy(),
            r.received() == Seq::<Req>::empty(),
            r.responded() == 0,
    {
        PipelineServer { busy: false, received: Ghost(Seq::empty()), responded: Ghost(0) }
    }

    /// Accepts the next inbound request and hands it to the handler. Under
    /// strict sequential processing this is only possible once the previous
    /// response has been emitted.
    pub fn accept(&mut self, req: Req) -> (r: Req)
        requires
            old(self).wf(),
            !old(self).busy(),
        ensures
            final(self).wf(),
            final(self).busy(),
            r == req,
            final(self).received() == old(self).received().push(req),
            final(self).responded() == old(self).responded(),
    {
        self.busy = true;
        proof {
            self.received@ = self.received@.push(req);
        }
        req
    }

    /// Records that the response to the oldest unanswered request — the one
    /// accepted last — has been emitted, freeing the engine for the next
    /// request.
    pub fn emit_response(&mut self)
        requires
            old(self).wf(),
            old(self).busy(),
        ensures
            final(self).wf(),
            !final(self).busy(),
            final(self).received() == old(self).received(),
            final(self).responded() == old(self).responded() + 1,
    {
        self.busy = false;
        proof {
            self.responded@ = self.responded@ + 1;
        }
    }
}

} // verus!
