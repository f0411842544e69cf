//! Concurrent request/response correlation: the client-side in-flight table.
//!
//! A multiplexed connection may have many requests outstanding at once. The
//! client assigns each request a fresh tag, records a completion handle under
//! that tag, and matches every inbound response against the table. Tags are
//! allocated by a free-list slab so freed tags are reused densely — but never
//! while a response may still arrive for them: a caller that abandons a call
//! leaves its tag reserved until the response shows up and is discarded.

use vstd::pervasive::VecAdditionalExecFns;
use vstd::prelude::*;
use vstd::set_lib::lemma_set_insert_finite_iff;

verus! {

#[verifier::external_type_specification]
#[verifier::external_body]
#[verifier::reject_recursive_types(T)]
pub struct ExSlab<T>(slab::Slab<T>);

/// The set of keys currently occupied in a tag slab.
pub uninterp spec fn slab_key_set(s: slab::Slab<()>) -> Set<int>;

/// Relies on slab::Slab::new: a fresh slab holds no keys.
#[verifier::external_body]
fn slab_new() -> (r: slab::Slab<()>)
    ensures
        slab_key_set(r) == Set::<int>::empty(),
{
    slab::Slab::new()
}

/// Relies on slab::Slab::insert: the returned key was vacant and is now
/// occupied; no other key changes.
#[verifier::external_body]
fn slab_insert(s: &mut slab::Slab<()>) -> (key: usize)
    ensures
        !slab_key_set(*old(s)).contains(key as int),
        slab_key_set(*final(s)) == slab_key_set(*old(s)).insert(key as int),
{
    s.insert(())
}

/// Relies on slab::Slab::try_remove: an occupied key is freed and reported,
/// a vacant key leaves the slab unchanged.
#[verifier::external_body]
fn slab_try_remove(s: &mut slab::Slab<()>, key: usize) -> (r: Option<()>)
    ensures
        slab_key_set(*old(s)).contains(key as int) ==> {
            &&& r == Some(())
            &&& slab_key_set(*final(s)) == slab_key_set(*old(s)).remove(key as int)
        },
        !slab_key_set(*old(s)).contains(key as int) ==> {
            &&& r == None::<()>
            &&& slab_key_set(*final(s)) == slab_key_set(*old(s))
        },
{
    s.try_remove(key)
}

/// Relies on slab::Slab::len: the number of occupied keys.
#[verifier::external_body]
fn slab_len(s: &slab::Slab<()>) -> (r: usize)
    ensures
        slab_key_set(*s).finite() ==> r == slab_key_set(*s).len(),
{
    s.len()
}

/// How the engine disposes of one inbound response tag.
#[derive(Debug, PartialEq, Eq)]
pub enum Completion<P> {
    /// The tag was in flight: the response belongs to this handle.
    Deliver(P),
    /// The tag's caller abandoned the call: the response is dropped
    /// silently and the tag becomes reusable.
    Discard,
    /// The tag was never outstanding: a protocol error that should
    /// terminate the connection.
    Stray,
}

/// One tag's slot in the table.
enum Slot<P> {
    /// The tag is free.
    Vacant,
    /// A caller awaits the response under this tag.
    Waiting(P),
    /// The caller abandoned the call; the tag stays reserved until its
    /// response arrives, so a late response cannot reach a reused tag.
    Abandoned,
}

/// The client half of the multiplex protocol: a free-list tag allocator
/// paired with the table of completion handles for in-flight requests.
///
/// `P` is whatever the caller uses to resolve a pending response (for an
/// asynchronous runtime, typically a one-shot sender). The engine never
/// looks inside it; it only guarantees that every response is handed to the
/// handle registered under the response's tag.
pub struct MultiplexClient<P> {
    tags: slab::Slab<()>,
    pending: Vec<Slot<P>>,
}

impl<P> MultiplexClient<P> {
    /// The in-flight table: each waiting tag mapped to its handle.
    pub closed spec fn in_flight(self) -> Map<int, P> {
        Map::new(
            |t: int| 0 <= t < self.pending@.len() && self.pending@[t] is Waiting,
            |t: int| self.pending@[t]->Waiting_0,
        )
    }

    /// The tags whose callers walked away before the response arrived.
    pub closed spec fn abandoned(self) -> Set<int> {
        Set::new(|t: int| 0 <= t < self.pending@.len() && self.pending@[t] is Abandoned)
    }

    /// The allocator and the table agree: a tag is occupied exactly when
    /// its slot is not vacant.
    pub closed spec fn wf(self) -> bool {
        &&& slab_key_set(self.tags).finite()
        &&& forall|t: int|
            slab_key_set(self.tags).contains(t) <==> (0 <= t < self.pending@.len() && !(
            self.pending@[t] is Vacant))
    }

    /// A connection starts with nothing outstanding.
    pub fn new() -> (r: Self)
        ensures
            r.wf(),
            r.in_flight() == Map::<int, P>::empty(),
            r.abandoned() == Set::<int>::empty(),
    {
        let r = MultiplexClient { tags: slab_new(), pending: Vec::new() };
        proof {
            assert(r.in_flight() =~= Map::<int, P>::empty());
            assert(r.abandoned() =~= Set::<int>::empty());
        }
        r
    }

    /// Allocates a fresh tag for a request and records its completion
    /// handle. The tag is distinct from every tag currently in flight and
    /// from every abandoned tag still awaiting its response.
    pub fn assign_tag(&mut self, handle: P) -> (tag: usize)
        requires
            old(self).wf(),
        ensures
            final(self).wf(),
            !old(self).in_flight().dom().contains(tag as int),
            !old(self).abandoned().contains(tag as int),
            final(self).in_flight() == old(self).in_flight().insert(tag as int, handle),
            final(self).abandoned() == old(self).abandoned(),
    {
        let tag = slab_insert(&mut self.tags);
        let ghost tags_snap = self.tags;
        let ghost pend0 = self.pending@;
        if tag < self.pending.len() {
            self.pending.set(tag, Slot::Waiting(handle));
        } else {
            while self.pending.len() < tag
                invariant
                    self.tags == tags_snap,
                    pend0.len() <= self.pending@.len() <= tag as int,
                    forall|j: int| 0 <= j < pend0.len() ==> self.pending@[j] == pend0[j],
                    forall|j: int|
                        pend0.len() <= j < self.pending@.len() ==> self.pending@[j] is Vacant,
                decreases tag - self.pending@.len(),
            {
                self.pending.push(Slot::Vacant);
            }
            self.pending.push(Slot::Waiting(handle));
        }
        proof {
            assert(self.in_flight() =~= old(self).in_flight().insert(tag as int, handle));
            assert(self.abandoned() =~= old(self).abandoned());
        }
        tag
    }

    /// Abandons an in-flight call, returning its handle: the caller walked
    /// away before the response arrived. The tag stays reserved — it joins
    /// the abandoned set instead of the free list — so the response still
    /// owed by the server can be discarded when it arrives rather than
    /// reach a reused tag. Abandoning a tag that is not in flight changes
    /// nothing.
    pub fn cancel_call(&mut self, tag: usize) -> (r: Option<P>)
        requires
            old(self).wf(),
        ensures
            final(self).wf(),
            old(self).in_flight().dom().contains(tag as int) ==> {
                &&& r == Some(old(self).in_flight()[tag as int])
                &&& final(self).in_flight() == old(self).in_flight().remove(tag as int)
                &&& final(self).abandoned() == old(self).abandoned().insert(tag as int)
            },
            !old(self).in_flight().dom().contains(tag as int) ==> {
                &&& r is None
                &&& final(self).in_flight() == old(self).in_flight()
                &&& final(self).abandoned() == old(self).abandoned()
            },
    {
        if tag >= self.pending.len() {
            return None;
        }
        let waiting = match &self.pending[tag] {
            Slot::Waiting(_) => true,
            _ => false,
        };
        if !waiting {
            return None;
        }
        let mut slot: Slot<P> = Slot::Abandoned;
        self.pending.set_and_swap(tag, &mut slot);
        proof {
            assert(self.in_flight() =~= old(self).in_flight().remove(tag as int));
            assert(self.abandoned() =~= old(self).abandoned().insert(tag as int));
        }
        match slot {
            Slot::Waiting(h) => Some(h),
            _ => None,
        }
    }

    /// Matches an inbound response tag against the table. A tag in flight
    /// yields exactly the handle registered when that tag was assigned; an
    /// abandoned tag swallows the response without error; a tag that is
    /// neither is a protocol error that changes nothing. A delivered or
    /// discarded tag returns to the allocator.
    ///
    /// The outcome depends only on the tag, never on the order in which
    /// responses arrive: out-of-order completion delivers each response to
    /// its own caller.
    pub fn finish_tag(&mut self, tag: usize) -> (r: Completion<P>)
        requires
            old(self).wf(),
        ensures
            final(self).wf(),
            old(self).in_flight().dom().contains(tag as int) ==> {
                &&& r == Completion::Deliver(old(self).in_flight()[tag as int])
                &&& final(self).in_flight() == old(self).in_flight().remove(tag as int)
                &&& final(self).abandoned() == old(self).abandoned()
            },
            old(self).abandoned().contains(tag as int) ==> {
                &&& r == Completion::<P>::Discard
                &&& final(self).in_flight() == old(self).in_flight()
                &&& final(self).abandoned() == old(self).abandoned().remove(tag as int)
            },
            !old(self).in_flight().dom().contains(tag as int) && !old(self).abandoned().contains(
                tag as int,
            ) ==> {
                &&& r == Completion::<P>::Stray
                &&& final(self).in_flight() == old(self).in_flight()
                &&& final(self).abandoned() == old(self).abandoned()
            },
    {
        match slab_try_remove(&mut self.tags, tag) {
            Some(_) => {
                let mut slot: Slot<P> = Slot::Vacant;
                self.pending.set_and_swap(tag, &mut slot);
                proof {
                    assert(self.abandoned() =~= if old(self).abandoned().contains(tag as int) {
                        old(self).abandoned().remove(tag as int)
                    } else {
                        old(self).abandoned()
                    });
                    assert(self.in_flight() =~= if old(self).in_flight().dom().contains(
                        tag as int,
                    ) {
                        old(self).in_flight().remove(tag as int)
                    } else {
                        old(self).in_flight()
                    });
                }
                match slot {
                    Slot::Waiting(h) => Completion::Deliver(h),
                    Slot::Abandoned => Completion::Discard,
                    Slot::Vacant => {
                        proof {
                            assert(false);
                        }
                        Completion::Stray
                    },
                }
            },
            None => {
                proof {
                    assert(self.in_flight() =~= old(self).in_flight());
                    assert(self.abandoned() =~= old(self).abandoned());
                }
                Completion::Stray
            },
        }
    }

    /// Tears the connection down: every outstanding entry is removed and
    /// every in-flight handle is returned, one per waiting request, so each
    /// pending caller can be failed with a transport error; abandoned tags
    /// are simply released. Afterwards nothing is outstanding.
    pub fn fail_all(&mut self) -> (r: Vec<P>)
        requires
            old(self).wf(),
        ensures
            final(self).wf(),
            final(self).in_flight() == Map::<int, P>::empty(),
            final(self).abandoned() == Set::<int>::empty(),
            r@.len() == old(self).in_flight().dom().len(),
            forall|t: int|
                old(self).in_flight().dom().contains(t)
                    ==> r@.contains(old(self).in_flight()[t]),
    {
        let mut out: Vec<P> = Vec::new();
        let mut i: usize = 0;
        let n = self.pending.len();
        proof {
            lemma_in_flight_dom_finite(*self);
        }
        while i < n
            invariant
                self.wf(),
                i <= n,
                n == self.pending@.len(),
                forall|t: int|
                    self.in_flight().dom().contains(t)
                        <==> (old(self).in_flight().dom().contains(t) && t >= i),
                forall|t: int|
                    old(self).in_flight().dom().contains(t) && t >= i
                        ==> self.in_flight()[t] == old(self).in_flight()[t],
                forall|t: int|
                    self.abandoned().contains(t)
                        <==> (old(self).abandoned().contains(t) && t >= i),
                out@.len() + self.in_flight().dom().len()
                    == old(self).in_flight().dom().len(),
                forall|t: int|
                    old(self).in_flight().dom().contains(t) && t < i
                        ==> out@.contains(old(self).in_flight()[t]),
            decreases n - i,
        {
            let ghost pre = *self;
            let ghost out_pre = out@;
            match slab_try_remove(&mut self.tags, i) {
                Some(_) => {
                    let mut slot: Slot<P> = Slot::Vacant;
                    self.pending.set_and_swap(i, &mut slot);
                    proof {
                        lemma_in_flight_dom_finite(pre);
                        assert(self.in_flight() =~= if pre.in_flight().dom().contains(i as int) {
                            pre.in_flight().remove(i as int)
                        } else {
                            pre.in_flight()
                        });
                        assert(self.abandoned() =~= if pre.abandoned().contains(i as int) {
                            pre.abandoned().remove(i as int)
                        } else {
                            pre.abandoned()
                        });
                        if pre.in_flight().dom().contains(i as int) {
                            assert(self.in_flight().dom()
                                =~= pre.in_flight().dom().remove(i as int));
                            assert(pre.in_flight().dom().remove(i as int).len()
                                == pre.in_flight().dom().len() - 1);
                        }
                    }
                    match slot {
                        Slot::Waiting(h) => {
                            out.push(h);
                            proof {
                                assert(h == pre.in_flight()[i as int]);
                                assert forall|t: int|
                                    old(self).in_flight().dom().contains(t) && t < i + 1 implies
                                    out@.contains(old(self).in_flight()[t]) by {
                                    if t < i {
                                        let k = choose|k: int|
                                            0 <= k < out_pre.len()
                                                && out_pre[k] == old(self).in_flight()[t];
                                        assert(out@[k] == old(self).in_flight()[t]);
                                    } else {
                                        assert(out@[out@.len() - 1]
                                            == old(self).in_flight()[t]);
                                    }
                                }
                            }
                        },
                        Slot::Abandoned => {},
                        Slot::Vacant => {
                            proof {
                                assert(false);
                            }
                        },
                    }
                },
                None => {
                    proof {
                        assert(self.in_flight() =~= pre.in_flight());
                        assert(self.abandoned() =~= pre.abandoned());
                    }
                },
            }
            i = i + 1;
        }
        proof {
            assert forall|t: int| !self.in_flight().dom().contains(t) by {
                if self.in_flight().dom().contains(t) {
                    assert(slab_key_set(self.tags).contains(t));
                }
            }
            assert(self.in_flight().dom() =~= Set::<int>::empty());
            assert(self.in_flight() =~= Map::<int, P>::empty());
            assert(self.abandoned() =~= Set::<int>::empty());
        }
        out
    }

    /// The number of tags outstanding: calls in flight plus abandoned calls
    /// whose responses have not yet arrived.
    pub fn outstanding_tags(&self) -> (r: usize)
        requires
            self.wf(),
        ensures
            r == self.in_flight().dom().len() + self.abandoned().len(),
    {
        proof {
            lemma_in_flight_dom_finite(*self);
            assert(slab_key_set(self.tags)
                =~= self.in_flight().dom().union(self.abandoned()));
            lemma_disjoint_union_len(self.in_flight().dom(), self.abandoned());
        }
        slab_len(&self.tags)
    }

    /// True when no tag is outstanding: nothing in flight and nothing
    /// abandoned.
    pub fn is_idle(&self) -> (r: bool)
        requires
            self.wf(),
        ensures
            r == (self.in_flight().dom().is_empty() && self.abandoned().is_empty()),
    {
        let n = self.outstanding_tags();
        proof {
            lemma_in_flight_dom_finite(*self);
            if self.in_flight().dom().len() + self.abandoned().len() == 0 {
                assert(self.in_flight().dom().is_empty());
                assert(self.abandoned().is_empty());
            }
        }
        n == 0
    }
}

/// Both halves of the outstanding-tag set are finite: they sit inside the
/// finite set the allocator tracks.
proof fn lemma_in_flight_dom_finite<P>(m: MultiplexClient<P>)
    requires
        m.wf(),
    ensures
        m.in_flight().dom().finite(),
        m.abandoned().finite(),
        m.in_flight().dom().disjoint(m.abandoned()),
{
    let occupied = slab_key_set(m.tags);
    vstd::set_lib::lemma_len_subset(m.in_flight().dom(), occupied);
    vstd::set_lib::lemma_len_subset(m.abandoned(), occupied);
}

/// A disjoint union's size is the sum of its parts.
proof fn lemma_disjoint_union_len<A>(s1: Set<A>, s2: Set<A>)
    requires
        s1.finite(),
        s2.finite(),
        s1.disjoint(s2),
    ensures
        s1.union(s2).len() == s1.len() + s2.len(),
    decreases s1.len(),
{
    if s1.is_empty() {
        assert(s1.union(s2) =~= s2);
        assert(s1.len() == 0);
    } else {
        let a = s1.choose();
        assert(s1.contains(a));
        assert(!s2.contains(a));
        lemma_disjoint_union_len(s1.remove(a), s2);
        assert(s1.remove(a).union(s2).insert(a) =~= s1.union(s2));
        lemma_set_insert_finite_iff(s1.remove(a).union(s2), a);
        assert(!s1.remove(a).union(s2).contains(a));
    }
}

/// A response matched right after its request was issued leaves the
/// in-flight table exactly as it was: sequential round trips accumulate
/// nothing.
pub proof fn lemma_round_trip_restores_table<P>(m: Map<int, P>, t: int, h: P)
    requires
        !m.dom().contains(t),
    ensures
        m.insert(t, h).remove(t) == m,
{
    assert(m.insert(t, h).remove(t) =~= m);
}

/// Completing one in-flight request never disturbs another: for a distinct
/// tag still in flight, the registered handle is unchanged.
pub proof fn lemma_completion_independent<P>(m: Map<int, P>, t1: int, t2: int)
    requires
        m.dom().contains(t2),
        t1 != t2,
    ensures
        m.remove(t1).dom().contains(t2),
        m.remove(t1)[t2] == m[t2],
{
}

} // verus!
