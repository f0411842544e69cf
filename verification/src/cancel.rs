//! Hierarchical cancellation scopes.
//!
//! The server owns a root scope; each accepted connection derives a child,
//! and long-lived work derives further children. Cancelling a scope marks it,
//! and a scope observes cancellation when it or any ancestor is marked, so
//! cancelling a parent winds down every descendant. The runtime glue maps
//! each scope to its executor's cancellation primitive; this tree is the
//! engine's record of who descends from whom and what has been cancelled.

use vstd::prelude::*;

verus! {

/// One scope: its parent's identifier and whether it was itself cancelled.
/// The root is its own parent.
#[derive(Clone, Copy, Debug, PartialEq, Eq, Structural)]
pub struct ScopeNode {
    pub parent: usize,
    pub flagged: bool,
}

/// The tree of cancellation scopes, identified by index; scope 0 is the
/// server's root. Children always carry larger identifiers than their
/// parents.
pub struct ScopeTree {
    nodes: Vec<ScopeNode>,
}

impl ScopeTree {
    /// How many scopes exist.
    pub closed spec fn count(self) -> int {
        self.nodes@.len() as int
    }

    /// Each scope's parent, by identifier.
    pub closed spec fn parents(self) -> Seq<int> {
        self.nodes@.map(|i: int, n: ScopeNode| n.parent as int)
    }

    /// Each scope's own cancellation mark, by identifier.
    pub closed spec fn flags(self) -> Seq<bool> {
        self.nodes@.map(|i: int, n: ScopeNode| n.flagged)
    }

    /// The root exists and every other scope's parent precedes it.
    pub closed spec fn wf(self) -> bool {
        &&& self.nodes@.len() >= 1
        &&& self.nodes@[0].parent == 0
        &&& forall|i: int|
            1 <= i < self.nodes@.len() ==> (#[trigger] self.nodes@[i].parent) < i
    }

    /// A scope observes cancellation when it or any ancestor is marked.
    pub closed spec fn scope_cancelled(self, i: int) -> bool
        decreases i,
    {
        if !(0 <= i < self.nodes@.len()) {
            false
        } else if self.nodes@[i].flagged {
            true
        } else if i == 0 {
            false
        } else if 0 <= self.nodes@[i].parent < i {
            self.scope_cancelled(self.nodes@[i].parent as int)
        } else {
            false
        }
    }

    /// One scope descends from another (or is it).
    pub closed spec fn descends(self, i: int, anc: int) -> bool
        decreases i,
    {
        if !(0 <= i < self.nodes@.len()) {
            false
        } else if i == anc {
            true
        } else if i == 0 {
            false
        } else if 0 <= self.nodes@[i].parent < i {
            self.descends(self.nodes@[i].parent as int, anc)
        } else {
            false
        }
    }

    /// A tree holding only the root scope, not cancelled.
    pub fn new() -> (r: Self)
        ensures
            r.wf(),
            r.count() == 1,
            !r.scope_cancelled(0),
    {
        let mut nodes: Vec<ScopeNode> = Vec::new();
        nodes.push(ScopeNode { parent: 0, flagged: false });
        ScopeTree { nodes }
    }

    /// Derives a child scope. The child's identifier is fresh, it starts
    /// with exactly its parent's cancellation state, and no existing scope's
    /// state changes.
    pub fn child(&mut self, parent: usize) -> (id: usize)
        requires
            old(self).wf(),
            parent < old(self).count(),
        ensures
            final(self).wf(),
            id == old(self).count(),
            final(self).count() == old(self).count() + 1,
            final(self).parents() == old(self).parents().push(parent as int),
            final(self).flags() == old(self).flags().push(false),
            final(self).scope_cancelled(id as int) == old(self).scope_cancelled(parent as int),
            forall|j: int|
                0 <= j < old(self).count() ==> final(self).scope_cancelled(j) == old(
                    self,
                ).scope_cancelled(j),
    {
        let id = self.nodes.len();
        self.nodes.push(ScopeNode { parent, flagged: false });
        proof {
            assert(self.parents() =~= old(self).parents().push(parent as int));
            assert(self.flags() =~= old(self).flags().push(false));
            assert forall|j: int| 0 <= j < old(self).count() implies self.scope_cancelled(j)
                == old(self).scope_cancelled(j) by {
                lemma_push_preserves_cancelled(*old(self), *self, j);
            }
            lemma_push_preserves_cancelled(*old(self), *self, parent as int);
        }
        id
    }

    /// Cancels a scope: the scope is marked, it and every scope descending
    /// from it observe cancellation, and every other scope's state is
    /// untouched. Cancelling a scope that is already marked changes nothing
    /// at all.
    pub fn cancel(&mut self, id: usize)
        requires
            old(self).wf(),
            id < old(self).count(),
        ensures
            final(self).wf(),
            final(self).count() == old(self).count(),
            final(self).parents() == old(self).parents(),
            final(self).flags() == old(self).flags().update(id as int, true),
            final(self).scope_cancelled(id as int),
            forall|j: int|
                0 <= j < old(self).count() ==> final(self).scope_cancelled(j) == (old(
                    self,
                ).scope_cancelled(j) || old(self).descends(j, id as int)),
    {
        let parent = self.nodes[id].parent;
        self.nodes.set(id, ScopeNode { parent, flagged: true });
        proof {
            assert(self.parents() =~= old(self).parents());
            assert(self.flags() =~= old(self).flags().update(id as int, true));
            assert forall|j: int| 0 <= j < old(self).count() implies self.scope_cancelled(j)
                == (old(self).scope_cancelled(j) || old(self).descends(j, id as int)) by {
                lemma_cancel_marks_descendants(*old(self), *self, id as int, j);
            }
            assert(old(self).descends(id as int, id as int));
        }
    }

    /// Whether a scope observes cancellation, through itself or any
    /// ancestor.
    pub fn is_cancelled(&self, id: usize) -> (r: bool)
        requires
            self.wf(),
            id < self.count(),
        ensures
            r == self.scope_cancelled(id as int),
    {
        let mut i = id;
        loop
            invariant
                self.wf(),
                i < self.count(),
                self.scope_cancelled(i as int) == self.scope_cancelled(id as int),
            decreases i,
        {
            if self.nodes[i].flagged {
                return true;
            }
            if i == 0 {
                return false;
            }
            i = self.nodes[i].parent;
        }
    }

    /// The number of scopes.
    pub fn scope_count(&self) -> (r: usize)
        ensures
            r == self.count(),
    {
        self.nodes.len()
    }
}

/// Cancelling is idempotent: a second cancellation of the same scope leaves
/// every observation — parents, marks, and each scope's cancellation state —
/// exactly as the first left them.
pub proof fn lemma_cancel_idempotent(t1: ScopeTree, t2: ScopeTree, id: int)
    requires
        t2.count() == t1.count(),
        t2.parents() == t1.parents(),
        t2.flags() == t1.flags().update(id, true),
        0 <= id < t1.count(),
        t1.flags()[id],
    ensures
        t2.flags() == t1.flags(),
        forall|j: int| #[trigger] t2.scope_cancelled(j) == t1.scope_cancelled(j),
{
    assert(t2.flags() =~= t1.flags());
    assert forall|j: int| #[trigger] t2.scope_cancelled(j) == t1.scope_cancelled(j) by {
        lemma_cancelled_from_view(t1, t2, j);
    }
}

/// A scope's cancellation state is a function of the parent links and the
/// marks alone.
proof fn lemma_cancelled_from_view(a: ScopeTree, b: ScopeTree, j: int)
    requires
        a.count() == b.count(),
        a.parents() == b.parents(),
        a.flags() == b.flags(),
    ensures
        a.scope_cancelled(j) == b.scope_cancelled(j),
    decreases j,
{
    if 0 <= j < a.nodes@.len() {
        assert(b.nodes@.len() == a.nodes@.len());
        assert(a.flags()[j] == a.nodes@[j].flagged);
        assert(b.flags()[j] == b.nodes@[j].flagged);
        assert(a.parents()[j] == a.nodes@[j].parent as int);
        assert(b.parents()[j] == b.nodes@[j].parent as int);
        assert(a.nodes@[j].flagged == b.nodes@[j].flagged);
        assert(a.nodes@[j].parent == b.nodes@[j].parent);
        if !a.nodes@[j].flagged && j != 0 && 0 <= a.nodes@[j].parent < j {
            lemma_cancelled_from_view(a, b, a.nodes@[j].parent as int);
        }
    }
}

/// Appending a scope does not change what the existing scopes observe.
proof fn lemma_push_preserves_cancelled(a: ScopeTree, b: ScopeTree, j: int)
    requires
        0 <= j < a.nodes@.len(),
        b.nodes@.len() == a.nodes@.len() + 1,
        forall|i: int| 0 <= i < a.nodes@.len() ==> b.nodes@[i] == a.nodes@[i],
    ensures
        b.scope_cancelled(j) == a.scope_cancelled(j),
    decreases j,
{
    if !a.nodes@[j].flagged && j != 0 && 0 <= a.nodes@[j].parent < j {
        lemma_push_preserves_cancelled(a, b, a.nodes@[j].parent as int);
    }
}

/// Marking one scope turns exactly its descendants cancelled and leaves
/// every other scope's state alone.
proof fn lemma_cancel_marks_descendants(a: ScopeTree, b: ScopeTree, id: int, j: int)
    requires
        a.wf(),
        0 <= id < a.nodes@.len(),
        b.nodes@ == a.nodes@.update(
            id,
            ScopeNode { parent: a.nodes@[id].parent, flagged: true },
        ),
        0 <= j < a.nodes@.len(),
    ensures
        b.scope_cancelled(j) == (a.scope_cancelled(j) || a.descends(j, id)),
    decreases j,
{
    if j == id {
        assert(b.nodes@[j].flagged);
        assert(a.descends(j, id));
    } else {
        assert(b.nodes@[j] == a.nodes@[j]);
        if a.nodes@[j].flagged {
        } else if j == 0 {
        } else if 0 <= a.nodes@[j].parent < j {
            lemma_cancel_marks_descendants(a, b, id, a.nodes@[j].parent as int);
        }
    }
}

} // verus!
