//! Path/verb dispatch: one transport multiplexed across many logical
//! endpoints.
//!
//! A route service owns a vector of inner services and, per key (the unit
//! key, or a caller-chosen verb type), a pattern trie mapping URL patterns —
//! with `:param` and `*catchall` segments — to service indices. Dispatch
//! looks the key up, matches the path in that key's trie, and selects the
//! stored index. Readiness is head-of-line: the service is ready only once
//! every inner service that has been dispatched to has been driven ready
//! again, a deliberate trade so that a successful readiness check reserves
//! call capacity on the chosen branch.

use core::marker::PhantomData;
use std::collections::VecDeque;
use vstd::prelude::*;

use vstd::string::StringSliceAdditionalSpecFns;

use crate::codec::{Codec, SerdeCodec};
use crate::request::ConnectionContext;

verus! {

#[verifier::external_type_specification]
#[verifier::external_body]
#[verifier::reject_recursive_types(T)]
pub struct ExRouter<T>(matchit::Router<T>);

/// The pattern table of a trie: every registered pattern mapped to the
/// service index stored under it.
pub uninterp spec fn trie_patterns(r: matchit::Router<usize>) -> Map<Seq<char>, int>;

/// What matching a path against a pattern table yields: the index of the
/// best-matching pattern, if any. The match is a function of the table and
/// the path alone.
pub uninterp spec fn trie_match(patterns: Map<Seq<char>, int>, path: Seq<char>) -> Option<int>;

/// A pattern with no `:param` or `*catchall` marker: it matches exactly
/// itself.
pub open spec fn is_static_route(s: Seq<char>) -> bool {
    forall|i: int| 0 <= i < s.len() ==> s[i] != ':' && s[i] != '*'
}

/// Why a dispatch found no service.
#[derive(Clone, Copy, Debug, PartialEq, Eq, Structural)]
pub enum RouteError {
    /// No trie is registered under the request's key.
    UnknownKey,
    /// A pattern matches the path extended with a trailing slash.
    MissingTrailingSlash,
    /// A pattern matches the path without its trailing slash.
    ExtraTrailingSlash,
    /// No pattern matches the path.
    NotFound,
}

/// Why a route could not be registered; reported at construction time, so a
/// server never starts with a bad route.
#[derive(Clone, Debug, PartialEq, Eq)]
pub enum RouteInsertError {
    /// The pattern overlaps a previously registered route.
    Conflict { with: String },
    /// More than one parameter in a single segment.
    TooManyParams,
    /// A parameter without a name.
    UnnamedParam,
    /// A catch-all somewhere other than the end of the pattern.
    InvalidCatchAll,
    /// More named parameters than the matcher supports in one pattern.
    ParamLimitExceeded,
    /// A reason this crate does not distinguish.
    Unknown,
}

/// The empty pattern table.
pub open spec fn no_patterns() -> Map<Seq<char>, int> {
    Map::empty()
}

/// How many named-parameter markers a pattern's bytes hold. Every `:` byte
/// in a pattern either begins a `:param` or is itself a pattern error, so
/// this bounds the parameters the trie would have to name.
pub open spec fn param_marker_count(bytes: Seq<u8>) -> int {
    bytes.filter(|b: u8| b == 58u8).len() as int
}

/// The trie names each `:param` of a route with one of 26 letters and
/// aborts on a route that needs more; patterns under this bound are safe to
/// hand it.
pub open spec fn within_param_limit(s: &str) -> bool {
    param_marker_count(s.spec_bytes()) < 26
}

/// Whether this trie accepts a pattern: a deterministic function of the
/// trie value and the pattern, decided by the pattern's syntax and its
/// conflicts with the routes already registered.
pub uninterp spec fn trie_accepts(r: matchit::Router<usize>, pattern: Seq<char>) -> bool;

/// Whether a fresh, empty trie accepts a pattern: with nothing to conflict
/// against, acceptance is a property of the pattern's syntax alone, the
/// same for every fresh trie.
pub uninterp spec fn fresh_pattern_ok(pattern: Seq<char>) -> bool;

/// The parameters a match captures from a path — each `:param` name with
/// the segment it bound, and any `*catchall` with the rest — a function of
/// the pattern table and the path alone.
pub uninterp spec fn trie_capture_list(patterns: Map<Seq<char>, int>, path: Seq<char>) -> Seq<
    (Seq<char>, Seq<char>),
>;

/// Counts the named-parameter markers of a pattern.
fn count_param_markers(s: &str) -> (r: usize)
    ensures
        r == param_marker_count(s.spec_bytes()),
{
    let bytes = s.as_bytes();
    let n = bytes.len();
    let mut count: usize = 0;
    let mut i: usize = 0;
    proof {
        assert(bytes@.take(0).filter(|b: u8| b == 58u8) =~= Seq::<u8>::empty()) by {
            reveal(Seq::filter);
            assert(bytes@.take(0) =~= Seq::<u8>::empty());
        }
    }
    while i < n
        invariant
            i <= n,
            n == bytes@.len(),
            count == param_marker_count(bytes@.take(i as int)),
            count <= i,
            bytes@ == s.spec_bytes(),
        decreases n - i,
    {
        proof {
            reveal(Seq::filter);
            let pre = bytes@.take(i as int);
            let post = bytes@.take(i as int + 1);
            assert(post.drop_last() =~= pre);
            assert(post.last() == bytes@[i as int]);
            if bytes@[i as int] == 58u8 {
                assert(post.filter(|b: u8| b == 58u8) == pre.filter(|b: u8| b == 58u8).push(
                    bytes@[i as int],
                ));
            } else {
                assert(post.filter(|b: u8| b == 58u8) == pre.filter(|b: u8| b == 58u8));
            }
        }
        if bytes[i] == 58u8 {
            count = count + 1;
        }
        i = i + 1;
    }
    proof {
        assert(bytes@.take(n as int) =~= bytes@);
    }
    count
}

/// Relies on matchit::Router::new: a fresh trie has no patterns, and — all
/// fresh tries being equal — accepts exactly the patterns any fresh trie
/// accepts.
#[verifier::external_body]
fn trie_new() -> (r: matchit::Router<usize>)
    ensures
        trie_patterns(r) == no_patterns(),
        forall|p: Seq<char>| #[trigger] trie_accepts(r, p) == fresh_pattern_ok(p),
{
    matchit::Router::new()
}

/// Relies on matchit::Router::insert: insertion succeeds exactly when the
/// trie accepts the pattern; on success the pattern is registered under the
/// given value, on failure (conflicting or malformed pattern) no pattern is
/// registered and the table is unchanged. The caller must stay under the
/// trie's named-parameter limit, beyond which the insert aborts instead of
/// erring.
#[verifier::external_body]
fn trie_insert(r: &mut matchit::Router<usize>, pattern: &str, value: usize) -> (res: Result<
    (),
    RouteInsertError,
>)
    requires
        within_param_limit(pattern),
    ensures
        res is Ok <==> trie_accepts(*old(r), pattern@),
        res is Ok ==> trie_patterns(*final(r)) == trie_patterns(*old(r)).insert(
            pattern@,
            value as int,
        ),
        res is Err ==> trie_patterns(*final(r)) == trie_patterns(*old(r)),
{
    match r.insert(pattern, value) {
        Ok(()) => Ok(()),
        Err(matchit::InsertError::Conflict { with }) => Err(RouteInsertError::Conflict { with }),
        Err(matchit::InsertError::TooManyParams) => Err(RouteInsertError::TooManyParams),
        Err(matchit::InsertError::UnnamedParam) => Err(RouteInsertError::UnnamedParam),
        Err(matchit::InsertError::InvalidCatchAll) => Err(RouteInsertError::InvalidCatchAll),
        Err(_) => Err(RouteInsertError::Unknown),
    }
}

/// Relies on matchit::Router::at: a hit returns a value stored in the table
/// and a miss reports why; a static pattern is always hit by the exact path
/// it spells, because static segments take priority over parameters.
#[verifier::external_body]
fn trie_at(r: &matchit::Router<usize>, path: &str) -> (res: Result<usize, RouteError>)
    ensures
        res is Ok ==> trie_match(trie_patterns(*r), path@) == Some(res->Ok_0 as int),
        res is Ok ==> (exists|p: Seq<char>|
            trie_patterns(*r).dom().contains(p) && #[trigger] trie_patterns(*r)[p]
                == res->Ok_0 as int),
        res is Err ==> trie_match(trie_patterns(*r), path@) is None,
        res is Err ==> res->Err_0 != RouteError::UnknownKey,
        trie_patterns(*r).dom().contains(path@) && is_static_route(path@) ==> (res is Ok
            && res->Ok_0 as int == trie_patterns(*r)[path@]),
{
    match r.at(path) {
        Ok(m) => Ok(*m.value),
        Err(matchit::MatchError::MissingTrailingSlash) => Err(RouteError::MissingTrailingSlash),
        Err(matchit::MatchError::ExtraTrailingSlash) => Err(RouteError::ExtraTrailingSlash),
        Err(matchit::MatchError::NotFound) => Err(RouteError::NotFound),
    }
}

/// Relies on matchit::Router::clone: the pattern table is preserved.
#[verifier::external_body]
fn trie_clone(r: &matchit::Router<usize>) -> (res: matchit::Router<usize>)
    ensures
        trie_patterns(res) == trie_patterns(*r),
{
    r.clone()
}

/// Relies on matchit::Router::at: the parameters captured by a match, as
/// name/value pairs; present exactly when the path matches, and determined
/// by the pattern table and the path.
#[verifier::external_body]
fn trie_captures(r: &matchit::Router<usize>, path: &str) -> (res: Option<Vec<(String, String)>>)
    ensures
        res is Some <==> trie_match(trie_patterns(*r), path@) is Some,
        res matches Some(v) ==> (v@.map_values(|pr: (String, String)| (pr.0@, pr.1@))
            == trie_capture_list(trie_patterns(*r), path@)),
{
    match r.at(path) {
        Ok(m) => Some(
            m.params.iter().map(|(name, value)| (name.to_string(), value.to_string())).collect(),
        ),
        Err(_) => None,
    }
}

/// Ties a routed request's key type to the marker that selects between the
/// unkeyed and keyed router variants.
pub trait RouteKey {
    type Key;
}

/// Routing under the single unit key.
#[derive(Debug)]
pub struct Unkeyed;

impl RouteKey for Unkeyed {
    type Key = ();
}

/// Routing keyed by a caller-chosen type, typically an HTTP verb.
#[derive(Clone, Copy, Debug, PartialEq, Eq, Hash)]
pub struct Keyed<T>(pub T);

impl<T> RouteKey for Keyed<T> {
    type Key = T;
}

/// Executable equality for route keys, agreeing with equality in
/// specifications. The crate implements it for the key types it ships; a
/// user key type implements it the same way.
pub trait RouteKeyEq: Sized {
    fn key_eq(&self, other: &Self) -> (r: bool)
        ensures
            r == (self == other),
    ;
}

impl RouteKeyEq for () {
    fn key_eq(&self, _other: &()) -> (r: bool)
        ensures
            r == (self == _other),
    {
        true
    }
}

impl RouteKeyEq for u64 {
    fn key_eq(&self, other: &u64) -> (r: bool)
        ensures
            r == (self == other),
    {
        *self == *other
    }
}

/// The on-the-wire shape of a routed request: the path, the key, and the
/// caller's value.
pub struct RoutedRequest<T, K: RouteKey> {
    pub route: String,
    pub key: K::Key,
    pub value: T,
}

/// What the selected inner service receives: the request parts, the
/// connection context, and the trie that matched, so captured `:param` /
/// `*catchall` segments can be replayed on demand.
pub struct RouteMatch<T, K: RouteKey = Unkeyed> {
    pub context: ConnectionContext,
    pub route: String,
    pub key: K::Key,
    pub value: T,
    pub router: matchit::Router<usize>,
}

impl<T, K: RouteKey> RouteMatch<T, K> {
    /// Replays the match to expose what the route captured from the path:
    /// the name/value pair of each `:param` and `*catchall` segment, present
    /// exactly when the path matches the trie it was dispatched through.
    pub fn params(&self) -> (r: Option<Vec<(String, String)>>)
        ensures
            r is Some <==> trie_match(trie_patterns(self.router), self.route@) is Some,
            r matches Some(v) ==> (v@.map_values(|pr: (String, String)| (pr.0@, pr.1@))
                == trie_capture_list(trie_patterns(self.router), self.route@)),
    {
        trie_captures(&self.router, self.route.as_str())
    }
}

/// Dispatches routed requests onto one of the registered inner services.
pub struct RouteService<Req, S, K: RouteKey = Unkeyed> {
    pub services: Vec<S>,
    pub keys: Vec<K::Key>,
    pub tries: Vec<matchit::Router<usize>>,
    pub route_index: usize,
    pub not_ready: VecDeque<usize>,
    pub marker: PhantomData<Req>,
}

impl<Req, S, K: RouteKey> RouteService<Req, S, K> {
    /// A trie is registered under this key.
    pub open spec fn has_key(self, k: K::Key) -> bool {
        exists|i: int| 0 <= i < self.keys@.len() && self.keys@[i] == k
    }

    /// The position of a key's trie.
    pub open spec fn key_index(self, k: K::Key) -> int {
        choose|i: int| 0 <= i < self.keys@.len() && self.keys@[i] == k
    }

    /// The pattern table registered under a key.
    pub open spec fn routes_for(self, k: K::Key) -> Map<Seq<char>, int> {
        trie_patterns(self.tries@[self.key_index(k)])
    }

    /// The whole route table: every key mapped to its pattern table.
    pub open spec fn route_table(self) -> Map<K::Key, Map<Seq<char>, int>> {
        Map::new(|k: K::Key| self.has_key(k), |k: K::Key| self.routes_for(k))
    }

    /// Whether registering a pattern under a key would be accepted: decided
    /// by the key's trie, or by a fresh trie for a first-seen key.
    pub open spec fn accepts_route(self, k: K::Key, pattern: Seq<char>) -> bool {
        if self.has_key(k) {
            trie_accepts(self.tries@[self.key_index(k)], pattern)
        } else {
            fresh_pattern_ok(pattern)
        }
    }

    /// Keys are distinct, every stored index points at a registered service,
    /// and the not-ready queue only holds registered indices.
    pub open spec fn wf(self) -> bool {
        &&& self.keys@.len() == self.tries@.len()
        &&& forall|i: int, j: int|
            0 <= i < j < self.keys@.len() ==> self.keys@[i] != self.keys@[j]
        &&& self.route_index == self.services@.len()
        &&& forall|i: int, p: Seq<char>|
            0 <= i < self.tries@.len() && #[trigger] trie_patterns(self.tries@[i]).dom().contains(
                p,
            ) ==> 0 <= trie_patterns(self.tries@[i])[p] < self.services@.len()
        &&& forall|i: int|
            0 <= i < self.not_ready@.len() ==> (#[trigger] self.not_ready@[i])
                < self.services@.len()
    }

    /// With distinct keys, the trie found at a key's position is the only
    /// one for that key.
    proof fn lemma_key_index_is(self, k: K::Key, i: int)
        requires
            self.wf(),
            0 <= i < self.keys@.len(),
            self.keys@[i] == k,
        ensures
            self.has_key(k),
            self.key_index(k) == i,
    {
        assert(self.has_key(k));
        let j = self.key_index(k);
        if j != i {
            if j < i {
                assert(self.keys@[j] != self.keys@[i]);
            } else {
                assert(self.keys@[i] != self.keys@[j]);
            }
        }
    }
}

impl<Req, S, K: RouteKey> RouteService<Req, S, K> where K::Key: RouteKeyEq {
    /// The position of the trie registered under a key, if any.
    fn find_key(&self, key: &K::Key) -> (r: Option<usize>)
        requires
            self.wf(),
        ensures
            match r {
                Some(i) => {
                    &&& i < self.keys@.len()
                    &&& self.keys@[i as int] == *key
                    &&& self.has_key(*key)
                    &&& self.key_index(*key) == i as int
                },
                None => !self.has_key(*key),
            },
    {
        let n = self.keys.len();
        let mut i: usize = 0;
        while i < n
            invariant
                self.wf(),
                i <= n,
                n == self.keys@.len(),
                forall|j: int| 0 <= j < i ==> self.keys@[j] != *key,
            decreases n - i,
        {
            if self.keys[i].key_eq(key) {
                proof {
                    self.lemma_key_index_is(*key, i as int);
                }
                return Some(i);
            }
            i = i + 1;
        }
        None
    }

    /// Registers a route: exactly when the key's trie accepts the pattern —
    /// and the pattern stays under the matcher's named-parameter limit —
    /// the pattern is inserted into that trie (a new trie is created for a
    /// first-seen key), the service is appended, and its index joins the
    /// not-ready queue so readiness is re-driven before the first dispatch.
    /// A conflicting, malformed or over-long pattern is reported instead,
    /// and the builder is abandoned, so a server never starts with it.
    pub fn try_with_route(self, key: K::Key, route: &str, service: S) -> (r: Result<
        Self,
        RouteInsertError,
    >)
        requires
            self.wf(),
        ensures
            r is Ok <==> within_param_limit(route) && self.accepts_route(key, route@),
            !within_param_limit(route) ==> (r matches Err(e) && e
                == RouteInsertError::ParamLimitExceeded),
            match r {
                Ok(s2) => {
                    &&& s2.wf()
                    &&& s2.services@ == self.services@.push(service)
                    &&& s2.not_ready@ == self.not_ready@.push(self.services@.len() as usize)
                    &&& s2.route_table() == self.route_table().insert(
                        key,
                        (if self.has_key(key) {
                            self.routes_for(key)
                        } else {
                            Map::<Seq<char>, int>::empty()
                        }).insert(route@, self.services@.len() as int),
                    )
                },
                Err(_) => true,
            },
    {
        if count_param_markers(route) >= 26 {
            return Err(RouteInsertError::ParamLimitExceeded);
        }
        let mut s = self;
        let idx = s.services.len();
        let found = s.find_key(&key);
        match found {
            Some(i) => {
                let mut t = trie_new();
                s.tries.set_and_swap(i, &mut t);
                match trie_insert(&mut t, route, idx) {
                    Ok(()) => {
                        s.tries.set_and_swap(i, &mut t);
                        s.services.push(service);
                        s.not_ready.push_back(idx);
                        s.route_index = s.services.len();
                        proof {
                            assert forall|k2: K::Key| #[trigger]
                                s.has_key(k2) == self.has_key(k2) by {
                                assert(s.keys@ =~= self.keys@);
                            }
                            assert(s.keys@ =~= self.keys@);
                            s.lemma_key_index_is(key, i as int);
                            assert forall|k2: K::Key|
                                s.has_key(k2) && k2 != key implies #[trigger] s.routes_for(k2)
                                == self.routes_for(k2) by {
                                let j = self.key_index(k2);
                                self.lemma_key_index_is(k2, j);
                                s.lemma_key_index_is(k2, j);
                                assert(s.tries@[j] == self.tries@[j]);
                            }
                            assert(s.routes_for(key) == self.routes_for(key).insert(
                                route@,
                                idx as int,
                            ));
                            assert(s.route_table() =~= self.route_table().insert(
                                key,
                                self.routes_for(key).insert(route@, idx as int),
                            ));
                            assert(s.not_ready@ =~= self.not_ready@.push(idx));
                        }
                        Ok(s)
                    },
                    Err(e) => Err(e),
                }
            },
            None => {
                let mut t = trie_new();
                match trie_insert(&mut t, route, idx) {
                    Ok(()) => {
                        s.keys.push(key);
                        s.tries.push(t);
                        s.services.push(service);
                        s.not_ready.push_back(idx);
                        s.route_index = s.services.len();
                        proof {
                            let n = self.keys@.len() as int;
                            s.lemma_key_index_is(key, n);
                            assert forall|k2: K::Key|
                                self.has_key(k2) implies #[trigger] s.has_key(k2)
                                && s.routes_for(k2) == self.routes_for(k2) by {
                                let j = self.key_index(k2);
                                self.lemma_key_index_is(k2, j);
                                s.lemma_key_index_is(k2, j);
                            }
                            assert forall|k2: K::Key|
                                s.has_key(k2) && k2 != key implies #[trigger] self.has_key(
                                k2,
                            ) by {
                                let j = s.key_index(k2);
                                assert(s.keys@[j] == k2);
                                assert(j != n);
                                assert(self.keys@[j] == k2);
                            }
                            assert(s.routes_for(key) == Map::<Seq<char>, int>::empty().insert(
                                route@,
                                idx as int,
                            ));
                            assert(s.route_table() =~= self.route_table().insert(
                                key,
                                Map::<Seq<char>, int>::empty().insert(route@, idx as int),
                            ));
                            assert(s.not_ready@ =~= self.not_ready@.push(idx));
                        }
                        Ok(s)
                    },
                    Err(e) => Err(e),
                }
            },
        }
    }

    /// Selects the inner service for a routed request: looks the key's trie
    /// up, matches the path, and moves the chosen index to the tail of the
    /// not-ready queue, since the dispatched service must be driven ready
    /// again before the next dispatch.
    ///
    /// Every path present in the key's table as a static pattern dispatches
    /// to exactly the service registered for it; a missing key or an
    /// unmatched path is reported as a structured error and changes nothing.
    pub fn select_route(&mut self, key: &K::Key, route: &str) -> (r: Result<usize, RouteError>)
        requires
            old(self).wf(),
        ensures
            final(self).wf(),
            final(self).services@ == old(self).services@,
            final(self).route_table() == old(self).route_table(),
            match r {
                Ok(idx) => {
                    &&& old(self).has_key(*key)
                    &&& trie_match(old(self).routes_for(*key), route@) == Some(idx as int)
                    &&& idx < old(self).services@.len()
                    &&& final(self).not_ready@ == old(self).not_ready@.push(idx)
                },
                Err(RouteError::UnknownKey) => {
                    &&& !old(self).has_key(*key)
                    &&& final(self).not_ready@ == old(self).not_ready@
                },
                Err(_) => {
                    &&& old(self).has_key(*key)
                    &&& trie_match(old(self).routes_for(*key), route@) is None
                    &&& final(self).not_ready@ == old(self).not_ready@
                },
            },
            old(self).has_key(*key) && old(self).routes_for(*key).dom().contains(route@)
                && is_static_route(route@) ==> (r matches Ok(idx) && idx as int == old(
                self,
            ).routes_for(*key)[route@]),
    {
        match self.find_key(key) {
            None => Err(RouteError::UnknownKey),
            Some(i) => {
                let res = trie_at(&self.tries[i], route);
                match res {
                    Err(e) => Err(e),
                    Ok(idx) => {
                        self.not_ready.push_back(idx);
                        proof {
                            assert(final(self).not_ready@ =~= old(self).not_ready@.push(idx));
                        }
                        Ok(idx)
                    },
                }
            },
        }
    }

    /// A clone of the trie registered under a key, for building the
    /// [`RouteMatch`] handed to the selected service.
    pub fn router_for(&self, key: &K::Key) -> (r: Option<matchit::Router<usize>>)
        requires
            self.wf(),
        ensures
            match r {
                Some(rt) => self.has_key(*key) && trie_patterns(rt) == self.routes_for(*key),
                None => !self.has_key(*key),
            },
    {
        match self.find_key(key) {
            Some(i) => Some(trie_clone(&self.tries[i])),
            None => None,
        }
    }
}

impl<Req, S, K: RouteKey> RouteService<Req, S, K> {
    /// The number of registered services.
    pub fn service_count(&self) -> (r: usize)
        ensures
            r == self.services@.len(),
    {
        self.services.len()
    }

    /// The head of the not-ready queue: the next inner service that must be
    /// driven ready before the router reports itself ready. Readiness is
    /// head-of-line: the router is ready only when this queue is empty.
    pub fn next_pending(&self) -> (r: Option<usize>)
        requires
            self.wf(),
        ensures
            match r {
                Some(i) => self.not_ready@.len() > 0 && i == self.not_ready@[0] && i
                    < self.services@.len(),
                None => self.not_ready@.len() == 0,
            },
    {
        if self.not_ready.len() == 0 {
            None
        } else {
            Some(self.not_ready[0])
        }
    }

    /// Records that the service at the head of the not-ready queue has been
    /// driven ready.
    pub fn mark_front_ready(&mut self)
        requires
            old(self).wf(),
            old(self).not_ready@.len() > 0,
        ensures
            final(self).wf(),
            final(self).not_ready@ == old(self).not_ready@.drop_first(),
            final(self).services@ == old(self).services@,
            final(self).route_table() == old(self).route_table(),
    {
        let _front = self.not_ready.pop_front();
        proof {
            assert(final(self).not_ready@ =~= old(self).not_ready@.drop_first());
        }
    }

    /// True when every dispatched-to service has been driven ready again, so
    /// a call may proceed on any branch.
    pub fn all_ready(&self) -> (r: bool)
        ensures
            r == (self.not_ready@.len() == 0),
    {
        self.not_ready.len() == 0
    }
}

impl<Req, S> RouteService<Req, S, Unkeyed> {
    /// An unkeyed router: a single trie registered under the unit key.
    pub fn new() -> (r: Self)
        ensures
            r.wf(),
            r.services@ == Seq::<S>::empty(),
            r.not_ready@ == Seq::<usize>::empty(),
            r.has_key(()),
            r.routes_for(()) == Map::<Seq<char>, int>::empty(),
    {
        let mut keys: Vec<()> = Vec::new();
        keys.push(());
        let mut tries: Vec<matchit::Router<usize>> = Vec::new();
        tries.push(trie_new());
        let r = RouteService {
            services: Vec::new(),
            keys,
            tries,
            route_index: 0,
            not_ready: VecDeque::new(),
            marker: PhantomData,
        };
        proof {
            r.lemma_key_index_is((), 0);
        }
        r
    }

    /// Registers a route under the unit key; success exactly as
    /// [`Self::try_with_route`] owes it.
    pub fn try_with_route_unkeyed(self, route: &str, service: S) -> (r: Result<
        Self,
        RouteInsertError,
    >)
        requires
            self.wf(),
            self.has_key(()),
        ensures
            r is Ok <==> within_param_limit(route) && self.accepts_route((), route@),
            !within_param_limit(route) ==> (r matches Err(e) && e
                == RouteInsertError::ParamLimitExceeded),
            match r {
                Ok(s2) => {
                    &&& s2.wf()
                    &&& s2.services@ == self.services@.push(service)
                    &&& s2.not_ready@ == self.not_ready@.push(self.services@.len() as usize)
                    &&& s2.route_table() == self.route_table().insert(
                        (),
                        self.routes_for(()).insert(route@, self.services@.len() as int),
                    )
                },
                Err(_) => true,
            },
    {
        self.try_with_route((), route, service)
    }
}

impl<Req, S, K> RouteService<Req, S, Keyed<K>> {
    /// A keyed router with no keys registered yet; each first use of a key
    /// creates that key's trie.
    pub fn with_keys() -> (r: Self)
        ensures
            r.wf(),
            r.services@ == Seq::<S>::empty(),
            r.not_ready@ == Seq::<usize>::empty(),
            r.route_table() == Map::<K, Map<Seq<char>, int>>::empty(),
    {
        let r = RouteService {
            services: Vec::new(),
            keys: Vec::new(),
            tries: Vec::new(),
            route_index: 0,
            not_ready: VecDeque::new(),
            marker: PhantomData,
        };
        proof {
            assert(r.route_table() =~= Map::<K, Map<Seq<char>, int>>::empty());
        }
        r
    }
}

/// The codec for a connection that carries unkeyed routed requests.
pub fn routed_codec<Req, Res>(codec: Codec) -> (r: SerdeCodec<RoutedRequest<Req, Unkeyed>, Res>)
    ensures
        r.codec() == codec,
{
    SerdeCodec::new(codec)
}

/// The codec for a connection that carries keyed routed requests.
pub fn keyed_codec<Req, Res, K>(codec: Codec) -> (r: SerdeCodec<RoutedRequest<Req, Keyed<K>>, Res>)
    ensures
        r.codec() == codec,
{
    SerdeCodec::new(codec)
}

} // verus!
