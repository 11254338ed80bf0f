//! The routing table: an ordered sequence of routes, searched first-match.

use vstd::prelude::*;
use vstd::string::*;
use crate::text::{lower, has_prefix, has_prefix_of_lower};

verus! {

/// One routing entry: requests whose Host header starts with `host_prefix`
/// are forwarded to `upstream_base`.
#[derive(Debug)]
pub struct Route {
    pub host_prefix: String,
    pub upstream_base: String,
}

/// A route is well formed when its prefix is non-empty.
pub open spec fn route_wf(r: Route) -> bool {
    r.host_prefix@.len() > 0
}

/// All routes of a sequence are well formed.
pub open spec fn routes_wf(rs: Seq<Route>) -> bool {
    forall|i: int| 0 <= i < rs.len() ==> route_wf(#[trigger] rs[i])
}

/// The upstream of the first route whose prefix literally prefixes `host`,
/// or `None` when no route matches.
pub open spec fn first_match(rs: Seq<Route>, host: Seq<char>) -> Option<Seq<char>>
    decreases rs.len(),
{
    if rs.len() == 0 {
        None
    } else if rs[0].host_prefix@.is_prefix_of(host) {
        Some(rs[0].upstream_base@)
    } else {
        first_match(rs.skip(1), host)
    }
}

/// `first_match` really is the first match: no match at all means every
/// prefix fails, and a match is witnessed by the least matching index.
pub proof fn lemma_first_match(rs: Seq<Route>, host: Seq<char>)
    ensures
        first_match(rs, host) is None <==> (forall|i: int|
            0 <= i < rs.len() ==> !(#[trigger] rs[i].host_prefix@).is_prefix_of(host)),
        first_match(rs, host) is Some ==> exists|i: int|
            0 <= i < rs.len()
            && (#[trigger] rs[i].host_prefix@).is_prefix_of(host)
            && first_match(rs, host) == Some(rs[i].upstream_base@)
            && (forall|j: int| 0 <= j < i ==> !(#[trigger] rs[j].host_prefix@).is_prefix_of(host)),
    decreases rs.len(),
{
    if rs.len() > 0 {
        if rs[0].host_prefix@.is_prefix_of(host) {
            let i = 0int;
            assert(rs[i].host_prefix@.is_prefix_of(host)
                && first_match(rs, host) == Some(rs[i].upstream_base@)
                && (forall|j: int| 0 <= j < i ==> !(#[trigger] rs[j].host_prefix@).is_prefix_of(host)));
        } else {
            lemma_first_match(rs.skip(1), host);
            assert(forall|i: int| 0 <= i < rs.len() - 1 ==> rs.skip(1)[i] == rs[i + 1]);
            if first_match(rs, host) is None {
                assert forall|i: int| 0 <= i < rs.len() implies
                    !(#[trigger] rs[i].host_prefix@).is_prefix_of(host) by {
                    if i >= 1 {
                        assert(rs.skip(1)[i - 1] == rs[i]);
                    }
                }
            } else {
                assert(!(forall|i: int|
                    0 <= i < rs.skip(1).len() ==> !(#[trigger] rs.skip(1)[i].host_prefix@).is_prefix_of(host)));
                let w = choose|i: int| 0 <= i < rs.skip(1).len()
                    && (#[trigger] rs.skip(1)[i].host_prefix@).is_prefix_of(host);
                assert(rs[w + 1].host_prefix@.is_prefix_of(host));
            }
            if first_match(rs.skip(1), host) is Some {
                let i = choose|i: int|
                    0 <= i < rs.skip(1).len()
                    && (#[trigger] rs.skip(1)[i].host_prefix@).is_prefix_of(host)
                    && first_match(rs.skip(1), host) == Some(rs.skip(1)[i].upstream_base@)
                    && (forall|j: int| 0 <= j < i ==> !(#[trigger] rs.skip(1)[j].host_prefix@).is_prefix_of(host));
                let k = i + 1;
                assert(rs[k].host_prefix@.is_prefix_of(host)
                    && first_match(rs, host) == Some(rs[k].upstream_base@)
                    && (forall|j: int| 0 <= j < k ==> !(#[trigger] rs[j].host_prefix@).is_prefix_of(host))) by {
                    assert(forall|j: int| 1 <= j < k ==> rs[j] == rs.skip(1)[j - 1]);
                }
            }
        }
    }
}

/// The ordered routing table. Order is significant: the first matching
/// route wins.
pub struct RoutingTable {
    pub routes: Vec<Route>,
}

impl RoutingTable {
    /// The table's mathematical content: its ordered route sequence.
    pub open spec fn view(&self) -> Seq<Route> {
        self.routes@
    }

    pub open spec fn wf(&self) -> bool {
        routes_wf(self@)
    }

    /// An empty table matches no host.
    pub fn new() -> (t: RoutingTable)
        ensures
            t@ =~= Seq::<Route>::empty(),
            t.wf(),
    {
        RoutingTable { routes: Vec::new() }
    }

    /// The first route whose prefix literally prefixes `host`, if any.
    pub fn lookup(&self, host: &str) -> (r: Option<String>)
        ensures
            match r {
                Some(u) => first_match(self@, host@) == Some(u@),
                None => first_match(self@, host@) is None,
            },
    {
        let n = self.routes.len();
        let mut i: usize = 0;
        assert(self@.skip(0) =~= self@);
        while i < n
            invariant
                0 <= i <= n,
                n == self@.len(),
                first_match(self@, host@) == first_match(self@.skip(i as int), host@),
            decreases n - i,
        {
            if has_prefix(host, self.routes[i].host_prefix.as_str()) {
                assert(self@.skip(i as int)[0] == self@[i as int]);
                return Some(self.routes[i].upstream_base.clone());
            }
            assert(self@.skip(i as int)[0] == self@[i as int]);
            assert(self@.skip(i as int).skip(1) =~= self@.skip(i + 1));
            i += 1;
        }
        assert(self@.skip(n as int) =~= Seq::<Route>::empty());
        None
    }

    /// The first route whose prefix prefixes the ASCII-lowercased `host`,
    /// if any. This is the match the forwarding pipeline uses.
    pub fn resolve(&self, host: &str) -> (r: Option<String>)
        ensures
            match r {
                Some(u) => first_match(self@, lower(host@)) == Some(u@),
                None => first_match(self@, lower(host@)) is None,
            },
    {
        let n = self.routes.len();
        let mut i: usize = 0;
        assert(self@.skip(0) =~= self@);
        while i < n
            invariant
                0 <= i <= n,
                n == self@.len(),
                first_match(self@, lower(host@)) == first_match(self@.skip(i as int), lower(host@)),
            decreases n - i,
        {
            if has_prefix_of_lower(host, self.routes[i].host_prefix.as_str()) {
                assert(self@.skip(i as int)[0] == self@[i as int]);
                return Some(self.routes[i].upstream_base.clone());
            }
            assert(self@.skip(i as int)[0] == self@[i as int]);
            assert(self@.skip(i as int).skip(1) =~= self@.skip(i + 1));
            i += 1;
        }
        assert(self@.skip(n as int) =~= Seq::<Route>::empty());
        None
    }

    /// Replace the whole table at once.
    pub fn replace(&mut self, routes: Vec<Route>)
        requires
            routes_wf(routes@),
        ensures
            final(self)@ == routes@,
            final(self).wf(),
    {
        self.routes = routes;
    }

    /// Append one route at the end; every existing route keeps its place.
    pub fn append(&mut self, route: Route)
        requires
            old(self).wf(),
            route_wf(route),
        ensures
            final(self)@ == old(self)@.push(route),
            final(self).wf(),
    {
        self.routes.push(route);
    }

    /// A copy of the current route list, in order, for read-only display.
    pub fn snapshot(&self) -> (r: Vec<Route>)
        ensures
            r@.len() == self@.len(),
            forall|i: int| 0 <= i < r@.len() ==> #[trigger] r@[i].host_prefix@ == self@[i].host_prefix@
                && r@[i].upstream_base@ == self@[i].upstream_base@,
    {
        let n = self.routes.len();
        let mut out: Vec<Route> = Vec::new();
        let mut i: usize = 0;
        while i < n
            invariant
                0 <= i <= n,
                n == self@.len(),
                out@.len() == i,
                forall|j: int| 0 <= j < i ==> #[trigger] out@[j].host_prefix@ == self@[j].host_prefix@
                    && out@[j].upstream_base@ == self@[j].upstream_base@,
            decreases n - i,
        {
            out.push(Route {
                host_prefix: self.routes[i].host_prefix.clone(),
                upstream_base: self.routes[i].upstream_base.clone(),
            });
            i += 1;
        }
        out
    }
}

} // verus!
