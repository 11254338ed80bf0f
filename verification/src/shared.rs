//! The routing table as the one cross-request shared datum: many concurrent
//! readers, one writer at a time, wholesale replacement.
//!
//! The table sits behind a verified reader-writer lock. A reader acquires a
//! handle to one complete table value, so a lookup that races a `set_routes`
//! observes either the old table or the new one in full, never a mixture;
//! the writer holds the lock only for the pointer-style swap.

use vstd::prelude::*;
use vstd::rwlock::{RwLock, RwLockPredicate};
use crate::table::{Route, RoutingTable, routes_wf, first_match};
use crate::text::lower;

verus! {

/// The lock invariant: every table ever stored is well formed.
pub struct TableInv {}

impl RwLockPredicate<RoutingTable> for TableInv {
    open spec fn inv(self, t: RoutingTable) -> bool {
        t.wf()
    }
}

/// How a lookup result relates to one table content.
pub open spec fn resolves_in(t: Seq<Route>, host: Seq<char>, r: Option<String>) -> bool {
    match r {
        Some(u) => first_match(t, lower(host)) == Some(u@),
        None => first_match(t, lower(host)) is None,
    }
}

/// How a snapshot relates to one table content: the same routes, in the
/// same order.
pub open spec fn snapshot_of(t: Seq<Route>, r: Seq<Route>) -> bool {
    r.len() == t.len() && forall|i: int| 0 <= i < r.len()
        ==> #[trigger] r[i].host_prefix@ == t[i].host_prefix@
            && r[i].upstream_base@ == t[i].upstream_base@
}

/// A routing table shared between concurrent request handlers.
pub struct SharedTable {
    lock: RwLock<RoutingTable, TableInv>,
}

impl SharedTable {
    pub fn new(t: RoutingTable) -> SharedTable
        requires
            t.wf(),
    {
        SharedTable { lock: RwLock::new(t, Ghost(TableInv {})) }
    }

    /// Resolve a host against one complete, well-formed table: the result is
    /// the first match in that table against the lowercased host. Which
    /// table it is depends on how the call interleaves with writers, but it
    /// is always a single table in full.
    pub fn resolve(&self, host: &str) -> (r: Option<String>)
        ensures
            exists|t: Seq<Route>| #[trigger] routes_wf(t) && resolves_in(t, host@, r),
    {
        let handle = self.lock.acquire_read();
        let r = handle.borrow().resolve(host);
        proof {
            let t = handle.view()@;
            assert(routes_wf(t) && resolves_in(t, host@, r));
        }
        handle.release_read();
        r
    }

    /// Replace the whole table; the lock is held only for the swap itself.
    pub fn set_routes(&self, routes: Vec<Route>)
        requires
            routes_wf(routes@),
    {
        let (_, handle) = self.lock.acquire_write();
        handle.release_write(RoutingTable { routes });
    }

    /// Append one route at the end of the current table.
    pub fn append_route(&self, route: Route)
        requires
            crate::table::route_wf(route),
    {
        let (mut t, handle) = self.lock.acquire_write();
        t.append(route);
        handle.release_write(t);
    }

    /// An ordered copy of one complete, well-formed table, for read-only
    /// display: never a mixture of two tables.
    pub fn snapshot(&self) -> (r: Vec<Route>)
        ensures
            routes_wf(r@),
            exists|t: Seq<Route>| #[trigger] routes_wf(t) && snapshot_of(t, r@),
    {
        let handle = self.lock.acquire_read();
        let r = handle.borrow().snapshot();
        proof {
            let t = handle.view()@;
            assert forall|i: int| 0 <= i < r@.len() implies crate::table::route_wf(#[trigger] r@[i]) by {
                assert(r@[i].host_prefix@ == t[i].host_prefix@);
            }
            assert(routes_wf(t) && snapshot_of(t, r@));
        }
        handle.release_read();
        r
    }
}

} // verus!
