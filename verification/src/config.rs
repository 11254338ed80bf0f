//! The proxy's configuration: where it listens, which services it routes,
//! and the management endpoint's settings. Configuration sources are read
//! outside this library; `load` turns whatever they yielded into a full
//! configuration by filling every absent setting with its default.

use vstd::prelude::*;
use vstd::string::*;
use crate::table::{Route, route_wf};

verus! {

/// One configured service: requests whose host starts with `host_name` go
/// to `upstream_address`.
#[derive(Debug, Clone)]
pub struct Service {
    pub host_name: String,
    pub upstream_address: String,
}

/// The management endpoint's settings.
#[derive(Debug, Clone)]
pub struct Management {
    pub host_name: String,
    pub enabled: bool,
}

/// The complete runtime configuration.
#[derive(Debug, Clone)]
pub struct Config {
    pub listen_port: u16,
    pub listen_host: String,
    pub services: Vec<Service>,
    pub log: String,
    pub management: Management,
}

/// What the configuration sources yielded: each setting either given or
/// absent.
pub struct Settings {
    pub listen_port: Option<u16>,
    pub listen_host: Option<String>,
    pub services: Option<Vec<Service>>,
    pub log: Option<String>,
    pub management_enabled: Option<bool>,
    pub management_host_name: Option<String>,
}

/// Build the configuration from the given settings: every given value is
/// taken as it is, every absent one falls back to its default.
pub fn load(given: Settings) -> (c: Config)
    ensures
        c.listen_port == match given.listen_port {
            Some(p) => p,
            None => 80u16,
        },
        given.listen_host matches Some(h) ==> c.listen_host == h,
        given.listen_host is None ==> c.listen_host@ == "0.0.0.0"@,
        given.services matches Some(s) ==> c.services == s,
        given.services is None ==> c.services@ =~= Seq::<Service>::empty(),
        given.log matches Some(l) ==> c.log == l,
        given.log is None ==> c.log@ == "info"@,
        c.management.enabled == match given.management_enabled {
            Some(e) => e,
            None => true,
        },
        given.management_host_name matches Some(m) ==> c.management.host_name == m,
        given.management_host_name is None ==> c.management.host_name@ == "nanoproxy"@,
{
    let listen_port = match given.listen_port {
        Some(p) => p,
        None => 80,
    };
    let listen_host = match given.listen_host {
        Some(h) => h,
        None => String::from_str("0.0.0.0"),
    };
    let services = match given.services {
        Some(s) => s,
        None => Vec::new(),
    };
    let log = match given.log {
        Some(l) => l,
        None => String::from_str("info"),
    };
    let enabled = match given.management_enabled {
        Some(e) => e,
        None => true,
    };
    let host_name = match given.management_host_name {
        Some(m) => m,
        None => String::from_str("nanoproxy"),
    };
    Config {
        listen_port,
        listen_host,
        services,
        log,
        management: Management { host_name, enabled },
    }
}

impl Service {
    /// The routing entry this service contributes: none when the host name
    /// is empty, since a route's prefix must be non-empty.
    pub fn to_route(&self) -> (r: Option<Route>)
        ensures
            self.host_name@.len() == 0 <==> r is None,
            r matches Some(rt) ==> rt.host_prefix@ == self.host_name@
                && rt.upstream_base@ == self.upstream_address@
                && route_wf(rt),
    {
        if self.host_name.as_str().is_empty() {
            None
        } else {
            Some(Route {
                host_prefix: self.host_name.clone(),
                upstream_base: self.upstream_address.clone(),
            })
        }
    }
}

/// The (prefix, upstream) pairs a service list contributes, in configured
/// order, services with an empty host name left out.
pub open spec fn route_views_of(ss: Seq<Service>) -> Seq<(Seq<char>, Seq<char>)>
    decreases ss.len(),
{
    if ss.len() == 0 {
        Seq::empty()
    } else if ss.last().host_name@.len() == 0 {
        route_views_of(ss.drop_last())
    } else {
        route_views_of(ss.drop_last()).push((ss.last().host_name@, ss.last().upstream_address@))
    }
}

/// The routes of a whole service list, in configured order, services with
/// an empty host name left out.
pub fn routes_of(services: &Vec<Service>) -> (r: Vec<Route>)
    ensures
        crate::table::routes_wf(r@),
        r@.map(|_i: int, rt: Route| (rt.host_prefix@, rt.upstream_base@)) == route_views_of(
            services@,
        ),
{
    let ghost pairs = |_i: int, rt: Route| (rt.host_prefix@, rt.upstream_base@);
    let n = services.len();
    let mut out: Vec<Route> = Vec::new();
    let mut i: usize = 0;
    assert(out@.map(pairs) =~= route_views_of(services@.take(0)));
    while i < n
        invariant
            0 <= i <= n,
            n == services@.len(),
            pairs == (|_i: int, rt: Route| (rt.host_prefix@, rt.upstream_base@)),
            crate::table::routes_wf(out@),
            out@.map(pairs) == route_views_of(services@.take(i as int)),
        decreases n - i,
    {
        let ghost pre = out@;
        proof {
            assert(services@.take(i + 1).drop_last() =~= services@.take(i as int));
            assert(services@.take(i + 1).last() == services@[i as int]);
        }
        match services[i].to_route() {
            Some(rt) => {
                out.push(rt);
                proof {
                    assert forall|j: int| 0 <= j < out@.len() implies route_wf(
                        #[trigger] out@[j],
                    ) by {
                        if j < pre.len() {
                            assert(route_wf(pre[j]));
                        }
                    }
                    assert(out@.map(pairs) =~= pre.map(pairs).push(
                        (services@[i as int].host_name@, services@[i as int].upstream_address@),
                    ));
                }
            },
            None => {},
        }
        assert(out@.map(pairs) =~= route_views_of(services@.take(i + 1)));
        i += 1;
    }
    assert(services@.take(n as int) =~= services@);
    out
}

} // verus!
