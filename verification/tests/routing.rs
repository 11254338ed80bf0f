use nanoproxy::table::{Route, RoutingTable};
use nanoproxy::shared::SharedTable;

fn route(prefix: &str, upstream: &str) -> Route {
    Route { host_prefix: String::from(prefix), upstream_base: String::from(upstream) }
}

#[test]
fn test_lookup_first_match_wins() {
    let mut t = RoutingTable::new();
    t.replace(vec![
        route("a", "http://first"),
        route("ab", "http://second"),
        route("b", "http://third"),
    ]);
    // "a" already prefixes "ab.example", so the first route wins.
    assert_eq!(t.lookup("ab.example").as_deref(), Some("http://first"));
    assert_eq!(t.lookup("b.example").as_deref(), Some("http://third"));
    assert_eq!(t.lookup("zzz").as_deref(), None);
}

#[test]
fn test_lookup_is_literal_prefix_match() {
    let mut t = RoutingTable::new();
    t.replace(vec![route("foo", "http://u")]);
    // Plain string-prefix semantics: "foo" matches "foobar.example.com" too.
    assert_eq!(t.lookup("foobar.example.com").as_deref(), Some("http://u"));
    assert_eq!(t.lookup("fo.example.com").as_deref(), None);
    // Literal matching: an uppercase host does not match here.
    assert_eq!(t.lookup("FOO.example").as_deref(), None);
}

#[test]
fn test_resolve_lowercases_host() {
    let mut t = RoutingTable::new();
    t.replace(vec![route("svc", "http://u")]);
    assert_eq!(t.resolve("SVC.local").as_deref(), Some("http://u"));
    assert_eq!(t.resolve("svc.local:8080").as_deref(), Some("http://u"));
    assert_eq!(t.resolve("other.local").as_deref(), None);
}

#[test]
fn test_empty_table_matches_nothing() {
    let t = RoutingTable::new();
    assert_eq!(t.lookup("anything").as_deref(), None);
}

#[test]
fn test_append_keeps_order() {
    let mut t = RoutingTable::new();
    t.append(route("a", "http://first"));
    t.append(route("a", "http://later"));
    // The earlier route still wins after the append.
    assert_eq!(t.lookup("a.example").as_deref(), Some("http://first"));
    let snap = t.snapshot();
    assert_eq!(snap.len(), 2);
    assert_eq!(snap[0].upstream_base, "http://first");
    assert_eq!(snap[1].upstream_base, "http://later");
}

#[test]
fn test_shared_table_replace_and_resolve() {
    let shared = SharedTable::new(RoutingTable::new());
    assert_eq!(shared.resolve("svc.local").as_deref(), None);
    shared.set_routes(vec![route("svc", "http://u1")]);
    assert_eq!(shared.resolve("svc.local").as_deref(), Some("http://u1"));
    // Wholesale replacement: the old route is gone, the new one is seen.
    shared.set_routes(vec![route("other", "http://u2")]);
    assert_eq!(shared.resolve("svc.local").as_deref(), None);
    assert_eq!(shared.resolve("other.local").as_deref(), Some("http://u2"));
    shared.append_route(route("svc", "http://u3"));
    assert_eq!(shared.resolve("svc.local").as_deref(), Some("http://u3"));
    let snap = shared.snapshot();
    assert_eq!(snap.len(), 2);
    assert_eq!(snap[0].host_prefix, "other");
    assert_eq!(snap[1].host_prefix, "svc");
}
