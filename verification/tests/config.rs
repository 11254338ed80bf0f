use nanoproxy::config::{load, routes_of, Service, Settings};

fn empty_settings() -> Settings {
    Settings {
        listen_port: None,
        listen_host: None,
        services: None,
        log: None,
        management_enabled: None,
        management_host_name: None,
    }
}

#[test]
fn test_load_fills_every_default() {
    let c = load(empty_settings());
    assert_eq!(c.listen_port, 80);
    assert_eq!(c.listen_host, "0.0.0.0");
    assert!(c.services.is_empty());
    assert_eq!(c.log, "info");
    assert!(c.management.enabled);
    assert_eq!(c.management.host_name, "nanoproxy");
}

#[test]
fn test_load_keeps_given_settings() {
    let mut s = empty_settings();
    s.listen_port = Some(8080);
    s.listen_host = Some(String::from("127.0.0.1"));
    s.log = Some(String::from("debug"));
    s.management_enabled = Some(false);
    s.management_host_name = Some(String::from("admin"));
    s.services = Some(vec![Service {
        host_name: String::from("svc"),
        upstream_address: String::from("http://u"),
    }]);
    let c = load(s);
    assert_eq!(c.listen_port, 8080);
    assert_eq!(c.listen_host, "127.0.0.1");
    assert_eq!(c.log, "debug");
    assert!(!c.management.enabled);
    assert_eq!(c.management.host_name, "admin");
    assert_eq!(c.services.len(), 1);
    assert_eq!(c.services[0].host_name, "svc");
}

#[test]
fn test_routes_of_skips_empty_host_names() {
    let services = vec![
        Service { host_name: String::from("a"), upstream_address: String::from("http://u1") },
        Service { host_name: String::from(""), upstream_address: String::from("http://u2") },
        Service { host_name: String::from("b"), upstream_address: String::from("http://u3") },
    ];
    let routes = routes_of(&services);
    assert_eq!(routes.len(), 2);
    assert_eq!(routes[0].host_prefix, "a");
    assert_eq!(routes[0].upstream_base, "http://u1");
    assert_eq!(routes[1].host_prefix, "b");
    assert_eq!(routes[1].upstream_base, "http://u3");
}

#[test]
fn test_service_to_route() {
    let s = Service { host_name: String::from("svc"), upstream_address: String::from("http://u") };
    let r = s.to_route().expect("non-empty host name yields a route");
    assert_eq!(r.host_prefix, "svc");
    assert_eq!(r.upstream_base, "http://u");
    let s = Service { host_name: String::new(), upstream_address: String::from("http://u") };
    assert!(s.to_route().is_none());
}
