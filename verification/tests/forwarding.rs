use nanoproxy::table::{Route, RoutingTable};
use nanoproxy::headers::Header;
use nanoproxy::pipeline::{ProxyRequest, plan_forward, plan_response, relay_stream};
use nanoproxy::error::ProxyError;

fn table(routes: Vec<(&str, &str)>) -> RoutingTable {
    let mut t = RoutingTable::new();
    t.replace(
        routes
            .into_iter()
            .map(|(p, u)| Route { host_prefix: String::from(p), upstream_base: String::from(u) })
            .collect(),
    );
    t
}

fn request(path: &str, headers: Vec<(&str, &str)>, peer_ip: Option<&str>) -> ProxyRequest {
    ProxyRequest {
        path_and_query: String::from(path),
        headers: headers.into_iter().map(|(n, v)| Header::new(n, v)).collect(),
        peer_ip: peer_ip.map(String::from),
    }
}

#[test]
fn test_forwards_to_upstream_with_original_path() {
    let t = table(vec![("a", "http://u")]);
    let req = request("/some/path?q=1", vec![("Host", "a.b")], None);
    let out = plan_forward(&t, &req).expect("a.b matches the route");
    assert_eq!(out.target_text, "http://u/some/path?q=1");
    assert!(out.no_decompress);
}

#[test]
fn test_connection_header_never_crosses() {
    let t = table(vec![("svc", "http://u")]);
    let req = request(
        "/",
        vec![
            ("Host", "svc.local"),
            ("Connection", "keep-alive"),
            ("connection", "Upgrade"),
            ("Accept", "*/*"),
        ],
        None,
    );
    let out = plan_forward(&t, &req).unwrap();
    let names: Vec<&str> = out.headers.iter().map(|h| h.name.as_str()).collect();
    assert_eq!(names, vec!["Host", "Accept"]);

    // The response leg strips it too, and keeps everything else verbatim.
    let upstream_headers = vec![
        Header::new("Content-Type", "text/html"),
        Header::new("CONNECTION", "close"),
        Header::new("X-Thing", "1"),
    ];
    let resp = plan_response(200, &upstream_headers);
    assert_eq!(resp.status, 200);
    let names: Vec<&str> = resp.headers.iter().map(|h| h.name.as_str()).collect();
    assert_eq!(names, vec!["Content-Type", "X-Thing"]);
}

#[test]
fn test_forwarded_for_appended_after_existing() {
    let t = table(vec![("svc", "http://u")]);
    let req = request(
        "/",
        vec![("Host", "svc.local"), ("X-Forwarded-For", "10.0.0.1")],
        Some("192.168.1.9"),
    );
    let out = plan_forward(&t, &req).unwrap();
    let pairs: Vec<(&str, &str)> =
        out.headers.iter().map(|h| (h.name.as_str(), h.value.as_str())).collect();
    assert_eq!(
        pairs,
        vec![
            ("Host", "svc.local"),
            ("X-Forwarded-For", "10.0.0.1"),
            ("x-forwarded-for", "192.168.1.9"),
        ]
    );
}

#[test]
fn test_no_peer_address_no_forwarded_for() {
    let t = table(vec![("svc", "http://u")]);
    let req = request("/", vec![("Host", "svc.local")], None);
    let out = plan_forward(&t, &req).unwrap();
    assert_eq!(out.headers.len(), 1);
    assert_eq!(out.headers[0].name, "Host");
}

#[test]
fn test_missing_host_fails_before_any_call() {
    let t = table(vec![("svc", "http://u")]);
    let req = request("/", vec![("Accept", "*/*")], None);
    let e = plan_forward(&t, &req).unwrap_err();
    assert_eq!(e, ProxyError::MissingHost);
    assert_eq!(e.status_code(), 500);
    assert_eq!(e.render_body(), "request missing host header\n");
}

#[test]
fn test_unknown_host_fails_before_any_call() {
    let t = table(vec![("svc", "http://u")]);
    let req = request("/", vec![("Host", "nope.local")], None);
    let e = plan_forward(&t, &req).unwrap_err();
    assert_eq!(e, ProxyError::UnknownHost(String::from("nope.local")));
    assert_eq!(e.status_code(), 500);
    assert_eq!(e.render_body(), "got request for unknown host: nope.local\n");
}

#[test]
fn test_malformed_target_is_a_uri_error() {
    // A space cannot appear in a URI, so building the target must fail.
    let t = table(vec![("svc", "http://bad host")]);
    let req = request("/", vec![("Host", "svc.local")], None);
    match plan_forward(&t, &req) {
        Err(ProxyError::UriConstructionError(_)) => {},
        other => panic!("expected a URI construction error, got {:?}", other),
    }
}

#[test]
fn test_error_body_lists_causes_outermost_first() {
    let e = ProxyError::SendRequestError(vec![
        String::from("connection refused"),
        String::from("os error 111"),
    ]);
    assert_eq!(
        e.render_body(),
        "failed to send HTTP request to upstream\nconnection refused\nos error 111\n"
    );
    assert_eq!(nanoproxy::error::error_content_type(), "text/plain; charset=utf-8");
}

#[test]
fn test_every_transport_error_renders_its_own_cause() {
    let e = ProxyError::PayloadError(vec![String::from("stream reset")]);
    assert_eq!(e.status_code(), 500);
    assert_eq!(e.render_body(), "failed to write HTTP response body\nstream reset\n");

    let e = ProxyError::WebsocketUpstreamHandshake(vec![String::from("connection refused")]);
    assert_eq!(e.status_code(), 500);
    assert_eq!(
        e.render_body(),
        "failed to open WebSocket connection to upstream\nconnection refused\n"
    );

    let e = ProxyError::WebsocketClientHandshake(vec![]);
    assert_eq!(e.status_code(), 500);
    assert_eq!(e.render_body(), "failed to complete WebSocket handshake with client\n");

    let e = ProxyError::UriConstructionError(String::from("invalid uri character"));
    assert_eq!(e.render_body(), "failed to construct proxy URI\ninvalid uri character\n");
}

#[test]
fn test_redirect_forwarded_unmodified() {
    // The upstream answers 302 with a Location; the proxy forwards both the
    // status and the header untouched, and never follows the redirect
    // itself: the follow-up is a second, ordinary request from the client.
    let t = table(vec![("it_resolves_302", "http://127.0.0.1:7777")]);
    let first = request("/", vec![("host", "it_resolves_302.local")], None);
    let out = plan_forward(&t, &first).unwrap();
    assert_eq!(out.target_text, "http://127.0.0.1:7777/");

    let upstream_headers = vec![Header::new("Location", "/found")];
    let resp = plan_response(302, &upstream_headers);
    assert_eq!(resp.status, 302);
    assert_eq!(resp.headers[0].name, "Location");
    assert_eq!(resp.headers[0].value, "/found");

    let second = request("/found", vec![("host", "it_resolves_302.local")], None);
    let out = plan_forward(&t, &second).unwrap();
    assert_eq!(out.target_text, "http://127.0.0.1:7777/found");
    let resp = plan_response(200, &vec![]);
    assert_eq!(resp.status, 200);
    let body = relay_stream(&vec![b"you found me".to_vec()]);
    assert_eq!(body, b"you found me".to_vec());
}

#[test]
fn test_large_body_streams_in_order() {
    // A body far larger than any single buffer round-trips identically:
    // 10 MB delivered as 160 chunks of 64 KiB.
    let mut chunks: Vec<Vec<u8>> = Vec::new();
    let mut expected: Vec<u8> = Vec::new();
    for c in 0..160u32 {
        let chunk: Vec<u8> = (0..65536u32).map(|i| ((i * 31 + c * 7) % 251) as u8).collect();
        expected.extend_from_slice(&chunk);
        chunks.push(chunk);
    }
    let out = relay_stream(&chunks);
    assert_eq!(out.len(), 160 * 65536);
    assert_eq!(out, expected);
}
