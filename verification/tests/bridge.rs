use nanoproxy::bridge::{BridgeAction, BridgeEnd, BridgeEvent, BridgeSession, Frame};
use nanoproxy::frontend::{classify, RequestClass};
use nanoproxy::headers::Header;

#[test]
fn test_classify_websocket_upgrade() {
    let upgrade = vec![
        Header::new("Host", "svc.local"),
        Header::new("Connection", "Upgrade"),
        Header::new("Upgrade", "WebSocket"),
    ];
    assert_eq!(classify(&upgrade), RequestClass::Upgrade);

    let plain = vec![Header::new("Host", "svc.local"), Header::new("Accept", "*/*")];
    assert_eq!(classify(&plain), RequestClass::Plain);

    let other_protocol =
        vec![Header::new("Connection", "Upgrade"), Header::new("Upgrade", "h2c")];
    assert_eq!(classify(&other_protocol), RequestClass::Plain);

    // The Connection header must carry the upgrade token, possibly among
    // others; without it the request stays plain.
    let no_connection = vec![Header::new("Upgrade", "websocket")];
    assert_eq!(classify(&no_connection), RequestClass::Plain);

    let token_among_others = vec![
        Header::new("connection", "keep-alive , Upgrade"),
        Header::new("upgrade", "WebSocket"),
    ];
    assert_eq!(classify(&token_among_others), RequestClass::Upgrade);

    let not_a_token = vec![
        Header::new("Connection", "upgradeable"),
        Header::new("Upgrade", "websocket"),
    ];
    assert_eq!(classify(&not_a_token), RequestClass::Plain);
}

#[test]
fn test_frames_cross_verbatim_in_both_directions() {
    let mut s = BridgeSession::begin();
    let a = s.step(BridgeEvent::Arrived(BridgeEnd::Client, Frame::Text(String::from("hello"))));
    assert_eq!(a, BridgeAction::Forward(BridgeEnd::Upstream, Frame::Text(String::from("hello"))));
    let a = s.step(BridgeEvent::Arrived(BridgeEnd::Upstream, Frame::Text(String::from("hi back"))));
    assert_eq!(a, BridgeAction::Forward(BridgeEnd::Client, Frame::Text(String::from("hi back"))));
    let a = s.step(BridgeEvent::Arrived(BridgeEnd::Upstream, Frame::Binary(vec![1, 2, 3])));
    assert_eq!(a, BridgeAction::Forward(BridgeEnd::Client, Frame::Binary(vec![1, 2, 3])));
    // Ping and pong cross opaquely too, so liveness reaches the peer.
    let a = s.step(BridgeEvent::Arrived(BridgeEnd::Client, Frame::Ping(vec![9])));
    assert_eq!(a, BridgeAction::Forward(BridgeEnd::Upstream, Frame::Ping(vec![9])));
    let a = s.step(BridgeEvent::Arrived(BridgeEnd::Upstream, Frame::Pong(vec![9])));
    assert_eq!(a, BridgeAction::Forward(BridgeEnd::Client, Frame::Pong(vec![9])));
}

#[test]
fn test_client_close_reaches_upstream_and_ends_session() {
    let mut s = BridgeSession::begin();
    let a = s.step(BridgeEvent::Arrived(BridgeEnd::Client, Frame::Close));
    // The close frame itself still crosses, so close semantics reach the peer.
    assert_eq!(a, BridgeAction::Forward(BridgeEnd::Upstream, Frame::Close));
    assert!(!s.open);
    // Afterwards the bridge only ever shuts down: no half-open session.
    let a = s.step(BridgeEvent::Arrived(BridgeEnd::Upstream, Frame::Text(String::from("late"))));
    assert_eq!(a, BridgeAction::Shutdown);
}

#[test]
fn test_client_disconnect_closes_upstream() {
    let mut s = BridgeSession::begin();
    let a = s.step(BridgeEvent::Eof(BridgeEnd::Client));
    assert_eq!(a, BridgeAction::Shutdown);
    assert!(!s.open);
}

#[test]
fn test_upstream_error_closes_client() {
    let mut s = BridgeSession::begin();
    let a = s.step(BridgeEvent::Failed(BridgeEnd::Upstream));
    assert_eq!(a, BridgeAction::Shutdown);
    assert!(!s.open);
    let a = s.step(BridgeEvent::Arrived(BridgeEnd::Client, Frame::Text(String::from("x"))));
    assert_eq!(a, BridgeAction::Shutdown);
}
