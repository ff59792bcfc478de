use arx::http_error::HttpError;
use arx::local::match_get;
use arx::reverse_proxy::{
    flip, proxy_websocket, reqwest_to_hyper_response, reverse_proxy, reverse_proxy_unsync,
    switching_protocols, upgrade_error, ws_tunnel, BodyForward, Message, ProxyKind, Received, Side,
    TunnelStep, UpgradeFailure,
};

fn headers(pairs: &[(&'static str, &'static str)]) -> http::HeaderMap {
    let mut map = http::HeaderMap::new();
    for (name, value) in pairs {
        map.insert(*name, http::HeaderValue::from_static(value));
    }
    map
}

fn parts(e: HttpError) -> (u16, String) {
    (e.status(), e.into_hyper_response().body)
}

#[test]
fn upgrade_header_picks_the_protocol() {
    assert_eq!(reverse_proxy(&headers(&[])).unwrap(), ProxyKind::Plain);
    assert_eq!(reverse_proxy(&headers(&[("upgrade", "websocket")])).unwrap(), ProxyKind::WebSocket);
    let e = reverse_proxy(&headers(&[("upgrade", "h2c")])).unwrap_err();
    assert_eq!(parts(e), (400, "unrecognized `Upgrade` header".to_string()));
    let e = reverse_proxy(&headers(&[("upgrade", "WebSocket")])).unwrap_err();
    assert_eq!(e.status(), 400);
}

#[test]
fn websocket_upgrade_and_mirroring() {
    let request = headers(&[
        ("upgrade", "websocket"),
        ("sec-websocket-version", "13"),
        ("sec-websocket-key", "dGhlIHNhbXBsZSBub25jZQ=="),
    ]);
    assert_eq!(reverse_proxy(&request).unwrap(), ProxyKind::WebSocket);
    let ws = proxy_websocket(&request).unwrap();
    assert_eq!(ws.key, b"dGhlIHNhbXBsZSBub25jZQ==".to_vec());
    assert_eq!(ws.protocol, None);
    let response = switching_protocols(&ws);
    assert_eq!(response.status, 101);
    assert_eq!(
        response.headers,
        vec![
            ("connection".to_string(), b"upgrade".to_vec()),
            ("upgrade".to_string(), b"websocket".to_vec()),
            ("sec-websocket-accept".to_string(), b"s3pPLMBiTxaQ9kYGzzhZRbK+xOo=".to_vec()),
            ("sec-websocket-key".to_string(), b"dGhlIHNhbXBsZSBub25jZQ==".to_vec()),
        ]
    );
    assert_eq!(response.body, "");

    // a text frame from the client is mirrored to the backend
    let TunnelStep::Send(Side::Back, Message::Text(text)) =
        ws_tunnel(Side::Front, Received::Message(Message::Text("hello".to_string())))
    else {
        panic!()
    };
    assert_eq!(text, "hello");
    // a binary frame from the backend is mirrored back
    let TunnelStep::Send(Side::Front, Message::Binary(data)) =
        ws_tunnel(Side::Back, Received::Message(Message::Binary(vec![1, 2, 3])))
    else {
        panic!()
    };
    assert_eq!(data, vec![1, 2, 3]);
}

#[test]
fn websocket_subprotocol_is_echoed() {
    let request = headers(&[
        ("sec-websocket-version", "13"),
        ("sec-websocket-key", "AQIDBAUGBwgJCgsMDQ4PEA=="),
        ("sec-websocket-protocol", "chat"),
    ]);
    let ws = proxy_websocket(&request).unwrap();
    let response = switching_protocols(&ws);
    assert_eq!(response.headers.len(), 5);
    assert_eq!(response.headers[4], ("sec-websocket-protocol".to_string(), b"chat".to_vec()));
    assert_eq!(
        response.headers[2].1,
        tungstenite::handshake::derive_accept_key(b"AQIDBAUGBwgJCgsMDQ4PEA==").into_bytes()
    );
    assert_ne!(response.headers[2].1, response.headers[3].1);
}

#[test]
fn websocket_request_needs_version_and_key() {
    let e = proxy_websocket(&headers(&[("sec-websocket-key", "k")])).unwrap_err();
    assert_eq!(parts(e), (400, "invalid websocket version".to_string()));
    let e = proxy_websocket(&headers(&[("sec-websocket-version", "12"), ("sec-websocket-key", "k")]))
        .unwrap_err();
    assert_eq!(parts(e), (400, "invalid websocket version".to_string()));
    let e = proxy_websocket(&headers(&[("sec-websocket-version", "13")])).unwrap_err();
    assert_eq!(parts(e), (400, "`Sec-Websocket-Key` header missing".to_string()));
}

#[test]
fn upgrade_failures() {
    assert_eq!(parts(upgrade_error(UpgradeFailure::Send)), (502, "bad gateway".to_string()));
    assert_eq!(
        parts(upgrade_error(UpgradeFailure::UnexpectedStatus(403))),
        (403, "upstream refused upgrade".to_string())
    );
    assert_eq!(parts(upgrade_error(UpgradeFailure::Handshake)), (502, "handshake failed".to_string()));
    assert_eq!(
        parts(upgrade_error(UpgradeFailure::Request)),
        (502, "unspecified request error".to_string())
    );
    assert_eq!(parts(upgrade_error(UpgradeFailure::Protocol)), (502, "protocol error".to_string()));
    assert_eq!(parts(upgrade_error(UpgradeFailure::Other)), (502, "protocol error".to_string()));
}

#[test]
fn transport_errors() {
    assert_eq!(
        parts(reqwest_to_hyper_response(Some(503), "unavailable".to_string())),
        (503, "unavailable".to_string())
    );
    assert_eq!(
        parts(reqwest_to_hyper_response(None, "connection reset".to_string())),
        (500, "connection reset".to_string())
    );
}

#[test]
fn body_pump_outcomes() {
    assert!(reverse_proxy_unsync(BodyForward::Done).is_none());
    assert_eq!(parts(reverse_proxy_unsync(BodyForward::Input).unwrap()), (400, String::new()));
    assert_eq!(
        parts(reverse_proxy_unsync(BodyForward::TrailingHeaders).unwrap()),
        (406, "trailing headers not supported".to_string())
    );
    assert_eq!(
        parts(reverse_proxy_unsync(BodyForward::Lost).unwrap()),
        (500, "headers not sent".to_string())
    );
}

fn closes(step: TunnelStep) -> Option<(Side, Option<(u16, String)>)> {
    match step {
        TunnelStep::Close(to, frame) => Some((to, frame)),
        _ => None,
    }
}

#[test]
fn tunnel_steps() {
    assert_eq!(closes(ws_tunnel(Side::Front, Received::End)), Some((Side::Back, None)));
    assert_eq!(closes(ws_tunnel(Side::Back, Received::End)), Some((Side::Front, None)));
    assert!(matches!(ws_tunnel(Side::Front, Received::Failed), TunnelStep::Continue));
    assert!(matches!(ws_tunnel(Side::Back, Received::Failed), TunnelStep::Continue));
    assert!(matches!(
        ws_tunnel(Side::Back, Received::Message(Message::Ping(vec![1]))),
        TunnelStep::Continue
    ));
    assert!(matches!(
        ws_tunnel(Side::Back, Received::Message(Message::Pong(vec![1]))),
        TunnelStep::Continue
    ));
    assert!(matches!(
        ws_tunnel(Side::Front, Received::Message(Message::Ping(vec![]))),
        TunnelStep::Continue
    ));
    // a close frame goes to the other side with its code and reason
    assert_eq!(
        closes(ws_tunnel(
            Side::Front,
            Received::Message(Message::Close(Some((4001, "bye".to_string()))))
        )),
        Some((Side::Back, Some((4001, "bye".to_string()))))
    );
    assert_eq!(
        closes(ws_tunnel(
            Side::Back,
            Received::Message(Message::Close(Some((4002, "gone".to_string()))))
        )),
        Some((Side::Front, Some((4002, "gone".to_string()))))
    );
    assert_eq!(
        closes(ws_tunnel(Side::Front, Received::Message(Message::Close(None)))),
        Some((Side::Back, None))
    );
    assert_eq!(
        closes(ws_tunnel(Side::Back, Received::Message(Message::Close(None)))),
        Some((Side::Front, None))
    );
    assert_eq!(flip(Side::Front), Side::Back);
    assert_eq!(flip(Side::Back), Side::Front);
}

#[test]
fn error_constructors() {
    assert_eq!(parts(HttpError::bad_request("no")), (400, "no".to_string()));
    assert_eq!(parts(HttpError::bad_gateway("down")), (502, "down".to_string()));
    let response = HttpError::Dynamic(418, "teapot".to_string()).into_hyper_response();
    assert_eq!(response.status, 418);
    assert!(response.headers.is_empty());
    assert_eq!(response.body, "teapot");
}

#[test]
fn local_services_take_get_only() {
    assert!(match_get("GET").is_ok());
    assert_eq!(parts(match_get("POST").unwrap_err()), (405, "method not allowed".to_string()));
    assert_eq!(match_get("get").unwrap_err().status(), 405);
}
