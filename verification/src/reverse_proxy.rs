//! The proxy engine's rules: which protocol a request is forwarded by, the
//! WebSocket handshake, the tunnel between the two sockets, and the errors
//! that a failed forward ends with.

use crate::header_map::{
    first_value, header_entries, header_get, is_header_name, opt_bytes,
};
use crate::headers::value_bytes;
use crate::http_error::{
    header_list, HttpError, HyperResponse, BAD_GATEWAY, BAD_REQUEST, INTERNAL_SERVER_ERROR,
    NOT_ACCEPTABLE, SWITCHING_PROTOCOLS,
};
use vstd::prelude::*;
use vstd::string::*;

verus! {

/// The `Sec-WebSocket-Accept` value that `tungstenite` derives from a
/// `Sec-WebSocket-Key`.
pub uninterp spec fn derived_accept_key(key: Seq<u8>) -> Seq<char>;

/// `tungstenite::handshake::derive_accept_key`: the accept value for a
/// request key. The contract names the value.
#[verifier::external_body]
fn accept_key(key: &Vec<u8>) -> (r: String)
    ensures
        r@ == derived_accept_key(key@),
{
    tungstenite::handshake::derive_accept_key(key.as_slice())
}

/// The protocol by which a request is forwarded.
#[derive(Clone, Copy, Debug, PartialEq, Eq, Structural)]
pub enum ProxyKind {
    /// Request and response bodies are streamed through.
    Plain,
    /// The connection is upgraded to a WebSocket tunnel.
    WebSocket,
}

/// The bytes of an ASCII text.
pub open spec fn ascii(text: Seq<char>) -> Seq<u8> {
    text.map_values(|c: char| c as u8)
}

/// The header names that this module reads and writes are header names.
pub proof fn lemma_proxy_names()
    ensures
        is_header_name("upgrade"@),
        is_header_name("sec-websocket-version"@),
        is_header_name("sec-websocket-key"@),
        is_header_name("sec-websocket-protocol"@),
{
    reveal_strlit("upgrade");
    reveal_strlit("sec-websocket-version");
    reveal_strlit("sec-websocket-key");
    reveal_strlit("sec-websocket-protocol");
}

/// The protocol that the `Upgrade` header asks for: plain forwarding
/// without the header, a WebSocket tunnel for `websocket`, 400 for anything
/// else.
pub open spec fn proxy_kind(upgrade: Option<Seq<u8>>) -> Result<ProxyKind, (u16, Seq<char>)> {
    match upgrade {
        None => Ok(ProxyKind::Plain),
        Some(value) => if value == ascii("websocket"@) {
            Ok(ProxyKind::WebSocket)
        } else {
            Err((BAD_REQUEST, "unrecognized `Upgrade` header"@))
        },
    }
}

/// Whether the bytes are those of the ASCII text.
fn bytes_are(bytes: &Vec<u8>, text: &str) -> (r: bool)
    requires
        text.is_ascii(),
    ensures
        r == (bytes@ == ascii(text@)),
{
    broadcast use vstd::string::is_ascii_spec_bytes;

    let expected = text.as_bytes();
    assert(expected@ =~= ascii(text@));
    if bytes.len() != expected.len() {
        return false;
    }
    let mut i: usize = 0;
    while i < bytes.len()
        invariant
            i <= bytes.len(),
            bytes.len() == expected.len(),
            expected@ == ascii(text@),
            forall|j: int| 0 <= j < i ==> bytes@[j] == expected@[j],
        decreases bytes.len() - i,
    {
        if bytes[i] != expected[i] {
            return false;
        }
        i += 1;
    }
    assert(bytes@ =~= expected@);
    true
}

/// The view of a result with an error.
pub open spec fn outcome<T>(r: Result<T, HttpError>) -> Result<T, (u16, Seq<char>)> {
    match r {
        Ok(v) => Ok(v),
        Err(e) => Err((e.spec_status(), e.spec_message())),
    }
}

/// Decides by the `Upgrade` header by which protocol a request, whose URI
/// is already rewritten, is forwarded.
pub fn reverse_proxy(headers: &http::HeaderMap<http::HeaderValue>) -> (r: Result<
    ProxyKind,
    HttpError,
>)
    ensures
        outcome(r) == proxy_kind(first_value(header_entries(*headers), "upgrade"@)),
{
    proof {
        lemma_proxy_names();
        reveal_strlit("websocket");
    }
    match header_get(headers, "upgrade") {
        None => Ok(ProxyKind::Plain),
        Some(value) => if bytes_are(&value, "websocket") {
            Ok(ProxyKind::WebSocket)
        } else {
            Err(HttpError::bad_request("unrecognized `Upgrade` header"))
        },
    }
}

/// What the handshake of a WebSocket request needs: the key, and the
/// subprotocol if the client named one.
#[derive(Debug)]
pub struct WebSocketRequest {
    pub key: Vec<u8>,
    pub protocol: Option<Vec<u8>>,
}

/// The handshake values of a request: 400 unless the version is `13` and a
/// key is there.
pub open spec fn websocket_request(entries: Map<Seq<char>, Seq<Seq<u8>>>) -> Result<
    (Seq<u8>, Option<Seq<u8>>),
    (u16, Seq<char>),
> {
    if first_value(entries, "sec-websocket-version"@) != Some(ascii("13"@)) {
        Err((BAD_REQUEST, "invalid websocket version"@))
    } else if first_value(entries, "sec-websocket-key"@).is_none() {
        Err((BAD_REQUEST, "`Sec-Websocket-Key` header missing"@))
    } else {
        Ok(
            (
                first_value(entries, "sec-websocket-key"@).unwrap(),
                first_value(entries, "sec-websocket-protocol"@),
            ),
        )
    }
}

/// The view of a handshake check's result.
pub open spec fn websocket_view(r: Result<WebSocketRequest, HttpError>) -> Result<
    (Seq<u8>, Option<Seq<u8>>),
    (u16, Seq<char>),
> {
    match r {
        Ok(w) => Ok((w.key@, opt_bytes(w.protocol))),
        Err(e) => Err((e.spec_status(), e.spec_message())),
    }
}

/// Checks a WebSocket request before the backend is asked to upgrade: the
/// version must be 13 and the key must be there.
pub fn proxy_websocket(headers: &http::HeaderMap<http::HeaderValue>) -> (r: Result<
    WebSocketRequest,
    HttpError,
>)
    ensures
        websocket_view(r) == websocket_request(header_entries(*headers)),
{
    proof {
        lemma_proxy_names();
        reveal_strlit("13");
    }
    let version_fits = match header_get(headers, "sec-websocket-version") {
        Some(version) => bytes_are(&version, "13"),
        None => false,
    };
    if !version_fits {
        return Err(HttpError::bad_request("invalid websocket version"));
    }
    let Some(key) = header_get(headers, "sec-websocket-key") else {
        return Err(HttpError::bad_request("`Sec-Websocket-Key` header missing"));
    };
    let protocol = header_get(headers, "sec-websocket-protocol");
    Ok(WebSocketRequest { key, protocol })
}

/// The headers of the reply to an accepted upgrade.
pub open spec fn switching_headers(key: Seq<u8>, protocol: Option<Seq<u8>>) -> Seq<
    (Seq<char>, Seq<u8>),
> {
    let fixed = seq![
        ("connection"@, value_bytes("upgrade"@)),
        ("upgrade"@, value_bytes("websocket"@)),
        ("sec-websocket-accept"@, value_bytes(derived_accept_key(key))),
        ("sec-websocket-key"@, key),
    ];
    match protocol {
        Some(p) => fixed.push(("sec-websocket-protocol"@, p)),
        None => fixed,
    }
}

/// The reply to the client once the backend has accepted the upgrade: 101
/// with `connection: upgrade`, `upgrade: websocket`, the accept value
/// derived from the key, the key itself, the subprotocol if one was named,
/// and an empty body.
pub fn switching_protocols(request: &WebSocketRequest) -> (r: HyperResponse)
    ensures
        r.status == SWITCHING_PROTOCOLS,
        header_list(r.headers@) == switching_headers(request.key@, opt_bytes(request.protocol)),
        r.body@ == Seq::<char>::empty(),
{
    let mut headers: Vec<(String, Vec<u8>)> = Vec::new();
    headers.push((String::from_str("connection"), "upgrade".as_bytes_vec()));
    headers.push((String::from_str("upgrade"), "websocket".as_bytes_vec()));
    headers.push(
        (String::from_str("sec-websocket-accept"), accept_key(&request.key).as_str().as_bytes_vec()),
    );
    headers.push((String::from_str("sec-websocket-key"), request.key.clone()));
    if let Some(protocol) = &request.protocol {
        headers.push((String::from_str("sec-websocket-protocol"), protocol.clone()));
    }
    proof {
        assert(header_list(headers@) =~= switching_headers(
            request.key@,
            opt_bytes(request.protocol),
        ));
    }
    HyperResponse { status: SWITCHING_PROTOCOLS, headers, body: String::new() }
}

/// Why the backend did not take a WebSocket upgrade.
#[derive(Clone, Copy, Debug, PartialEq, Eq, Structural)]
pub enum UpgradeFailure {
    /// The request could not be sent.
    Send,
    /// The backend answered with another status than 101.
    UnexpectedStatus(u16),
    /// The handshake failed in another way.
    Handshake,
    /// The HTTP client failed after the request was sent.
    Request,
    /// The WebSocket protocol was violated.
    Protocol,
    /// Anything else.
    Other,
}

/// The error for a failed upgrade: the backend's own status where it
/// refused, 502 otherwise.
pub open spec fn upgrade_failure(failure: UpgradeFailure) -> (u16, Seq<char>) {
    match failure {
        UpgradeFailure::Send => (BAD_GATEWAY, "bad gateway"@),
        UpgradeFailure::UnexpectedStatus(status) => (status, "upstream refused upgrade"@),
        UpgradeFailure::Handshake => (BAD_GATEWAY, "handshake failed"@),
        UpgradeFailure::Request => (BAD_GATEWAY, "unspecified request error"@),
        UpgradeFailure::Protocol => (BAD_GATEWAY, "protocol error"@),
        UpgradeFailure::Other => (BAD_GATEWAY, "protocol error"@),
    }
}

/// The error that a failed upgrade ends the request with.
pub fn upgrade_error(failure: UpgradeFailure) -> (e: HttpError)
    ensures
        (e.spec_status(), e.spec_message()) == upgrade_failure(failure),
{
    match failure {
        UpgradeFailure::Send => HttpError::bad_gateway("bad gateway"),
        UpgradeFailure::UnexpectedStatus(status) => HttpError::Static(
            status,
            "upstream refused upgrade",
        ),
        UpgradeFailure::Handshake => HttpError::bad_gateway("handshake failed"),
        UpgradeFailure::Request => HttpError::bad_gateway("unspecified request error"),
        UpgradeFailure::Protocol => HttpError::bad_gateway("protocol error"),
        UpgradeFailure::Other => HttpError::bad_gateway("protocol error"),
    }
}

/// The error for a forward that the outbound client failed: the status that
/// the client's error carries, 500 where it carries none, with the error's
/// message as the body.
pub fn reqwest_to_hyper_response(status: Option<u16>, message: String) -> (e: HttpError)
    ensures
        e.spec_status() == (match status {
            Some(s) => s,
            None => INTERNAL_SERVER_ERROR,
        }),
        e.spec_message() == message@,
{
    match status {
        Some(s) => HttpError::Dynamic(s, message),
        None => HttpError::Dynamic(INTERNAL_SERVER_ERROR, message),
    }
}

/// How the pump of a request body that cannot be streamed directly ended.
#[derive(Clone, Copy, Debug, PartialEq, Eq, Structural)]
pub enum BodyForward {
    /// The whole body was handed on.
    Done,
    /// Reading the inbound body failed.
    Input,
    /// The body ended with trailers.
    TrailingHeaders,
    /// The pump itself was lost.
    Lost,
}

/// The error for a body that was not handed on whole; none where it was.
pub open spec fn body_failure(forward: BodyForward) -> Option<(u16, Seq<char>)> {
    match forward {
        BodyForward::Done => None,
        BodyForward::Input => Some((BAD_REQUEST, ""@)),
        BodyForward::TrailingHeaders => Some((NOT_ACCEPTABLE, "trailing headers not supported"@)),
        BodyForward::Lost => Some((INTERNAL_SERVER_ERROR, "headers not sent"@)),
    }
}

/// The error, if any, that the end of the body pump puts in place of the
/// backend's response.
pub fn reverse_proxy_unsync(forward: BodyForward) -> (r: Option<HttpError>)
    ensures
        r.is_some() == body_failure(forward).is_some(),
        r matches Some(e) ==> Some((e.spec_status(), e.spec_message())) == body_failure(forward),
{
    match forward {
        BodyForward::Done => None,
        BodyForward::Input => Some(HttpError::bad_request("")),
        BodyForward::TrailingHeaders => Some(
            HttpError::Static(NOT_ACCEPTABLE, "trailing headers not supported"),
        ),
        BodyForward::Lost => Some(HttpError::Static(INTERNAL_SERVER_ERROR, "headers not sent")),
    }
}

/// A WebSocket message, as either socket delivers it.
#[derive(Debug)]
pub enum Message {
    Text(String),
    Binary(Vec<u8>),
    Ping(Vec<u8>),
    Pong(Vec<u8>),
    /// A close, with the code and reason of its frame if it has one.
    Close(Option<(u16, String)>),
}

/// What a socket of the tunnel delivered.
#[derive(Debug)]
pub enum Received {
    /// A message.
    Message(Message),
    /// A read error.
    Failed,
    /// The end of the stream.
    End,
}

/// The side of the tunnel that something was received on.
#[derive(Clone, Copy, Debug, PartialEq, Eq, Structural)]
pub enum Side {
    /// The client's socket.
    Front,
    /// The backend's socket.
    Back,
}

/// What the tunnel does next.
#[derive(Debug)]
pub enum TunnelStep {
    /// Send the message to the socket of the given side, dropping a send
    /// error, and go on.
    Send(Side, Message),
    /// Go on.
    Continue,
    /// End the tunnel. The socket of the given side is closed with the code
    /// and reason of the frame, or with a normal closure where there is no
    /// frame; the other socket, on which the close or the end of the stream
    /// came, is closed in reply.
    Close(Side, Option<(u16, String)>),
}

/// Whether what was received ends the tunnel: only the end of a stream
/// and a close do.
pub open spec fn ends_tunnel(received: Received) -> bool {
    received is End || received matches Received::Message(Message::Close(_))
}

/// Whether the tunnel goes on after this step.
pub open spec fn goes_on(step: TunnelStep) -> bool {
    !(step is Close)
}

/// The step for what was received on one side of the tunnel.
///
/// Text and binary messages go to the other side. Pings and pongs are
/// consumed, and a read error is passed over. A close ends the tunnel: the
/// code and reason of its frame are handed to the other side. The end of
/// either stream ends the tunnel too, with a normal closure of the other
/// side.
pub fn ws_tunnel(side: Side, received: Received) -> (step: TunnelStep)
    ensures
        goes_on(step) == !ends_tunnel(received),
        step == (match received {
            Received::End => TunnelStep::Close(other(side), None),
            Received::Failed => TunnelStep::Continue,
            Received::Message(Message::Text(text)) => TunnelStep::Send(
                other(side),
                Message::Text(text),
            ),
            Received::Message(Message::Binary(data)) => TunnelStep::Send(
                other(side),
                Message::Binary(data),
            ),
            Received::Message(Message::Ping(_)) => TunnelStep::Continue,
            Received::Message(Message::Pong(_)) => TunnelStep::Continue,
            Received::Message(Message::Close(frame)) => TunnelStep::Close(other(side), frame),
        }),
{
    match received {
        Received::End => TunnelStep::Close(flip(side), None),
        Received::Failed => TunnelStep::Continue,
        Received::Message(message) => match message {
            Message::Text(text) => TunnelStep::Send(flip(side), Message::Text(text)),
            Message::Binary(data) => TunnelStep::Send(flip(side), Message::Binary(data)),
            Message::Ping(_) => TunnelStep::Continue,
            Message::Pong(_) => TunnelStep::Continue,
            Message::Close(frame) => TunnelStep::Close(flip(side), frame),
        },
    }
}

/// The other side of the tunnel.
pub open spec fn other(side: Side) -> Side {
    match side {
        Side::Front => Side::Back,
        Side::Back => Side::Front,
    }
}

/// The other side of the tunnel.
pub fn flip(side: Side) -> (r: Side)
    ensures
        r == other(side),
{
    match side {
        Side::Front => Side::Back,
        Side::Back => Side::Front,
    }
}

} // verus!
