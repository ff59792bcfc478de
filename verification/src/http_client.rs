//! The outbound clients: how one is configured, which one reaches a backend,
//! and what the holder of a client does as new builders arrive.

use crate::config::ArxConfig;
use crate::route::BackendClass;
use crate::ArxError;
use vstd::prelude::*;
use vstd::string::*;

verus! {

/// The settings of an outbound client. Durations are in milliseconds.
#[derive(Debug)]
pub struct HttpClientInstance {
    pub user_agent: String,
    pub connect_timeout: u64,
    pub timeout: u64,
    pub tcp_keepalive: u64,
    pub http2_keep_alive_timeout: u64,
    pub accept_invalid_certs: bool,
    pub built_in_root_certs: bool,
    pub built_in_webpki_certs: bool,
}

/// The settings that the configuration gives a client of this version of
/// the gateway.
pub fn build_instance(cfg: &ArxConfig, version: &str) -> (r: HttpClientInstance)
    ensures
        r.user_agent@ == "Arx/"@ + version@,
        r.connect_timeout == cfg.connect_timeout,
        r.timeout == cfg.request_timeout,
        r.tcp_keepalive == cfg.keep_alive_timeout,
        r.http2_keep_alive_timeout == cfg.keep_alive_timeout,
        r.accept_invalid_certs == cfg.http_accept_invalid_certs,
        r.built_in_root_certs == cfg.use_root_certs,
        r.built_in_webpki_certs == cfg.use_webpki_certs,
{
    HttpClientInstance {
        user_agent: String::from_str("Arx/").concat(version),
        connect_timeout: cfg.connect_timeout,
        timeout: cfg.request_timeout,
        tcp_keepalive: cfg.keep_alive_timeout,
        http2_keep_alive_timeout: cfg.keep_alive_timeout,
        accept_invalid_certs: cfg.http_accept_invalid_certs,
        built_in_root_certs: cfg.use_root_certs,
        built_in_webpki_certs: cfg.use_webpki_certs,
    }
}

/// The clients of the gateway, one for each class of backend.
#[derive(Debug)]
pub struct Backends<T> {
    /// The default client.
    pub default: T,
    /// The client configured for mutual TLS with the mesh.
    pub authly: T,
}

impl<T> Backends<T> {
    /// The client that reaches backends of the given class.
    pub fn select(&self, class: BackendClass) -> (r: &T)
        ensures
            *r == (match class {
                BackendClass::Plain => self.default,
                BackendClass::AuthlyMesh => self.authly,
            }),
    {
        match class {
            BackendClass::Plain => &self.default,
            BackendClass::AuthlyMesh => &self.authly,
        }
    }
}

/// What happened to the stream of builders that feeds a client holder.
#[derive(Clone, Copy, Debug, PartialEq, Eq, Structural)]
pub enum BuilderEvent {
    /// A builder arrived; `true` where a client could be built from it.
    Builder(bool),
    /// The stream has ended.
    Ended,
    /// The gateway is shutting down.
    Cancelled,
}

/// What a client holder does next.
#[derive(Clone, Copy, Debug, PartialEq, Eq, Structural)]
pub enum HolderStep {
    /// Put the new client in place of the current one, for new requests.
    Publish,
    /// Keep the current client.
    Retain,
    /// Stop following the stream.
    Exit,
}

/// The description of the error for a holder that cannot be made.
pub open spec fn no_holder(first: Option<bool>) -> Seq<char> {
    if first.is_none() {
        "no client builders"@
    } else {
        "client cannot be built"@
    }
}

/// Whether a holder can be made at all: only where the stream hands out a
/// first builder and a client can be built from it. `first` is `None` for a
/// stream without a builder, and otherwise says whether the client was
/// built.
pub fn first_builder(first: Option<bool>) -> (r: Result<(), ArxError>)
    ensures
        r.is_ok() == (first == Some(true)),
        r matches Err(e) ==> e matches ArxError::Internal(text) && text@ == no_holder(first),
{
    match first {
        Some(true) => Ok(()),
        Some(false) => Err(ArxError::Internal(String::from_str("client cannot be built"))),
        None => Err(ArxError::Internal(String::from_str("no client builders"))),
    }
}

/// The step of a client holder for an event of its stream: a client that
/// was built is published, a builder that gives none leaves the current
/// client in place, and the end of the stream or a shutdown ends the holder.
pub fn create_with_builder_stream(event: BuilderEvent) -> (step: HolderStep)
    ensures
        step == (match event {
            BuilderEvent::Builder(true) => HolderStep::Publish,
            BuilderEvent::Builder(false) => HolderStep::Retain,
            BuilderEvent::Ended => HolderStep::Exit,
            BuilderEvent::Cancelled => HolderStep::Exit,
        }),
{
    match event {
        BuilderEvent::Builder(built) => if built {
            HolderStep::Publish
        } else {
            HolderStep::Retain
        },
        BuilderEvent::Ended => HolderStep::Exit,
        BuilderEvent::Cancelled => HolderStep::Exit,
    }
}

} // verus!
