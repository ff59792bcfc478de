//! Route descriptors: what a matched path leads to.

use crate::header_map::header_entries;
use crate::local::LocalHandler;
use crate::uri::{clone_opt, Uri, UriView};
use crate::ArxError;
use vstd::prelude::*;
use vstd::string::*;

verus! {

/// The policy attached to a route that decides whether a session is
/// exchanged for an access token before the request is forwarded.
#[derive(Clone, Copy, Debug, PartialEq, Eq, Structural)]
pub enum AuthDirective {
    /// There must be a valid session, and an access token must be forwarded.
    Mandatory,
    /// An access token is forwarded if a session is present.
    Opportunistic,
    /// No access token is forwarded, and no session is needed.
    Disabled,
}

/// Chooses the directive for a request to a backend: a closed set of
/// selectors, each a decision from the request alone.
#[derive(Clone, Copy, Debug, PartialEq, Eq, Structural)]
pub enum AuthDirectiveFn {
    /// The same directive for every request.
    Always(AuthDirective),
}

impl AuthDirectiveFn {
    /// The directive for the request with this URI and these headers.
    pub open spec fn select(
        self,
        uri: UriView,
        headers: Map<Seq<char>, Seq<Seq<u8>>>,
    ) -> AuthDirective {
        match self {
            AuthDirectiveFn::Always(directive) => directive,
        }
    }

    /// The directive for the request with this URI and these headers.
    pub fn call(&self, uri: &Uri, headers: &http::HeaderMap<http::HeaderValue>) -> (r:
        AuthDirective)
        ensures
            r == self.select(uri@, header_entries(*headers)),
    {
        match self {
            AuthDirectiveFn::Always(directive) => *directive,
        }
    }
}

/// Which outbound client reaches a backend.
#[derive(Clone, Copy, Debug, PartialEq, Eq, Structural)]
pub enum BackendClass {
    /// The default client.
    Plain,
    /// The client configured with mesh certificates for mutual TLS.
    AuthlyMesh,
}

/// A network service the gateway proxies to.
#[derive(Debug)]
pub struct Proxy {
    backend_uri: Uri,
    backend_class: BackendClass,
    replace_prefix: Option<String>,
    auth_directive_fn: AuthDirectiveFn,
}

/// The mathematical value of a [`Proxy`].
pub struct ProxyView {
    pub backend_uri: UriView,
    pub backend_class: BackendClass,
    pub replace_prefix: Option<Seq<char>>,
    pub auth_directive_fn: AuthDirectiveFn,
}

/// A route that the gateway can handle.
#[derive(Debug)]
pub enum Route {
    /// Proxy to another networked service.
    Proxy(Proxy),
    /// A service or endpoint of the gateway itself.
    Local(LocalHandler),
    /// Redirect to another URI.
    TemporaryRedirect(Uri),
}

/// The mathematical value of a [`Route`].
pub enum RouteView {
    Proxy(ProxyView),
    Local(LocalHandler),
    TemporaryRedirect(UriView),
}

impl View for Proxy {
    type V = ProxyView;

    closed spec fn view(&self) -> ProxyView {
        ProxyView {
            backend_uri: self.backend_uri@,
            backend_class: self.backend_class,
            replace_prefix: self.replace_prefix.deep_view(),
            auth_directive_fn: self.auth_directive_fn,
        }
    }
}

impl View for Route {
    type V = RouteView;

    open spec fn view(&self) -> RouteView {
        match self {
            Route::Proxy(p) => RouteView::Proxy(p@),
            Route::Local(l) => RouteView::Local(*l),
            Route::TemporaryRedirect(u) => RouteView::TemporaryRedirect(u@),
        }
    }
}

impl Clone for Proxy {
    fn clone(&self) -> (r: Proxy)
        ensures
            r@ == self@,
    {
        Proxy {
            backend_uri: self.backend_uri.clone(),
            backend_class: self.backend_class,
            replace_prefix: clone_opt(&self.replace_prefix),
            auth_directive_fn: self.auth_directive_fn,
        }
    }
}

impl Clone for Route {
    fn clone(&self) -> (r: Route)
        ensures
            r@ == self@,
    {
        match self {
            Route::Proxy(p) => Route::Proxy(p.clone()),
            Route::Local(l) => Route::Local(*l),
            Route::TemporaryRedirect(u) => Route::TemporaryRedirect(u.clone()),
        }
    }
}

impl Proxy {
    /// A proxy to the service that the base URI reaches: over the default
    /// client, with the path handed on as it came and no exchange of sessions.
    pub fn from_backend_uri(uri: Uri) -> (r: Result<Proxy, ArxError>)
        ensures
            r matches Ok(p) && p@ == (ProxyView {
                backend_uri: uri@,
                backend_class: BackendClass::Plain,
                replace_prefix: None,
                auth_directive_fn: AuthDirectiveFn::Always(AuthDirective::Disabled),
            }),
    {
        Ok(
            Proxy {
                backend_uri: uri,
                backend_class: BackendClass::Plain,
                replace_prefix: None,
                auth_directive_fn: AuthDirectiveFn::Always(AuthDirective::Disabled),
            },
        )
    }

    /// The same proxy over another client.
    pub fn with_backend_class(self, class: BackendClass) -> (r: Proxy)
        ensures
            r@ == (ProxyView { backend_class: class, ..self@ }),
    {
        let mut p = self;
        p.backend_class = class;
        p
    }

    /// The same proxy with another selector of the directive on sessions.
    /// The selector sees the request as it is forwarded: with its URI
    /// rewritten.
    pub fn with_auth_directive_fn(self, f: AuthDirectiveFn) -> (r: Proxy)
        ensures
            r@ == (ProxyView { auth_directive_fn: f, ..self@ }),
    {
        let mut p = self;
        p.auth_directive_fn = f;
        p
    }

    /// The same proxy with the matched prefix replaced by `replacement`.
    pub fn with_replace_prefix(self, replacement: &str) -> (r: Proxy)
        ensures
            r@ == (ProxyView { replace_prefix: Some(replacement@), ..self@ }),
    {
        let mut p = self;
        p.replace_prefix = Some(String::from_str(replacement));
        p
    }

    /// The base URI of the backend.
    pub fn backend_uri(&self) -> (r: &Uri)
        ensures
            r@ == self@.backend_uri,
    {
        &self.backend_uri
    }

    /// The client that reaches the backend.
    pub fn backend_class(&self) -> (r: BackendClass)
        ensures
            r == self@.backend_class,
    {
        self.backend_class
    }

    /// The prefix that replaces the matched one, if any.
    pub fn replace_prefix(&self) -> (r: Option<&str>)
        ensures
            r.deep_view() == self@.replace_prefix,
    {
        match &self.replace_prefix {
            Some(p) => Some(p.as_str()),
            None => None,
        }
    }

    /// The directive on sessions for the request with this URI and these
    /// headers.
    pub fn get_auth_directive(
        &self,
        uri: &Uri,
        headers: &http::HeaderMap<http::HeaderValue>,
    ) -> (r: AuthDirective)
        ensures
            r == self@.auth_directive_fn.select(uri@, header_entries(*headers)),
    {
        self.auth_directive_fn.call(uri, headers)
    }
}

impl RouteView {
    /// The route in a few words.
    pub open spec fn description(self) -> Seq<char> {
        match self {
            RouteView::Local(_) => "Service"@,
            RouteView::TemporaryRedirect(_) => "Temporary redirect"@,
            RouteView::Proxy(proxy) => "Proxy to `"@ + proxy.backend_uri.text() + "`"@,
        }
    }
}

impl Route {
    /// The route in a few words: what kind it is, and for a proxy the
    /// backend it leads to.
    pub fn describe(&self) -> (s: String)
        ensures
            s@ == self@.description(),
    {
        match self {
            Route::Local(_) => String::from_str("Service"),
            Route::TemporaryRedirect(_) => String::from_str("Temporary redirect"),
            Route::Proxy(proxy) => {
                let uri = proxy.backend_uri.to_string();
                String::from_str("Proxy to `").concat(uri.as_str()).concat("`")
            },
        }
    }
}

impl From<Proxy> for Route {
    /// The route that proxies to `value`.
    fn from(value: Proxy) -> (r: Route) {
        Route::Proxy(value)
    }
}

impl vstd::std_specs::convert::FromSpecImpl<Proxy> for Route {
    open spec fn obeys_from_spec() -> bool {
        true
    }

    open spec fn from_spec(value: Proxy) -> Route {
        Route::Proxy(value)
    }
}

} // verus!
