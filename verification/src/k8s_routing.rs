//! Compiling declarative routes into a route table.
//!
//! A route resource is a list of rules; each rule names backends, filters
//! and path matches. What a resource adds to a table is its *plan*: the
//! insertions it makes, in order. A plan ends early where a URI that it
//! needs cannot be parsed.

use crate::k8s_util::ApiWatcherCallbacks;
use crate::route::{
    AuthDirective, AuthDirectiveFn, BackendClass, Proxy, ProxyView, Route, RouteView,
};
use crate::static_routes::{static_plan, static_routes, static_routes_fit};
use crate::table::{entry, fits, insert, router_insertions, Insertion, RouteTable};
use crate::text::{
    chars_of, ends_with, ends_with_char, lemma_strip_trailing, push_decimal, signed_decimal,
    slash_terminated, str_eq, string_of, strip_trailing, trailing_start,
};
use crate::uri::{parsed_uri, Uri};
use crate::ArxError;
use vstd::prelude::*;
use vstd::string::*;

verus! {

/// The name by which route resources bind to this gateway.
pub open spec fn gateway_name() -> Seq<char> {
    "arx"@
}

/// The group of the extensions that this gateway understands.
pub open spec fn extension_group() -> Seq<char> {
    "authly.id"@
}

/// How the value of a path match is compared with a request path.
#[derive(Clone, Copy, Debug, PartialEq, Eq, Structural)]
pub enum PathMatchType {
    Exact,
    PathPrefix,
    RegularExpression,
}

/// A path match: its kind, a prefix match where none is given, and its value.
#[derive(Debug)]
pub struct HttpPathMatch {
    pub kind: Option<PathMatchType>,
    pub value: Option<String>,
}

/// One match of a rule.
#[derive(Debug)]
pub struct HttpRouteMatch {
    pub path: Option<HttpPathMatch>,
}

/// A reference to an extension, by group and name.
#[derive(Debug)]
pub struct ExtensionRef {
    pub group: String,
    pub name: String,
}

/// A rewrite of the request URL: the replacement for the matched prefix.
#[derive(Debug)]
pub struct UrlRewrite {
    pub replace_prefix_match: Option<String>,
}

/// A filter of a rule or of a backend reference.
#[derive(Debug)]
pub struct HttpRouteFilter {
    pub url_rewrite: Option<UrlRewrite>,
    pub extension_ref: Option<ExtensionRef>,
}

/// A backend that a rule sends to.
#[derive(Debug)]
pub struct HttpBackendRef {
    pub name: String,
    pub port: Option<i32>,
    pub filters: Option<Vec<HttpRouteFilter>>,
}

/// One rule of a route resource.
#[derive(Debug)]
pub struct HttpRouteRule {
    pub backend_refs: Option<Vec<HttpBackendRef>>,
    pub filters: Option<Vec<HttpRouteFilter>>,
    pub matches: Option<Vec<HttpRouteMatch>>,
}

/// A gateway that a route resource binds to.
#[derive(Debug)]
pub struct ParentRef {
    pub name: String,
}

/// A declarative route resource.
#[derive(Debug)]
pub struct HttpRoute {
    pub name: Option<String>,
    pub parent_refs: Option<Vec<ParentRef>>,
    pub rules: Option<Vec<HttpRouteRule>>,
}

/// The items of an optional list, none where the list is absent.
pub open spec fn items<T>(list: Option<Vec<T>>) -> Seq<T> {
    match list {
        Some(v) => v@,
        None => Seq::empty(),
    }
}

/// Whether a filter refers to the extension `name` of this gateway's group.
pub open spec fn is_extension(filter: HttpRouteFilter, name: Seq<char>) -> bool {
    filter.extension_ref matches Some(e) && e.group@ == extension_group() && e.name@ == name
}

/// Whether one of the first `n` filters asks for the mesh.
pub open spec fn asks_mesh(filters: Seq<HttpRouteFilter>, n: int) -> bool {
    exists|i: int| 0 <= i < n && is_extension(#[trigger] filters[i], "mesh"@)
}

/// The client class of a backend: the mesh where its port is 443 or one of
/// its filters asks for it.
pub open spec fn backend_class_of(backend: HttpBackendRef) -> BackendClass {
    if backend.port == Some(443i32) || asks_mesh(
        items(backend.filters),
        items(backend.filters).len() as int,
    ) {
        BackendClass::AuthlyMesh
    } else {
        BackendClass::Plain
    }
}

/// The URI of a backend as text: `https` for the mesh and `http` otherwise,
/// then the backend's name and, unless it is 443, its port.
pub open spec fn backend_text(backend: HttpBackendRef) -> Seq<char> {
    (if backend_class_of(backend) == BackendClass::AuthlyMesh {
        "https"@
    } else {
        "http"@
    }) + "://"@ + backend.name@ + (if backend.port == Some(443i32) {
        Seq::<char>::empty()
    } else {
        ":"@ + signed_decimal(backend.port.unwrap() as int)
    })
}

/// The directive that a filter names, if it names one.
pub open spec fn named_directive(filter: HttpRouteFilter) -> Option<AuthDirective> {
    if is_extension(filter, "authn"@) || is_extension(filter, "authn-mandatory"@) {
        Some(AuthDirective::Mandatory)
    } else if is_extension(filter, "authn-opportunistic"@) {
        Some(AuthDirective::Opportunistic)
    } else if is_extension(filter, "authn-disabled"@) {
        Some(AuthDirective::Disabled)
    } else {
        None
    }
}

/// The directive that the first `n` filters set: that of the last one that
/// names one, `Disabled` where none does.
pub open spec fn directive_of(filters: Seq<HttpRouteFilter>, n: int) -> AuthDirective
    decreases n,
{
    if n <= 0 {
        AuthDirective::Disabled
    } else {
        match named_directive(filters[n - 1]) {
            Some(d) => d,
            None => directive_of(filters, n - 1),
        }
    }
}

/// The replacement prefix that the first `n` filters set: that of the last
/// URL rewrite among them, ending with a slash.
pub open spec fn replacement_of(filters: Seq<HttpRouteFilter>, n: int) -> Option<Seq<char>>
    decreases n,
{
    if n <= 0 {
        None
    } else {
        match filters[n - 1].url_rewrite {
            Some(rewrite) => match rewrite.replace_prefix_match {
                Some(p) => Some(slash_terminated(p@)),
                None => None,
            },
            None => replacement_of(filters, n - 1),
        }
    }
}

/// The proxy of a rule, before any prefix replacement.
pub open spec fn rule_proxy(rule: HttpRouteRule) -> ProxyView {
    let backend = items(rule.backend_refs)[0];
    ProxyView {
        backend_uri: parsed_uri(backend_text(backend)).unwrap(),
        backend_class: backend_class_of(backend),
        replace_prefix: None,
        auth_directive_fn: AuthDirectiveFn::Always(
            directive_of(items(rule.filters), items(rule.filters).len() as int),
        ),
    }
}

/// The proxy with the replacement prefix, where there is one.
pub open spec fn replacing(proxy: ProxyView, replacement: Option<Seq<char>>) -> ProxyView {
    match replacement {
        Some(p) => ProxyView { replace_prefix: Some(p), ..proxy },
        None => proxy,
    }
}

/// What a prefix match on `value` inserts: a redirect from the value
/// without trailing slashes to the value ending with one slash, and the
/// proxy under that prefix and under everything below it; a pattern that
/// does not fit the router is left out. `false` where the redirect's target
/// is no URI; nothing is inserted then.
pub open spec fn prefix_plan(proxy: ProxyView, replacement: Option<Seq<char>>, value: Seq<char>) -> (
    Seq<Insertion>,
    bool,
) {
    let prefix = slash_terminated(value);
    match parsed_uri(prefix) {
        Some(target) => (
            entry(strip_trailing(value, '/'), RouteView::TemporaryRedirect(target)) + entry(
                prefix,
                RouteView::Proxy(replacing(proxy, replacement)),
            ) + entry(prefix + "{*path}"@, RouteView::Proxy(replacing(proxy, replacement))),
            true,
        ),
        None => (Seq::empty(), false),
    }
}

/// What one match inserts, and whether the plan goes on after it.
pub open spec fn match_plan(
    proxy: ProxyView,
    replacement: Option<Seq<char>>,
    m: HttpRouteMatch,
) -> (Seq<Insertion>, bool) {
    match m.path {
        Some(path) => match path.value {
            Some(value) => match path.kind {
                Some(PathMatchType::Exact) => (entry(value@, RouteView::Proxy(proxy)), true),
                Some(PathMatchType::RegularExpression) => (Seq::empty(), true),
                Some(PathMatchType::PathPrefix) => prefix_plan(proxy, replacement, value@),
                None => prefix_plan(proxy, replacement, value@),
            },
            None => (Seq::empty(), true),
        },
        None => (Seq::empty(), true),
    }
}

/// What the first `n` matches insert, and whether all of them went through.
pub open spec fn matches_plan(
    proxy: ProxyView,
    replacement: Option<Seq<char>>,
    matches: Seq<HttpRouteMatch>,
    n: int,
) -> (Seq<Insertion>, bool)
    decreases n,
{
    if n <= 0 {
        (Seq::empty(), true)
    } else {
        let before = matches_plan(proxy, replacement, matches, n - 1);
        if !before.1 {
            before
        } else {
            let this = match_plan(proxy, replacement, matches[n - 1]);
            (before.0 + this.0, this.1)
        }
    }
}

/// What one rule inserts. A rule without a backend, or whose first backend
/// has no port, inserts nothing; so does one whose backend URI cannot be
/// parsed, and the plan ends there.
pub open spec fn rule_plan(rule: HttpRouteRule) -> (Seq<Insertion>, bool) {
    let backends = items(rule.backend_refs);
    if backends.len() == 0 || backends[0].port.is_none() {
        (Seq::empty(), true)
    } else if parsed_uri(backend_text(backends[0])).is_none() {
        (Seq::empty(), false)
    } else {
        matches_plan(
            rule_proxy(rule),
            replacement_of(items(rule.filters), items(rule.filters).len() as int),
            items(rule.matches),
            items(rule.matches).len() as int,
        )
    }
}

/// What the first `n` rules insert, and whether all of them went through.
pub open spec fn rules_plan(rules: Seq<HttpRouteRule>, n: int) -> (Seq<Insertion>, bool)
    decreases n,
{
    if n <= 0 {
        (Seq::empty(), true)
    } else {
        let before = rules_plan(rules, n - 1);
        if !before.1 {
            before
        } else {
            let this = rule_plan(rules[n - 1]);
            (before.0 + this.0, this.1)
        }
    }
}

/// What a route resource inserts, and whether it was compiled to its end.
pub open spec fn route_plan(route: HttpRoute) -> (Seq<Insertion>, bool) {
    rules_plan(items(route.rules), items(route.rules).len() as int)
}

/// Whether a filter refers to the extension `name` of this gateway's group.
fn filter_is(filter: &HttpRouteFilter, name: &str) -> (r: bool)
    ensures
        r == is_extension(*filter, name@),
{
    match &filter.extension_ref {
        Some(e) => str_eq(e.group.as_str(), "authly.id") && str_eq(e.name.as_str(), name),
        None => false,
    }
}

/// The client class of a backend.
fn backend_class(backend: &HttpBackendRef) -> (r: BackendClass)
    ensures
        r == backend_class_of(*backend),
{
    let mut mesh = false;
    if let Some(filters) = &backend.filters {
        let mut i: usize = 0;
        while i < filters.len()
            invariant
                i <= filters.len(),
                mesh == asks_mesh(filters@, i as int),
            decreases filters.len() - i,
        {
            if filter_is(&filters[i], "mesh") {
                mesh = true;
            }
            i += 1;
        }
    }
    match backend.port {
        Some(port) => {
            if port == 443 {
                mesh = true;
            }
        },
        None => {},
    }
    if mesh {
        BackendClass::AuthlyMesh
    } else {
        BackendClass::Plain
    }
}

/// The directive that the filters of a rule set.
fn rule_directive(filters: &Option<Vec<HttpRouteFilter>>) -> (r: AuthDirective)
    ensures
        r == directive_of(items(*filters), items(*filters).len() as int),
{
    let mut directive = AuthDirective::Disabled;
    if let Some(filters) = filters {
        let mut i: usize = 0;
        while i < filters.len()
            invariant
                i <= filters.len(),
                directive == directive_of(filters@, i as int),
            decreases filters.len() - i,
        {
            let filter = &filters[i];
            if filter_is(filter, "authn") || filter_is(filter, "authn-mandatory") {
                directive = AuthDirective::Mandatory;
            } else if filter_is(filter, "authn-opportunistic") {
                directive = AuthDirective::Opportunistic;
            } else if filter_is(filter, "authn-disabled") {
                directive = AuthDirective::Disabled;
            }
            i += 1;
        }
    }
    directive
}

/// The replacement prefix that the filters of a rule set.
fn rule_replacement(filters: &Option<Vec<HttpRouteFilter>>) -> (r: Option<String>)
    ensures
        r.deep_view() == replacement_of(items(*filters), items(*filters).len() as int),
{
    let mut replacement: Option<String> = None;
    if let Some(filters) = filters {
        let mut i: usize = 0;
        while i < filters.len()
            invariant
                i <= filters.len(),
                replacement.deep_view() == replacement_of(filters@, i as int),
            decreases filters.len() - i,
        {
            if let Some(rewrite) = &filters[i].url_rewrite {
                replacement = match &rewrite.replace_prefix_match {
                    Some(p) => Some(with_slash(p.as_str())),
                    None => None,
                };
            }
            i += 1;
        }
    }
    replacement
}

/// The string, with a slash added unless it ends with one.
fn with_slash(s: &str) -> (r: String)
    ensures
        r@ == slash_terminated(s@),
{
    let mut r = String::from_str(s);
    if !ends_with_char(s, '/') {
        r.push('/');
    }
    r
}

/// The error for a URI that could not be parsed.
fn invalid_uri() -> (e: ArxError)
    ensures
        e matches ArxError::Internal(text) && text@ == "invalid uri"@,
{
    ArxError::Internal(String::from_str("invalid uri"))
}

/// Inserts a route under a pattern. A pattern that the router refuses, as
/// one that is already taken, is dropped: what was inserted first stays. A
/// pattern that does not fit the router is dropped without being handed to
/// it.
pub fn try_insert_route(output: &mut RouteTable, path: &str, route: Route)
    ensures
        router_insertions(*final(output)) == router_insertions(*old(output)) + entry(
            path@,
            route@,
        ),
{
    let _ = insert(output, path, route);
}

/// Inserts what a prefix match on `value` asks for.
fn add_prefix_match(
    output: &mut RouteTable,
    proxy: &Proxy,
    replacement: &Option<String>,
    value: &str,
) -> (ok: bool)
    ensures
        ok == prefix_plan(proxy@, replacement.deep_view(), value@).1,
        router_insertions(*final(output)) == router_insertions(*old(output)) + prefix_plan(
            proxy@,
            replacement.deep_view(),
            value@,
        ).0,
{
    let chars = chars_of(value);
    let kept = trailing_start(&chars, '/');
    let unterminated = string_of(&chars, 0, kept);
    let prefix = with_slash(value);
    let target = match Uri::parse(prefix.as_str()) {
        Some(uri) => uri,
        None => {
            assert(router_insertions(*output) + Seq::<Insertion>::empty() =~= router_insertions(
                *output,
            ));
            return false;
        },
    };
    let proxy = match replacement {
        Some(p) => proxy.clone().with_replace_prefix(p.as_str()),
        None => proxy.clone(),
    };
    try_insert_route(output, unterminated.as_str(), Route::TemporaryRedirect(target));
    try_insert_route(output, prefix.as_str(), Route::Proxy(proxy.clone()));
    let pattern = prefix.concat("{*path}");
    try_insert_route(output, pattern.as_str(), Route::Proxy(proxy));
    proof {
        let plan = prefix_plan(proxy@, replacement.deep_view(), value@).0;
        assert(router_insertions(*output) =~= router_insertions(*old(output)) + plan);
    }
    true
}

/// Inserts what one match asks for.
fn add_match(
    output: &mut RouteTable,
    proxy: &Proxy,
    replacement: &Option<String>,
    m: &HttpRouteMatch,
) -> (ok: bool)
    ensures
        ok == match_plan(proxy@, replacement.deep_view(), *m).1,
        router_insertions(*final(output)) == router_insertions(*old(output)) + match_plan(
            proxy@,
            replacement.deep_view(),
            *m,
        ).0,
{
    assert(router_insertions(*output) + Seq::<Insertion>::empty() =~= router_insertions(*output));
    let Some(path) = &m.path else {
        return true;
    };
    let Some(value) = &path.value else {
        return true;
    };
    match path.kind {
        None | Some(PathMatchType::PathPrefix) => add_prefix_match(
            output,
            proxy,
            replacement,
            value.as_str(),
        ),
        Some(PathMatchType::Exact) => {
            try_insert_route(output, value.as_str(), Route::Proxy(proxy.clone()));
            true
        },
        Some(PathMatchType::RegularExpression) => true,
    }
}

/// The URI of a backend, as text.
fn backend_uri_text(backend: &HttpBackendRef, class: BackendClass, port: i32) -> (r: String)
    requires
        backend.port == Some(port),
        class == backend_class_of(*backend),
    ensures
        r@ == backend_text(*backend),
{
    let mut text = match class {
        BackendClass::AuthlyMesh => String::from_str("https"),
        BackendClass::Plain => String::from_str("http"),
    };
    text.append("://");
    text.append(backend.name.as_str());
    if port != 443 {
        let ghost head = text@;
        text.append(":");
        push_decimal(&mut text, port);
        assert(text@ =~= head + (":"@ + signed_decimal(port as int)));
    } else {
        assert(text@ + Seq::<char>::empty() =~= text@);
    }
    text
}

/// Inserts what one rule asks for.
fn add_rule(output: &mut RouteTable, rule: &HttpRouteRule) -> (ok: bool)
    ensures
        ok == rule_plan(*rule).1,
        router_insertions(*final(output)) == router_insertions(*old(output)) + rule_plan(*rule).0,
{
    assert(router_insertions(*output) + Seq::<Insertion>::empty() =~= router_insertions(*output));
    let Some(backends) = &rule.backend_refs else {
        return true;
    };
    if backends.len() == 0 {
        return true;
    }
    let backend = &backends[0];
    let Some(port) = backend.port else {
        return true;
    };
    let class = backend_class(backend);
    let text = backend_uri_text(backend, class, port);
    let Some(uri) = Uri::parse(text.as_str()) else {
        return false;
    };
    let Ok(proxy) = Proxy::from_backend_uri(uri) else {
        return false;
    };
    let proxy = proxy.with_backend_class(class).with_auth_directive_fn(
        AuthDirectiveFn::Always(rule_directive(&rule.filters)),
    );
    let replacement = rule_replacement(&rule.filters);
    assert(proxy@ == rule_proxy(*rule));
    let Some(matches) = &rule.matches else {
        return true;
    };
    let mut i: usize = 0;
    while i < matches.len()
        invariant
            i <= matches.len(),
            rule_plan(*rule) == matches_plan(
                proxy@,
                replacement.deep_view(),
                matches@,
                matches@.len() as int,
            ),
            matches_plan(proxy@, replacement.deep_view(), matches@, i as int).1,
            router_insertions(*output) == router_insertions(*old(output)) + matches_plan(
                proxy@,
                replacement.deep_view(),
                matches@,
                i as int,
            ).0,
        decreases matches.len() - i,
    {
        let ghost before = matches_plan(proxy@, replacement.deep_view(), matches@, i as int).0;
        let ghost this = match_plan(proxy@, replacement.deep_view(), matches@[i as int]).0;
        let ok = add_match(output, &proxy, &replacement, &matches[i]);
        assert(router_insertions(*old(output)) + before + this =~= router_insertions(
            *old(output),
        ) + (before + this));
        i += 1;
        if !ok {
            proof {
                lemma_matches_plan_stops(
                    proxy@,
                    replacement.deep_view(),
                    matches@,
                    i as int,
                    matches.len() as int,
                );
            }
            return false;
        }
    }
    true
}

/// Once a match ends the plan, later matches add nothing.
proof fn lemma_matches_plan_stops(
    proxy: ProxyView,
    replacement: Option<Seq<char>>,
    matches: Seq<HttpRouteMatch>,
    i: int,
    n: int,
)
    requires
        0 <= i <= n,
        !matches_plan(proxy, replacement, matches, i).1,
    ensures
        matches_plan(proxy, replacement, matches, n) == matches_plan(
            proxy,
            replacement,
            matches,
            i,
        ),
    decreases n - i,
{
    if i < n {
        lemma_matches_plan_stops(proxy, replacement, matches, i, n - 1);
    }
}

/// Once a rule ends the plan, later rules add nothing.
proof fn lemma_rules_plan_stops(rules: Seq<HttpRouteRule>, i: int, n: int)
    requires
        0 <= i <= n,
        !rules_plan(rules, i).1,
    ensures
        rules_plan(rules, n) == rules_plan(rules, i),
    decreases n - i,
{
    if i < n {
        lemma_rules_plan_stops(rules, i, n - 1);
    }
}

/// Compiles one route resource into the table.
///
/// Per rule, the first backend gives the proxy: its class is the mesh where
/// the port is 443 or a backend filter asks for it, its scheme `https` for
/// the mesh and `http` otherwise. The rule's filters give the replacement
/// prefix and the directive on sessions. Each match with a path value then
/// inserts its routes; a pattern that the table refuses is dropped.
///
/// The result is the internal error `invalid uri` where a URI that the plan
/// needs cannot be parsed; what was inserted until then stays.
pub fn try_add_http_route(
    output: &mut RouteTable,
    name: &str,
    http_route: &HttpRoute,
) -> (r: Result<(), ArxError>)
    ensures
        r.is_ok() == route_plan(*http_route).1,
        r matches Err(e) ==> e matches ArxError::Internal(text) && text@ == "invalid uri"@,
        router_insertions(*final(output)) == router_insertions(*old(output)) + route_plan(
            *http_route,
        ).0,
{
    assert(router_insertions(*output) + Seq::<Insertion>::empty() =~= router_insertions(*output));
    if let Some(rules) = &http_route.rules {
        let mut i: usize = 0;
        while i < rules.len()
            invariant
                i <= rules.len(),
                route_plan(*http_route) == rules_plan(rules@, rules@.len() as int),
                rules_plan(rules@, i as int).1,
                router_insertions(*output) == router_insertions(*old(output)) + rules_plan(
                    rules@,
                    i as int,
                ).0,
            decreases rules.len() - i,
        {
            let ghost before = rules_plan(rules@, i as int).0;
            let ghost this = rule_plan(rules@[i as int]).0;
            let ok = add_rule(output, &rules[i]);
            assert(router_insertions(*old(output)) + before + this =~= router_insertions(
                *old(output),
            ) + (before + this));
            i += 1;
            if !ok {
                proof {
                    lemma_rules_plan_stops(rules@, i as int, rules.len() as int);
                }
                return Err(invalid_uri());
            }
        }
    }
    Ok(())
}

/// What the first `n` route resources insert, one after the other. A
/// resource that is not compiled to its end still leaves what it inserted.
pub open spec fn routes_plan(routes: Seq<(String, HttpRoute)>, n: int) -> Seq<Insertion>
    decreases n,
{
    if n <= 0 {
        Seq::empty()
    } else {
        routes_plan(routes, n - 1) + route_plan(routes[n - 1].1).0
    }
}

/// Builds the route table: the static routes, then every route resource in
/// the order given. Earlier insertions win over later ones, so the static
/// routes win over all resources. A resource that cannot be compiled to its
/// end is given up where it failed; the others are compiled all the same.
pub fn rebuild_routing_table(k8s_routes: &Vec<(String, HttpRoute)>) -> (r: Result<
    RouteTable,
    ArxError,
>)
    ensures
        r.is_ok() == static_routes_fit(),
        r matches Ok(router) ==> router_insertions(router) == static_plan() + routes_plan(
            k8s_routes@,
            k8s_routes@.len() as int,
        ),
{
    let mut output = match static_routes() {
        Ok(routes) => routes,
        Err(e) => {
            return Err(e);
        },
    };
    assert(static_plan() + Seq::<Insertion>::empty() =~= static_plan());
    let mut i: usize = 0;
    while i < k8s_routes.len()
        invariant
            i <= k8s_routes.len(),
            static_routes_fit(),
            router_insertions(output) == static_plan() + routes_plan(k8s_routes@, i as int),
        decreases k8s_routes.len() - i,
    {
        let ghost before = routes_plan(k8s_routes@, i as int);
        let ghost this = route_plan(k8s_routes@[i as int].1).0;
        let _ = try_add_http_route(&mut output, k8s_routes[i].0.as_str(), &k8s_routes[i].1);
        assert(static_plan() + before + this =~= static_plan() + (before + this));
        i += 1;
    }
    Ok(output)
}

/// Whether a route resource binds to this gateway: it has a name, and one of
/// its parents is the gateway.
pub open spec fn binds_to_gateway(route: HttpRoute) -> bool {
    route.name.is_some() && names_gateway(
        items(route.parent_refs),
        items(route.parent_refs).len() as int,
    )
}

/// Whether one of the first `n` parents is this gateway.
pub open spec fn names_gateway(parents: Seq<ParentRef>, n: int) -> bool {
    exists|i: int| 0 <= i < n && (#[trigger] parents[i]).name@ == gateway_name()
}

/// The route resource with its name, where it binds to this gateway.
pub fn filter_k8s_http_route(http_route: HttpRoute) -> (r: Option<(String, HttpRoute)>)
    ensures
        r.is_some() == binds_to_gateway(http_route),
        r matches Some(n) ==> n == named(http_route),
{
    let name = match &http_route.name {
        Some(name) => name.clone(),
        None => {
            return None;
        },
    };
    if is_bound(&http_route) {
        Some((name, http_route))
    } else {
        None
    }
}

/// Whether a route resource binds to this gateway.
pub fn is_bound(http_route: &HttpRoute) -> (r: bool)
    ensures
        r == binds_to_gateway(*http_route),
{
    if http_route.name.is_none() {
        return false;
    }
    let mut bound = false;
    if let Some(parents) = &http_route.parent_refs {
        let mut i: usize = 0;
        while i < parents.len()
            invariant
                i <= parents.len(),
                bound == names_gateway(parents@, i as int),
            decreases parents.len() - i,
        {
            if str_eq(parents[i].name.as_str(), "arx") {
                bound = true;
            }
            i += 1;
        }
    }
    bound
}

/// Compiling a prefix match on a value and on that value with its slash
/// added gives the same insertions: the slash is added once.
pub proof fn lemma_prefix_plan_idempotent(
    proxy: ProxyView,
    replacement: Option<Seq<char>>,
    value: Seq<char>,
)
    ensures
        slash_terminated(slash_terminated(value)) == slash_terminated(value),
        prefix_plan(proxy, replacement, slash_terminated(value)) == prefix_plan(
            proxy,
            replacement,
            value,
        ),
{
    if !ends_with(value, '/') {
        let t = value.push('/');
        assert(t.drop_last() =~= value);
        assert(strip_trailing(t, '/') == strip_trailing(value, '/'));
    }
}

/// A prefix match on a value without a trailing slash redirects from the
/// value to the value followed by a slash.
pub proof fn lemma_prefix_plan_unterminated(
    proxy: ProxyView,
    replacement: Option<Seq<char>>,
    value: Seq<char>,
)
    requires
        !ends_with(value, '/'),
        fits(value),
        prefix_plan(proxy, replacement, value).1,
    ensures
        prefix_plan(proxy, replacement, value).0[0] == (
            value,
            RouteView::TemporaryRedirect(parsed_uri(value.push('/')).unwrap()),
        ),
{
}

/// A prefix match on a value with trailing slashes redirects to the value
/// from what is left of it when every trailing slash is taken away.
pub proof fn lemma_prefix_plan_terminated(
    proxy: ProxyView,
    replacement: Option<Seq<char>>,
    value: Seq<char>,
)
    requires
        ends_with(value, '/'),
        fits(strip_trailing(value, '/')),
        prefix_plan(proxy, replacement, value).1,
    ensures
        prefix_plan(proxy, replacement, value).0[0] == (
            strip_trailing(value, '/'),
            RouteView::TemporaryRedirect(parsed_uri(value).unwrap()),
        ),
        !ends_with(strip_trailing(value, '/'), '/'),
        strip_trailing(value, '/').is_prefix_of(value),
        strip_trailing(value, '/').len() < value.len(),
        forall|i: int|
            strip_trailing(value, '/').len() <= i < value.len() ==> value[i] == '/',
{
    lemma_strip_trailing(value, '/');
}

/// Index of the first resource of that name, or the length of the list.
pub open spec fn named_at(routes: Seq<(String, HttpRoute)>, name: Seq<char>) -> int
    decreases routes.len(),
{
    if routes.len() == 0 {
        0
    } else if routes[0].0@ == name {
        0
    } else {
        1 + named_at(routes.drop_first(), name)
    }
}

/// `named_at` is the least index of a resource of that name.
pub proof fn lemma_named_at(routes: Seq<(String, HttpRoute)>, name: Seq<char>, i: int)
    requires
        0 <= i <= routes.len(),
        forall|j: int| 0 <= j < i ==> (#[trigger] routes[j]).0@ != name,
        i < routes.len() ==> routes[i].0@ == name,
    ensures
        named_at(routes, name) == i,
    decreases routes.len(),
{
    if routes.len() == 0 {
    } else if routes[0].0@ == name {
        assert(i == 0);
    } else {
        let rest = routes.drop_first();
        assert forall|j: int| 0 <= j < i - 1 implies (#[trigger] rest[j]).0@ != name by {
            assert(rest[j] == routes[j + 1]);
        }
        lemma_named_at(rest, name, i - 1);
    }
}

/// What `named_at` finds: an index within the list or its length, no
/// resource of that name before it, and one of that name at it.
pub proof fn lemma_named_at_finds(routes: Seq<(String, HttpRoute)>, name: Seq<char>)
    ensures
        0 <= named_at(routes, name) <= routes.len(),
        forall|j: int| 0 <= j < named_at(routes, name) ==> (#[trigger] routes[j]).0@ != name,
        named_at(routes, name) < routes.len() ==> routes[named_at(routes, name)].0@ == name,
    decreases routes.len(),
{
    if routes.len() == 0 {
    } else if routes[0].0@ == name {
    } else {
        let rest = routes.drop_first();
        lemma_named_at_finds(rest, name);
        assert forall|j: int| 0 <= j < named_at(routes, name) implies (#[trigger] routes[j]).0@
            != name by {
            if j > 0 {
                assert(routes[j] == rest[j - 1]);
            }
        }
        if named_at(routes, name) < routes.len() {
            assert(routes[named_at(routes, name)] == rest[named_at(rest, name)]);
        }
    }
}

/// Whether no name occurs twice among the resources.
pub open spec fn names_distinct(routes: Seq<(String, HttpRoute)>) -> bool {
    forall|i: int, j: int|
        0 <= i < j < routes.len() ==> (#[trigger] routes[i]).0@ != (#[trigger] routes[j]).0@
}

/// Putting a resource in under its name keeps the names distinct.
pub proof fn lemma_upserted_distinct(routes: Seq<(String, HttpRoute)>, named: (String, HttpRoute))
    requires
        names_distinct(routes),
    ensures
        names_distinct(upserted(routes, named)),
{
    lemma_named_at_finds(routes, named.0@);
    let at = named_at(routes, named.0@);
    let after = upserted(routes, named);
    assert forall|i: int, j: int| 0 <= i < j < after.len() implies (#[trigger] after[i]).0@ != (
    #[trigger] after[j]).0@ by {
        if at < routes.len() {
            assert(after[i].0@ == routes[i].0@);
            assert(after[j].0@ == routes[j].0@);
        } else if j < routes.len() {
            assert(after[i] == routes[i]);
            assert(after[j] == routes[j]);
        } else {
            assert(after[i] == routes[i]);
            assert(routes[i].0@ != named.0@);
        }
    }
}

/// Taking a resource out keeps the names distinct.
pub proof fn lemma_removed_distinct(routes: Seq<(String, HttpRoute)>, name: Seq<char>)
    requires
        names_distinct(routes),
    ensures
        names_distinct(removed(routes, name)),
{
    lemma_named_at_finds(routes, name);
    let at = named_at(routes, name);
    let after = removed(routes, name);
    assert forall|i: int, j: int| 0 <= i < j < after.len() implies (#[trigger] after[i]).0@ != (
    #[trigger] after[j]).0@ by {
        if at < routes.len() {
            let x = if i < at { i } else { i + 1 };
            let y = if j < at { j } else { j + 1 };
            assert(after[i] == routes[x]);
            assert(after[j] == routes[y]);
        }
    }
}

/// Applying resources keeps the names distinct.
pub proof fn lemma_applied_distinct(
    routes: Seq<(String, HttpRoute)>,
    objs: Seq<HttpRoute>,
    n: int,
)
    requires
        names_distinct(routes),
    ensures
        names_distinct(applied(routes, objs, n)),
    decreases n,
{
    if n > 0 {
        lemma_applied_distinct(routes, objs, n - 1);
        if binds_to_gateway(objs[n - 1]) {
            lemma_upserted_distinct(applied(routes, objs, n - 1), named(objs[n - 1]));
        }
    }
}

/// Deleting resources keeps the names distinct.
pub proof fn lemma_deleted_distinct(
    routes: Seq<(String, HttpRoute)>,
    objs: Seq<HttpRoute>,
    n: int,
)
    requires
        names_distinct(routes),
    ensures
        names_distinct(deleted(routes, objs, n)),
    decreases n,
{
    if n > 0 {
        lemma_deleted_distinct(routes, objs, n - 1);
        if binds_to_gateway(objs[n - 1]) {
            lemma_removed_distinct(deleted(routes, objs, n - 1), objs[n - 1].name.unwrap()@);
        }
    }
}

/// The resources with one more: in place of the one of the same name, or at
/// the end where there is none.
pub open spec fn upserted(routes: Seq<(String, HttpRoute)>, named: (String, HttpRoute)) -> Seq<
    (String, HttpRoute),
> {
    let i = named_at(routes, named.0@);
    if 0 <= i < routes.len() {
        routes.update(i, named)
    } else {
        routes.push(named)
    }
}

/// The resources without the first one of that name.
pub open spec fn removed(routes: Seq<(String, HttpRoute)>, name: Seq<char>) -> Seq<
    (String, HttpRoute),
> {
    let i = named_at(routes, name);
    if 0 <= i < routes.len() {
        routes.remove(i)
    } else {
        routes
    }
}

/// The resource with its name, as [`filter_k8s_http_route`] hands it on.
pub open spec fn named(route: HttpRoute) -> (String, HttpRoute) {
    (route.name.unwrap(), route)
}

/// The resources after the first `n` of `objs` were applied: each one that
/// binds to this gateway is put in under its name.
pub open spec fn applied(routes: Seq<(String, HttpRoute)>, objs: Seq<HttpRoute>, n: int) -> Seq<
    (String, HttpRoute),
>
    decreases n,
{
    if n <= 0 {
        routes
    } else {
        let before = applied(routes, objs, n - 1);
        if binds_to_gateway(objs[n - 1]) {
            upserted(before, named(objs[n - 1]))
        } else {
            before
        }
    }
}

/// The resources after the first `n` of `objs` were deleted: each one that
/// binds to this gateway is taken out by its name.
pub open spec fn deleted(routes: Seq<(String, HttpRoute)>, objs: Seq<HttpRoute>, n: int) -> Seq<
    (String, HttpRoute),
>
    decreases n,
{
    if n <= 0 {
        routes
    } else {
        let before = deleted(routes, objs, n - 1);
        if binds_to_gateway(objs[n - 1]) {
            removed(before, objs[n - 1].name.unwrap()@)
        } else {
            before
        }
    }
}

/// Index of the first resource of that name, or the length of the list.
fn find_named(routes: &Vec<(String, HttpRoute)>, name: &str) -> (i: usize)
    ensures
        i == named_at(routes@, name@),
        i <= routes.len(),
{
    let mut i: usize = 0;
    while i < routes.len() && !str_eq(routes[i].0.as_str(), name)
        invariant
            i <= routes.len(),
            forall|j: int| 0 <= j < i ==> (#[trigger] routes@[j]).0@ != name@,
        decreases routes.len() - i,
    {
        i += 1;
    }
    proof {
        lemma_named_at(routes@, name@, i as int);
    }
    i
}

/// Keeps the route resources that bind to this gateway, by name, and the
/// table compiled from them. A watcher is well formed where no name occurs
/// twice among its resources.
pub struct HttpRouteWatcher {
    /// The table to publish.
    pub gateway_routes: RouteTable,
    /// The resources, in the order in which they are compiled.
    pub k8s_routes: Vec<(String, HttpRoute)>,
}

/// Compiles the resources into a new table and puts it in place of the
/// current one. Where no table can be built the current one stays.
pub fn update_routing_table(
    k8s_routes: &Vec<(String, HttpRoute)>,
    gateway_routes: &mut RouteTable,
)
    ensures
        router_insertions(*final(gateway_routes)) == published(
            router_insertions(*old(gateway_routes)),
            k8s_routes@,
        ),
{
    match rebuild_routing_table(k8s_routes) {
        Ok(new_routes) => {
            *gateway_routes = new_routes;
        },
        Err(_) => {},
    }
}

/// The table that a watcher publishes after a change: the one compiled from
/// its resources, or the one it had where none can be compiled.
pub open spec fn published(
    before: Seq<Insertion>,
    routes: Seq<(String, HttpRoute)>,
) -> Seq<Insertion> {
    if static_routes_fit() {
        static_plan() + routes_plan(routes, routes.len() as int)
    } else {
        before
    }
}

impl HttpRouteWatcher {
    /// Whether no name occurs twice among the resources.
    pub open spec fn wf(&self) -> bool {
        names_distinct(self.k8s_routes@)
    }

    /// A watcher without resources, with the table `routes`.
    pub fn new(routes: RouteTable) -> (w: HttpRouteWatcher)
        ensures
            w.k8s_routes@ == Seq::<(String, HttpRoute)>::empty(),
            w.gateway_routes == routes,
            w.wf(),
    {
        HttpRouteWatcher { gateway_routes: routes, k8s_routes: Vec::new() }
    }

    /// Puts the resources that bind to this gateway in, each in place of
    /// the one of its name, and compiles the table anew.
    pub fn apply_routes(&mut self, objs: Vec<HttpRoute>)
        ensures
            final(self).k8s_routes@ == applied(old(self).k8s_routes@, objs@, objs@.len() as int),
            router_insertions(final(self).gateway_routes) == published(
                router_insertions(old(self).gateway_routes),
                final(self).k8s_routes@,
            ),
            old(self).wf() ==> final(self).wf(),
    {
        proof {
            if old(self).wf() {
                lemma_applied_distinct(old(self).k8s_routes@, objs@, objs@.len() as int);
            }
        }
        let ghost all = objs@;
        for obj in it: objs.into_iter()
            invariant
                it.seq() == all,
                self.k8s_routes@ == applied(old(self).k8s_routes@, all, it.index() as int),
                self.gateway_routes == old(self).gateway_routes,
        {
            if let Some(named) = filter_k8s_http_route(obj) {
                let i = find_named(&self.k8s_routes, named.0.as_str());
                if i < self.k8s_routes.len() {
                    self.k8s_routes.set(i, named);
                } else {
                    self.k8s_routes.push(named);
                }
            }
        }
        update_routing_table(&self.k8s_routes, &mut self.gateway_routes);
    }

    /// Takes the resources that bind to this gateway out, by name, and
    /// compiles the table anew.
    pub fn delete_routes(&mut self, objs: Vec<HttpRoute>)
        ensures
            final(self).k8s_routes@ == deleted(old(self).k8s_routes@, objs@, objs@.len() as int),
            router_insertions(final(self).gateway_routes) == published(
                router_insertions(old(self).gateway_routes),
                final(self).k8s_routes@,
            ),
            old(self).wf() ==> final(self).wf(),
    {
        proof {
            if old(self).wf() {
                lemma_deleted_distinct(old(self).k8s_routes@, objs@, objs@.len() as int);
            }
        }
        let mut n: usize = 0;
        while n < objs.len()
            invariant
                n <= objs.len(),
                self.k8s_routes@ == deleted(old(self).k8s_routes@, objs@, n as int),
                self.gateway_routes == old(self).gateway_routes,
            decreases objs.len() - n,
        {
            let obj = &objs[n];
            if is_bound(obj) {
                if let Some(name) = &obj.name {
                    let i = find_named(&self.k8s_routes, name.as_str());
                    if i < self.k8s_routes.len() {
                        let _ = self.k8s_routes.remove(i);
                    }
                }
            }
            n += 1;
        }
        update_routing_table(&self.k8s_routes, &mut self.gateway_routes);
    }
}

impl ApiWatcherCallbacks<HttpRoute> for HttpRouteWatcher {
    /// Puts the resources in and compiles the table anew, as
    /// [`HttpRouteWatcher::apply_routes`] does.
    fn apply(&mut self, objs: Vec<HttpRoute>) -> (r: Result<(), ArxError>)
        ensures
            r.is_ok(),
            final(self).k8s_routes@ == applied(old(self).k8s_routes@, objs@, objs@.len() as int),
            router_insertions(final(self).gateway_routes) == published(
                router_insertions(old(self).gateway_routes),
                final(self).k8s_routes@,
            ),
            old(self).wf() ==> final(self).wf(),
    {
        self.apply_routes(objs);
        Ok(())
    }

    /// Takes the resources out and compiles the table anew, as
    /// [`HttpRouteWatcher::delete_routes`] does.
    fn delete(&mut self, objs: Vec<HttpRoute>) -> (r: Result<(), ArxError>)
        ensures
            r.is_ok(),
            final(self).k8s_routes@ == deleted(old(self).k8s_routes@, objs@, objs@.len() as int),
            router_insertions(final(self).gateway_routes) == published(
                router_insertions(old(self).gateway_routes),
                final(self).k8s_routes@,
            ),
            old(self).wf() ==> final(self).wf(),
    {
        self.delete_routes(objs);
        Ok(())
    }
}

} // verus!
