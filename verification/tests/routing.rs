use arx::gateway::{match_route, rewrite_proxied_uri, RouteMatch};
use arx::k8s_routing::{
    filter_k8s_http_route, rebuild_routing_table, try_add_http_route, try_insert_route,
    ExtensionRef, HttpBackendRef, HttpPathMatch, HttpRoute, HttpRouteFilter, HttpRouteMatch,
    HttpRouteRule, ParentRef, PathMatchType, UrlRewrite,
};
use arx::local::{LocalHandler, LocalService, Onto};
use arx::route::{AuthDirective, AuthDirectiveFn, BackendClass, Proxy, Route};
use arx::static_routes::static_routes;
use arx::table::{get_param, insert, lookup, new_table, RouteTable};
use arx::uri::Uri;
use arx::ArxError;

fn path_match(kind: Option<PathMatchType>, value: &str) -> HttpRouteMatch {
    HttpRouteMatch { path: Some(HttpPathMatch { kind, value: Some(value.to_string()) }) }
}

fn rewrite_filter(replace_prefix: &str) -> HttpRouteFilter {
    HttpRouteFilter {
        url_rewrite: Some(UrlRewrite { replace_prefix_match: Some(replace_prefix.to_string()) }),
        extension_ref: None,
    }
}

fn extension_filter(group: &str, name: &str) -> HttpRouteFilter {
    HttpRouteFilter {
        url_rewrite: None,
        extension_ref: Some(ExtensionRef { group: group.to_string(), name: name.to_string() }),
    }
}

fn backend(name: &str, port: i32) -> HttpBackendRef {
    HttpBackendRef { name: name.to_string(), port: Some(port), filters: None }
}

fn rule(
    matches: Vec<HttpRouteMatch>,
    filters: Vec<HttpRouteFilter>,
    backends: Vec<HttpBackendRef>,
) -> HttpRouteRule {
    HttpRouteRule { backend_refs: Some(backends), filters: Some(filters), matches: Some(matches) }
}

fn route(name: &str, parent: &str, rules: Vec<HttpRouteRule>) -> HttpRoute {
    HttpRoute {
        name: Some(name.to_string()),
        parent_refs: Some(vec![ParentRef { name: parent.to_string() }]),
        rules: Some(rules),
    }
}

fn build_test_routing(routes: Vec<HttpRoute>) -> RouteTable {
    let routes: Vec<(String, HttpRoute)> =
        routes.into_iter().filter_map(filter_k8s_http_route).collect();
    rebuild_routing_table(&routes).unwrap()
}

fn authly_route() -> HttpRoute {
    route(
        "test",
        "arx",
        vec![rule(
            vec![path_match(None, "/authly")],
            vec![rewrite_filter("/")],
            vec![backend("authly", 443)],
        )],
    )
}

fn whitelist_route() -> HttpRoute {
    route(
        "test",
        "arx",
        vec![
            rule(
                vec![path_match(None, "/authly/api/auth")],
                vec![rewrite_filter("/api/auth")],
                vec![backend("authly", 443)],
            ),
            rule(
                vec![path_match(None, "/authly")],
                vec![extension_filter("authly.id", "authn"), rewrite_filter("/")],
                vec![backend("authly", 443)],
            ),
        ],
    )
}

#[test]
fn simple_route() {
    let matchit_router = build_test_routing(vec![authly_route()]);

    let Ok(matchit::Match { value: Route::Proxy(proxy), .. }) =
        matchit_router.router().at("/authly/")
    else {
        panic!()
    };

    assert_eq!(Some("/"), proxy.replace_prefix());

    let Ok(matchit::Match { value: Route::Proxy(proxy), .. }) =
        matchit_router.router().at("/authly/api/")
    else {
        panic!()
    };

    assert_eq!(Some("/"), proxy.replace_prefix());
}

#[test]
fn authly_auth_whitelist() {
    let matchit_router = build_test_routing(vec![whitelist_route()]);

    let Ok(matchit::Match { value: Route::Proxy(proxy), .. }) =
        matchit_router.router().at("/authly/api/auth/")
    else {
        panic!()
    };

    assert_eq!(Some("/api/auth/"), proxy.replace_prefix());
}

#[test]
fn routes_smoke_test() {
    let mut routes = static_routes().unwrap();

    assert!(insert(
        &mut routes,
        "/stripped/{*path}",
        Proxy::from_backend_uri(Uri::parse("http://stripped/").unwrap())
            .unwrap()
            .with_replace_prefix("/")
            .into(),
    ));

    assert!(insert(
        &mut routes,
        "/unstripped/{*path}",
        Proxy::from_backend_uri(Uri::parse("http://unstripped/").unwrap()).unwrap().into(),
    ));

    // docs subpath
    {
        let (route, _params) = lookup(&routes, "/docs/yo").unwrap();
        let Route::Local(_) = route else {
            panic!("{:?}", route);
        };
    }

    // docs root
    {
        let docs_uri = Uri::parse("/docs/").unwrap();
        let (route, params) = lookup(&routes, docs_uri.path()).unwrap();
        let Route::Local(_) = route else {
            panic!("{:?}", route);
        };

        let rewritten = rewrite_proxied_uri(docs_uri.clone(), None, &params, Some("/")).unwrap();
        assert_eq!("/", rewritten.path(), "prefix should be stripped");
    }

    // strip prefix
    {
        let authly_uri = Uri::parse("/stripped/some/path").unwrap();

        let (route, params) = lookup(&routes, authly_uri.path()).unwrap();
        let Route::Proxy(_) = route else {
            panic!("{:?}", route);
        };

        let rewritten = rewrite_proxied_uri(authly_uri.clone(), None, &params, Some("/")).unwrap();
        assert_eq!("/some/path", rewritten.path(), "prefix should be stripped");
    }

    // keep prefix
    {
        let storage_uri = Uri::parse("/unstripped/some/path").unwrap();

        let (route, params) = lookup(&routes, storage_uri.path()).unwrap();
        let Route::Proxy(_) = route else {
            panic!("{:?}", route);
        };

        let rewritten = rewrite_proxied_uri(storage_uri.clone(), None, &params, None).unwrap();
        assert_eq!("/unstripped/some/path", rewritten.path(), "prefix should not be stripped");
    }
}

fn dispatch(
    routes: &RouteTable,
    uri: &str,
    headers: &mut http::HeaderMap,
) -> Result<RouteMatch, (u16, String)> {
    let uri = Uri::parse(uri).unwrap();
    match_route(routes, &uri, headers).map_err(|e| {
        let status = e.status();
        (status, e.into_hyper_response().body)
    })
}

#[test]
fn simple_proxy() {
    let routes = build_test_routing(vec![authly_route()]);

    let mut headers = http::HeaderMap::new();
    let Ok(RouteMatch::Proxy { backend_class, uri, auth_directive }) =
        dispatch(&routes, "/authly/", &mut headers)
    else {
        panic!()
    };
    assert_eq!(uri.to_string(), "https://authly/");
    assert_eq!(backend_class, BackendClass::AuthlyMesh);
    assert_eq!(auth_directive, AuthDirective::Disabled);

    let mut headers = http::HeaderMap::new();
    let Ok(RouteMatch::Proxy { uri, .. }) = dispatch(&routes, "/authly/api/x?q=1", &mut headers)
    else {
        panic!()
    };
    assert_eq!(uri.to_string(), "https://authly/api/x?q=1");
    assert_eq!(uri.path(), "/api/x");
    assert_eq!(uri.query(), Some("q=1"));

    let mut headers = http::HeaderMap::new();
    let Ok(RouteMatch::TemporaryRedirect(target)) = dispatch(&routes, "/authly", &mut headers)
    else {
        panic!()
    };
    assert_eq!(target.to_string(), "/authly/");
    let response = arx::gateway::redirect_response(&target);
    assert_eq!(response.status, 307);
    assert_eq!(response.headers, vec![("location".to_string(), b"/authly/".to_vec())]);
    assert_eq!(response.body, "");
}

#[test]
fn whitelisted_prefix_needs_no_session() {
    let routes = build_test_routing(vec![whitelist_route()]);

    let mut headers = http::HeaderMap::new();
    let Ok(RouteMatch::Proxy { uri, auth_directive, .. }) =
        dispatch(&routes, "/authly/api/auth/login", &mut headers)
    else {
        panic!()
    };
    assert_eq!(uri.path(), "/api/auth/login");
    assert_eq!(auth_directive, AuthDirective::Disabled);

    let mut headers = http::HeaderMap::new();
    let Ok(RouteMatch::Proxy { uri, auth_directive, .. }) =
        dispatch(&routes, "/authly/ui", &mut headers)
    else {
        panic!()
    };
    assert_eq!(uri.path(), "/ui");
    assert_eq!(auth_directive, AuthDirective::Mandatory);
}

#[test]
fn no_route_is_not_found() {
    let routes = build_test_routing(vec![]);
    let mut headers = http::HeaderMap::new();
    headers.insert("host", http::HeaderValue::from_static("example.com:80"));
    let Err((status, body)) = dispatch(&routes, "/nowhere", &mut headers) else { panic!() };
    assert_eq!(status, 404);
    assert_eq!(body, "Not found");
    assert!(headers.contains_key("host"));
}

#[test]
fn exact_entry_beats_prefix_entry() {
    let mut routes = new_table();
    let deep = Proxy::from_backend_uri(Uri::parse("http://deep/").unwrap()).unwrap();
    let wide = Proxy::from_backend_uri(Uri::parse("http://wide/").unwrap()).unwrap();
    let exact = Proxy::from_backend_uri(Uri::parse("http://exact/").unwrap()).unwrap();
    assert!(insert(&mut routes, "/a/{*path}", Route::from(wide)));
    assert!(insert(&mut routes, "/a/b/{*path}", Route::from(deep)));
    assert!(insert(&mut routes, "/a/b/c", Route::from(exact)));

    let (Route::Proxy(p), params) = lookup(&routes, "/a/b/c").unwrap() else { panic!() };
    assert_eq!(p.backend_uri().to_string(), "http://exact/");
    assert!(params.is_empty());

    let (Route::Proxy(p), params) = lookup(&routes, "/a/b/d").unwrap() else { panic!() };
    assert_eq!(p.backend_uri().to_string(), "http://deep/");
    assert_eq!(get_param(&params, "path"), Some("d"));

    let (Route::Proxy(p), params) = lookup(&routes, "/a/x/y").unwrap() else { panic!() };
    assert_eq!(p.backend_uri().to_string(), "http://wide/");
    assert_eq!(get_param(&params, "path"), Some("x/y"));
    assert_eq!(get_param(&params, "other"), None);

    assert!(lookup(&routes, "/b").is_none());
    assert!(lookup(&routes, "/a/").is_none());
}

#[test]
fn earlier_insertion_wins() {
    let mut routes = new_table();
    let first = Proxy::from_backend_uri(Uri::parse("http://first/").unwrap()).unwrap();
    let second = Proxy::from_backend_uri(Uri::parse("http://second/").unwrap()).unwrap();
    assert!(insert(&mut routes, "/x", Route::from(first)));
    assert!(!insert(&mut routes, "/x", Route::from(second.clone())));
    try_insert_route(&mut routes, "/x", Route::from(second));
    let (Route::Proxy(p), _) = lookup(&routes, "/x").unwrap() else { panic!() };
    assert_eq!(p.backend_uri().to_string(), "http://first/");
}

#[test]
fn static_routes_win_over_resources() {
    let routes = build_test_routing(vec![route(
        "docs",
        "arx",
        vec![rule(vec![path_match(None, "/docs")], vec![], vec![backend("docs", 8080)])],
    )]);
    let (Route::Local(handler), _) = lookup(&routes, "/docs/").unwrap() else { panic!() };
    assert_eq!(handler.replace_prefix(), Some("/"));
    let (Route::Local(LocalHandler::Onto(Onto)), _) = lookup(&routes, "/onto/x").unwrap() else {
        panic!()
    };
    let (Route::TemporaryRedirect(target), _) = lookup(&routes, "/favicon.ico").unwrap() else {
        panic!()
    };
    assert_eq!(target.to_string(), "/static/favicon.png");
    let (Route::TemporaryRedirect(target), _) = lookup(&routes, "/").unwrap() else { panic!() };
    assert_eq!(target.to_string(), "/onto/");
}

#[test]
fn resource_of_another_gateway_is_left_out() {
    assert!(filter_k8s_http_route(route("other", "nginx", vec![])).is_none());
    let mut unnamed = route("x", "arx", vec![]);
    unnamed.name = None;
    assert!(filter_k8s_http_route(unnamed).is_none());
    let (name, _) = filter_k8s_http_route(route("mine", "arx", vec![])).unwrap();
    assert_eq!(name, "mine");
}

#[test]
fn prefix_with_trailing_slashes_redirects_from_stripped() {
    let mut routes = new_table();
    let resource = route(
        "r",
        "arx",
        vec![rule(
            vec![path_match(Some(PathMatchType::PathPrefix), "/svc//")],
            vec![rewrite_filter("/inner")],
            vec![backend("svc", 8080)],
        )],
    );
    try_add_http_route(&mut routes, "r", &resource).unwrap();
    let (Route::TemporaryRedirect(target), _) = lookup(&routes, "/svc").unwrap() else {
        panic!()
    };
    assert_eq!(target.to_string(), "/svc//");
    let (Route::Proxy(p), _) = lookup(&routes, "/svc//").unwrap() else { panic!() };
    assert_eq!(p.replace_prefix(), Some("/inner/"));
    assert_eq!(p.backend_uri().to_string(), "http://svc:8080/");
    assert_eq!(p.backend_class(), BackendClass::Plain);
    let (Route::Proxy(_), params) = lookup(&routes, "/svc//a/b").unwrap() else { panic!() };
    assert_eq!(get_param(&params, "path"), Some("a/b"));
}

#[test]
fn compiling_a_prefix_twice_changes_no_match() {
    let once = build_test_routing(vec![route(
        "r",
        "arx",
        vec![rule(vec![path_match(None, "/svc")], vec![], vec![backend("svc", 80)])],
    )]);
    let twice = build_test_routing(vec![route(
        "r",
        "arx",
        vec![rule(
            vec![path_match(None, "/svc"), path_match(None, "/svc/")],
            vec![],
            vec![backend("svc", 80)],
        )],
    )]);
    for path in ["/svc", "/svc/", "/svc/a", "/other"] {
        let a = lookup(&once, path).map(|(r, p)| (format!("{:?}", r), p));
        let b = lookup(&twice, path).map(|(r, p)| (format!("{:?}", r), p));
        assert_eq!(a, b);
    }
}

fn directive_of(proxy: &Proxy) -> AuthDirective {
    proxy.get_auth_directive(&Uri::parse("/any").unwrap(), &http::HeaderMap::new())
}

#[test]
fn exact_and_regex_matches() {
    let mut routes = new_table();
    let resource = route(
        "r",
        "arx",
        vec![rule(
            vec![
                path_match(Some(PathMatchType::Exact), "/only"),
                path_match(Some(PathMatchType::RegularExpression), "/re.*"),
                HttpRouteMatch { path: None },
                HttpRouteMatch { path: Some(HttpPathMatch { kind: None, value: None }) },
            ],
            vec![rewrite_filter("/x"), extension_filter("authly.id", "authn-opportunistic")],
            vec![HttpBackendRef {
                name: "mesh".to_string(),
                port: Some(8443),
                filters: Some(vec![extension_filter("authly.id", "mesh")]),
            }],
        )],
    );
    try_add_http_route(&mut routes, "r", &resource).unwrap();
    let (Route::Proxy(p), _) = lookup(&routes, "/only").unwrap() else { panic!() };
    assert_eq!(p.replace_prefix(), None);
    assert_eq!(directive_of(p), AuthDirective::Opportunistic);
    assert_eq!(p.backend_class(), BackendClass::AuthlyMesh);
    assert_eq!(p.backend_uri().to_string(), "https://mesh:8443/");
    assert!(lookup(&routes, "/only/").is_none());
    assert!(lookup(&routes, "/re.*").is_none());
}

#[test]
fn directives_by_extension_name() {
    for (name, expected) in [
        ("authn", AuthDirective::Mandatory),
        ("authn-mandatory", AuthDirective::Mandatory),
        ("authn-opportunistic", AuthDirective::Opportunistic),
        ("authn-disabled", AuthDirective::Disabled),
        ("unknown", AuthDirective::Disabled),
    ] {
        let mut routes = new_table();
        let resource = route(
            "r",
            "arx",
            vec![rule(
                vec![path_match(Some(PathMatchType::Exact), "/p")],
                vec![extension_filter("authly.id", name), extension_filter("other", "authn")],
                vec![backend("b", 80)],
            )],
        );
        try_add_http_route(&mut routes, "r", &resource).unwrap();
        let (Route::Proxy(p), _) = lookup(&routes, "/p").unwrap() else { panic!() };
        assert_eq!(directive_of(p), expected);
    }
}

#[test]
fn rules_without_backend_or_port_insert_nothing() {
    let mut routes = new_table();
    let resource = route(
        "r",
        "arx",
        vec![
            HttpRouteRule {
                backend_refs: None,
                filters: None,
                matches: Some(vec![path_match(None, "/a")]),
            },
            rule(vec![path_match(None, "/b")], vec![], vec![]),
            rule(
                vec![path_match(None, "/c")],
                vec![],
                vec![HttpBackendRef { name: "c".to_string(), port: None, filters: None }],
            ),
            rule(
                vec![path_match(None, "/d")],
                vec![],
                vec![backend("first", 81), backend("second", 82)],
            ),
        ],
    );
    try_add_http_route(&mut routes, "r", &resource).unwrap();
    assert!(lookup(&routes, "/a/").is_none());
    assert!(lookup(&routes, "/b/").is_none());
    assert!(lookup(&routes, "/c/").is_none());
    let (Route::Proxy(p), _) = lookup(&routes, "/d/").unwrap() else { panic!() };
    assert_eq!(p.backend_uri().to_string(), "http://first:81/");
}

#[test]
fn unparsable_backend_ends_the_resource() {
    let mut routes = new_table();
    let resource = route(
        "r",
        "arx",
        vec![
            rule(vec![path_match(Some(PathMatchType::Exact), "/ok")], vec![], vec![backend("ok", 80)]),
            rule(
                vec![path_match(Some(PathMatchType::Exact), "/bad")],
                vec![],
                vec![backend("not a host", 80)],
            ),
            rule(
                vec![path_match(Some(PathMatchType::Exact), "/late")],
                vec![],
                vec![backend("late", 80)],
            ),
        ],
    );
    let Err(ArxError::Internal(text)) = try_add_http_route(&mut routes, "r", &resource) else {
        panic!()
    };
    assert_eq!(text, "invalid uri");
    assert!(lookup(&routes, "/ok").is_some());
    assert!(lookup(&routes, "/bad").is_none());
    assert!(lookup(&routes, "/late").is_none());
}

#[test]
fn negative_port_is_written_with_its_sign() {
    let mut routes = new_table();
    let resource = route(
        "r",
        "arx",
        vec![rule(
            vec![path_match(Some(PathMatchType::Exact), "/neg")],
            vec![],
            vec![backend("neg", -5)],
        )],
    );
    try_add_http_route(&mut routes, "r", &resource).unwrap();
    let (Route::Proxy(p), _) = lookup(&routes, "/neg").unwrap() else { panic!() };
    assert_eq!(p.backend_uri().authority.as_deref(), Some("neg:-5"));
}

#[test]
fn hot_swap_leaves_a_match_in_flight_alone() {
    let v1 = {
        let mut t = new_table();
        let a = Proxy::from_backend_uri(Uri::parse("http://a:8080/").unwrap()).unwrap();
        assert!(insert(&mut t, "/a", Route::from(a)));
        t
    };
    let mut headers = http::HeaderMap::new();
    let in_flight = dispatch(&v1, "/a", &mut headers).unwrap();
    let v2 = new_table();
    drop(v1);
    let RouteMatch::Proxy { uri, .. } = in_flight else { panic!() };
    assert_eq!(uri.to_string(), "http://a:8080/a");
    let mut headers = http::HeaderMap::new();
    let Err((status, _)) = dispatch(&v2, "/a", &mut headers) else { panic!() };
    assert_eq!(status, 404);
}

#[test]
fn rewrite_keeps_path_without_replacement() {
    let original = Uri::parse("/a/b?x=1").unwrap();
    let target = Uri::parse("http://backend:8080").unwrap();
    let params = vec![("path".to_string(), "b".to_string())];
    let rewritten = rewrite_proxied_uri(original, Some(&target), &params, None).unwrap();
    assert_eq!(rewritten.to_string(), "http://backend:8080/a/b?x=1");
}

#[test]
fn rewrite_fails_on_invalid_path() {
    let original = Uri::parse("/a/b").unwrap();
    let params = vec![("path".to_string(), "b".to_string())];
    let err = rewrite_proxied_uri(original, None, &params, Some("no slash/")).unwrap_err();
    assert_eq!(err.status(), 500);
    assert_eq!(err.into_hyper_response().body, "uri problem");
}

#[test]
fn rewrite_fails_on_parts_that_make_no_uri() {
    let original = Uri::parse("/a/b").unwrap();
    let target = Uri { scheme: None, authority: Some("host".to_string()), path: String::new(), query: None };
    let err = rewrite_proxied_uri(original, Some(&target), &vec![], None).unwrap_err();
    assert_eq!(err.status(), 500);
    assert_eq!(err.into_hyper_response().body, "invalid uri");
}

#[test]
fn rewrite_uses_first_path_parameter() {
    let original = Uri::parse("/x?k=v").unwrap();
    let params = vec![
        ("id".to_string(), "7".to_string()),
        ("path".to_string(), "one".to_string()),
        ("path".to_string(), "two".to_string()),
    ];
    let rewritten = rewrite_proxied_uri(original, None, &params, Some("/p/")).unwrap();
    assert_eq!(rewritten.path(), "/p/one");
    assert_eq!(rewritten.query(), Some("k=v"));
}

#[test]
fn uri_parse_reads_parts() {
    let uri = Uri::parse("https://example.com:8443/a/b?c=d#frag").unwrap();
    assert_eq!(uri.scheme.as_deref(), Some("https"));
    assert_eq!(uri.authority.as_deref(), Some("example.com:8443"));
    assert_eq!(uri.path(), "/a/b");
    assert_eq!(uri.query(), Some("c=d"));
    assert_eq!(uri.to_string(), "https://example.com:8443/a/b?c=d");
    assert!(Uri::parse("").is_none());
    assert!(Uri::parse("/a b").is_none());
    let (path, query) = arx::uri::parse_path_and_query("?q#f").unwrap();
    assert_eq!(path, "/");
    assert_eq!(query.as_deref(), Some("q"));
    assert!(arx::uri::parse_path_and_query("nope").is_none());
}

#[test]
fn routes_in_a_few_words() {
    let proxy: Route =
        Proxy::from_backend_uri(Uri::parse("http://backend:8080").unwrap()).unwrap().into();
    assert_eq!(proxy.describe(), "Proxy to `http://backend:8080/`");
    assert_eq!(Route::Local(LocalHandler::Onto(Onto)).describe(), "Service");
    assert_eq!(
        Route::TemporaryRedirect(Uri::parse("/x/").unwrap()).describe(),
        "Temporary redirect"
    );
}

#[test]
fn pattern_with_too_many_parameters_is_dropped() {
    let many: String = (0..26).map(|i| format!("/{{name{i}}}")).collect();
    let most: String = (0..25).map(|i| format!("/{{name{i}}}")).collect();
    let route = || -> Route {
        Proxy::from_backend_uri(Uri::parse("http://b/").unwrap()).unwrap().into()
    };

    assert!(!arx::table::pattern_fits(&many));
    assert!(arx::table::pattern_fits(&most));

    let mut routes = new_table();
    assert!(!insert(&mut routes, &many, route()));
    try_insert_route(&mut routes, &many, route());
    assert!(insert(&mut routes, &most, route()));
    let path: String = (0..25).map(|i| format!("/v{i}")).collect();
    let (_, params) = lookup(&routes, &path).unwrap();
    assert_eq!(params.len(), 25);
    assert_eq!(get_param(&params, "name24"), Some("v24"));

    // a resource with such a value leaves the rest of its routes in place
    let mut routes = new_table();
    let resource = route_of_values(&[&many, "/fine"]);
    try_add_http_route(&mut routes, "r", &resource).unwrap();
    assert!(lookup(&routes, "/fine").is_some());
}

fn route_of_values(values: &[&str]) -> HttpRoute {
    route(
        "r",
        "arx",
        vec![rule(
            values.iter().map(|v| path_match(Some(PathMatchType::Exact), v)).collect(),
            vec![],
            vec![backend("b", 80)],
        )],
    )
}

#[test]
fn compiling_a_resource_twice_changes_no_match() {
    let resource = whitelist_route();
    let mut once = new_table();
    try_add_http_route(&mut once, "r", &resource).unwrap();
    let mut twice = new_table();
    try_add_http_route(&mut twice, "r", &resource).unwrap();
    try_add_http_route(&mut twice, "r", &resource).unwrap();
    for path in ["/authly", "/authly/", "/authly/ui", "/authly/api/auth", "/authly/api/auth/x", "/no"]
    {
        let a = lookup(&once, path).map(|(r, p)| (format!("{:?}", r), p));
        let b = lookup(&twice, path).map(|(r, p)| (format!("{:?}", r), p));
        assert_eq!(a, b, "{path}");
    }
}

#[test]
fn selector_of_a_proxy() {
    let proxy = Proxy::from_backend_uri(Uri::parse("http://b/").unwrap())
        .unwrap()
        .with_auth_directive_fn(AuthDirectiveFn::Always(AuthDirective::Opportunistic));
    assert_eq!(directive_of(&proxy), AuthDirective::Opportunistic);
    let plain = Proxy::from_backend_uri(Uri::parse("http://b/").unwrap()).unwrap();
    assert_eq!(directive_of(&plain), AuthDirective::Disabled);
}

#[test]
fn copy_of_a_table_serves_the_same() {
    let table = build_test_routing(vec![authly_route()]);
    let copy = table.clone();
    drop(table);
    let (Route::Proxy(p), params) = lookup(&copy, "/authly/x").unwrap() else { panic!() };
    assert_eq!(p.backend_uri().to_string(), "https://authly/");
    assert_eq!(get_param(&params, "path"), Some("x"));
}
