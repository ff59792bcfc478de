use arx::authentication::{
    cookie_jar, inject_access_token, process_auth_directive, split_text, unauthorized,
    value_trimmed, AuthStep,
};
use arx::headers::set_proxy_headers;
use arx::route::AuthDirective;
use arx::uri::Uri;
use arx::ArxError;

fn text(headers: &http::HeaderMap, name: &str) -> Option<String> {
    headers.get(name).map(|v| v.to_str().unwrap().to_string())
}

fn forwarded(original: &str, rewritten: &str, headers: &mut http::HeaderMap) -> Result<(), u16> {
    let original = Uri::parse(original).unwrap();
    let rewritten = Uri::parse(rewritten).unwrap();
    set_proxy_headers(headers, &rewritten, &original).map_err(|e| e.status())
}

#[test]
fn forwards_host_port_proto_and_prefix() {
    let mut headers = http::HeaderMap::new();
    headers.insert("host", http::HeaderValue::from_static("example.com:8443"));
    forwarded("/svc/xyz", "http://svc:80/xyz", &mut headers).unwrap();
    assert_eq!(text(&headers, "x-forwarded-host").as_deref(), Some("example.com"));
    assert_eq!(text(&headers, "x-forwarded-port").as_deref(), Some("8443"));
    assert_eq!(text(&headers, "x-forwarded-proto").as_deref(), Some("http"));
    assert_eq!(text(&headers, "x-forwarded-prefix").as_deref(), Some("/svc"));
    assert!(!headers.contains_key("host"));
    assert_eq!(headers.len(), 4);
}

#[test]
fn forwarding_headers_of_an_earlier_proxy_stay() {
    let mut headers = http::HeaderMap::new();
    headers.insert("host", http::HeaderValue::from_static("inner:1"));
    headers.insert("x-forwarded-proto", http::HeaderValue::from_static("https"));
    headers.insert("x-forwarded-host", http::HeaderValue::from_static("outer"));
    headers.insert("x-forwarded-port", http::HeaderValue::from_static("443"));
    headers.insert("x-forwarded-prefix", http::HeaderValue::from_static("/one"));
    forwarded("/two/rest", "http://b/rest", &mut headers).unwrap();
    assert_eq!(text(&headers, "x-forwarded-proto").as_deref(), Some("https"));
    assert_eq!(text(&headers, "x-forwarded-host").as_deref(), Some("outer"));
    assert_eq!(text(&headers, "x-forwarded-port").as_deref(), Some("443"));
    assert_eq!(text(&headers, "x-forwarded-prefix").as_deref(), Some("/one/two"));
    assert!(!headers.contains_key("host"));
}

#[test]
fn forwarded_prefix_chains() {
    // one prefix, then the next on top of it
    let mut chained = http::HeaderMap::new();
    forwarded("/one/two/rest", "http://b/two/rest", &mut chained).unwrap();
    forwarded("/two/rest", "http://c/rest", &mut chained).unwrap();
    // both at once
    let mut at_once = http::HeaderMap::new();
    forwarded("/one/two/rest", "http://c/rest", &mut at_once).unwrap();
    assert_eq!(text(&chained, "x-forwarded-prefix").as_deref(), Some("/one/two"));
    assert_eq!(text(&chained, "x-forwarded-prefix"), text(&at_once, "x-forwarded-prefix"));
}

#[test]
fn forwarding_without_port_or_suffix() {
    let mut headers = http::HeaderMap::new();
    headers.insert("host", http::HeaderValue::from_static("example.com"));
    forwarded("https://front/a", "http://b/other", &mut headers).unwrap();
    assert_eq!(text(&headers, "x-forwarded-proto").as_deref(), Some("https"));
    assert_eq!(text(&headers, "x-forwarded-host").as_deref(), Some("example.com"));
    assert!(!headers.contains_key("x-forwarded-port"));
    assert!(!headers.contains_key("x-forwarded-prefix"));
    assert!(!headers.contains_key("host"));
}

#[test]
fn forwarding_same_path_reports_empty_prefix() {
    let mut headers = http::HeaderMap::new();
    forwarded("/a", "http://b/a", &mut headers).unwrap();
    assert_eq!(text(&headers, "x-forwarded-prefix").as_deref(), Some(""));
    assert!(!headers.contains_key("x-forwarded-host"));
}

#[test]
fn forwarding_refuses_what_is_no_header_value() {
    let mut headers = http::HeaderMap::new();
    let original = Uri {
        scheme: None,
        authority: None,
        path: "/bad\n/rest".to_string(),
        query: None,
    };
    let rewritten = Uri::parse("http://b/rest").unwrap();
    let err = set_proxy_headers(&mut headers, &rewritten, &original).unwrap_err();
    assert_eq!(err.status(), 400);
    assert_eq!(err.into_hyper_response().body, "");
}

#[test]
fn host_beyond_ascii_is_refused() {
    let mut headers = http::HeaderMap::new();
    headers.insert("host", http::HeaderValue::from_bytes(b"caf\xc3\xa9:80").unwrap());
    assert_eq!(forwarded("/a/b", "http://x/b", &mut headers), Err(400));

    // only the port is to be written, and the port is fine
    let mut headers = http::HeaderMap::new();
    headers.insert("host", http::HeaderValue::from_bytes(b"caf\xc3\xa9:80").unwrap());
    headers.insert("x-forwarded-host", http::HeaderValue::from_static("outer"));
    forwarded("/a/b", "http://x/b", &mut headers).unwrap();
    assert_eq!(text(&headers, "x-forwarded-port").as_deref(), Some("80"));

    // nothing of the host is to be written
    let mut headers = http::HeaderMap::new();
    headers.insert("host", http::HeaderValue::from_bytes(b"caf\xc3\xa9:80").unwrap());
    headers.insert("x-forwarded-host", http::HeaderValue::from_static("outer"));
    headers.insert("x-forwarded-port", http::HeaderValue::from_static("443"));
    forwarded("/a/b", "http://x/b", &mut headers).unwrap();
    assert!(!headers.contains_key("host"));
}

#[test]
fn prefix_beyond_ascii_is_refused() {
    let mut headers = http::HeaderMap::new();
    assert_eq!(forwarded("/caf\u{e9}/rest", "http://b/rest", &mut headers), Err(400));
    assert!(!headers.contains_key("x-forwarded-prefix"));

    // an earlier prefix that is no text cannot be carried on
    let mut headers = http::HeaderMap::new();
    headers.insert("x-forwarded-prefix", http::HeaderValue::from_bytes(b"/caf\xc3\xa9").unwrap());
    assert_eq!(forwarded("/two/rest", "http://b/rest", &mut headers), Err(400));

    // a tab and a space are fine
    let mut headers = http::HeaderMap::new();
    headers.insert("x-forwarded-prefix", http::HeaderValue::from_static("/a b\t"));
    forwarded("/two/rest", "http://b/rest", &mut headers).unwrap();
    assert_eq!(text(&headers, "x-forwarded-prefix").as_deref(), Some("/a b\t/two"));
}

fn with_cookie(values: &[&str]) -> http::HeaderMap {
    let mut headers = http::HeaderMap::new();
    for v in values {
        headers.append("cookie", http::HeaderValue::from_str(v).unwrap());
    }
    headers
}

#[test]
fn cookie_jar_reads_every_header() {
    let headers = with_cookie(&["a=1; b=2", "malformed; c = 3 ;=x", "a=4"]);
    let jar = cookie_jar(&headers);
    assert_eq!(jar.get("a").map(|c| c.value()), Some("4"));
    assert_eq!(jar.get("b").map(|c| c.value()), Some("2"));
    assert_eq!(jar.get("c").map(|c| c.value()), Some("3"));
    assert!(jar.get("malformed").is_none());
    assert_eq!(jar.iter().count(), 3);
}

#[test]
fn cookie_pairs_are_split_at_the_first_equals_sign_and_trimmed() {
    let headers = with_cookie(&[
        "  a = 1  ; b==c;\tt\t=\t v w \t;=x; novalue; e=; f g = h ;   =  ; \t ",
    ]);
    let jar = cookie_jar(&headers);
    let mut found: Vec<(String, String)> =
        jar.iter().map(|c| (c.name().to_string(), c.value().to_string())).collect();
    found.sort();
    let expected: Vec<(String, String)> =
        [("a", "1"), ("b", "=c"), ("e", ""), ("f g", "h"), ("t", "v w")]
            .iter()
            .map(|(n, v)| (n.to_string(), v.to_string()))
            .collect();
    assert_eq!(found, expected);
}

#[test]
fn split_text_keeps_empty_pieces() {
    assert_eq!(split_text("a;b;;c;", ';'), vec!["a", "b", "", "c", ""]);
    assert_eq!(split_text("", ';'), vec![""]);
    assert_eq!(split_text("abc", ';'), vec!["abc"]);
}

#[test]
fn value_trimmed_takes_a_pair_of_quotes() {
    assert_eq!(value_trimmed("\"v\""), "v");
    assert_eq!(value_trimmed("\"v"), "\"v");
    assert_eq!(value_trimmed("\""), "\"");
    assert_eq!(value_trimmed("\"\""), "");
    assert_eq!(value_trimmed("v"), "v");
}

fn step(directive: AuthDirective, headers: &http::HeaderMap, has_client: bool) -> String {
    match process_auth_directive(directive, headers, has_client) {
        AuthStep::Forward => "forward".to_string(),
        AuthStep::Reject => "reject".to_string(),
        AuthStep::Exchange(session) => format!("exchange {session}"),
    }
}

#[test]
fn directive_matrix() {
    let with = with_cookie(&["other=1; session-cookie=\"abc\""]);
    let without = with_cookie(&["other=1"]);
    assert_eq!(step(AuthDirective::Mandatory, &with, true), "exchange abc");
    assert_eq!(step(AuthDirective::Mandatory, &without, true), "reject");
    assert_eq!(step(AuthDirective::Mandatory, &with, false), "reject");
    assert_eq!(step(AuthDirective::Mandatory, &without, false), "reject");
    assert_eq!(step(AuthDirective::Opportunistic, &with, true), "exchange abc");
    assert_eq!(step(AuthDirective::Opportunistic, &without, true), "forward");
    assert_eq!(step(AuthDirective::Opportunistic, &with, false), "forward");
    assert_eq!(step(AuthDirective::Opportunistic, &without, false), "forward");
    assert_eq!(step(AuthDirective::Disabled, &with, true), "forward");
    assert_eq!(step(AuthDirective::Disabled, &without, true), "forward");
    assert_eq!(step(AuthDirective::Disabled, &with, false), "forward");
}

#[test]
fn opportunistic_without_session_leaves_request_unchanged() {
    let headers = with_cookie(&["other=1"]);
    let before = headers.clone();
    assert_eq!(step(AuthDirective::Opportunistic, &headers, true), "forward");
    assert_eq!(headers, before);
}

#[test]
fn mandatory_route_needs_a_session() {
    // without a session: 401
    let headers = http::HeaderMap::new();
    assert_eq!(step(AuthDirective::Mandatory, &headers, true), "reject");
    let e = unauthorized();
    assert_eq!(e.status(), 401);
    assert_eq!(e.into_hyper_response().body, "unauthorized");

    // with a session and a token
    let mut headers = with_cookie(&["session-cookie=s3ss10n"]);
    assert_eq!(step(AuthDirective::Mandatory, &headers, true), "exchange s3ss10n");
    inject_access_token(&mut headers, Some("t0k3n")).unwrap();
    assert_eq!(text(&headers, "authorization").as_deref(), Some("Bearer t0k3n"));
}

#[test]
fn token_beyond_ascii_is_forwarded() {
    let mut headers = with_cookie(&["session-cookie=x"]);
    headers.insert("authorization", http::HeaderValue::from_static("Basic old"));
    inject_access_token(&mut headers, Some("t\u{f6}ken")).unwrap();
    let values: Vec<&[u8]> = headers.get_all("authorization").iter().map(|v| v.as_bytes()).collect();
    assert_eq!(values, vec!["Bearer t\u{f6}ken".as_bytes()]);
    assert_eq!(headers.len(), 2);
}

#[test]
fn failed_exchange_is_not_authenticated() {
    let mut headers = with_cookie(&["session-cookie=x"]);
    let before = headers.clone();
    assert!(matches!(inject_access_token(&mut headers, None), Err(ArxError::NotAuthenticated)));
    assert!(matches!(
        inject_access_token(&mut headers, Some("bad\ntoken")),
        Err(ArxError::NotAuthenticated)
    ));

    assert_eq!(headers, before);
}

#[test]
fn internal_error_keeps_its_description() {
    let ArxError::Internal(text) = arx::arx_anyhow("boom".to_string()) else { panic!() };
    assert_eq!(text, "boom");
}
