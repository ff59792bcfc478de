//! The dispatcher: matching a request against the route table and
//! rewriting its URI for the route that was found.

use crate::header_map::{header_count, header_entries, MAX_HEADER_NAMES};
use crate::headers::{forwardable, forwarded, set_proxy_headers, value_bytes};
use crate::http_error::{
    header_list, HttpError, HyperResponse, BAD_REQUEST, INTERNAL_SERVER_ERROR, NOT_FOUND,
    TEMPORARY_REDIRECT,
};
use crate::local::{LocalHandler, LocalService};
use crate::route::{AuthDirective, BackendClass, Route, RouteView};
use crate::table::{lookup, router_insertions, router_match, RouteTable};
use crate::table::{capture, captures_view, get_param, Captures};
use crate::text::{has_char, lemma_position, lemma_position_is};
use crate::uri::{
    clone_opt, parse_path_and_query, path_and_query_valid, split_path_and_query, Uri, UriView,
};
use vstd::prelude::*;
use vstd::string::*;

verus! {

/// The path and query that a rewrite hands to the parser: the replacement
/// prefix, the captured `path` parameter if any, and `?` with the original
/// query if there was one.
pub open spec fn assembled_path(
    prefix: Seq<char>,
    param: Option<Seq<char>>,
    query: Option<Seq<char>>,
) -> Seq<char> {
    prefix + (match param {
        Some(p) => p,
        None => Seq::<char>::empty(),
    }) + (match query {
        Some(q) => seq!['?'] + q,
        None => Seq::<char>::empty(),
    })
}

/// The query of a URI, none where the URI has no path.
pub open spec fn query_of(uri: UriView) -> Option<Seq<char>> {
    if uri.path.len() == 0 {
        None
    } else {
        uri.query
    }
}

/// Whether scheme, authority and path make a URI: with a scheme there must
/// be an authority and a path; without one there cannot be both.
pub open spec fn parts_fit(scheme: Option<Seq<char>>, authority: Option<Seq<char>>, has_path: bool) -> bool {
    if scheme.is_some() {
        authority.is_some() && has_path
    } else {
        !(authority.is_some() && has_path)
    }
}

/// The rewritten URI, or the error that the rewrite ends with.
///
/// Scheme and authority are the target's, where a target is given. Without
/// a replacement prefix the path and query stay. With one, they are those of
/// [`assembled_path`], split as the parser splits them.
pub open spec fn rewritten(
    original: UriView,
    target: Option<UriView>,
    params: Captures,
    replace_prefix: Option<Seq<char>>,
) -> Result<UriView, (u16, Seq<char>)> {
    let scheme = match target {
        Some(t) => t.scheme,
        None => original.scheme,
    };
    let authority = match target {
        Some(t) => t.authority,
        None => original.authority,
    };
    match replace_prefix {
        Some(prefix) => {
            let text = assembled_path(prefix, capture(params, "path"@), query_of(original));
            if !path_and_query_valid(text) {
                Err((INTERNAL_SERVER_ERROR, "uri problem"@))
            } else if !parts_fit(scheme, authority, true) {
                Err((INTERNAL_SERVER_ERROR, "invalid uri"@))
            } else {
                Ok(
                    UriView {
                        scheme,
                        authority,
                        path: split_path_and_query(text).0,
                        query: split_path_and_query(text).1,
                    },
                )
            }
        },
        None => {
            if !parts_fit(scheme, authority, original.path.len() > 0) {
                Err((INTERNAL_SERVER_ERROR, "invalid uri"@))
            } else {
                Ok(
                    UriView {
                        scheme,
                        authority,
                        path: original.path,
                        query: query_of(original),
                    },
                )
            }
        },
    }
}

/// The view of an optional URI.
pub open spec fn opt_uri_view(u: Option<&Uri>) -> Option<UriView> {
    match u {
        Some(u) => Some(u@),
        None => None,
    }
}

/// The view of a rewrite's result.
pub open spec fn rewrite_view(r: Result<Uri, HttpError>) -> Result<UriView, (u16, Seq<char>)> {
    match r {
        Ok(u) => Ok(u@),
        Err(e) => Err((e.spec_status(), e.spec_message())),
    }
}

/// Rewrites the URI of a request for the route it matched.
///
/// Scheme and authority become those of `target_uri`, where one is given.
/// The path is replaced only where `replace_prefix` is given: by that prefix
/// followed by the captured parameter `path`, with the query carried over.
pub fn rewrite_proxied_uri(
    original: Uri,
    target_uri: Option<&Uri>,
    params: &Vec<(String, String)>,
    replace_prefix: Option<&str>,
) -> (r: Result<Uri, HttpError>)
    ensures
        rewrite_view(r) == rewritten(
            original@,
            opt_uri_view(target_uri),
            captures_view(params@),
            replace_prefix.deep_view(),
        ),
{
    let Uri { scheme, authority, path, query } = original;
    let has_path = path.as_str().unicode_len() > 0;
    let query = if has_path {
        query
    } else {
        None
    };
    let (scheme, authority) = match target_uri {
        Some(t) => (clone_opt(&t.scheme), clone_opt(&t.authority)),
        None => (scheme, authority),
    };
    let (path, query, has_path) = match replace_prefix {
        Some(prefix) => {
            let mut text = String::from_str(prefix);
            if let Some(p) = get_param(params, "path") {
                text.append(p);
            }
            if let Some(q) = &query {
                text.append("?");
                text.append(q.as_str());
            }
            proof {
                reveal_strlit("?");
                assert("?"@ =~= seq!['?']);
                assert(text@ =~= assembled_path(
                    prefix@,
                    capture(captures_view(params@), "path"@),
                    query.deep_view(),
                ));
            }
            match parse_path_and_query(text.as_str()) {
                Some((p, q)) => (p, q, true),
                None => {
                    return Err(HttpError::Static(INTERNAL_SERVER_ERROR, "uri problem"));
                },
            }
        },
        None => (path, query, has_path),
    };
    let fits = if scheme.is_some() {
        authority.is_some() && has_path
    } else {
        !(authority.is_some() && has_path)
    };
    if !fits {
        return Err(HttpError::Static(INTERNAL_SERVER_ERROR, "invalid uri"));
    }
    Ok(Uri { scheme, authority, path, query })
}

/// The captured `path` parameter, empty where there is none.
pub open spec fn captured_path(params: Captures) -> Seq<char> {
    match capture(params, "path"@) {
        Some(p) => p,
        None => Seq::<char>::empty(),
    }
}

/// A rewrite with the replacement prefix `R` and the captured path `C`
/// yields the path `R + C` and the query of the original URI.
///
/// This holds where `R + C` is not empty and holds neither `?` nor `#`, and
/// the original query holds no `#`: the parser would cut the text there.
pub proof fn lemma_rewrite_replaces_prefix(
    original: UriView,
    target: Option<UriView>,
    params: Captures,
    prefix: Seq<char>,
)
    requires
        rewritten(original, target, params, Some(prefix)).is_ok(),
        (prefix + captured_path(params)).len() > 0,
        !has_char(prefix, '?'),
        !has_char(prefix, '#'),
        !has_char(captured_path(params), '?'),
        !has_char(captured_path(params), '#'),
        query_of(original) matches Some(q) ==> !has_char(q, '#'),
    ensures
        rewritten(original, target, params, Some(prefix)) matches Ok(u) && u.path == prefix
            + captured_path(params) && u.query == query_of(original),
{
    let c = captured_path(params);
    let head = prefix + c;
    let text = assembled_path(prefix, capture(params, "path"@), query_of(original));
    lemma_position(prefix, '?');
    lemma_position(prefix, '#');
    lemma_position(c, '?');
    lemma_position(c, '#');
    assert(head.is_prefix_of(text)) by {
        assert(text.subrange(0, head.len() as int) =~= head);
    }
    assert forall|j: int| 0 <= j < head.len() implies head[j] != '?' && head[j] != '#' by {
        if j < prefix.len() {
            assert(head[j] == prefix[j]);
        } else {
            assert(head[j] == c[j - prefix.len()]);
        }
    }
    match query_of(original) {
        Some(q) => {
            lemma_position(q, '#');
            assert(text =~= head + seq!['?'] + q);
            assert forall|j: int| 0 <= j < text.len() implies text[j] != '#' by {
                if j < head.len() {
                    assert(text[j] == head[j]);
                } else if j > head.len() {
                    assert(text[j] == q[j - head.len() - 1]);
                }
            }
            lemma_position_is(text, '#', text.len() as int);
            let t = text.take(text.len() as int);
            assert(t =~= text);
            assert forall|j: int| 0 <= j < head.len() implies t[j] != '?' by {
                assert(t[j] == head[j]);
            }
            lemma_position_is(t, '?', head.len() as int);
            assert(t.take(head.len() as int) =~= head);
            assert(t.skip(head.len() as int + 1) =~= q);
        },
        None => {
            assert(text =~= head);
            lemma_position_is(text, '#', text.len() as int);
            let t = text.take(text.len() as int);
            assert(t =~= text);
            lemma_position_is(t, '?', t.len() as int);
            assert(t.take(t.len() as int) =~= t);
        },
    }
}

/// A rewrite for a backend yields the backend's scheme and authority, and
/// without a replacement prefix the path and query of the original URI.
pub proof fn lemma_rewrite_takes_backend(
    original: UriView,
    target: UriView,
    params: Captures,
    replace_prefix: Option<Seq<char>>,
)
    requires
        rewritten(original, Some(target), params, replace_prefix).is_ok(),
    ensures
        rewritten(original, Some(target), params, replace_prefix) matches Ok(u) && u.scheme
            == target.scheme && u.authority == target.authority && (replace_prefix.is_none() ==> (
            u.path == original.path && u.query == query_of(original))),
{
}

/// What a request was matched to, with its URI rewritten for the route.
#[derive(Debug)]
pub enum RouteMatch {
    /// Forward to a backend over the client of the given class, once the
    /// directive on sessions has been carried out.
    Proxy { backend_class: BackendClass, uri: Uri, auth_directive: AuthDirective },
    /// Hand to one of the gateway's own services.
    LocalService { uri: Uri, service: LocalHandler },
    /// Answer with a redirect to the URI.
    TemporaryRedirect(Uri),
}

/// The mathematical value of a [`RouteMatch`].
pub enum RouteMatchView {
    Proxy { backend_class: BackendClass, uri: UriView, auth_directive: AuthDirective },
    LocalService { uri: UriView, service: LocalHandler },
    TemporaryRedirect(UriView),
}

impl View for RouteMatch {
    type V = RouteMatchView;

    open spec fn view(&self) -> RouteMatchView {
        match self {
            RouteMatch::Proxy { backend_class, uri, auth_directive } => RouteMatchView::Proxy {
                backend_class: *backend_class,
                uri: uri@,
                auth_directive: *auth_directive,
            },
            RouteMatch::LocalService { uri, service } => RouteMatchView::LocalService {
                uri: uri@,
                service: *service,
            },
            RouteMatch::TemporaryRedirect(uri) => RouteMatchView::TemporaryRedirect(uri@),
        }
    }
}

/// The view of a match's result.
pub open spec fn route_match_view(r: Result<RouteMatch, HttpError>) -> Result<
    RouteMatchView,
    (u16, Seq<char>),
> {
    match r {
        Ok(m) => Ok(m@),
        Err(e) => Err((e.spec_status(), e.spec_message())),
    }
}

/// The URI that a request is forwarded with, where the table holds a proxy
/// for its path and the rewrite succeeds.
pub open spec fn proxied_uri(found: Option<(RouteView, Captures)>, uri: UriView) -> Option<
    UriView,
> {
    match found {
        Some((RouteView::Proxy(proxy), params)) => match rewritten(
            uri,
            Some(proxy.backend_uri),
            params,
            proxy.replace_prefix,
        ) {
            Ok(u) => Some(u),
            Err(_) => None,
        },
        _ => None,
    }
}

/// What the dispatcher makes of a request, given what the table found for
/// its path: 404 where it found nothing; for a proxy, the rewritten URI with
/// the backend's scheme and authority and the directive that the proxy
/// selects for the request as it is forwarded, or 400 where a forwarding
/// header cannot be written; for a redirect, its target; for a local
/// service, the URI with the service's prefix in place of the matched one.
pub open spec fn dispatched(
    found: Option<(RouteView, Captures)>,
    uri: UriView,
    entries: Map<Seq<char>, Seq<Seq<u8>>>,
) -> Result<RouteMatchView, (u16, Seq<char>)> {
    match found {
        None => Err((NOT_FOUND, "Not found"@)),
        Some((RouteView::Proxy(proxy), params)) => match rewritten(
            uri,
            Some(proxy.backend_uri),
            params,
            proxy.replace_prefix,
        ) {
            Ok(u) => if forwardable(entries, uri, u.path) {
                Ok(
                    RouteMatchView::Proxy {
                        backend_class: proxy.backend_class,
                        uri: u,
                        auth_directive: proxy.auth_directive_fn.select(
                            u,
                            forwarded(entries, uri, u.path),
                        ),
                    },
                )
            } else {
                Err((BAD_REQUEST, ""@))
            },
            Err(e) => Err(e),
        },
        Some((RouteView::TemporaryRedirect(target), _)) => Ok(
            RouteMatchView::TemporaryRedirect(target),
        ),
        Some((RouteView::Local(service), params)) => match rewritten(
            uri,
            None,
            params,
            service.prefix(),
        ) {
            Ok(u) => Ok(RouteMatchView::LocalService { uri: u, service }),
            Err(e) => Err(e),
        },
    }
}

/// Matches a request against the route table.
///
/// The table is only read, and for the length of this call: the match is
/// made on the table as it is handed in, whatever is published meanwhile.
/// For a proxy route the URI is rewritten and the forwarding headers are
/// set; for every other outcome the headers stay as they are, except that a
/// request that ends with 400 may have lost its `Host`.
pub fn match_route(
    routes: &RouteTable,
    uri: &Uri,
    headers: &mut http::HeaderMap<http::HeaderValue>,
) -> (r: Result<RouteMatch, HttpError>)
    requires
        header_count(*old(headers)) + 4 <= MAX_HEADER_NAMES,
    ensures
        route_match_view(r) == dispatched(
            router_match(router_insertions(*routes), uri@.path),
            uri@,
            header_entries(*old(headers)),
        ),
        proxied_uri(router_match(router_insertions(*routes), uri@.path), uri@) matches Some(u)
            ==> (r.is_ok() ==> header_entries(*final(headers)) == forwarded(
            header_entries(*old(headers)),
            uri@,
            u.path,
        )),
        proxied_uri(router_match(router_insertions(*routes), uri@.path), uri@).is_none()
            ==> header_entries(*final(headers)) == header_entries(*old(headers)),
        header_count(*final(headers)) <= header_count(*old(headers)) + 4,
{
    let Some((route, params)) = lookup(routes, uri.path()) else {
        return Err(HttpError::Static(NOT_FOUND, "Not found"));
    };
    match route {
        Route::Proxy(proxy) => {
            let rewritten_uri = match rewrite_proxied_uri(
                uri.clone(),
                Some(proxy.backend_uri()),
                &params,
                proxy.replace_prefix(),
            ) {
                Ok(u) => u,
                Err(e) => {
                    return Err(e);
                },
            };
            match set_proxy_headers(headers, &rewritten_uri, uri) {
                Ok(()) => {},
                Err(e) => {
                    return Err(e);
                },
            }
            let auth_directive = proxy.get_auth_directive(&rewritten_uri, headers);
            Ok(
                RouteMatch::Proxy {
                    backend_class: proxy.backend_class(),
                    uri: rewritten_uri,
                    auth_directive,
                },
            )
        },
        Route::TemporaryRedirect(target) => Ok(RouteMatch::TemporaryRedirect(target.clone())),
        Route::Local(service) => {
            let rewritten_uri = match rewrite_proxied_uri(
                uri.clone(),
                None,
                &params,
                service.replace_prefix(),
            ) {
                Ok(u) => u,
                Err(e) => {
                    return Err(e);
                },
            };
            Ok(RouteMatch::LocalService { uri: rewritten_uri, service: *service })
        },
    }
}

/// The response to a request that matched a redirect: 307 with the target
/// as `location` and an empty body.
pub fn redirect_response(target: &Uri) -> (r: HyperResponse)
    ensures
        r.status == TEMPORARY_REDIRECT,
        header_list(r.headers@) == seq![("location"@, value_bytes(target@.text()))],
        r.body@ == Seq::<char>::empty(),
{
    let mut headers: Vec<(String, Vec<u8>)> = Vec::new();
    headers.push((String::from_str("location"), target.to_string().as_str().as_bytes_vec()));
    proof {
        assert(header_list(headers@) =~= seq![("location"@, value_bytes(target@.text()))]);
    }
    HyperResponse { status: TEMPORARY_REDIRECT, headers, body: String::new() }
}

} // verus!
