//! The routes that every table starts with.

use crate::local::{Docs, Health, LocalHandler, Onto, Static};
use crate::route::{Route, RouteView};
use crate::table::{
    all_taken, entries_view, insert_all, new_table, router_insertions, Insertion, RouteTable,
};
use crate::uri::{parsed_uri, Uri};
use crate::ArxError;
use vstd::prelude::*;
use vstd::string::*;

verus! {

/// The redirect to the URI that `target` parses to.
pub open spec fn redirect_to(target: Seq<char>) -> RouteView {
    RouteView::TemporaryRedirect(parsed_uri(target).unwrap())
}

/// The static routes, in the order in which they are inserted.
pub open spec fn static_plan() -> Seq<Insertion> {
    seq![
        ("/health"@, RouteView::Local(LocalHandler::Health(Health))),
        ("/favicon.ico"@, redirect_to("/static/favicon.png"@)),
        ("/favicon.svg"@, redirect_to("/static/favicon.png"@)),
        ("/favicon.png"@, redirect_to("/static/favicon.png"@)),
        ("/"@, redirect_to("/onto/"@)),
        ("/onto"@, redirect_to("/onto/"@)),
        ("/onto/"@, RouteView::Local(LocalHandler::Onto(Onto))),
        ("/onto/{*path}"@, RouteView::Local(LocalHandler::Onto(Onto))),
        ("/docs"@, redirect_to("/docs/"@)),
        ("/docs/"@, RouteView::Local(LocalHandler::Docs(Docs))),
        ("/docs/{*path}"@, RouteView::Local(LocalHandler::Docs(Docs))),
        ("/static/{*path}"@, RouteView::Local(LocalHandler::Static(Static))),
    ]
}

/// Whether the static routes can be built: the redirect targets are URIs and
/// every pattern is taken.
pub open spec fn static_routes_fit() -> bool {
    &&& parsed_uri("/static/favicon.png"@).is_some()
    &&& parsed_uri("/onto/"@).is_some()
    &&& parsed_uri("/docs/"@).is_some()
    &&& all_taken(Seq::empty(), static_plan())
}

/// The redirect to `target`, `None` where the target is no URI.
fn redirect(target: &str) -> (r: Option<Route>)
    ensures
        r.is_some() == parsed_uri(target@).is_some(),
        r matches Some(route) ==> route@ == redirect_to(target@),
{
    match Uri::parse(target) {
        Some(uri) => Some(Route::TemporaryRedirect(uri)),
        None => None,
    }
}

/// The static routes with their patterns, in the order of [`static_plan`];
/// `None` where a redirect's target is no URI.
fn static_entries() -> (r: Option<Vec<(String, Route)>>)
    ensures
        r.is_some() == (parsed_uri("/static/favicon.png"@).is_some() && parsed_uri(
            "/onto/"@,
        ).is_some() && parsed_uri("/docs/"@).is_some()),
        r matches Some(entries) ==> entries_view(entries@) == static_plan(),
{
    let favicon = redirect("/static/favicon.png")?;
    let onto = redirect("/onto/")?;
    let docs = redirect("/docs/")?;
    let mut entries: Vec<(String, Route)> = Vec::new();
    entries.push((String::from_str("/health"), Route::Local(LocalHandler::Health(Health))));
    // deliberate redirects to the .png
    entries.push((String::from_str("/favicon.ico"), favicon.clone()));
    entries.push((String::from_str("/favicon.svg"), favicon.clone()));
    entries.push((String::from_str("/favicon.png"), favicon));
    entries.push((String::from_str("/"), onto.clone()));
    entries.push((String::from_str("/onto"), onto));
    entries.push((String::from_str("/onto/"), Route::Local(LocalHandler::Onto(Onto))));
    entries.push((String::from_str("/onto/{*path}"), Route::Local(LocalHandler::Onto(Onto))));
    entries.push((String::from_str("/docs"), docs));
    entries.push((String::from_str("/docs/"), Route::Local(LocalHandler::Docs(Docs))));
    entries.push((String::from_str("/docs/{*path}"), Route::Local(LocalHandler::Docs(Docs))));
    entries.push((String::from_str("/static/{*path}"), Route::Local(LocalHandler::Static(Static))));
    proof {
        assert(entries_view(entries@) =~= static_plan());
    }
    Some(entries)
}

/// The table of the routes that are always present: the health endpoint,
/// the favicon redirects, the two local applications with the redirects to
/// their roots, and the static assets.
pub fn static_routes() -> (r: Result<RouteTable, ArxError>)
    ensures
        r.is_ok() == static_routes_fit(),
        r matches Ok(router) ==> router_insertions(router) == static_plan(),
{
    let Some(entries) = static_entries() else {
        return Err(ArxError::Internal(String::from_str("static route is no uri")));
    };
    let mut routes = new_table();
    if insert_all(&mut routes, entries) {
        assert(Seq::<Insertion>::empty() + static_plan() =~= static_plan());
        Ok(routes)
    } else {
        Err(ArxError::Internal(String::from_str("static route refused")))
    }
}

} // verus!
