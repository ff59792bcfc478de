//! The route table: a `matchit::Router` that holds a [`Route`] under each
//! path pattern, together with the record of what was inserted into it.
//!
//! A table is described by the insertions made into its router, in order.
//! Whether an insertion is accepted and what a path matches are the
//! router's own decisions; both are named here as functions of those
//! insertions.

use crate::route::{Route, RouteView};
use crate::text::{count_char, occurrences};
use vstd::prelude::*;

verus! {

#[verifier::external_type_specification]
#[verifier::external_body]
#[verifier::reject_recursive_types(T)]
pub struct ExRouter<T>(matchit::Router<T>);

/// A route table: the router, and the record of every insertion that was
/// made into it, accepted or not, in order. The record is kept by the
/// functions of this module alone: a table starts empty with an empty
/// record, and each insertion into the router adds to the record.
pub struct RouteTable {
    router: matchit::Router<Route>,
    log: Ghost<Seq<Insertion>>,
}

/// One insertion: the path pattern and the route handed to the router.
pub type Insertion = (Seq<char>, RouteView);

/// The parameters captured by a match, as names and values, first to last.
pub type Captures = Seq<(Seq<char>, Seq<char>)>;

/// Every insertion made into the router of a table, accepted or not, in
/// order.
pub closed spec fn router_insertions(table: RouteTable) -> Seq<Insertion> {
    table.log@
}

/// Whether a router takes the pattern `route` after the insertions `before`.
pub uninterp spec fn insertion_accepted(before: Seq<Insertion>, route: Seq<char>) -> bool;

/// What a router built by `insertions` finds for `path`: the route and the
/// captured parameters, or `None` where no pattern matches.
pub uninterp spec fn router_match(insertions: Seq<Insertion>, path: Seq<char>) -> Option<
    (RouteView, Captures),
>;

/// The most parameters that the router can number in one pattern.
pub const MAX_PARAMETERS: usize = 25;

/// Whether a pattern can be handed to the router: it opens no more braces,
/// and so names no more parameters, than the router can number.
pub open spec fn fits(route: Seq<char>) -> bool {
    occurrences(route, '{') <= MAX_PARAMETERS
}

/// What inserting a route under a pattern hands to the router: the pattern
/// and the route, or nothing where the pattern does not fit.
pub open spec fn entry(route: Seq<char>, value: RouteView) -> Seq<Insertion> {
    if fits(route) {
        seq![(route, value)]
    } else {
        Seq::empty()
    }
}

/// Whether a pattern is taken after the insertions `before`: it fits, and
/// the router accepts it.
pub open spec fn taken(before: Seq<Insertion>, route: Seq<char>) -> bool {
    fits(route) && insertion_accepted(before, route)
}

/// Whether each insertion of `plan` is taken in turn, after `before`.
pub open spec fn all_taken(before: Seq<Insertion>, plan: Seq<Insertion>) -> bool {
    forall|i: int| 0 <= i < plan.len() ==> taken(before + plan.take(i), #[trigger] plan[i].0)
}

/// The view of a list of captured parameters.
pub open spec fn captures_view(params: Seq<(String, String)>) -> Captures {
    params.map_values(|p: (String, String)| (p.0@, p.1@))
}

/// The view of a lookup's result.
pub open spec fn match_view(m: Option<(&Route, Vec<(String, String)>)>) -> Option<
    (RouteView, Captures),
> {
    match m {
        Some((route, params)) => Some((route@, captures_view(params@))),
        None => None,
    }
}

/// `Router::new`: a table whose router is new, with nothing on record.
#[verifier::external_body]
pub(crate) fn router_new() -> (table: RouteTable)
    ensures
        router_insertions(table) == Seq::<Insertion>::empty(),
{
    RouteTable { router: matchit::Router::new(), log: Ghost(Seq::empty()) }
}

/// `Router::insert`: hands the pattern and the route to the table's router,
/// puts them on record, and reports whether the router took them. What the
/// router does with a pattern is fixed by the insertions made before. The
/// router numbers the parameters of a pattern with the letters `a` to `z`
/// and panics at the 26th; every parameter opens a brace, so a pattern that
/// fits has at most 25.
#[verifier::external_body]
pub(crate) fn router_insert(table: &mut RouteTable, path: &str, route: Route) -> (ok: bool)
    requires
        fits(path@),
    ensures
        router_insertions(*final(table)) == router_insertions(*old(table)).push(
            (path@, route@),
        ),
        ok == insertion_accepted(router_insertions(*old(table)), path@),
{
    table.log = Ghost(table.log@.push((path@, route@)));
    table.router.insert(path, route).is_ok()
}

/// `Router::at`: the route stored under the pattern that matches the path,
/// with the parameters of the match as `Params::iter` yields them. What a
/// path matches is fixed by the insertions made into the router.
#[verifier::external_body]
pub(crate) fn router_at<'a>(table: &'a RouteTable, path: &str) -> (m: Option<
    (&'a Route, Vec<(String, String)>),
>)
    ensures
        match_view(m) == router_match(router_insertions(*table), path@),
{
    match table.router.at(path) {
        Ok(m) => Some(
            (m.value, m.params.iter().map(|(k, v)| (k.to_string(), v.to_string())).collect()),
        ),
        Err(_) => None,
    }
}

/// `<Router as Clone>::clone`: a table with a copy of the router, of which
/// the same insertions are on record.
#[verifier::external_body]
pub(crate) fn router_clone(table: &RouteTable) -> (copy: RouteTable)
    ensures
        router_insertions(copy) == router_insertions(*table),
{
    RouteTable { router: table.router.clone(), log: Ghost(table.log@) }
}

impl Clone for RouteTable {
    /// A copy of the table.
    fn clone(&self) -> (copy: RouteTable)
        ensures
            router_insertions(copy) == router_insertions(*self),
    {
        router_clone(self)
    }
}

impl RouteTable {
    /// The router of the table.
    pub closed spec fn spec_router(&self) -> matchit::Router<Route> {
        self.router
    }

    /// The router of the table, to read.
    pub fn router(&self) -> (r: &matchit::Router<Route>)
        ensures
            *r == self.spec_router(),
    {
        &self.router
    }
}

/// An empty route table.
pub fn new_table() -> (router: RouteTable)
    ensures
        router_insertions(router) == Seq::<Insertion>::empty(),
{
    router_new()
}

/// Whether a pattern can be handed to the router.
pub fn pattern_fits(path: &str) -> (r: bool)
    ensures
        r == fits(path@),
{
    count_char(path, '{') <= MAX_PARAMETERS
}

/// Inserts a route under a pattern. `false` where the pattern is not taken:
/// where the router refuses it, as it does for one that conflicts with an
/// earlier one, or where it does not fit and is not handed to the router at
/// all.
pub fn insert(router: &mut RouteTable, path: &str, route: Route) -> (ok: bool)
    ensures
        router_insertions(*final(router)) == router_insertions(*old(router)) + entry(
            path@,
            route@,
        ),
        ok == taken(router_insertions(*old(router)), path@),
{
    if !pattern_fits(path) {
        assert(router_insertions(*router) + Seq::<Insertion>::empty() =~= router_insertions(
            *router,
        ));
        return false;
    }
    let ghost before = router_insertions(*router);
    let ok = router_insert(router, path, route);
    assert(before.push((path@, route@)) =~= before + seq![(path@, route@)]);
    ok
}

/// The insertions that a list of patterns and routes stands for.
pub open spec fn entries_view(entries: Seq<(String, Route)>) -> Seq<Insertion> {
    entries.map_values(|e: (String, Route)| (e.0@, e.1@))
}

/// Inserts the entries in turn and stops at the first one that is not
/// taken. `true` where all were taken.
pub fn insert_all(router: &mut RouteTable, entries: Vec<(String, Route)>) -> (ok: bool)
    ensures
        ok == all_taken(router_insertions(*old(router)), entries_view(entries@)),
        ok ==> router_insertions(*final(router)) == router_insertions(*old(router))
            + entries_view(entries@),
{
    let ghost before = router_insertions(*router);
    let ghost plan = entries_view(entries@);
    assert(before + plan.take(0) =~= before);
    for item in it: entries.into_iter()
        invariant
            it.seq() == entries@,
            plan == entries_view(entries@),
            before == router_insertions(*old(router)),
            router_insertions(*router) == before + plan.take(it.index() as int),
            forall|i: int|
                0 <= i < it.index() ==> taken(before + plan.take(i), #[trigger] plan[i].0),
    {
        let ghost k = it.index() as int;
        assert(plan[k] == (item.0@, item.1@));
        assert(plan.take(k + 1) =~= plan.take(k).push(plan[k]));
        assert(before + plan.take(k + 1) =~= before + plan.take(k) + seq![plan[k]]);
        if !insert(router, item.0.as_str(), item.1) {
            assert(0 <= k < plan.len());
            assert(!taken(before + plan.take(k), plan[k].0));
            return false;
        }
    }
    assert(plan.take(plan.len() as int) =~= plan);
    true
}

/// The route that the table holds for a path, with the captured parameters.
pub fn lookup<'a>(router: &'a RouteTable, path: &str) -> (m: Option<
    (&'a Route, Vec<(String, String)>),
>)
    ensures
        match_view(m) == router_match(router_insertions(*router), path@),
{
    router_at(router, path)
}

/// The value of the first parameter named `key`.
pub open spec fn capture(params: Captures, key: Seq<char>) -> Option<Seq<char>>
    decreases params.len(),
{
    if params.len() == 0 {
        None
    } else if params[0].0 == key {
        Some(params[0].1)
    } else {
        capture(params.drop_first(), key)
    }
}

/// The value of the first parameter named `key`, if there is one.
pub fn get_param<'a>(params: &'a Vec<(String, String)>, key: &str) -> (r: Option<&'a str>)
    ensures
        r.deep_view() == capture(captures_view(params@), key@),
{
    let mut i: usize = 0;
    assert(captures_view(params@).skip(0) =~= captures_view(params@));
    while i < params.len()
        invariant
            i <= params.len(),
            capture(captures_view(params@), key@) == capture(
                captures_view(params@).skip(i as int),
                key@,
            ),
        decreases params.len() - i,
    {
        let ghost rest = captures_view(params@).skip(i as int);
        assert(rest[0] == (params@[i as int].0@, params@[i as int].1@));
        assert(rest.drop_first() =~= captures_view(params@).skip(i + 1));
        if crate::text::str_eq(params[i].0.as_str(), key) {
            return Some(params[i].1.as_str());
        }
        i += 1;
    }
    assert(captures_view(params@).skip(i as int).len() == 0);
    None
}

} // verus!
