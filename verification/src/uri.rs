//! URIs as the gateway reads them: an optional scheme and authority, a path
//! and an optional query, each as text.

use crate::text::position;
use std::str::FromStr;
use vstd::prelude::*;
use vstd::string::*;

verus! {

/// A URI in parts. `path` is empty exactly when the URI has no path
/// component at all, as an authority-form URI has none.
#[derive(Debug)]
pub struct Uri {
    pub scheme: Option<String>,
    pub authority: Option<String>,
    pub path: String,
    pub query: Option<String>,
}

/// The mathematical value of a [`Uri`].
pub struct UriView {
    pub scheme: Option<Seq<char>>,
    pub authority: Option<Seq<char>>,
    pub path: Seq<char>,
    pub query: Option<Seq<char>>,
}

impl View for Uri {
    type V = UriView;

    open spec fn view(&self) -> UriView {
        UriView {
            scheme: self.scheme.deep_view(),
            authority: self.authority.deep_view(),
            path: self.path@,
            query: self.query.deep_view(),
        }
    }
}

impl UriView {
    /// The URI written out: `scheme://`, the authority, the path, and `?query`.
    pub open spec fn text(self) -> Seq<char> {
        (match self.scheme {
            Some(s) => s + "://"@,
            None => Seq::<char>::empty(),
        }) + (match self.authority {
            Some(a) => a,
            None => Seq::<char>::empty(),
        }) + self.path + (match self.query {
            Some(q) => "?"@ + q,
            None => Seq::<char>::empty(),
        })
    }
}

/// What `http`'s URI parser makes of a string: `None` where it rejects the
/// string, otherwise the scheme, authority, path and query it reports.
pub uninterp spec fn parsed_uri(s: Seq<char>) -> Option<UriView>;

/// Whether `http` accepts a string as the path-and-query part of a URI.
pub uninterp spec fn path_and_query_valid(s: Seq<char>) -> bool;

/// Path and query of a path-and-query string: a fragment, from the first `#`
/// on, is dropped; the path is what precedes the first `?`, or `/` where that
/// is empty; the query is what follows the first `?`.
pub open spec fn split_path_and_query(s: Seq<char>) -> (Seq<char>, Option<Seq<char>>) {
    let t = s.take(position(s, '#'));
    let q = position(t, '?');
    (
        if q == 0 {
            seq!['/']
        } else {
            t.take(q)
        },
        if q < t.len() {
            Some(t.skip(q + 1))
        } else {
            None
        },
    )
}

/// `<http::Uri as FromStr>::from_str`, with the parts of the parsed URI read
/// through `scheme_str`, `authority`, `path` and `query`. The contract names
/// the outcome and claims nothing else of it.
#[verifier::external_body]
fn http_parse_uri(s: &str) -> (r: Option<Uri>)
    ensures
        r.is_some() == parsed_uri(s@).is_some(),
        r matches Some(u) ==> Some(u@) == parsed_uri(s@),
{
    match http::Uri::from_str(s) {
        Ok(u) => Some(
            Uri {
                scheme: u.scheme_str().map(|x| x.to_string()),
                authority: u.authority().map(|x| x.as_str().to_string()),
                path: u.path().to_string(),
                query: u.query().map(|x| x.to_string()),
            },
        ),
        Err(_) => None,
    }
}

/// `<http::uri::PathAndQuery as FromStr>::from_str`, with the result read
/// through `path` and `query`. Which strings are accepted is named, not
/// stated; for an accepted string the source shows the split that
/// [`split_path_and_query`] describes.
#[verifier::external_body]
fn http_parse_path_and_query(s: &str) -> (r: Option<(String, Option<String>)>)
    ensures
        r.is_some() == path_and_query_valid(s@),
        r matches Some(pq) ==> (pq.0@, pq.1.deep_view()) == split_path_and_query(s@),
{
    match http::uri::PathAndQuery::from_str(s) {
        Ok(pq) => Some((pq.path().to_string(), pq.query().map(|x| x.to_string()))),
        Err(_) => None,
    }
}

impl Clone for Uri {
    fn clone(&self) -> (r: Uri)
        ensures
            r@ == self@,
    {
        Uri {
            scheme: clone_opt(&self.scheme),
            authority: clone_opt(&self.authority),
            path: self.path.clone(),
            query: clone_opt(&self.query),
        }
    }
}

impl Uri {
    /// Parses a URI. `None` where the string is no URI.
    pub fn parse(s: &str) -> (r: Option<Uri>)
        ensures
            r.is_some() == parsed_uri(s@).is_some(),
            r matches Some(u) ==> Some(u@) == parsed_uri(s@),
    {
        http_parse_uri(s)
    }

    /// The path, empty where the URI has none.
    pub fn path(&self) -> (p: &str)
        ensures
            p@ == self@.path,
    {
        self.path.as_str()
    }

    /// The query, if there is one.
    pub fn query(&self) -> (q: Option<&str>)
        ensures
            q.deep_view() == self@.query,
    {
        match &self.query {
            Some(q) => Some(q.as_str()),
            None => None,
        }
    }

    /// The URI written out.
    pub fn to_string(&self) -> (s: String)
        ensures
            s@ == self@.text(),
    {
        let mut s = String::new();
        if let Some(scheme) = &self.scheme {
            s.append(scheme.as_str());
            s.append("://");
        }
        if let Some(authority) = &self.authority {
            s.append(authority.as_str());
        }
        s.append(self.path.as_str());
        if let Some(query) = &self.query {
            s.append("?");
            s.append(query.as_str());
        }
        proof {
            assert(s@ =~= self@.text());
        }
        s
    }
}

/// Splits an accepted path-and-query string; `None` where `http` rejects it.
pub fn parse_path_and_query(s: &str) -> (r: Option<(String, Option<String>)>)
    ensures
        r.is_some() == path_and_query_valid(s@),
        r matches Some(pq) ==> (pq.0@, pq.1.deep_view()) == split_path_and_query(s@),
{
    http_parse_path_and_query(s)
}

/// A copy of an optional string.
pub fn clone_opt(o: &Option<String>) -> (r: Option<String>)
    ensures
        r.deep_view() == o.deep_view(),
{
    match o {
        Some(s) => Some(s.clone()),
        None => None,
    }
}

} // verus!
