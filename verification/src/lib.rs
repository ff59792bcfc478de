//! The decision logic of a reverse-proxy gateway: route tables and their
//! compilation from declarative routes, URI rewriting, forwarding headers,
//! session-to-token directives, and the proxy engine's protocol rules.

use vstd::prelude::*;
use vstd::string::*;

pub mod authentication;
pub mod compression;
pub mod config;
pub mod gateway;
pub mod header_map;
pub mod headers;
pub mod http_client;
pub mod http_error;
pub mod k8s_routing;
pub mod k8s_util;
pub mod local;
pub mod reverse_proxy;
pub mod route;
pub mod static_routes;
pub mod table;
pub mod text;
pub mod uri;

verus! {

/// What can go wrong below the request pipeline.
#[derive(Debug)]
pub enum ArxError {
    /// The request carries no session that the identity service accepts.
    NotAuthenticated,
    /// Anything else, with its description.
    Internal(String),
}

impl ArxError {
    /// The error written out.
    pub open spec fn text(&self) -> Seq<char> {
        match *self {
            ArxError::NotAuthenticated => "not authenticated"@,
            ArxError::Internal(text) => "internal: "@ + text@,
        }
    }

    /// The error written out: `not authenticated`, or `internal: ` and the
    /// description.
    pub fn to_string(&self) -> (s: String)
        ensures
            s@ == self.text(),
    {
        match self {
            ArxError::NotAuthenticated => String::from_str("not authenticated"),
            ArxError::Internal(text) => String::from_str("internal: ").concat(text.as_str()),
        }
    }
}

/// The internal error with the given description.
pub fn arx_anyhow(error: String) -> (e: ArxError)
    ensures
        e == ArxError::Internal(error),
{
    ArxError::Internal(error)
}

} // verus!
