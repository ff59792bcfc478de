//! The services that the gateway answers itself.

use crate::http_error::{HttpError, BAD_GATEWAY, METHOD_NOT_ALLOWED};
use crate::text::str_eq;
use vstd::prelude::*;

verus! {

/// A service implemented by the gateway itself.
pub trait LocalService {
    /// The prefix that replaces the matched part of the request path.
    spec fn prefix(&self) -> Option<Seq<char>>;

    /// The prefix that replaces the matched part of the request path, or
    /// `None` where the path is handed on as it came.
    fn replace_prefix(&self) -> (r: Option<&str>)
        ensures
            r.deep_view() == self.prefix(),
    ;
}

/// The ontology application.
#[derive(Clone, Copy, Debug, PartialEq, Eq, Structural)]
pub struct Onto;

/// The documentation bundle.
#[derive(Clone, Copy, Debug, PartialEq, Eq, Structural)]
pub struct Docs;

/// Static assets.
#[derive(Clone, Copy, Debug, PartialEq, Eq, Structural)]
pub struct Static;

/// The health report.
#[derive(Clone, Copy, Debug, PartialEq, Eq, Structural)]
pub struct Health;

/// The list of services.
#[derive(Clone, Copy, Debug, PartialEq, Eq, Structural)]
pub struct Services {}

/// One of the gateway's own services.
#[derive(Clone, Copy, Debug, PartialEq, Eq, Structural)]
pub enum LocalHandler {
    Health(Health),
    Onto(Onto),
    Docs(Docs),
    Static(Static),
    Services(Services),
}

impl LocalService for Onto {
    open spec fn prefix(&self) -> Option<Seq<char>> {
        Some("/"@)
    }

    fn replace_prefix(&self) -> (r: Option<&str>) {
        Some("/")
    }
}

impl LocalService for Docs {
    open spec fn prefix(&self) -> Option<Seq<char>> {
        Some("/"@)
    }

    fn replace_prefix(&self) -> (r: Option<&str>) {
        Some("/")
    }
}

impl LocalService for Static {
    open spec fn prefix(&self) -> Option<Seq<char>> {
        Some("/"@)
    }

    fn replace_prefix(&self) -> (r: Option<&str>) {
        Some("/")
    }
}

impl LocalService for Health {
    open spec fn prefix(&self) -> Option<Seq<char>> {
        Some("/"@)
    }

    fn replace_prefix(&self) -> (r: Option<&str>) {
        Some("/")
    }
}

impl LocalService for Services {
    open spec fn prefix(&self) -> Option<Seq<char>> {
        Some("/"@)
    }

    fn replace_prefix(&self) -> (r: Option<&str>) {
        Some("/")
    }
}

impl LocalService for LocalHandler {
    open spec fn prefix(&self) -> Option<Seq<char>> {
        match self {
            LocalHandler::Health(s) => s.prefix(),
            LocalHandler::Onto(s) => s.prefix(),
            LocalHandler::Docs(s) => s.prefix(),
            LocalHandler::Static(s) => s.prefix(),
            LocalHandler::Services(s) => s.prefix(),
        }
    }

    fn replace_prefix(&self) -> (r: Option<&str>) {
        match self {
            LocalHandler::Health(s) => s.replace_prefix(),
            LocalHandler::Onto(s) => s.replace_prefix(),
            LocalHandler::Docs(s) => s.replace_prefix(),
            LocalHandler::Static(s) => s.replace_prefix(),
            LocalHandler::Services(s) => s.replace_prefix(),
        }
    }
}

/// Accepts the method `GET` and no other.
pub fn match_get(method: &str) -> (r: Result<(), HttpError>)
    ensures
        r.is_ok() == (method@ == "GET"@),
        r matches Err(e) ==> e.is(METHOD_NOT_ALLOWED, "method not allowed"@),
{
    if str_eq(method, "GET") {
        Ok(())
    } else {
        Err(HttpError::Static(METHOD_NOT_ALLOWED, "method not allowed"))
    }
}

/// The health of one component.
#[derive(Debug)]
pub struct HealthInfo {
    pub name: String,
    pub url: Option<String>,
    pub status_code: u16,
    pub status: String,
}

/// How a health query ended.
#[derive(Debug)]
pub enum HealthReply {
    /// The component answered with this status and, for an error status,
    /// this body.
    Answer(u16, Option<String>),
    /// The query failed, with this status if the failure carries one, and
    /// this description.
    Failure(Option<u16>, String),
}

/// Whether a status code is that of a client or server error.
pub open spec fn is_error_status(status: u16) -> bool {
    400 <= status && status < 600
}

impl HealthInfo {
    /// Records how a query of the component's health ended. An answer sets
    /// the status code, and for an error status the body as the status; a
    /// failure sets its own status code, 502 where it has none, and its
    /// description. A component without a URL is not queried: nothing
    /// changes.
    pub fn health_query(&mut self, reply: HealthReply)
        ensures
            final(self).name == old(self).name,
            final(self).url == old(self).url,
            final(self).status_code == (if old(self).url.is_none() {
                old(self).status_code
            } else {
                match reply {
                    HealthReply::Answer(code, _) => code,
                    HealthReply::Failure(Some(code), _) => code,
                    HealthReply::Failure(None, _) => BAD_GATEWAY,
                }
            }),
            final(self).status@ == (if old(self).url.is_none() {
                old(self).status@
            } else {
                match reply {
                    HealthReply::Answer(code, body) => if is_error_status(code) {
                        match body {
                            Some(text) => text@,
                            None => Seq::<char>::empty(),
                        }
                    } else {
                        old(self).status@
                    },
                    HealthReply::Failure(_, text) => text@,
                }
            }),
    {
        if self.url.is_none() {
            return ;
        }
        match reply {
            HealthReply::Answer(code, body) => {
                self.status_code = code;
                if 400 <= code && code < 600 {
                    self.status = match body {
                        Some(text) => text,
                        None => String::new(),
                    };
                }
            },
            HealthReply::Failure(code, text) => {
                self.status_code = match code {
                    Some(code) => code,
                    None => BAD_GATEWAY,
                };
                self.status = text;
            },
        }
    }
}

/// The health of the gateway's components.
pub fn health() -> (r: Vec<HealthInfo>)
    ensures
        r@.len() == 0,
{
    Vec::new()
}

} // verus!
