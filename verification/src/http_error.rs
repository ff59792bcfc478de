//! The error a request ends with, and the responses the gateway writes itself.

use vstd::prelude::*;
use vstd::string::*;

verus! {

pub const BAD_REQUEST: u16 = 400;

pub const UNAUTHORIZED: u16 = 401;

pub const NOT_FOUND: u16 = 404;

pub const METHOD_NOT_ALLOWED: u16 = 405;

pub const NOT_ACCEPTABLE: u16 = 406;

pub const INTERNAL_SERVER_ERROR: u16 = 500;

pub const BAD_GATEWAY: u16 = 502;

pub const SWITCHING_PROTOCOLS: u16 = 101;

pub const TEMPORARY_REDIRECT: u16 = 307;

/// A failed request: an HTTP status code and a short message.
#[derive(Debug)]
pub enum HttpError {
    /// A status with a fixed message.
    Static(u16, &'static str),
    /// A status with a message made at run time.
    Dynamic(u16, String),
}

/// A response that the gateway writes itself: an error, a redirect, or the
/// reply to a protocol upgrade. Header names are lower case; a header value
/// is a sequence of bytes.
#[derive(Debug)]
pub struct HyperResponse {
    pub status: u16,
    pub headers: Vec<(String, Vec<u8>)>,
    pub body: String,
}

/// The view of a list of headers: each name with the bytes of its value.
pub open spec fn header_list(headers: Seq<(String, Vec<u8>)>) -> Seq<(Seq<char>, Seq<u8>)> {
    headers.map_values(|h: (String, Vec<u8>)| (h.0@, h.1@))
}

impl HttpError {
    /// The status code of the error.
    pub open spec fn spec_status(&self) -> u16 {
        match *self {
            HttpError::Static(status, _) => status,
            HttpError::Dynamic(status, _) => status,
        }
    }

    /// The message of the error.
    pub open spec fn spec_message(&self) -> Seq<char> {
        match *self {
            HttpError::Static(_, msg) => msg@,
            HttpError::Dynamic(_, msg) => msg@,
        }
    }

    /// Whether the error has the given status and message.
    pub open spec fn is(&self, status: u16, msg: Seq<char>) -> bool {
        self.spec_status() == status && self.spec_message() == msg
    }

    /// 400 with the given message.
    pub fn bad_request(msg: &'static str) -> (e: Self)
        ensures
            e == HttpError::Static(BAD_REQUEST, msg),
    {
        HttpError::Static(BAD_REQUEST, msg)
    }

    /// 502 with the given message.
    pub fn bad_gateway(msg: &'static str) -> (e: Self)
        ensures
            e == HttpError::Static(BAD_GATEWAY, msg),
    {
        HttpError::Static(BAD_GATEWAY, msg)
    }

    /// The status code of the error.
    #[verifier::when_used_as_spec(spec_status)]
    pub fn status(&self) -> (s: u16)
        ensures
            s == self.spec_status(),
    {
        match self {
            HttpError::Static(status, _) => *status,
            HttpError::Dynamic(status, _) => *status,
        }
    }

    /// The response for the error: its status, no headers, and the message
    /// as the body.
    pub fn into_hyper_response(self) -> (r: HyperResponse)
        ensures
            r.status == self.spec_status(),
            r.headers@.len() == 0,
            r.body@ == self.spec_message(),
    {
        match self {
            HttpError::Static(status, msg) => HyperResponse {
                status,
                headers: Vec::new(),
                body: String::from_str(msg),
            },
            HttpError::Dynamic(status, msg) => HyperResponse {
                status,
                headers: Vec::new(),
                body: msg,
            },
        }
    }
}

} // verus!
