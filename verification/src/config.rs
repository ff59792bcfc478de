//! The gateway's configuration, and what is derived from it.

use crate::text::{digits_value, is_decimal_digit, push_decimal, signed_decimal, str_eq};
use vstd::prelude::*;
use vstd::string::*;

verus! {

/// How retries of cross-service requests are spread.
#[derive(Clone, Copy, Debug, PartialEq, Eq, Structural)]
pub enum Jitter {
    /// Retries are not spread.
    Off,
    /// A retry waits anything up to the full interval.
    Full,
    /// A retry waits at least half of the interval.
    Bounded,
}

/// A request method that CORS may allow, or `Any` for all of them.
#[derive(Clone, Copy, Debug, PartialEq, Eq, Structural)]
pub enum Method {
    Options,
    Get,
    Post,
    Put,
    Delete,
    Head,
    Trace,
    Connect,
    Patch,
    Any,
}

/// How hard responses are compressed.
#[derive(Clone, Copy, Debug, PartialEq, Eq, Structural)]
pub enum Level {
    Fastest,
    Best,
    Default,
    /// A level of the algorithm's own scale.
    Precise(i32),
}

/// The configured compression level.
#[derive(Clone, Copy, Debug, PartialEq, Eq, Structural)]
pub struct CompressionLevel(pub Level);

/// A list that is given, or a wildcard in its place.
#[derive(Debug)]
pub enum OrAny<T> {
    Given(T),
    Any,
}

/// The wildcard for request methods.
#[derive(Clone, Copy, Debug, PartialEq, Eq, Structural)]
pub struct Any;

/// The configuration. Durations are in milliseconds, sizes in bytes.
#[derive(Debug)]
pub struct ArxConfig {
    /// The log level.
    pub log_level: String,
    /// Whether requests are logged.
    pub access_log: bool,
    /// The URL of the identity service.
    pub authly_url: String,
    /// The size above which a request is refused.
    pub request_max_size: u64,
    /// How long a connection may take to be made.
    pub connect_timeout: u64,
    /// How long a request may take.
    pub request_timeout: u64,
    /// How long a response may take.
    pub response_timeout: u64,
    /// How long an idle connection is kept.
    pub keep_alive_timeout: u64,
    /// Whether the outbound client takes invalid certificates.
    pub http_accept_invalid_certs: bool,
    /// Whether the system's root certificates are trusted.
    pub use_root_certs: bool,
    /// Whether the bundled root certificates are trusted.
    pub use_webpki_certs: bool,
    /// The shortest wait between retries.
    pub backoff_min_retry_interval: u64,
    /// The longest wait between retries.
    pub backoff_max_retry_interval: u64,
    /// How often a request is tried again.
    pub backoff_max_num_retries: u32,
    /// How retries are spread.
    pub backoff_jitter: Jitter,
    /// How hard responses are compressed.
    pub http_compression_level: CompressionLevel,
    /// The size below which a response is not compressed.
    pub http_compression_min_size: u64,
    /// Whether images are compressed.
    pub http_compression_compress_images: bool,
    /// The content types that are never compressed.
    pub http_compression_exempt_content_types: Vec<String>,
    /// `access-control-allow-origin`.
    pub cors_allow_origin: String,
    /// `access-control-allow-methods`.
    pub cors_allow_methods: Vec<Method>,
    /// `access-control-allow-headers`.
    pub cors_allow_headers: Vec<String>,
    /// `access-control-expose-headers`.
    pub cors_expose_headers: Vec<String>,
    /// `access-control-allow-credentials`.
    pub cors_allow_credentials: bool,
    /// `access-control-allow-private-network`.
    pub cors_allow_private_network: bool,
    /// `access-control-max-age`.
    pub cors_max_age: u64,
}

/// The headers that CORS exposes by default.
pub open spec fn default_exposed_headers() -> Seq<Seq<char>> {
    seq![
        "cache-control"@,
        "content-language"@,
        "content-length"@,
        "content-type"@,
        "expires"@,
        "last-modified"@,
        "pragma"@,
    ]
}

impl ArxConfig {
    /// Whether the configuration holds the default of every option.
    pub open spec fn is_default(&self) -> bool {
        &&& self.log_level@ == "INFO"@
        &&& !self.access_log
        &&& self.authly_url@ == "https://authly"@
        &&& self.request_max_size == 20_000_000_000
        &&& self.connect_timeout == 60_000
        &&& self.request_timeout == 60_000
        &&& self.response_timeout == 60_000
        &&& self.keep_alive_timeout == 15_000
        &&& !self.http_accept_invalid_certs
        &&& self.use_root_certs
        &&& self.use_webpki_certs
        &&& self.backoff_min_retry_interval == 1_000
        &&& self.backoff_max_retry_interval == 1_800_000
        &&& self.backoff_max_num_retries == 30
        &&& self.backoff_jitter == Jitter::Full
        &&& self.http_compression_level == CompressionLevel(Level::Default)
        &&& self.http_compression_min_size == 32
        &&& !self.http_compression_compress_images
        &&& self.http_compression_exempt_content_types.deep_view() == Seq::<Seq<char>>::empty()
        &&& self.cors_allow_origin@ == "*"@
        &&& self.cors_allow_methods@ == seq![Method::Any]
        &&& self.cors_allow_headers.deep_view() == seq!["*"@]
        &&& self.cors_expose_headers.deep_view() == default_exposed_headers()
        &&& !self.cors_allow_credentials
        &&& self.cors_allow_private_network
        &&& self.cors_max_age == 60_000
    }
}

impl Default for ArxConfig {
    fn default() -> (cfg: ArxConfig)
        ensures
            cfg.is_default(),
    {
        let mut methods: Vec<Method> = Vec::new();
        methods.push(Method::Any);
        let mut allowed: Vec<String> = Vec::new();
        allowed.push(String::from_str("*"));
        let mut exposed: Vec<String> = Vec::new();
        exposed.push(String::from_str("cache-control"));
        exposed.push(String::from_str("content-language"));
        exposed.push(String::from_str("content-length"));
        exposed.push(String::from_str("content-type"));
        exposed.push(String::from_str("expires"));
        exposed.push(String::from_str("last-modified"));
        exposed.push(String::from_str("pragma"));
        let exempt: Vec<String> = Vec::new();
        proof {
            assert(methods@ =~= seq![Method::Any]);
            assert(allowed.deep_view() =~= seq!["*"@]);
            assert(exposed.deep_view() =~= default_exposed_headers());
            assert(exempt.deep_view() =~= Seq::<Seq<char>>::empty());
        }
        ArxConfig {
            log_level: String::from_str("INFO"),
            access_log: false,
            authly_url: String::from_str("https://authly"),
            request_max_size: 20_000_000_000,
            connect_timeout: 60_000,
            request_timeout: 60_000,
            response_timeout: 60_000,
            keep_alive_timeout: 15_000,
            http_accept_invalid_certs: false,
            use_root_certs: true,
            use_webpki_certs: true,
            backoff_min_retry_interval: 1_000,
            backoff_max_retry_interval: 1_800_000,
            backoff_max_num_retries: 30,
            backoff_jitter: Jitter::Full,
            http_compression_level: CompressionLevel(Level::Default),
            http_compression_min_size: 32,
            http_compression_compress_images: false,
            http_compression_exempt_content_types: exempt,
            cors_allow_origin: String::from_str("*"),
            cors_allow_methods: methods,
            cors_allow_headers: allowed,
            cors_expose_headers: exposed,
            cors_allow_credentials: false,
            cors_allow_private_network: true,
            cors_max_age: 60_000,
        }
    }
}

/// The description that `i32::from_str` gives of what is wrong with a text
/// that it does not read as a number.
pub uninterp spec fn int_error_text(s: Seq<char>) -> Seq<char>;

/// The lower-case form of a string, as `str::to_lowercase` gives it.
pub uninterp spec fn lowercased(s: Seq<char>) -> Seq<char>;

/// The number that a text of digits writes, where it holds nothing but
/// digits and the number fits in 32 bits.
pub open spec fn digits_i32(s: Seq<char>) -> Option<i32> {
    if (forall|i: int| 0 <= i < s.len() ==> is_decimal_digit(#[trigger] s[i])) && digits_value(s)
        <= i32::MAX {
        Some(digits_value(s) as i32)
    } else {
        None
    }
}

/// `i32::from_str` on a text that begins with a digit. Such a text is read
/// as a number exactly where it holds nothing but digits and the number
/// fits; the description of the error is named.
#[verifier::external_body]
fn parse_i32(s: &str) -> (r: Result<i32, String>)
    requires
        s@.len() > 0,
        is_decimal_digit(s@[0]),
    ensures
        r.is_ok() == digits_i32(s@).is_some(),
        r matches Ok(n) ==> digits_i32(s@) == Some(n),
        r matches Err(e) ==> e@ == int_error_text(s@),
{
    <i32 as std::str::FromStr>::from_str(s).map_err(|err| err.to_string())
}

/// `str::to_lowercase`. The contract names the result.
#[verifier::external_body]
fn to_lowercase(s: &str) -> (r: String)
    ensures
        r@ == lowercased(s@),
{
    s.to_lowercase()
}

/// The level that a string names: `fastest`, `best`, `default`, or, for a
/// string that starts with a digit, the number it writes. A string that
/// starts with a digit and writes no such number gives `ParseIntError: `
/// and the description of what is wrong with it.
pub open spec fn level_of(s: Seq<char>) -> Result<Level, Seq<char>> {
    if s == "fastest"@ {
        Ok(Level::Fastest)
    } else if s == "best"@ {
        Ok(Level::Best)
    } else if s == "default"@ {
        Ok(Level::Default)
    } else if s.len() > 0 && is_decimal_digit(s[0]) {
        match digits_i32(s) {
            Some(n) => Ok(Level::Precise(n)),
            None => Err("ParseIntError: "@ + int_error_text(s)),
        }
    } else {
        Err("Unrecognized compression level"@)
    }
}

/// The name of a level: the inverse of [`level_of`] on its names.
pub open spec fn level_name(level: Level) -> Seq<char> {
    match level {
        Level::Fastest => "fastest"@,
        Level::Best => "best"@,
        Level::Default => "default"@,
        Level::Precise(n) => signed_decimal(n as int),
    }
}

/// The view of the result of reading a level.
pub open spec fn level_view(r: Result<CompressionLevel, String>) -> Result<Level, Seq<char>> {
    match r {
        Ok(l) => Ok(l.0),
        Err(e) => Err(e@),
    }
}

impl CompressionLevel {
    /// Reads a compression level.
    pub fn from_str(s: &str) -> (r: Result<CompressionLevel, String>)
        ensures
            level_view(r) == level_of(s@),
    {
        if str_eq(s, "fastest") {
            Ok(CompressionLevel(Level::Fastest))
        } else if str_eq(s, "best") {
            Ok(CompressionLevel(Level::Best))
        } else if str_eq(s, "default") {
            Ok(CompressionLevel(Level::Default))
        } else if s.unicode_len() > 0 && is_ascii_digit(s.get_char(0)) {
            match parse_i32(s) {
                Ok(n) => Ok(CompressionLevel(Level::Precise(n))),
                Err(e) => Err(String::from_str("ParseIntError: ").concat(e.as_str())),
            }
        } else {
            Err(String::from_str("Unrecognized compression level"))
        }
    }

    /// Writes the level out.
    pub fn to_string(&self) -> (s: String)
        ensures
            s@ == level_name(self.0),
    {
        match self.0 {
            Level::Fastest => String::from_str("fastest"),
            Level::Best => String::from_str("best"),
            Level::Default => String::from_str("default"),
            Level::Precise(n) => {
                let mut s = String::new();
                push_decimal(&mut s, n);
                assert(Seq::<char>::empty() + signed_decimal(n as int) =~= signed_decimal(
                    n as int,
                ));
                s
            },
        }
    }
}

/// Whether a character is an ASCII digit.
pub fn is_ascii_digit(c: char) -> (r: bool)
    ensures
        r == is_decimal_digit(c),
{
    '0' <= c && c <= '9'
}

/// Whether `Any` is among the first `n` methods.
pub open spec fn any_method(methods: Seq<Method>, n: int) -> bool {
    exists|i: int| 0 <= i < n && #[trigger] methods[i] == Method::Any
}

/// The methods that CORS allows: the list as it is, or the wildcard where
/// `Any` is in the list.
pub fn to_allow_methods(methods: &[Method]) -> (r: Result<Vec<Method>, Any>)
    ensures
        r.is_err() == any_method(methods@, methods@.len() as int),
        r matches Ok(list) ==> list@ == methods@,
{
    let mut list: Vec<Method> = Vec::new();
    let mut i: usize = 0;
    while i < methods.len()
        invariant
            i <= methods.len(),
            !any_method(methods@, i as int),
            list@ == methods@.take(i as int),
        decreases methods.len() - i,
    {
        match methods[i] {
            Method::Any => {
                return Err(Any);
            },
            m => {
                list.push(m);
            },
        }
        assert(methods@.take(i + 1) =~= methods@.take(i as int).push(methods@[i as int]));
        i += 1;
    }
    assert(methods@.take(i as int) =~= methods@);
    Ok(list)
}

/// Whether `*` is among the first `n` names.
pub open spec fn any_name(names: Seq<String>, n: int) -> bool {
    exists|i: int| 0 <= i < n && (#[trigger] names[i])@ == "*"@
}

/// The view of a list of header names, or of the wildcard.
pub open spec fn names_view(r: OrAny<Vec<String>>) -> Option<Seq<Seq<char>>> {
    match r {
        OrAny::Given(list) => Some(list.deep_view()),
        OrAny::Any => None,
    }
}

/// The header names of a CORS list, in lower case, or the wildcard where
/// `*` is in the list.
pub fn to_headernames(headers: &[String]) -> (r: OrAny<Vec<String>>)
    ensures
        names_view(r) == (if any_name(headers@, headers@.len() as int) {
            None
        } else {
            Some(headers@.map_values(|h: String| lowercased(h@)))
        }),
{
    let mut i: usize = 0;
    while i < headers.len()
        invariant
            i <= headers.len(),
            !any_name(headers@, i as int),
        decreases headers.len() - i,
    {
        if str_eq(headers[i].as_str(), "*") {
            return OrAny::Any;
        }
        i += 1;
    }
    let mut list: Vec<String> = Vec::new();
    let mut k: usize = 0;
    assert(list.deep_view() =~= headers@.take(0).map_values(|h: String| lowercased(h@)));
    while k < headers.len()
        invariant
            k <= headers.len(),
            list.deep_view() == headers@.take(k as int).map_values(|h: String| lowercased(h@)),
        decreases headers.len() - k,
    {
        let ghost before = list.deep_view();
        let lower = to_lowercase(headers[k].as_str());
        list.push(lower);
        assert(list.deep_view() =~= before.push(lowercased(headers@[k as int]@)));
        assert(headers@.take(k + 1).map_values(|h: String| lowercased(h@)) =~= headers@.take(
            k as int,
        ).map_values(|h: String| lowercased(h@)).push(lowercased(headers@[k as int]@)));
        k += 1;
    }
    assert(headers@.take(k as int) =~= headers@);
    OrAny::Given(list)
}

} // verus!
