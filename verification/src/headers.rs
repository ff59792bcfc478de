//! The forwarding headers that tell a backend how the client reached the
//! gateway.

use crate::header_map::{
    first_value, header_contains, header_count, header_entries, header_get, header_insert,
    header_names_len, header_remove, is_header_name, is_visible_text, lemma_visible_concat,
    lemma_visible_is_header_text, lemma_written_text_reads_back, raw_chars, raw_text, text_of,
    visible_text, MAX_HEADER_NAMES,
};
use crate::http_error::{HttpError, BAD_REQUEST};
use crate::text::{chars_of, ends_with_chars, find_from, position, string_of};
use crate::uri::{Uri, UriView};
use vstd::prelude::*;
use vstd::string::*;

verus! {

/// The header names that this module reads and writes are header names.
pub proof fn lemma_forwarding_names()
    ensures
        is_header_name("host"@),
        is_header_name("x-forwarded-proto"@),
        is_header_name("x-forwarded-host"@),
        is_header_name("x-forwarded-port"@),
        is_header_name("x-forwarded-prefix"@),
        "host"@ != "x-forwarded-proto"@,
        "host"@ != "x-forwarded-host"@,
        "host"@ != "x-forwarded-port"@,
        "host"@ != "x-forwarded-prefix"@,
        "x-forwarded-proto"@ != "x-forwarded-host"@,
        "x-forwarded-proto"@ != "x-forwarded-port"@,
        "x-forwarded-proto"@ != "x-forwarded-prefix"@,
        "x-forwarded-host"@ != "x-forwarded-port"@,
        "x-forwarded-host"@ != "x-forwarded-prefix"@,
        "x-forwarded-port"@ != "x-forwarded-prefix"@,
{
    reveal_strlit("host");
    reveal_strlit("x-forwarded-proto");
    reveal_strlit("x-forwarded-host");
    reveal_strlit("x-forwarded-port");
    reveal_strlit("x-forwarded-prefix");
    assert("x-forwarded-host"@[12] != "x-forwarded-port"@[12]);
}

/// The bytes of the header value written for a text.
pub open spec fn value_bytes(text: Seq<char>) -> Seq<u8> {
    vstd::utf8::encode_utf8(text)
}

/// The part of the original path that the rewrite took away: what precedes
/// the rewritten path, where the original path ends with it.
pub open spec fn stripped_prefix(original_path: Seq<char>, path: Seq<char>) -> Option<Seq<char>> {
    if path.is_suffix_of(original_path) {
        Some(original_path.take(original_path.len() - path.len()))
    } else {
        None
    }
}

/// The prefix to forward: what an earlier proxy reported, followed by what
/// this one stripped.
pub open spec fn chained_prefix(existing: Option<Seq<char>>, stripped: Seq<char>) -> Seq<char> {
    match existing {
        Some(e) => e + stripped,
        None => stripped,
    }
}

/// The text of the first value held under a name.
pub open spec fn header_text(entries: Map<Seq<char>, Seq<Seq<u8>>>, name: Seq<char>) -> Option<
    Seq<char>,
> {
    match first_value(entries, name) {
        Some(bytes) => text_of(bytes),
        None => None,
    }
}

/// The host of a `Host` value: what precedes the first colon.
pub open spec fn host_part(host: Seq<char>) -> Seq<char> {
    host.take(position(host, ':'))
}

/// The port of a `Host` value: what follows the first colon, if there is one.
pub open spec fn port_part(host: Seq<char>) -> Option<Seq<char>> {
    if position(host, ':') < host.len() {
        Some(host.skip(position(host, ':') + 1))
    } else {
        None
    }
}

/// The scheme to report: that of the original URI, `http` where it has none.
pub open spec fn forwarded_proto(original: UriView) -> Seq<char> {
    match original.scheme {
        Some(s) => s,
        None => "http"@,
    }
}

/// Sets `name` to `text` unless `skip` holds.
pub open spec fn set_unless(
    entries: Map<Seq<char>, Seq<Seq<u8>>>,
    skip: bool,
    name: Seq<char>,
    text: Seq<char>,
) -> Map<Seq<char>, Seq<Seq<u8>>> {
    if skip {
        entries
    } else {
        entries.insert(name, seq![value_bytes(text)])
    }
}

/// The headers after `Host` was taken out and the scheme was reported.
pub open spec fn with_proto(entries: Map<Seq<char>, Seq<Seq<u8>>>, original: UriView) -> Map<
    Seq<char>,
    Seq<Seq<u8>>,
> {
    let e = entries.remove("host"@);
    set_unless(
        e,
        e.dom().contains("x-forwarded-proto"@),
        "x-forwarded-proto"@,
        forwarded_proto(original),
    )
}

/// The `Host` of a request, each byte as a character.
pub open spec fn host_of(entries: Map<Seq<char>, Seq<Seq<u8>>>) -> Option<Seq<char>> {
    match first_value(entries, "host"@) {
        Some(bytes) => Some(raw_text(bytes)),
        None => None,
    }
}

/// What an earlier proxy reported as the prefix, each byte as a character.
pub open spec fn earlier_prefix(entries: Map<Seq<char>, Seq<Seq<u8>>>) -> Option<Seq<char>> {
    match first_value(entries.remove("host"@), "x-forwarded-prefix"@) {
        Some(bytes) => Some(raw_text(bytes)),
        None => None,
    }
}

/// Whether no host is to be reported: one is reported already, or the
/// request named none.
pub open spec fn skip_host(entries: Map<Seq<char>, Seq<Seq<u8>>>) -> bool {
    entries.remove("host"@).dom().contains("x-forwarded-host"@) || host_of(entries).is_none()
}

/// Whether no port is to be reported: one is reported already, or the
/// request named none.
pub open spec fn skip_port(entries: Map<Seq<char>, Seq<Seq<u8>>>) -> bool {
    entries.remove("host"@).dom().contains("x-forwarded-port"@) || host_of(entries).is_none()
        || port_part(host_of(entries).unwrap()).is_none()
}

/// The headers after host and port were reported too.
pub open spec fn with_host(entries: Map<Seq<char>, Seq<Seq<u8>>>, original: UriView) -> Map<
    Seq<char>,
    Seq<Seq<u8>>,
> {
    let host = host_of(entries).unwrap();
    set_unless(
        set_unless(
            with_proto(entries, original),
            skip_host(entries),
            "x-forwarded-host"@,
            host_part(host),
        ),
        skip_port(entries),
        "x-forwarded-port"@,
        port_part(host).unwrap(),
    )
}

/// The prefix that is reported, if one is.
pub open spec fn forwarded_prefix(
    entries: Map<Seq<char>, Seq<Seq<u8>>>,
    original: UriView,
    path: Seq<char>,
) -> Option<Seq<char>> {
    match stripped_prefix(original.path, path) {
        Some(stripped) => Some(chained_prefix(earlier_prefix(entries), stripped)),
        None => None,
    }
}

/// The forwarding headers on top of `entries`, for a request whose URI was
/// `original` and whose path is now `path`.
pub open spec fn forwarded(
    entries: Map<Seq<char>, Seq<Seq<u8>>>,
    original: UriView,
    path: Seq<char>,
) -> Map<Seq<char>, Seq<Seq<u8>>> {
    set_unless(
        with_host(entries, original),
        forwarded_prefix(entries, original, path).is_none(),
        "x-forwarded-prefix"@,
        forwarded_prefix(entries, original, path).unwrap(),
    )
}

/// Whether every value that [`forwarded`] writes can be written: each of
/// them holds nothing but visible ASCII, spaces and tabs.
pub open spec fn forwardable(
    entries: Map<Seq<char>, Seq<Seq<u8>>>,
    original: UriView,
    path: Seq<char>,
) -> bool {
    let host = host_of(entries).unwrap();
    &&& entries.remove("host"@).dom().contains("x-forwarded-proto"@) || is_visible_text(
        forwarded_proto(original),
    )
    &&& skip_host(entries) || is_visible_text(host_part(host))
    &&& skip_port(entries) || is_visible_text(port_part(host).unwrap())
    &&& forwarded_prefix(entries, original, path) matches Some(p) ==> is_visible_text(p)
}

/// Writes a forwarding header: `false`, and nothing written, where the text
/// holds a control character or anything beyond ASCII.
fn write_header(
    headers: &mut http::HeaderMap<http::HeaderValue>,
    name: &'static str,
    text: &str,
) -> (ok: bool)
    requires
        is_header_name(name@),
        header_count(*old(headers)) < MAX_HEADER_NAMES,
    ensures
        ok == is_visible_text(text@),
        header_entries(*final(headers)) == set_unless(
            header_entries(*old(headers)),
            !ok,
            name@,
            text@,
        ),
        header_count(*final(headers)) <= header_count(*old(headers)) + 1,
{
    if !visible_text(text) {
        return false;
    }
    proof {
        lemma_visible_is_header_text(text@);
    }
    header_insert(headers, name, text)
}

/// Sets the forwarding headers of a request whose URI was rewritten.
///
/// `Host` is taken out. `x-forwarded-proto`, `x-forwarded-host` and
/// `x-forwarded-port` are set unless an earlier proxy set them: to the scheme
/// of the original URI (`http` where it has none) and to the two parts of
/// `Host`. `x-forwarded-prefix` is set to what the rewrite stripped from the
/// path, after what an earlier proxy reported. A value to be written that
/// holds a control character or anything beyond ASCII ends the request
/// with 400.
pub fn set_proxy_headers(
    headers: &mut http::HeaderMap<http::HeaderValue>,
    uri: &Uri,
    original_uri: &Uri,
) -> (r: Result<(), HttpError>)
    requires
        header_count(*old(headers)) + 4 <= MAX_HEADER_NAMES,
    ensures
        r.is_ok() == forwardable(header_entries(*old(headers)), original_uri@, uri@.path),
        r.is_ok() ==> header_entries(*final(headers)) == forwarded(
            header_entries(*old(headers)),
            original_uri@,
            uri@.path,
        ),
        r matches Err(e) ==> e.is(BAD_REQUEST, ""@),
        header_count(*final(headers)) <= header_count(*old(headers)) + 4,
{
    proof {
        lemma_forwarding_names();
    }
    let ghost entries = header_entries(*headers);
    let original_path = chars_of(original_uri.path());
    let path = chars_of(uri.path());
    let prefix: Option<String> = if ends_with_chars(&original_path, &path) {
        Some(string_of(&original_path, 0, original_path.len() - path.len()))
    } else {
        None
    };
    let host_header = header_remove(headers, "host");
    let host: Option<Vec<char>> = match &host_header {
        Some(bytes) => Some(raw_chars(bytes)),
        None => None,
    };
    assert(host.is_some() == host_of(entries).is_some());
    assert(host matches Some(h) ==> h@ == host_of(entries).unwrap());

    if !header_contains(headers, "x-forwarded-proto") {
        let ok = match &original_uri.scheme {
            Some(s) => write_header(headers, "x-forwarded-proto", s.as_str()),
            None => write_header(headers, "x-forwarded-proto", "http"),
        };
        if !ok {
            return Err(HttpError::Static(BAD_REQUEST, ""));
        }
    }
    assert(header_entries(*headers) == with_proto(entries, original_uri@));

    if !header_contains(headers, "x-forwarded-host") {
        if let Some(h) = &host {
            let colon = find_from(h, ':', 0);
            assert(h@.skip(0) =~= h@);
            let text = string_of(h, 0, colon);
            if !write_header(headers, "x-forwarded-host", text.as_str()) {
                return Err(HttpError::Static(BAD_REQUEST, ""));
            }
        }
    }
    if !header_contains(headers, "x-forwarded-port") {
        if let Some(h) = &host {
            let colon = find_from(h, ':', 0);
            assert(h@.skip(0) =~= h@);
            if colon < h.len() {
                let text = string_of(h, colon + 1, h.len());
                if !write_header(headers, "x-forwarded-port", text.as_str()) {
                    return Err(HttpError::Static(BAD_REQUEST, ""));
                }
            }
        }
    }
    assert(header_entries(*headers) == with_host(entries, original_uri@));

    if let Some(stripped) = prefix {
        let text = match header_get(headers, "x-forwarded-prefix") {
            Some(bytes) => {
                let earlier = raw_chars(&bytes);
                assert(earlier@.subrange(0, earlier@.len() as int) =~= earlier@);
                string_of(&earlier, 0, earlier.len()).concat(stripped.as_str())
            },
            None => stripped,
        };
        assert(Some(text@) == forwarded_prefix(entries, original_uri@, uri@.path));
        if !write_header(headers, "x-forwarded-prefix", text.as_str()) {
            return Err(HttpError::Static(BAD_REQUEST, ""));
        }
    }
    Ok(())
}

/// Whether a name is one of the headers that forwarding touches.
pub open spec fn is_forwarding_name(name: Seq<char>) -> bool {
    name == "host"@ || name == "x-forwarded-proto"@ || name == "x-forwarded-host"@ || name
        == "x-forwarded-port"@ || name == "x-forwarded-prefix"@
}

/// Forwarding takes `Host` out, always reports a scheme, and leaves every
/// other header of the request as it was.
pub proof fn lemma_forwarded_headers(
    entries: Map<Seq<char>, Seq<Seq<u8>>>,
    original: UriView,
    path: Seq<char>,
)
    ensures
        !forwarded(entries, original, path).dom().contains("host"@),
        forwarded(entries, original, path).dom().contains("x-forwarded-proto"@),
        forall|name: Seq<char>|
            !is_forwarding_name(name) ==> (forwarded(entries, original, path).dom().contains(name)
                == entries.dom().contains(name) && (entries.dom().contains(name) ==> #[trigger] forwarded(
                entries,
                original,
                path,
            )[name] == entries[name])),
{
    lemma_forwarding_names();
}

/// What an earlier proxy reported as scheme, host and port stays.
pub proof fn lemma_forwarded_keeps_earlier_reports(
    entries: Map<Seq<char>, Seq<Seq<u8>>>,
    original: UriView,
    path: Seq<char>,
    name: Seq<char>,
)
    requires
        name == "x-forwarded-proto"@ || name == "x-forwarded-host"@ || name
            == "x-forwarded-port"@,
        entries.dom().contains(name),
    ensures
        forwarded(entries, original, path).dom().contains(name),
        forwarded(entries, original, path)[name] == entries[name],
{
    lemma_forwarding_names();
}

/// A prefix of visible ASCII on top of an earlier one of visible ASCII can
/// be written, and the next proxy reads back exactly what was written: so
/// reporting one prefix and then a second gives the header that reporting
/// the two as one gives.
pub proof fn lemma_forwarded_prefix_chains(
    earlier: Option<Seq<char>>,
    first: Seq<char>,
    second: Seq<char>,
)
    requires
        earlier matches Some(e) ==> is_visible_text(e),
        is_visible_text(first),
        is_visible_text(second),
    ensures
        is_visible_text(chained_prefix(earlier, first)),
        raw_text(value_bytes(chained_prefix(earlier, first))) == chained_prefix(earlier, first),
        is_visible_text(chained_prefix(Some(chained_prefix(earlier, first)), second)),
        chained_prefix(
            Some(raw_text(value_bytes(chained_prefix(earlier, first)))),
            second,
        ) == chained_prefix(earlier, first + second),
{
    match earlier {
        Some(e) => {
            lemma_visible_concat(e, first);
        },
        None => {},
    }
    let written = chained_prefix(earlier, first);
    lemma_written_text_reads_back(written);
    lemma_visible_concat(written, second);
    lemma_chained_prefix_associative(earlier, first, second);
}

/// Whether the headers leave room for `extra` more names.
pub fn has_room(headers: &http::HeaderMap<http::HeaderValue>, extra: usize) -> (r: bool)
    ensures
        r == (header_count(*headers) + extra <= MAX_HEADER_NAMES),
{
    let n = header_names_len(headers);
    extra <= MAX_HEADER_NAMES && n <= MAX_HEADER_NAMES - extra
}

/// Reporting one prefix and then a second on top of it gives what reporting
/// the two as one gives, whatever an earlier proxy reported.
pub proof fn lemma_chained_prefix_associative(
    existing: Option<Seq<char>>,
    first: Seq<char>,
    second: Seq<char>,
)
    ensures
        chained_prefix(Some(chained_prefix(existing, first)), second) == chained_prefix(
            existing,
            first + second,
        ),
{
    match existing {
        Some(e) => {
            assert((e + first) + second =~= e + (first + second));
        },
        None => {},
    }
}

} // verus!
