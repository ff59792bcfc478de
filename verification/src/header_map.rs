//! `http::HeaderMap` as the gateway uses it: a map from lower-case header
//! names to the values held under each name.

use vstd::prelude::*;
use vstd::string::*;

verus! {

#[verifier::external_type_specification]
#[verifier::external_body]
#[verifier::reject_recursive_types(T)]
pub struct ExHeaderMap<T>(http::HeaderMap<T>);

#[verifier::external_type_specification]
#[verifier::external_body]
pub struct ExHeaderValue(http::HeaderValue);

/// The bytes of the values held under each header name, in the order in
/// which they were added. A name in the domain holds at least one value.
pub uninterp spec fn header_entries(m: http::HeaderMap<http::HeaderValue>) -> Map<
    Seq<char>,
    Seq<Seq<u8>>,
>;

/// The number of names in the map.
pub uninterp spec fn header_count(m: http::HeaderMap<http::HeaderValue>) -> nat;

/// A map with fewer names than this always takes one more.
pub const MAX_HEADER_NAMES: usize = 6554;

/// A character of the header names this library writes and looks up.
pub open spec fn is_name_char(c: char) -> bool {
    ('a' <= c && c <= 'z') || ('0' <= c && c <= '9') || c == '-'
}

/// A header name as this library writes it: lower-case letters, digits and
/// hyphens, between 1 and 64 of them.
pub open spec fn is_header_name(s: Seq<char>) -> bool {
    0 < s.len() <= 64 && forall|i: int| 0 <= i < s.len() ==> is_name_char(#[trigger] s[i])
}

/// Whether a byte is a visible ASCII character, a space or a tab.
pub open spec fn is_visible_ascii(b: u8) -> bool {
    (32 <= b && b < 127) || b == 9
}

/// Whether `http` takes a string as a header value: no control character
/// but the tab.
pub open spec fn is_header_text(s: Seq<char>) -> bool {
    forall|i: int| 0 <= i < s.len() ==> is_value_char(#[trigger] s[i])
}

/// A character that may stand in a header value.
pub open spec fn is_value_char(c: char) -> bool {
    c == '\t' || (' ' <= c && c != '\x7f')
}

/// Whether a character is visible ASCII, a space or a tab.
pub open spec fn is_visible_char(c: char) -> bool {
    c == '\t' || (' ' <= c && c <= '~')
}

/// Whether a text can be written as a header value: it holds nothing but
/// visible ASCII, spaces and tabs, so no control character and nothing
/// beyond ASCII.
pub open spec fn is_visible_text(s: Seq<char>) -> bool {
    forall|i: int| 0 <= i < s.len() ==> is_visible_char(#[trigger] s[i])
}

/// The bytes of a header value as characters, one for each byte.
pub open spec fn raw_text(bytes: Seq<u8>) -> Seq<char> {
    bytes.map_values(|b: u8| b as char)
}

/// A text of visible ASCII is one that `http` takes as a header value.
pub proof fn lemma_visible_is_header_text(s: Seq<char>)
    requires
        is_visible_text(s),
    ensures
        is_header_text(s),
{
    assert forall|i: int| 0 <= i < s.len() implies is_value_char(#[trigger] s[i]) by {
        assert(is_visible_char(s[i]));
    }
}

/// Two texts of visible ASCII make one when joined.
pub proof fn lemma_visible_concat(a: Seq<char>, b: Seq<char>)
    requires
        is_visible_text(a),
        is_visible_text(b),
    ensures
        is_visible_text(a + b),
{
    assert forall|i: int| 0 <= i < (a + b).len() implies is_visible_char(#[trigger] (a + b)[i]) by {
        if i < a.len() {
            assert((a + b)[i] == a[i]);
        } else {
            assert((a + b)[i] == b[i - a.len()]);
        }
    }
}

/// A header value written from a text of visible ASCII reads back as that
/// text.
pub proof fn lemma_written_text_reads_back(s: Seq<char>)
    requires
        is_visible_text(s),
    ensures
        raw_text(vstd::utf8::encode_utf8(s)) == s,
        text_of(vstd::utf8::encode_utf8(s)) == Some(s),
{
    let bytes = vstd::utf8::encode_utf8(s);
    assert(vstd::utf8::is_ascii_chars(s)) by {
        assert forall|i: int| 0 <= i < s.len() implies '\0' <= #[trigger] s[i] <= '\u{7f}' by {
            assert(is_visible_char(s[i]));
        }
    }
    vstd::utf8::is_ascii_chars_encode_utf8(s);
    assert forall|i: int| 0 <= i < bytes.len() implies is_visible_ascii(#[trigger] bytes[i])
        && bytes[i] as char == s[i] by {
        assert(is_visible_char(s[i]));
        assert(s[i] as u8 == bytes[i]);
    }
    assert(raw_text(bytes) =~= s);
}

/// The text of a header value: its bytes as characters, where every one of
/// them is visible ASCII, a space or a tab.
pub open spec fn text_of(bytes: Seq<u8>) -> Option<Seq<char>> {
    if forall|i: int| 0 <= i < bytes.len() ==> is_visible_ascii(#[trigger] bytes[i]) {
        Some(bytes.map_values(|b: u8| b as char))
    } else {
        None
    }
}

/// The view of an optional header value.
pub open spec fn opt_bytes(o: Option<Vec<u8>>) -> Option<Seq<u8>> {
    match o {
        Some(v) => Some(v@),
        None => None,
    }
}

/// The view of a list of header values.
pub open spec fn bytes_list(v: Seq<Vec<u8>>) -> Seq<Seq<u8>> {
    v.map_values(|x: Vec<u8>| x@)
}

/// The first value held under `name`.
pub open spec fn first_value(entries: Map<Seq<char>, Seq<Seq<u8>>>, name: Seq<char>) -> Option<
    Seq<u8>,
> {
    if entries.dom().contains(name) {
        Some(entries[name][0])
    } else {
        None
    }
}

/// All values held under `name`, in order.
pub open spec fn all_values(entries: Map<Seq<char>, Seq<Seq<u8>>>, name: Seq<char>) -> Seq<
    Seq<u8>,
> {
    if entries.dom().contains(name) {
        entries[name]
    } else {
        Seq::empty()
    }
}

/// `HeaderMap::keys_len`: the number of names in the map.
#[verifier::external_body]
pub(crate) fn header_names_len(map: &http::HeaderMap<http::HeaderValue>) -> (n: usize)
    ensures
        n == header_count(*map),
{
    map.keys_len()
}

/// `HeaderMap::get`: the first value held under the name, if there is any.
#[verifier::external_body]
pub(crate) fn header_get(map: &http::HeaderMap<http::HeaderValue>, name: &str) -> (r: Option<
    Vec<u8>,
>)
    requires
        is_header_name(name@),
    ensures
        opt_bytes(r) == first_value(header_entries(*map), name@),
{
    map.get(name).map(|v| v.as_bytes().to_vec())
}

/// `HeaderMap::get_all`: every value held under the name, in the order in
/// which they were added.
#[verifier::external_body]
pub(crate) fn header_get_all(map: &http::HeaderMap<http::HeaderValue>, name: &str) -> (r: Vec<
    Vec<u8>,
>)
    requires
        is_header_name(name@),
    ensures
        bytes_list(r@) == all_values(header_entries(*map), name@),
{
    map.get_all(name).iter().map(|v| v.as_bytes().to_vec()).collect()
}

/// `HeaderMap::contains_key`: whether any value is held under the name.
#[verifier::external_body]
pub(crate) fn header_contains(map: &http::HeaderMap<http::HeaderValue>, name: &str) -> (r: bool)
    requires
        is_header_name(name@),
    ensures
        r == header_entries(*map).dom().contains(name@),
{
    map.contains_key(name)
}

/// `HeaderMap::remove`: takes every value held under the name out of the
/// map and returns the first of them.
#[verifier::external_body]
pub(crate) fn header_remove(map: &mut http::HeaderMap<http::HeaderValue>, name: &str) -> (r:
    Option<Vec<u8>>)
    requires
        is_header_name(name@),
    ensures
        opt_bytes(r) == first_value(header_entries(*old(map)), name@),
        header_entries(*final(map)) == header_entries(*old(map)).remove(name@),
        header_count(*final(map)) <= header_count(*old(map)),
{
    map.remove(name).map(|v| v.as_bytes().to_vec())
}

/// `HeaderValue::from_str` and then `HeaderMap::insert`. `from_str` takes
/// the text exactly when it holds no control character but the tab; the
/// value then replaces whatever was held under the name. Where it rejects
/// the text the map stays as it was. `insert` panics only when the map
/// cannot grow, which the source rules out below 6554 names.
#[verifier::external_body]
pub(crate) fn header_insert(
    map: &mut http::HeaderMap<http::HeaderValue>,
    name: &'static str,
    value: &str,
) -> (ok: bool)
    requires
        is_header_name(name@),
        header_count(*old(map)) < MAX_HEADER_NAMES,
    ensures
        ok == is_header_text(value@),
        ok ==> header_entries(*final(map)) == header_entries(*old(map)).insert(
            name@,
            seq![value.spec_bytes()],
        ),
        !ok ==> header_entries(*final(map)) == header_entries(*old(map)),
        header_count(*final(map)) <= header_count(*old(map)) + 1,
{
    match http::HeaderValue::from_str(value) {
        Ok(v) => {
            map.insert(name, v);
            true
        },
        Err(_) => false,
    }
}

/// Whether a text holds nothing but visible ASCII, spaces and tabs.
pub fn visible_text(text: &str) -> (r: bool)
    ensures
        r == is_visible_text(text@),
{
    let chars = crate::text::chars_of(text);
    let mut i: usize = 0;
    while i < chars.len()
        invariant
            i <= chars.len(),
            chars@ == text@,
            forall|j: int| 0 <= j < i ==> is_visible_char(#[trigger] chars@[j]),
        decreases chars.len() - i,
    {
        let c = chars[i];
        if !(c == '\t' || (' ' <= c && c <= '~')) {
            return false;
        }
        i += 1;
    }
    true
}

/// The bytes of a header value as characters, one for each byte.
pub fn raw_chars(bytes: &Vec<u8>) -> (r: Vec<char>)
    ensures
        r@ == raw_text(bytes@),
{
    let mut r: Vec<char> = Vec::new();
    let mut i: usize = 0;
    while i < bytes.len()
        invariant
            i <= bytes.len(),
            r@ == raw_text(bytes@.take(i as int)),
        decreases bytes.len() - i,
    {
        let b = bytes[i];
        assert(raw_text(bytes@.take(i + 1)) =~= raw_text(bytes@.take(i as int)).push(b as char));
        r.push(b as char);
        i += 1;
    }
    assert(bytes@.take(i as int) =~= bytes@);
    r
}

/// The text of a header value, where it has one.
pub fn value_text(bytes: &Vec<u8>) -> (r: Option<String>)
    ensures
        r.deep_view() == text_of(bytes@),
{
    let mut s = String::new();
    let mut i: usize = 0;
    while i < bytes.len()
        invariant
            i <= bytes.len(),
            forall|j: int| 0 <= j < i ==> is_visible_ascii(#[trigger] bytes@[j]),
            s@ == bytes@.take(i as int).map_values(|b: u8| b as char),
        decreases bytes.len() - i,
    {
        let b = bytes[i];
        if !((32 <= b && b < 127) || b == 9) {
            return None;
        }
        s.push(b as char);
        proof {
            assert(bytes@.take(i + 1) =~= bytes@.take(i as int).push(b));
            assert(bytes@.take(i + 1).map_values(|b: u8| b as char) =~= bytes@.take(
                i as int,
            ).map_values(|b: u8| b as char).push(b as char));
        }
        i += 1;
    }
    proof {
        assert(bytes@.take(i as int) =~= bytes@);
    }
    Some(s)
}

} // verus!
