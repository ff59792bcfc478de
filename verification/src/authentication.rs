//! Sessions and access tokens: reading the session cookie of a request and
//! deciding, by the route's directive, whether it is exchanged for a token.

use crate::header_map::{
    all_values, bytes_list, header_count, header_entries, header_get_all, header_insert,
    is_header_name, is_header_text, is_visible_ascii, is_visible_char, is_visible_text, text_of,
    value_text, MAX_HEADER_NAMES,
};
use crate::headers::value_bytes;
use crate::http_error::{HttpError, UNAUTHORIZED};
use crate::route::AuthDirective;
use crate::text::{
    chars_of, find_from, has_char, lemma_position, lemma_position_is, position, string_of,
};
use crate::ArxError;
use vstd::prelude::*;
use vstd::string::*;

verus! {

#[verifier::external_type_specification]
#[verifier::external_body]
pub struct ExCookieJar(cookie::CookieJar);

/// The cookies in a jar: the value held under each name.
pub uninterp spec fn jar_cookies(jar: cookie::CookieJar) -> Map<Seq<char>, Seq<char>>;

/// Whether the jar holds original cookies only: no cookie was added to it or
/// removed from it as a change to send back.
pub uninterp spec fn only_originals(jar: cookie::CookieJar) -> bool;

/// Whether a character is a blank: a space or a tab.
pub open spec fn is_blank(c: char) -> bool {
    c == ' ' || c == '\t'
}

/// `s` without the blanks at its start.
pub open spec fn trim_start(s: Seq<char>) -> Seq<char>
    decreases s.len(),
{
    if s.len() > 0 && is_blank(s[0]) {
        trim_start(s.drop_first())
    } else {
        s
    }
}

/// `s` without the blanks at its end.
pub open spec fn trim_end(s: Seq<char>) -> Seq<char>
    decreases s.len(),
{
    if s.len() > 0 && is_blank(s.last()) {
        trim_end(s.drop_last())
    } else {
        s
    }
}

/// `s` without the blanks around it.
pub open spec fn trimmed(s: Seq<char>) -> Seq<char> {
    trim_end(trim_start(s))
}

/// Name and value of the cookie that one `name=value` pair holds: what
/// stands before and after the first `=`, without the blanks around each.
/// A pair without `=` or with an empty name holds no cookie.
pub open spec fn parsed_cookie(pair: Seq<char>) -> Option<(Seq<char>, Seq<char>)> {
    let at = position(pair, '=');
    if 0 <= at < pair.len() && trimmed(pair.take(at)).len() > 0 {
        Some((trimmed(pair.take(at)), trimmed(pair.skip(at + 1))))
    } else {
        None
    }
}

/// `Cookie::parse` on one pair, with the cookie read through `name` and
/// `value`. On a text of visible ASCII without `;` the parser splits at the
/// first `=`, trims both sides, where only spaces and tabs can be trimmed,
/// and gives no cookie without `=` or with an empty name.
#[verifier::external_body]
fn cookie_parse(pair: &str) -> (r: Option<(String, String)>)
    requires
        is_visible_text(pair@),
        !has_char(pair@, ';'),
    ensures
        r.deep_view() == parsed_cookie(pair@),
{
    match cookie::Cookie::parse(pair.to_owned()) {
        Ok(c) => Some((c.name().to_string(), c.value().to_string())),
        Err(_) => None,
    }
}

/// `CookieJar::new`: an empty jar.
#[verifier::external_body]
fn jar_new() -> (jar: cookie::CookieJar)
    ensures
        jar_cookies(jar) == (Map::<Seq<char>, Seq<char>>::empty()),
        only_originals(jar),
{
    cookie::CookieJar::new()
}

/// `CookieJar::add_original`: puts the cookie among the original ones, in
/// place of one of the same name if there is one. Changes to send back are
/// not touched, so a jar without them stays without them.
#[verifier::external_body]
fn jar_add_original(jar: &mut cookie::CookieJar, name: String, value: String)
    requires
        only_originals(*old(jar)),
    ensures
        jar_cookies(*final(jar)) == jar_cookies(*old(jar)).insert(name@, value@),
        only_originals(*final(jar)),
{
    jar.add_original((name, value));
}

/// `CookieJar::get`: the value of the cookie of that name, if the jar holds
/// one. In a jar of original cookies only, nothing hides or overrides them.
#[verifier::external_body]
fn jar_get(jar: &cookie::CookieJar, name: &str) -> (r: Option<String>)
    requires
        only_originals(*jar),
    ensures
        r.deep_view() == (if jar_cookies(*jar).dom().contains(name@) {
            Some(jar_cookies(*jar)[name@])
        } else {
            None
        }),
{
    jar.get(name).map(|c| c.value().to_string())
}

/// The pieces of `s` between occurrences of `c`.
pub open spec fn split(s: Seq<char>, c: char) -> Seq<Seq<char>>
    decreases s.len(),
{
    let p = position(s, c);
    if 0 <= p < s.len() {
        seq![s.take(p)] + split(s.skip(p + 1), c)
    } else {
        seq![s]
    }
}

/// A piece of a split text holds no separator, and is visible ASCII where
/// the text is.
pub proof fn lemma_split_pieces(s: Seq<char>, c: char, k: int)
    requires
        0 <= k < split(s, c).len(),
    ensures
        !has_char(split(s, c)[k], c),
        is_visible_text(s) ==> is_visible_text(split(s, c)[k]),
    decreases s.len(),
{
    lemma_position(s, c);
    let p = position(s, c);
    if 0 <= p < s.len() {
        let head = s.take(p);
        let rest = s.skip(p + 1);
        if k == 0 {
            assert(split(s, c)[0] == head);
            assert forall|j: int| 0 <= j < p implies head[j] != c by {
                assert(head[j] == s[j]);
            }
            lemma_position_is(head, c, p);
            if is_visible_text(s) {
                assert forall|j: int| 0 <= j < head.len() implies is_visible_char(
                    #[trigger] head[j],
                ) by {
                    assert(head[j] == s[j]);
                }
            }
        } else {
            assert(split(s, c)[k] == split(rest, c)[k - 1]);
            lemma_split_pieces(rest, c, k - 1);
            if is_visible_text(s) {
                assert forall|j: int| 0 <= j < rest.len() implies is_visible_char(
                    #[trigger] rest[j],
                ) by {
                    assert(rest[j] == s[j + p + 1]);
                }
            }
        }
    } else {
        assert(split(s, c) =~= seq![s]);
    }
}

/// The text of a header value is visible ASCII.
pub proof fn lemma_text_is_visible(bytes: Seq<u8>)
    requires
        text_of(bytes).is_some(),
    ensures
        is_visible_text(text_of(bytes).unwrap()),
{
    let t = text_of(bytes).unwrap();
    assert forall|j: int| 0 <= j < t.len() implies is_visible_char(#[trigger] t[j]) by {
        assert(is_visible_ascii(bytes[j]));
        assert(t[j] == bytes[j] as char);
    }
}

/// The jar after the first `n` pairs were read: each pair that is a cookie
/// is put in, in place of an earlier one of the same name.
pub open spec fn with_pairs(
    jar: Map<Seq<char>, Seq<char>>,
    pairs: Seq<Seq<char>>,
    n: int,
) -> Map<Seq<char>, Seq<char>>
    decreases n,
{
    if n <= 0 {
        jar
    } else {
        let before = with_pairs(jar, pairs, n - 1);
        match parsed_cookie(pairs[n - 1]) {
            Some((name, value)) => before.insert(name, value),
            None => before,
        }
    }
}

/// The jar after the first `n` values of the `Cookie` header were read. A
/// value that is no text is passed over.
pub open spec fn with_headers(values: Seq<Seq<u8>>, n: int) -> Map<Seq<char>, Seq<char>>
    decreases n,
{
    if n <= 0 {
        Map::empty()
    } else {
        let before = with_headers(values, n - 1);
        match text_of(values[n - 1]) {
            Some(text) => with_pairs(before, split(text, ';'), split(text, ';').len() as int),
            None => before,
        }
    }
}

/// The cookies of a request, by name: every `Cookie` header, left to right.
pub open spec fn request_cookies(entries: Map<Seq<char>, Seq<Seq<u8>>>) -> Map<
    Seq<char>,
    Seq<char>,
> {
    with_headers(all_values(entries, "cookie"@), all_values(entries, "cookie"@).len() as int)
}

/// A value without the pair of double quotes around it, if it has one.
pub open spec fn trim_quotes(s: Seq<char>) -> Seq<char> {
    if s.len() >= 2 && s[0] == '"' && s.last() == '"' {
        s.subrange(1, s.len() - 1)
    } else {
        s
    }
}

/// The session of a request: the value of the cookie `session-cookie`,
/// without the quotes around it.
pub open spec fn session_of(entries: Map<Seq<char>, Seq<Seq<u8>>>) -> Option<Seq<char>> {
    if request_cookies(entries).dom().contains("session-cookie"@) {
        Some(trim_quotes(request_cookies(entries)["session-cookie"@]))
    } else {
        None
    }
}

/// The names that this module reads and writes are header names.
pub proof fn lemma_auth_names()
    ensures
        is_header_name("cookie"@),
        is_header_name("authorization"@),
{
    reveal_strlit("cookie");
    reveal_strlit("authorization");
}

/// The pieces of a text between occurrences of `c`.
pub fn split_text(text: &str, c: char) -> (pieces: Vec<String>)
    ensures
        pieces.deep_view() == split(text@, c),
{
    let chars = chars_of(text);
    let mut pieces: Vec<String> = Vec::new();
    let mut start: usize = 0;
    assert(chars@.skip(0) =~= chars@);
    assert(pieces.deep_view() =~= Seq::<Seq<char>>::empty());
    loop
        invariant_except_break
            start <= chars.len(),
            split(text@, c) == pieces.deep_view() + split(chars@.skip(start as int), c),
        invariant
            chars@ == text@,
        ensures
            pieces.deep_view() == split(text@, c),
        decreases chars.len() - start,
    {
        let ghost rest = chars@.skip(start as int);
        let ghost done = pieces.deep_view();
        let end = find_from(&chars, c, start);
        let piece = string_of(&chars, start, end);
        assert(piece@ =~= rest.take(end - start));
        pieces.push(piece);
        assert(pieces.deep_view() =~= done.push(piece@));
        if end == chars.len() {
            assert(rest.take(rest.len() as int) =~= rest);
            assert(done + seq![rest] =~= done.push(rest));
            break ;
        }
        assert(rest.skip(end - start + 1) =~= chars@.skip(end + 1));
        assert(done + (seq![piece@] + split(chars@.skip(end + 1), c)) =~= done.push(piece@)
            + split(chars@.skip(end + 1), c));
        start = end + 1;
    }
    pieces
}

/// The cookies of a request: every value of the `Cookie` header that is
/// text, split at `;`, each pair read as a cookie. A pair that is no cookie
/// is passed over; of two cookies of one name the later one stays.
pub fn cookie_jar(headers: &http::HeaderMap<http::HeaderValue>) -> (jar: cookie::CookieJar)
    ensures
        jar_cookies(jar) == request_cookies(header_entries(*headers)),
        only_originals(jar),
{
    proof {
        lemma_auth_names();
    }
    let values = header_get_all(headers, "cookie");
    let ghost all = all_values(header_entries(*headers), "cookie"@);
    let mut jar = jar_new();
    let mut i: usize = 0;
    while i < values.len()
        invariant
            i <= values.len(),
            bytes_list(values@) == all,
            only_originals(jar),
            jar_cookies(jar) == with_headers(all, i as int),
        decreases values.len() - i,
    {
        assert(bytes_list(values@)[i as int] == values@[i as int]@);
        if let Some(text) = value_text(&values[i]) {
            proof {
                lemma_text_is_visible(values@[i as int]@);
            }
            let pairs = split_text(text.as_str(), ';');
            let ghost before = jar_cookies(jar);
            let mut k: usize = 0;
            while k < pairs.len()
                invariant
                    k <= pairs.len(),
                    only_originals(jar),
                    is_visible_text(text@),
                    pairs.deep_view() == split(text@, ';'),
                    jar_cookies(jar) == with_pairs(before, pairs.deep_view(), k as int),
                decreases pairs.len() - k,
            {
                assert(pairs.deep_view()[k as int] == pairs@[k as int]@);
                proof {
                    lemma_split_pieces(text@, ';', k as int);
                }
                if let Some((name, value)) = cookie_parse(pairs[k].as_str()) {
                    jar_add_original(&mut jar, name, value);
                }
                k += 1;
            }
            assert(pairs.deep_view().len() == pairs.len());
        }
        i += 1;
    }
    assert(values@.len() == all.len());
    jar
}

/// The value without the pair of double quotes around it, if it has one.
pub fn value_trimmed(value: &str) -> (r: String)
    ensures
        r@ == trim_quotes(value@),
{
    let chars = chars_of(value);
    let n = chars.len();
    if n >= 2 && chars[0] == '"' && chars[n - 1] == '"' {
        string_of(&chars, 1, n - 1)
    } else {
        assert(chars@.subrange(0, n as int) =~= chars@);
        string_of(&chars, 0, n)
    }
}

/// What is to be done about a request before it is forwarded.
#[derive(Debug)]
pub enum AuthStep {
    /// Forward it as it is.
    Forward,
    /// Exchange the session for an access token, then go on with
    /// [`inject_access_token`].
    Exchange(String),
    /// Refuse it: it is not authenticated.
    Reject,
}

/// The mathematical value of an [`AuthStep`].
pub enum AuthStepView {
    Forward,
    Exchange(Seq<char>),
    Reject,
}

impl View for AuthStep {
    type V = AuthStepView;

    open spec fn view(&self) -> AuthStepView {
        match self {
            AuthStep::Forward => AuthStepView::Forward,
            AuthStep::Exchange(session) => AuthStepView::Exchange(session@),
            AuthStep::Reject => AuthStepView::Reject,
        }
    }
}

/// The step that a directive asks for.
///
/// `Disabled` forwards, whatever the request holds. `Opportunistic`
/// exchanges the session where the request has one and the identity service
/// is at hand, and forwards otherwise. `Mandatory` exchanges the session in
/// the same case and refuses the request in every other.
pub open spec fn auth_step(
    directive: AuthDirective,
    session: Option<Seq<char>>,
    has_client: bool,
) -> AuthStepView {
    match directive {
        AuthDirective::Disabled => AuthStepView::Forward,
        AuthDirective::Opportunistic => match session {
            Some(s) if has_client => AuthStepView::Exchange(s),
            _ => AuthStepView::Forward,
        },
        AuthDirective::Mandatory => match session {
            Some(s) if has_client => AuthStepView::Exchange(s),
            _ => AuthStepView::Reject,
        },
    }
}

/// Decides by the directive what is to be done about a request. The
/// headers are read, never changed. `has_client` says whether the identity
/// service is at hand.
pub fn process_auth_directive(
    auth_directive: AuthDirective,
    target_headers: &http::HeaderMap<http::HeaderValue>,
    has_client: bool,
) -> (step: AuthStep)
    ensures
        step@ == auth_step(auth_directive, session_of(header_entries(*target_headers)), has_client),
{
    match (auth_directive, has_client) {
        (AuthDirective::Mandatory, true) => {
            let jar = cookie_jar(target_headers);
            match jar_get(&jar, "session-cookie") {
                Some(session) => AuthStep::Exchange(value_trimmed(session.as_str())),
                None => AuthStep::Reject,
            }
        },
        (AuthDirective::Mandatory, false) => AuthStep::Reject,
        (AuthDirective::Opportunistic, true) => {
            let jar = cookie_jar(target_headers);
            match jar_get(&jar, "session-cookie") {
                Some(session) => AuthStep::Exchange(value_trimmed(session.as_str())),
                None => AuthStep::Forward,
            }
        },
        (AuthDirective::Opportunistic, false) => AuthStep::Forward,
        (AuthDirective::Disabled, _) => AuthStep::Forward,
    }
}

/// The value of `Authorization` for an access token.
pub open spec fn bearer(token: Seq<char>) -> Seq<char> {
    "Bearer "@ + token
}

/// Ends an exchange. With a token the request gets the header
/// `Authorization: Bearer <token>` in place of any it had; without one, or
/// with one that holds a control character other than the tab, the request
/// is not authenticated and its headers stay as they are.
pub fn inject_access_token(
    target_headers: &mut http::HeaderMap<http::HeaderValue>,
    access_token: Option<&str>,
) -> (r: Result<(), ArxError>)
    requires
        header_count(*old(target_headers)) < MAX_HEADER_NAMES,
    ensures
        r.is_ok() == (access_token matches Some(token) && is_header_text(bearer(token@))),
        r matches Err(e) ==> e == ArxError::NotAuthenticated,
        r.is_ok() ==> header_entries(*final(target_headers)) == header_entries(
            *old(target_headers),
        ).insert("authorization"@, seq![value_bytes(bearer(access_token.unwrap()@))]),
        r.is_err() ==> header_entries(*final(target_headers)) == header_entries(
            *old(target_headers),
        ),
        header_count(*final(target_headers)) <= header_count(*old(target_headers)) + 1,
{
    proof {
        lemma_auth_names();
    }
    match access_token {
        Some(token) => {
            let value = String::from_str("Bearer ").concat(token);
            if header_insert(target_headers, "authorization", value.as_str()) {
                Ok(())
            } else {
                Err(ArxError::NotAuthenticated)
            }
        },
        None => Err(ArxError::NotAuthenticated),
    }
}

/// The error that a request which is not authenticated ends with.
pub fn unauthorized() -> (e: HttpError)
    ensures
        e.is(UNAUTHORIZED, "unauthorized"@),
{
    HttpError::Static(UNAUTHORIZED, "unauthorized")
}

/// Of the cookies of one name the last one stays: where the pair at `k` is
/// a cookie and no later pair is one of the same name, the jar holds its
/// value under its name.
pub proof fn lemma_last_cookie_wins(
    jar: Map<Seq<char>, Seq<char>>,
    pairs: Seq<Seq<char>>,
    n: int,
    k: int,
)
    requires
        0 <= k < n <= pairs.len(),
        parsed_cookie(pairs[k]).is_some(),
        forall|j: int|
            k < j < n ==> !(#[trigger] parsed_cookie(pairs[j]) matches Some(c) && c.0
                == parsed_cookie(pairs[k]).unwrap().0),
    ensures
        with_pairs(jar, pairs, n).dom().contains(parsed_cookie(pairs[k]).unwrap().0),
        with_pairs(jar, pairs, n)[parsed_cookie(pairs[k]).unwrap().0] == parsed_cookie(
            pairs[k],
        ).unwrap().1,
    decreases n - k,
{
    if n > k + 1 {
        lemma_last_cookie_wins(jar, pairs, n - 1, k);
        let c = parsed_cookie(pairs[n - 1]);
        assert(!(c matches Some(x) && x.0 == parsed_cookie(pairs[k]).unwrap().0));
    }
}

/// Under `Disabled` the identity service is never called, whatever the
/// request holds.
pub proof fn lemma_disabled_never_exchanges(session: Option<Seq<char>>, has_client: bool)
    ensures
        auth_step(AuthDirective::Disabled, session, has_client) == AuthStepView::Forward,
{
}

/// Under `Opportunistic` a request without a session is forwarded.
pub proof fn lemma_opportunistic_without_session(has_client: bool)
    ensures
        auth_step(AuthDirective::Opportunistic, None, has_client) == AuthStepView::Forward,
{
}

} // verus!
