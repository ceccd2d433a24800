//! Requests that the web app makes through the app, and the replies to them.

use crate::response_headers::ResponseHeaders;
use crate::text::{
    ascii_lower, ascii_lowered, find, first_at, from_first, join, join_text, lemma_first_at_unique,
    lemma_from_first, lemma_join_first, lower_text, lowercased, occurs, same_ignoring_ascii_case, same_text,
    split_at_each, stands_at, starts_with, text_from, to_lowercase, to_uppercase, upper_text,
};
use vstd::prelude::*;
use vstd::utf8::is_ascii_chars;

verus! {

/// Where Proton's API is.
pub const PROTON_API_BASE: &'static str = "https://mail.proton.me";

pub const ERR_REQUEST_FAILED: &'static str = "Request failed";

/// The header under which cookies that a reply sets are handed on.
pub const X_SET_COOKIE: &'static str = "x-set-cookie";

/// What stands between two such cookies.
pub const COOKIE_DELIMITER: &'static str = "|||";

/// A request as the web app makes it.
#[derive(Debug)]
pub struct ProxyRequest {
    pub method: String,
    pub url: String,
    pub headers: Vec<(String, String)>,
    pub body: Option<String>,
}

/// A request as it is sent.
#[derive(Debug)]
pub struct OutgoingRequest {
    pub method: String,
    pub url: String,
    pub headers: Vec<(String, String)>,
    pub body: Option<String>,
}

/// A reply as it arrives. There is no body where its text could not be read.
#[derive(Debug)]
pub struct RawResponse {
    pub status: u16,
    pub headers: Vec<(String, Vec<u8>)>,
    pub body: Option<String>,
}

/// A reply as the web app gets it.
#[derive(Debug)]
pub struct ProxyResponse {
    pub status: u16,
    pub headers: ResponseHeaders,
    pub body: String,
}

/// Where a request is sent: to Proton's API, unless its URL names another place.
pub open spec fn target(url: Seq<char>) -> Seq<char> {
    if "https://localhost/api/"@.is_prefix_of(url) {
        PROTON_API_BASE@ + url.skip(17)
    } else if "http://localhost/api/"@.is_prefix_of(url) {
        PROTON_API_BASE@ + url.skip(16)
    } else if "https://"@.is_prefix_of(url) || "http://"@.is_prefix_of(url) {
        url
    } else if "tauri://"@.is_prefix_of(url) {
        if occurs(url, "/api"@) {
            PROTON_API_BASE@ + from_first(url, "/api"@)
        } else {
            url
        }
    } else if "/"@.is_prefix_of(url) {
        PROTON_API_BASE@ + url
    } else {
        PROTON_API_BASE@ + "/"@ + url
    }
}

/// The characters of which the name of an HTTP method is made.
pub open spec fn method_char(c: char) -> bool {
    ||| 'a' <= c <= 'z'
    ||| 'A' <= c <= 'Z'
    ||| '0' <= c <= '9'
    ||| c == '!' || c == '#' || c == '$' || c == '%' || c == '&' || c == '\''
    ||| c == '*' || c == '+' || c == '-' || c == '.' || c == '^' || c == '_'
    ||| c == '`' || c == '|' || c == '~'
}

/// Whether a text is the name of an HTTP method.
pub open spec fn is_method(name: Seq<char>) -> bool {
    name.len() > 0 && forall|i: int| 0 <= i < name.len() ==> method_char(#[trigger] name[i])
}

/// The method with that name in upper case, or `GET` where there is none.
pub open spec fn method_named(upper: Seq<char>) -> Seq<char> {
    if is_method(upper) {
        upper
    } else {
        "GET"@
    }
}

/// Calls `Method::from_bytes` of the `reqwest` crate on the bytes of `name`, and `as_str` of the
/// method. Claimed of it: it takes every text that is not empty and made of the characters of a
/// token, and no other, and the method is called what it was made from.
#[verifier::external_body]
fn http_method(name: &str) -> (method: Option<String>)
    ensures
        match method {
            Some(text) => is_method(name@) && text@ == name@,
            None => !is_method(name@),
        },
{
    match reqwest::Method::from_bytes(name.as_bytes()) {
        Ok(method) => Some(method.as_str().to_owned()),
        Err(_) => None,
    }
}

/// Whether a header with that name in lower case is sent on.
pub open spec fn forwarded(lower: Seq<char>) -> bool {
    lower != "host"@ && lower != "cookie"@
}

/// The headers that are sent on, in order.
pub open spec fn forwarded_headers(headers: Seq<(Seq<char>, Seq<char>)>) -> Seq<
    (Seq<char>, Seq<char>),
> {
    headers.filter(|header: (Seq<char>, Seq<char>)| forwarded(lower_text(header.0)))
}

/// A byte that stands in the text of a header.
pub open spec fn header_byte(b: u8) -> bool {
    32 <= b < 127 || b == 9
}

/// The text of a header's value, if it is text.
pub open spec fn header_text(value: Seq<u8>) -> Option<Seq<char>> {
    if forall|i: int| 0 <= i < value.len() ==> header_byte(#[trigger] value[i]) {
        Some(value.map_values(|b: u8| b as char))
    } else {
        None
    }
}

/// Makes a header value with `HeaderValue::from_bytes` of the `reqwest` crate and calls its
/// `to_str`. Claimed of them: text comes out where every byte is a visible ASCII character, a space
/// or a tab, and only there, and it holds those characters.
#[verifier::external_body]
fn header_value_text(value: &[u8]) -> (text: Option<String>)
    ensures
        match text {
            Some(t) => header_text(value@) == Some(t@),
            None => header_text(value@) is None,
        },
{
    match reqwest::header::HeaderValue::from_bytes(value) {
        Ok(header) => match header.to_str() {
            Ok(text) => Some(text.to_owned()),
            Err(_) => None,
        },
        Err(_) => None,
    }
}

/// Whether a header sets a cookie.
pub open spec fn sets_cookie(name: Seq<char>) -> bool {
    ascii_lowered(name) == "set-cookie"@
}

/// The headers of a reply that set no cookie, where their value is text; of headers with the same
/// name the last counts.
pub open spec fn plain_headers(headers: Seq<(Seq<char>, Seq<u8>)>) -> Map<Seq<char>, Seq<char>>
    decreases headers.len(),
{
    if headers.len() == 0 {
        Map::empty()
    } else {
        let before = plain_headers(headers.drop_last());
        let (name, value) = headers.last();
        match header_text(value) {
            Some(text) if !sets_cookie(name) => before.insert(name, text),
            _ => before,
        }
    }
}

/// The cookies that a reply sets, in order, where they are text.
pub open spec fn set_cookies(headers: Seq<(Seq<char>, Seq<u8>)>) -> Seq<Seq<char>>
    decreases headers.len(),
{
    if headers.len() == 0 {
        seq![]
    } else {
        let before = set_cookies(headers.drop_last());
        let (name, value) = headers.last();
        match header_text(value) {
            Some(text) if sets_cookie(name) => before.push(text),
            _ => before,
        }
    }
}

/// The headers that the web app gets of a reply.
pub open spec fn reply_headers(headers: Seq<(Seq<char>, Seq<u8>)>) -> Map<Seq<char>, Seq<char>> {
    let cookies = set_cookies(headers);
    if cookies.len() == 0 {
        plain_headers(headers)
    } else {
        plain_headers(headers).insert(X_SET_COOKIE@, join(cookies, COOKIE_DELIMITER@))
    }
}

/// What the raw headers of a reply stand for.
pub open spec fn raw_headers(headers: Seq<(String, Vec<u8>)>) -> Seq<(Seq<char>, Seq<u8>)> {
    headers.map_values(|header: (String, Vec<u8>)| (header.0@, header.1@))
}

/// Where a request to `url` is sent.
pub fn target_url(url: &str) -> (full: String)
    ensures
        full@ == target(url@),
{
    proof {
        reveal_strlit("https://localhost/api/");
        reveal_strlit("http://localhost/api/");
    }
    let base = PROTON_API_BASE.to_owned();
    if starts_with(url, "https://localhost/api/") {
        base.concat(text_from(url, 17))
    } else if starts_with(url, "http://localhost/api/") {
        base.concat(text_from(url, 16))
    } else if starts_with(url, "https://") || starts_with(url, "http://") {
        url.to_owned()
    } else if starts_with(url, "tauri://") {
        match find(url, "/api") {
            Some(position) => {
                proof {
                    lemma_from_first(url@, "/api"@, position as int);
                    assert(stands_at(url@, "/api"@, position as int));
                }
                base.concat(text_from(url, position))
            },
            None => url.to_owned(),
        }
    } else if starts_with(url, "/") {
        base.concat(url)
    } else {
        base.concat("/").concat(url)
    }
}

/// The method with that name in upper case, or `GET` where there is none.
pub fn method_or_get(upper: &str) -> (method: String)
    ensures
        method@ == method_named(upper@),
{
    match http_method(upper) {
        Some(method) => method,
        None => "GET".to_owned(),
    }
}

/// The method of a request.
pub fn request_method(name: &str) -> (method: String)
    ensures
        method@ == method_named(upper_text(name@)),
{
    let upper = to_uppercase(name);
    method_or_get(upper.as_str())
}

/// Whether a header with that name in lower case is sent on.
pub fn is_forwarded(lower: &str) -> (yes: bool)
    ensures
        yes == forwarded(lower@),
{
    !same_text(lower, "host") && !same_text(lower, "cookie")
}

/// The headers that are sent on.
pub fn request_headers(headers: &Vec<(String, String)>) -> (kept: Vec<(String, String)>)
    ensures
        kept.deep_view() == forwarded_headers(headers.deep_view()),
{
    let ghost all = headers.deep_view();
    let ghost sent = |header: (Seq<char>, Seq<char>)| forwarded(lower_text(header.0));
    let mut kept: Vec<(String, String)> = Vec::new();
    let mut i: usize = 0;
    assert(all.take(0).filter(sent) =~= seq![]);
    assert(kept.deep_view() =~= seq![]);
    while i < headers.len()
        invariant
            i <= headers@.len(),
            all == headers.deep_view(),
            sent == (|header: (Seq<char>, Seq<char>)| forwarded(lower_text(header.0))),
            kept.deep_view() == all.take(i as int).filter(sent),
        decreases headers@.len() - i,
    {
        let ghost before = kept.deep_view();
        let name = headers[i].0.as_str();
        let value = headers[i].1.as_str();
        assert(all[i as int] == (name@, value@));
        assert(all.take(i + 1) =~= all.take(i as int).push(all[i as int]));
        proof {
            all.take(i as int).lemma_filter_push(all[i as int], sent);
        }
        let lower = to_lowercase(name);
        if is_forwarded(lower.as_str()) {
            kept.push((name.to_owned(), value.to_owned()));
            assert(kept.deep_view() =~= before.push(all[i as int]));
        }
        i += 1;
    }
    assert(all.take(all.len() as int) =~= all);
    kept
}

/// The request that is sent for one that the web app makes.
pub fn proxy_request(request: ProxyRequest) -> (outgoing: OutgoingRequest)
    ensures
        outgoing.method@ == method_named(upper_text(request.method@)),
        outgoing.url@ == target(request.url@),
        outgoing.headers.deep_view() == forwarded_headers(request.headers.deep_view()),
        outgoing.body == request.body,
{
    OutgoingRequest {
        method: request_method(request.method.as_str()),
        url: target_url(request.url.as_str()),
        headers: request_headers(&request.headers),
        body: request.body,
    }
}

/// The headers that the web app gets of a reply.
pub fn collect_headers(headers: &Vec<(String, Vec<u8>)>) -> (collected: ResponseHeaders)
    ensures
        collected@ == reply_headers(raw_headers(headers@)),
{
    let ghost all = raw_headers(headers@);
    let mut collected = ResponseHeaders::new();
    let mut cookies: Vec<String> = Vec::new();
    let mut i: usize = 0;
    assert(cookies.deep_view() =~= seq![]);
    proof {
        reveal_strlit("set-cookie");
        assert(ascii_lowered("set-cookie"@) =~= "set-cookie"@);
    }
    while i < headers.len()
        invariant
            i <= headers@.len(),
            all == raw_headers(headers@),
            ascii_lowered("set-cookie"@) == "set-cookie"@,
            collected@ == plain_headers(all.take(i as int)),
            cookies.deep_view() == set_cookies(all.take(i as int)),
        decreases headers@.len() - i,
    {
        let ghost before = cookies.deep_view();
        assert(all.take(i + 1).drop_last() =~= all.take(i as int));
        assert(all.take(i + 1).last() == all[i as int]);
        let name = headers[i].0.as_str();
        if let Some(text) = header_value_text(headers[i].1.as_slice()) {
            let ghost value = text@;
            if same_ignoring_ascii_case(name, "set-cookie") {
                cookies.push(text);
                assert(cookies.deep_view() =~= before.push(value));
            } else {
                collected.insert(name.to_owned(), text);
            }
        }
        i += 1;
    }
    assert(all.take(all.len() as int) =~= all);
    assert(cookies.deep_view().len() == cookies@.len());
    if cookies.len() > 0 {
        let joined = join_text(&cookies, COOKIE_DELIMITER);
        collected.insert(X_SET_COOKIE.to_owned(), joined);
    }
    collected
}

/// The reply that the web app gets, or why it gets none.
pub fn proxy_response(reply: Option<RawResponse>) -> (response: Result<ProxyResponse, String>)
    ensures
        match response {
            Ok(r) => reply matches Some(raw) && {
                &&& r.status == raw.status
                &&& r.headers@ == reply_headers(raw_headers(raw.headers@))
                &&& r.body@ == match raw.body {
                    Some(text) => text@,
                    None => Seq::empty(),
                }
            },
            Err(error) => reply is None && error@ == ERR_REQUEST_FAILED@,
        },
{
    match reply {
        Some(raw) => {
            let headers = collect_headers(&raw.headers);
            let body = match raw.body {
                Some(text) => text,
                None => String::new(),
            };
            Ok(ProxyResponse { status: raw.status, headers, body })
        },
        None => Err(ERR_REQUEST_FAILED.to_owned()),
    }
}

/// What is asked of the app's own API is asked of Proton's, under the same path.
pub proof fn theorem_local_api_calls_keep_their_path(rest: Seq<char>)
    ensures
        target("https://localhost/api/"@ + rest) == PROTON_API_BASE@ + "/api/"@ + rest,
        target("http://localhost/api/"@ + rest) == PROTON_API_BASE@ + "/api/"@ + rest,
{
    reveal_strlit("https://localhost/api/");
    reveal_strlit("http://localhost/api/");
    reveal_strlit("/api/");
    let secure = "https://localhost/api/"@ + rest;
    let open = "http://localhost/api/"@ + rest;
    assert("https://localhost/api/"@ =~= secure.subrange(0, 22));
    assert(secure.skip(17) =~= "/api/"@ + rest);
    assert("http://localhost/api/"@ =~= open.subrange(0, 21));
    assert(open.skip(16) =~= "/api/"@ + rest);
    assert("https://localhost/api/"@[4] != open.subrange(0, 22)[4] || open.len() < 22);
    assert(PROTON_API_BASE@ + secure.skip(17) =~= PROTON_API_BASE@ + "/api/"@ + rest);
    assert(PROTON_API_BASE@ + open.skip(16) =~= PROTON_API_BASE@ + "/api/"@ + rest);
}

/// What names no other place is asked of Proton.
pub proof fn theorem_bare_paths_go_to_proton(url: Seq<char>)
    requires
        !"https://"@.is_prefix_of(url),
        !"http://"@.is_prefix_of(url),
        !"tauri://"@.is_prefix_of(url),
    ensures
        "https://mail.proton.me/"@.is_prefix_of(target(url)),
{
    reveal_strlit("https://localhost/api/");
    reveal_strlit("http://localhost/api/");
    reveal_strlit("https://");
    reveal_strlit("http://");
    reveal_strlit("https://mail.proton.me");
    reveal_strlit("https://mail.proton.me/");
    reveal_strlit("/");
    if "https://localhost/api/"@.is_prefix_of(url) {
        assert("https://"@ =~= url.subrange(0, 22).subrange(0, 8));
        assert(url.subrange(0, 22).subrange(0, 8) =~= url.subrange(0, 8));
    }
    if "http://localhost/api/"@.is_prefix_of(url) {
        assert("http://"@ =~= url.subrange(0, 21).subrange(0, 7));
        assert(url.subrange(0, 21).subrange(0, 7) =~= url.subrange(0, 7));
    }
    if "/"@.is_prefix_of(url) {
        assert(url[0] == url.subrange(0, 1)[0]);
    }
    assert(target(url)[22] == '/');
    assert("https://mail.proton.me/"@ =~= target(url).subrange(0, 23));
}

/// What names another place is asked there, unless it is the app's own API.
pub proof fn theorem_other_places_are_kept(url: Seq<char>)
    requires
        "https://"@.is_prefix_of(url) || "http://"@.is_prefix_of(url),
        !"https://localhost/api/"@.is_prefix_of(url),
        !"http://localhost/api/"@.is_prefix_of(url),
    ensures
        target(url) == url,
{
}

/// Of a request's headers those named `host` or `cookie`, in whatever case, are not sent on; all
/// others are.
pub proof fn theorem_host_and_cookie_stay(headers: Seq<(Seq<char>, Seq<char>)>)
    ensures
        forall|header: (Seq<char>, Seq<char>)| #[trigger]
            forwarded_headers(headers).contains(header) <==> headers.contains(header) && forwarded(
                lower_text(header.0),
            ),
        forall|header: (Seq<char>, Seq<char>)| #[trigger]
            forwarded_headers(headers).contains(header) ==> forwarded(ascii_lowered(header.0)),
{
    let sent = |header: (Seq<char>, Seq<char>)| forwarded(lower_text(header.0));
    assert forall|header: (Seq<char>, Seq<char>)| #[trigger]
        forwarded_headers(headers).contains(header) <==> headers.contains(header) && forwarded(
            lower_text(header.0),
        ) by {
        let kept = headers.filter(sent);
        if kept.contains(header) {
            headers.lemma_filter_contains_rev(sent, header);
            let i = choose|i: int| 0 <= i < kept.len() && kept[i] == header;
            headers.lemma_filter_pred(sent, i);
        }
        if headers.contains(header) && sent(header) {
            let i = choose|i: int| 0 <= i < headers.len() && headers[i] == header;
            headers.lemma_filter_contains(sent, i);
        }
    }
    assert forall|header: (Seq<char>, Seq<char>)| #[trigger]
        forwarded_headers(headers).contains(header) implies forwarded(
        ascii_lowered(header.0),
    ) by {
        lemma_held_back_names_are_ascii(header.0);
    }
}

/// A name that is `host` or `cookie` but for the case of ASCII letters is ASCII itself.
proof fn lemma_held_back_names_are_ascii(name: Seq<char>)
    ensures
        !forwarded(ascii_lowered(name)) ==> is_ascii_chars(name),
{
    reveal_strlit("host");
    reveal_strlit("cookie");
    if !forwarded(ascii_lowered(name)) {
        assert(is_ascii_chars("host"@) && is_ascii_chars("cookie"@));
        assert forall|i: int| 0 <= i < name.len() implies '\0' <= #[trigger] name[i] <= '\u{7f}' by {
            assert(ascii_lowered(name)[i] == ascii_lower(name[i]));
        }
    }
}

/// No header that sets a cookie is handed on under its own name.
pub proof fn theorem_cookies_have_their_own_header(headers: Seq<(Seq<char>, Seq<u8>)>)
    ensures
        forall|name: Seq<char>| #[trigger]
            reply_headers(headers).contains_key(name) ==> !sets_cookie(name),
{
    reveal_strlit("x-set-cookie");
    reveal_strlit("set-cookie");
    assert(ascii_lowered(X_SET_COOKIE@).len() != "set-cookie"@.len());
    lemma_plain_headers_set_no_cookie(headers);
}

/// No header that sets a cookie is among the plain ones.
proof fn lemma_plain_headers_set_no_cookie(headers: Seq<(Seq<char>, Seq<u8>)>)
    ensures
        forall|name: Seq<char>| #[trigger]
            plain_headers(headers).contains_key(name) ==> !sets_cookie(name),
    decreases headers.len(),
{
    if headers.len() > 0 {
        let before = headers.drop_last();
        lemma_plain_headers_set_no_cookie(before);
        assert forall|name: Seq<char>| #[trigger]
            plain_headers(headers).contains_key(name) implies !sets_cookie(name) by {
            assert(plain_headers(before).contains_key(name) || name == headers.last().0);
        }
    }
}

/// The cookies of a reply can be told apart again: cut at each delimiter, what was joined is what
/// was set, unless a cookie holds the delimiter or, not being the last, ends with a bar.
pub proof fn theorem_cookies_split_back(cookies: Seq<Seq<char>>)
    requires
        cookies.len() > 0,
        forall|i: int| 0 <= i < cookies.len() ==> !occurs(#[trigger] cookies[i], COOKIE_DELIMITER@),
        forall|i: int|
            0 <= i < cookies.len() - 1 && (#[trigger] cookies[i]).len() > 0 ==> cookies[i].last()
                != '|',
    ensures
        split_at_each(join(cookies, COOKIE_DELIMITER@), COOKIE_DELIMITER@) == cookies,
    decreases cookies.len(),
{
    reveal_strlit("|||");
    let delimiter = COOKIE_DELIMITER@;
    let whole = join(cookies, delimiter);
    let first = cookies[0];
    let k = choose|k: int| first_at(whole, delimiter, k);
    if cookies.len() == 1 {
        if first_at(whole, delimiter, k) {
            assert(stands_at(first, delimiter, k));
        }
        assert(cookies =~= seq![first]);
    } else {
        let rest = cookies.skip(1);
        lemma_join_first(cookies, delimiter);
        let n = first.len() as int;
        assert(whole.subrange(n, n + 3) =~= delimiter);
        assert forall|j: int| 0 <= j < n implies !#[trigger] stands_at(whole, delimiter, j) by {
            if stands_at(whole, delimiter, j) {
                let window = whole.subrange(j, j + 3);
                if j + 3 <= n {
                    assert(first.subrange(j, j + 3) =~= window);
                    assert(stands_at(first, delimiter, j));
                } else {
                    assert(window[n - 1 - j] == first.last());
                }
            }
        }
        assert(first_at(whole, delimiter, n));
        lemma_first_at_unique(whole, delimiter, n, k);
        assert(whole.take(n) =~= first);
        assert(whole.skip(n + 3) =~= join(rest, delimiter));
        assert forall|i: int| 0 <= i < rest.len() implies !occurs(#[trigger] rest[i], delimiter) by {
            assert(rest[i] == cookies[i + 1]);
        }
        assert forall|i: int| 0 <= i < rest.len() - 1 && (#[trigger] rest[i]).len() > 0 implies
            rest[i].last() != '|' by {
            assert(rest[i] == cookies[i + 1]);
        }
        theorem_cookies_split_back(rest);
        assert(seq![first] + rest =~= cookies);
    }
}

/// Under the app's own scheme, what is asked from the first `/api` on is asked of Proton in full,
/// path and query and all that follows; without `/api` the URL stays.
pub proof fn theorem_own_scheme_calls_keep_all(url: Seq<char>, i: int)
    requires
        "tauri://"@.is_prefix_of(url),
    ensures
        0 <= i && i + 4 <= url.len() && url.subrange(i, i + 4) == "/api"@ && (forall|j: int|
            0 <= j < i ==> #[trigger] url.subrange(j, j + 4) != "/api"@) ==> target(url)
            == "https://mail.proton.me"@ + url.skip(i),
        (forall|j: int| 0 <= j <= url.len() - 4 ==> #[trigger] url.subrange(j, j + 4) != "/api"@)
            ==> target(url) == url,
{
    reveal_strlit("/api");
    lemma_own_scheme_is_no_other(url);
    if 0 <= i && i + 4 <= url.len() && url.subrange(i, i + 4) == "/api"@ && (forall|j: int|
        0 <= j < i ==> #[trigger] url.subrange(j, j + 4) != "/api"@) {
        assert forall|j: int| 0 <= j < i implies !#[trigger] stands_at(url, "/api"@, j) by {
            assert(url.subrange(j, j + 4) != "/api"@);
        }
        assert(stands_at(url, "/api"@, i));
        lemma_from_first(url, "/api"@, i);
    }
    if forall|j: int| 0 <= j <= url.len() - 4 ==> #[trigger] url.subrange(j, j + 4) != "/api"@ {
        assert forall|j: int| !#[trigger] stands_at(url, "/api"@, j) by {
            if 0 <= j <= url.len() - 4 {
                assert(url.subrange(j, j + 4) != "/api"@);
            }
        }
    }
}

/// A URL under the app's own scheme is none of the web.
proof fn lemma_own_scheme_is_no_other(url: Seq<char>)
    requires
        "tauri://"@.is_prefix_of(url),
    ensures
        !"https://localhost/api/"@.is_prefix_of(url),
        !"http://localhost/api/"@.is_prefix_of(url),
        !"https://"@.is_prefix_of(url),
        !"http://"@.is_prefix_of(url),
{
    reveal_strlit("tauri://");
    reveal_strlit("https://");
    reveal_strlit("http://");
    reveal_strlit("https://localhost/api/");
    reveal_strlit("http://localhost/api/");
    assert(url[0] == url.subrange(0, 8)[0]);
    if "https://localhost/api/"@.is_prefix_of(url) {
        assert(url[0] == url.subrange(0, 22)[0]);
    }
    if "http://localhost/api/"@.is_prefix_of(url) {
        assert(url[0] == url.subrange(0, 21)[0]);
    }
    if "https://"@.is_prefix_of(url) {
        assert(url[0] == url.subrange(0, 8)[0]);
    }
    if "http://"@.is_prefix_of(url) {
        assert(url[0] == url.subrange(0, 7)[0]);
    }
}

/// A call of the API under the app's own scheme keeps its path and query.
pub proof fn theorem_own_scheme_api_calls_keep_their_path(rest: Seq<char>)
    ensures
        target("tauri://localhost/api/"@ + rest) == "https://mail.proton.me"@ + "/api/"@ + rest,
{
    reveal_strlit("tauri://");
    reveal_strlit("tauri://localhost/api/");
    reveal_strlit("/api");
    reveal_strlit("/api/");
    let url = "tauri://localhost/api/"@ + rest;
    assert("tauri://"@ =~= url.subrange(0, 8));
    assert(url.subrange(17, 21) =~= "/api"@);
    assert forall|j: int| 0 <= j < 17 implies #[trigger] url.subrange(j, j + 4) != "/api"@ by {
        let window = url.subrange(j, j + 4);
        assert(window[0] == url[j] && window[1] == url[j + 1]);
        assert(url[j] == "tauri://localhost/api/"@[j]);
        assert(url[j + 1] == "tauri://localhost/api/"@[j + 1]);
    }
    theorem_own_scheme_calls_keep_all(url, 17);
    assert(url.skip(17) =~= "/api/"@ + rest);
    assert("https://mail.proton.me"@ + url.skip(17) =~= "https://mail.proton.me"@ + "/api/"@ + rest);
}

/// What names no place at all is put behind Proton's, in full, with one slash between the two.
pub proof fn theorem_bare_paths_keep_all(url: Seq<char>)
    requires
        !"https://"@.is_prefix_of(url),
        !"http://"@.is_prefix_of(url),
        !"tauri://"@.is_prefix_of(url),
    ensures
        url.len() > 0 && url[0] == '/' ==> target(url) == "https://mail.proton.me"@ + url,
        !(url.len() > 0 && url[0] == '/') ==> target(url) == "https://mail.proton.me/"@ + url,
{
    reveal_strlit("https://localhost/api/");
    reveal_strlit("http://localhost/api/");
    reveal_strlit("https://");
    reveal_strlit("http://");
    reveal_strlit("https://mail.proton.me");
    reveal_strlit("https://mail.proton.me/");
    reveal_strlit("/");
    if "https://localhost/api/"@.is_prefix_of(url) {
        assert("https://"@ =~= url.subrange(0, 22).subrange(0, 8));
        assert(url.subrange(0, 22).subrange(0, 8) =~= url.subrange(0, 8));
    }
    if "http://localhost/api/"@.is_prefix_of(url) {
        assert("http://"@ =~= url.subrange(0, 21).subrange(0, 7));
        assert(url.subrange(0, 21).subrange(0, 7) =~= url.subrange(0, 7));
    }
    if url.len() > 0 && url[0] == '/' {
        assert("/"@ =~= url.subrange(0, 1));
    }
    if "/"@.is_prefix_of(url) {
        assert(url[0] == url.subrange(0, 1)[0]);
    }
    assert("https://mail.proton.me/"@ =~= "https://mail.proton.me"@ + "/"@);
}

/// A method that is made of letters, digits and the marks of a token is used as it is, and any other
/// gives way to `GET`.
pub proof fn theorem_methods_are_tokens(name: Seq<char>)
    ensures
        ({
            let token = name.len() > 0 && forall|i: int|
                0 <= i < name.len() ==> {
                    ||| 'a' <= #[trigger] name[i] <= 'z'
                    ||| 'A' <= name[i] <= 'Z'
                    ||| '0' <= name[i] <= '9'
                    ||| "!#$%&'*+-.^_`|~"@.contains(name[i])
                };
            &&& token ==> method_named(name) == name
            &&& !token ==> method_named(name) == "GET"@
        }),
{
    reveal_strlit("!#$%&'*+-.^_`|~");
    let marks = "!#$%&'*+-.^_`|~"@;
    assert forall|c: char| marks.contains(c) <==> (c == '!' || c == '#' || c == '$' || c == '%' || c
        == '&' || c == '\'' || c == '*' || c == '+' || c == '-' || c == '.' || c == '^' || c == '_'
        || c == '`' || c == '|' || c == '~') by {
        assert(marks[0] == '!' && marks[1] == '#' && marks[2] == '$' && marks[3] == '%');
        assert(marks[4] == '&' && marks[5] == '\'' && marks[6] == '*' && marks[7] == '+');
        assert(marks[8] == '-' && marks[9] == '.' && marks[10] == '^' && marks[11] == '_');
        assert(marks[12] == '`' && marks[13] == '|' && marks[14] == '~');
    }
    assert forall|i: int| 0 <= i < name.len() implies (method_char(#[trigger] name[i]) <==> {
        ||| 'a' <= name[i] <= 'z'
        ||| 'A' <= name[i] <= 'Z'
        ||| '0' <= name[i] <= '9'
        ||| marks.contains(name[i])
    }) by {
    }
    if is_method(name) {
        assert forall|i: int| 0 <= i < name.len() implies {
            ||| 'a' <= #[trigger] name[i] <= 'z'
            ||| 'A' <= name[i] <= 'Z'
            ||| '0' <= name[i] <= '9'
            ||| marks.contains(name[i])
        } by {
            assert(method_char(name[i]));
        }
    }
}

/// Headers are sent on one by one, name and value as they are and in order: a single one is held
/// back where its name in lower case is `host` or `cookie`, and sent on otherwise.
pub proof fn theorem_headers_are_sent_one_by_one(
    header: (Seq<char>, Seq<char>),
    a: Seq<(Seq<char>, Seq<char>)>,
    b: Seq<(Seq<char>, Seq<char>)>,
)
    ensures
        ({
            let name = if is_ascii_chars(header.0) {
                ascii_lowered(header.0)
            } else {
                lowercased(header.0)
            };
            let sent = forwarded_headers(seq![header]);
            &&& name == "host"@ || name == "cookie"@ ==> sent == Seq::<
                (Seq<char>, Seq<char>),
            >::empty()
            &&& name != "host"@ && name != "cookie"@ ==> sent == seq![header]
            &&& forwarded_headers(a + b) == forwarded_headers(a) + forwarded_headers(b)
        }),
{
    let sent = |h: (Seq<char>, Seq<char>)| forwarded(lower_text(h.0));
    let nothing = Seq::<(Seq<char>, Seq<char>)>::empty();
    assert(nothing.filter(sent) =~= nothing);
    assert(seq![header] =~= nothing.push(header));
    nothing.lemma_filter_push(header, sent);
    assert(nothing.push(header) =~= seq![header]);
    Seq::filter_distributes_over_add(a, b, sent);
}

/// The value of a header is text where every byte is visible ASCII, a space or a tab, and then it
/// is those characters, each and in order.
pub proof fn theorem_header_text_is_the_whole_value(value: Seq<u8>)
    ensures
        ({
            let visible = forall|i: int|
                0 <= i < value.len() ==> 32 <= #[trigger] value[i] <= 126 || value[i] == 9;
            &&& !visible ==> header_text(value) is None
            &&& visible ==> (header_text(value) matches Some(text) && text.len() == value.len()
                && forall|i: int|
                0 <= i < value.len() ==> #[trigger] text[i] as u32 == value[i] as u32)
        }),
{
    let visible = forall|i: int|
        0 <= i < value.len() ==> 32 <= #[trigger] value[i] <= 126 || value[i] == 9;
    if visible {
        assert forall|i: int| 0 <= i < value.len() implies header_byte(#[trigger] value[i]) by {
            assert(32 <= value[i] <= 126 || value[i] == 9);
        }
    } else {
        let k = choose|k: int|
            0 <= k < value.len() && !(32 <= #[trigger] value[k] <= 126 || value[k] == 9);
        assert(!header_byte(value[k]));
    }
}

/// A header of a reply is handed on with its whole value, unless it sets a cookie, its value is no
/// text, a later one has the same name, or the cookies need its name.
pub proof fn theorem_headers_keep_their_value(
    headers: Seq<(Seq<char>, Seq<u8>)>,
    i: int,
    text: Seq<char>,
)
    requires
        0 <= i < headers.len(),
        ascii_lowered(headers[i].0) != "set-cookie"@,
        headers[i].0 != "x-set-cookie"@ || set_cookies(headers).len() == 0,
        header_text(headers[i].1) == Some(text),
        forall|j: int|
            i < j < headers.len() && header_text((#[trigger] headers[j]).1) is Some ==> headers[j].0
                != headers[i].0,
    ensures
        reply_headers(headers).contains_pair(headers[i].0, text),
{
    lemma_plain_headers_keep_their_value(headers, i, text);
}

/// A header that sets no cookie is among the plain ones with its whole value, unless a later one
/// has the same name.
proof fn lemma_plain_headers_keep_their_value(
    headers: Seq<(Seq<char>, Seq<u8>)>,
    i: int,
    text: Seq<char>,
)
    requires
        0 <= i < headers.len(),
        ascii_lowered(headers[i].0) != "set-cookie"@,
        header_text(headers[i].1) == Some(text),
        forall|j: int|
            i < j < headers.len() && header_text((#[trigger] headers[j]).1) is Some ==> headers[j].0
                != headers[i].0,
    ensures
        plain_headers(headers).contains_pair(headers[i].0, text),
    decreases headers.len(),
{
    let before = headers.drop_last();
    let last = headers.len() - 1;
    if i < last {
        assert(before[i] == headers[i]);
        assert forall|j: int|
            i < j < before.len() && header_text(
                (#[trigger] before[j]).1,
            ) is Some implies before[j].0 != before[i].0 by {
            assert(before[j] == headers[j]);
            assert(header_text(headers[j].1) is Some);
        }
        lemma_plain_headers_keep_their_value(before, i, text);
        if header_text(headers[last].1) is Some {
            assert(headers[last].0 != headers[i].0);
        }
    }
}

/// Nothing is handed on that the reply does not hold: each name is that of a header whose value is
/// text and that sets no cookie, save for the name under which cookies are handed on.
pub proof fn theorem_headers_come_from_the_reply(
    headers: Seq<(Seq<char>, Seq<u8>)>,
    name: Seq<char>,
)
    requires
        reply_headers(headers).contains_key(name),
    ensures
        name == "x-set-cookie"@ && set_cookies(headers).len() > 0 || exists|i: int|
            0 <= i < headers.len() && (#[trigger] headers[i]).0 == name && header_text(
                headers[i].1,
            ) is Some && ascii_lowered(name) != "set-cookie"@,
{
    if plain_headers(headers).contains_key(name) {
        lemma_plain_headers_come_from_the_reply(headers, name);
    }
}

/// Each plain header is one of the reply's.
proof fn lemma_plain_headers_come_from_the_reply(
    headers: Seq<(Seq<char>, Seq<u8>)>,
    name: Seq<char>,
)
    requires
        plain_headers(headers).contains_key(name),
    ensures
        exists|i: int|
            0 <= i < headers.len() && (#[trigger] headers[i]).0 == name && header_text(
                headers[i].1,
            ) is Some && ascii_lowered(name) != "set-cookie"@,
    decreases headers.len(),
{
    let before = headers.drop_last();
    let last = headers.len() - 1;
    if plain_headers(before).contains_key(name) {
        lemma_plain_headers_come_from_the_reply(before, name);
        let k = choose|k: int|
            0 <= k < before.len() && (#[trigger] before[k]).0 == name && header_text(
                before[k].1,
            ) is Some && ascii_lowered(name) != "set-cookie"@;
        assert(headers[k] == before[k]);
    } else {
        assert(headers[last].0 == name);
    }
}

/// The cookies of a reply are the values of the headers named `set-cookie`, in whatever case, where
/// they are text: each in full and in order.
pub proof fn theorem_cookies_add_up(
    header: (Seq<char>, Seq<u8>),
    a: Seq<(Seq<char>, Seq<u8>)>,
    b: Seq<(Seq<char>, Seq<u8>)>,
)
    ensures
        ascii_lowered(header.0) == "set-cookie"@ ==> (header_text(header.1) matches Some(text)
            ==> set_cookies(seq![header]) == seq![text]),
        ascii_lowered(header.0) != "set-cookie"@ || header_text(header.1) is None ==> set_cookies(
            seq![header],
        ) == Seq::<Seq<char>>::empty(),
        set_cookies(Seq::empty()) == Seq::<Seq<char>>::empty(),
        set_cookies(a + b) == set_cookies(a) + set_cookies(b),
    decreases b.len(),
{
    reveal_with_fuel(set_cookies, 2);
    assert(seq![header].drop_last() =~= seq![]);
    if let Some(text) = header_text(header.1) {
        assert(Seq::<Seq<char>>::empty().push(text) =~= seq![text]);
    }
    if b.len() == 0 {
        assert(a + b =~= a);
        assert(set_cookies(a) + seq![] =~= set_cookies(a));
    } else {
        let before = b.drop_last();
        theorem_cookies_add_up(header, a, before);
        assert((a + b).drop_last() =~= a + before);
        assert((a + b).last() == b.last());
        assert(set_cookies(a + b) =~= set_cookies(a) + set_cookies(b));
    }
}

/// Where a reply sets cookies, all of them are handed on, joined, under a name of their own; where
/// it sets none, that name is as any other.
pub proof fn theorem_cookies_are_handed_on(headers: Seq<(Seq<char>, Seq<u8>)>)
    ensures
        set_cookies(headers).len() > 0 ==> reply_headers(headers).contains_pair(
            "x-set-cookie"@,
            join(set_cookies(headers), "|||"@),
        ),
        (forall|i: int| 0 <= i < headers.len() ==> (#[trigger] headers[i]).0 != "x-set-cookie"@)
            && set_cookies(headers).len() == 0 ==> !reply_headers(headers).contains_key(
            "x-set-cookie"@,
        ),
{
    if set_cookies(headers).len() == 0 && reply_headers(headers).contains_key("x-set-cookie"@) {
        theorem_headers_come_from_the_reply(headers, "x-set-cookie"@);
    }
}

/// Raw headers stand for their names and the bytes of their values, in order.
pub proof fn theorem_raw_headers_stand_for_themselves(headers: Seq<(String, Vec<u8>)>)
    ensures
        raw_headers(headers).len() == headers.len(),
        forall|i: int|
            0 <= i < headers.len() ==> #[trigger] raw_headers(headers)[i] == (
                headers[i].0@,
                headers[i].1@,
            ),
{
}

} // verus!
