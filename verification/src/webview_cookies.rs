//! Cookies between replies, requests and the cookie store of the web view.

use crate::text::{join, join_text, theorem_joining_adds_up};
use crate::web_url::{UrlParts, UrlView};
use cookie::{Cookie, SameSite};
use vstd::prelude::*;

verus! {

/// When a cookie goes along with requests from other sites.
#[derive(Debug, Clone, Copy, PartialEq, Eq)]
pub enum SameSitePolicy {
    Strict,
    Lax,
    Unrestricted,
}

/// A cookie and the attributes that were given for it.
#[derive(Debug, PartialEq, Eq)]
pub struct WebviewCookie {
    pub name: String,
    pub value: String,
    pub domain: Option<String>,
    pub path: Option<String>,
    pub secure: Option<bool>,
    pub http_only: Option<bool>,
    pub partitioned: Option<bool>,
    pub same_site: Option<SameSitePolicy>,
    pub max_age_seconds: Option<i64>,
    /// In seconds since the beginning of 1970, UTC.
    pub expires_at: Option<i64>,
}

/// What a cookie stands for.
#[verifier::ext_equal]
pub struct CookieView {
    pub name: Seq<char>,
    pub value: Seq<char>,
    pub domain: Option<Seq<char>>,
    pub path: Option<Seq<char>>,
    pub secure: Option<bool>,
    pub http_only: Option<bool>,
    pub partitioned: Option<bool>,
    pub same_site: Option<SameSitePolicy>,
    pub max_age_seconds: Option<i64>,
    pub expires_at: Option<i64>,
}

impl View for WebviewCookie {
    type V = CookieView;

    open spec fn view(&self) -> CookieView {
        CookieView {
            name: self.name@,
            value: self.value@,
            domain: self.domain.deep_view(),
            path: self.path.deep_view(),
            secure: self.secure,
            http_only: self.http_only,
            partitioned: self.partitioned,
            same_site: self.same_site,
            max_age_seconds: self.max_age_seconds,
            expires_at: self.expires_at,
        }
    }
}

/// The cookie that the `cookie` crate reads from the value of a `Set-Cookie` header, if it reads
/// one.
pub uninterp spec fn cookie_parsed(text: Seq<char>) -> Option<CookieView>;

/// Calls `Cookie::parse` of the `cookie` crate and reads the cookie's attributes. Claimed of it:
/// what is read depends on the text alone.
#[verifier::external_body]
fn parse_cookie(text: &str) -> (cookie: Option<WebviewCookie>)
    ensures
        match cookie {
            Some(c) => cookie_parsed(text@) == Some(c@),
            None => cookie_parsed(text@) is None,
        },
{
    let cookie = Cookie::parse(text).ok()?;
    Some(WebviewCookie {
        name: cookie.name().to_owned(), value: cookie.value().to_owned(),
        domain: cookie.domain().map(str::to_owned),
        path: cookie.path().map(str::to_owned),
        secure: cookie.secure(), http_only: cookie.http_only(), partitioned: cookie.partitioned(),
        same_site: cookie.same_site().map(|policy| match policy {
            SameSite::Strict => SameSitePolicy::Strict,
            SameSite::Lax => SameSitePolicy::Lax,
            SameSite::None => SameSitePolicy::Unrestricted,
        }),
        max_age_seconds: cookie.max_age().map(|age| age.whole_seconds()),
        expires_at: cookie.expires_datetime().map(|time| time.unix_timestamp()),
    })
}

/// Whether a URL has cookies.
pub open spec fn has_cookies(url: UrlView) -> bool {
    url.scheme == "http"@ || url.scheme == "https"@
}

/// The cookie as it is stored: without a domain it is for the host of the URL that set it, and
/// without a path for all of it.
pub open spec fn completed(cookie: CookieView, host: Option<Seq<char>>) -> CookieView {
    CookieView {
        domain: if cookie.domain is Some {
            cookie.domain
        } else {
            host
        },
        path: if cookie.path is Some {
            cookie.path
        } else {
            Some("/"@)
        },
        ..cookie
    }
}

/// One cookie of a `Cookie` header.
pub open spec fn cookie_pair(cookie: (Seq<char>, Seq<char>)) -> Seq<char> {
    cookie.0 + "="@ + cookie.1
}

/// The value of a `Cookie` header with the given cookies.
pub open spec fn cookie_header(cookies: Seq<(Seq<char>, Seq<char>)>) -> Seq<char> {
    join(cookies.map_values(|cookie: (Seq<char>, Seq<char>)| cookie_pair(cookie)), "; "@)
}

/// Whether a URL has cookies.
pub fn supports_cookies(url: &UrlParts) -> (yes: bool)
    ensures
        yes == has_cookies(url@),
{
    url.has_scheme("http") || url.has_scheme("https")
}

/// Builds a request Cookie header from the names and values of the cookies that the web view holds
/// for `url`, if they could be read.
pub fn webview_cookie_header(url: &UrlParts, cookies: &Option<Vec<(String, String)>>) -> (header:
    Option<String>)
    ensures
        match header {
            Some(text) => has_cookies(url@) && (cookies matches Some(all) && all@.len() > 0
                && text@ == cookie_header(all.deep_view())),
            None => !has_cookies(url@) || cookies is None || cookies->0@.len() == 0,
        },
{
    if !supports_cookies(url) {
        return None;
    }
    match cookies {
        None => None,
        Some(all) => {
            let ghost wanted = all.deep_view();
            let ghost pairs = wanted.map_values(
                |cookie: (Seq<char>, Seq<char>)| cookie_pair(cookie),
            );
            let mut written: Vec<String> = Vec::new();
            let mut i: usize = 0;
            assert(written.deep_view() =~= pairs.take(0));
            while i < all.len()
                invariant
                    i <= all@.len(),
                    wanted == all.deep_view(),
                    pairs == wanted.map_values(
                        |cookie: (Seq<char>, Seq<char>)| cookie_pair(cookie),
                    ),
                    written.deep_view() == pairs.take(i as int),
                decreases all@.len() - i,
            {
                let ghost before = written.deep_view();
                assert(wanted[i as int] == (all@[i as int].0@, all@[i as int].1@));
                let pair = all[i].0.as_str().to_owned().concat("=").concat(all[i].1.as_str());
                assert(pair@ == pairs[i as int]);
                written.push(pair);
                assert(written.deep_view() =~= before.push(pairs[i as int]));
                assert(written.deep_view() =~= pairs.take(i + 1));
                i += 1;
            }
            assert(pairs.take(pairs.len() as int) =~= pairs);
            if written.len() == 0 {
                assert(written.deep_view().len() == 0);
                None
            } else {
                Some(join_text(&written, "; "))
            }
        },
    }
}

/// The cookie as it is stored when the host sets it.
pub fn complete_cookie(cookie: WebviewCookie, host: &Option<String>) -> (stored: WebviewCookie)
    ensures
        stored@ == completed(cookie@, host.deep_view()),
{
    let mut stored = cookie;
    if stored.domain.is_none() {
        if let Some(name) = host {
            stored.domain = Some(name.clone());
        }
    }
    if stored.path.is_none() {
        stored.path = Some("/".to_owned());
    }
    stored
}

/// The cookie that is stored in the web view for a Set-Cookie response header, if there is one.
pub fn store_webview_cookie(url: &UrlParts, set_cookie: &str) -> (stored: Option<WebviewCookie>)
    ensures
        match stored {
            Some(cookie) => has_cookies(url@) && (cookie_parsed(set_cookie@) matches Some(parsed)
                && cookie@ == completed(parsed, url@.host)),
            None => !has_cookies(url@) || cookie_parsed(set_cookie@) is None,
        },
{
    if !supports_cookies(url) {
        return None;
    }
    match parse_cookie(set_cookie) {
        Some(cookie) => Some(complete_cookie(cookie, &url.host)),
        None => None,
    }
}

/// Every cookie that a URL with a host sets is stored for some domain and path, and what the
/// cookie itself says about them is kept.
pub proof fn theorem_stored_cookies_have_a_place(cookie: CookieView, host: Seq<char>)
    ensures
        completed(cookie, Some(host)).domain is Some,
        completed(cookie, Some(host)).path is Some,
        cookie.domain is Some ==> completed(cookie, Some(host)).domain == cookie.domain,
        cookie.path is Some ==> completed(cookie, Some(host)).path == cookie.path,
        completed(completed(cookie, Some(host)), Some(host)) == completed(cookie, Some(host)),
{
}

/// Cookies go with the two schemes of the web, and with no other.
pub proof fn theorem_the_web_has_cookies(url: UrlView)
    ensures
        has_cookies(url) <==> url.scheme == "http"@ || url.scheme == "https"@,
{
}

/// A `Cookie` header holds each cookie in full, in order: one is its name, `=` and its value, and
/// two rows are the one, `; ` and the other.
pub proof fn theorem_cookie_headers_add_up(
    cookie: (Seq<char>, Seq<char>),
    a: Seq<(Seq<char>, Seq<char>)>,
    b: Seq<(Seq<char>, Seq<char>)>,
)
    requires
        a.len() > 0,
        b.len() > 0,
    ensures
        cookie_header(seq![cookie]) == cookie.0 + "="@ + cookie.1,
        cookie_header(a + b) == cookie_header(a) + "; "@ + cookie_header(b),
{
    let pair = |c: (Seq<char>, Seq<char>)| cookie_pair(c);
    assert(seq![cookie].map_values(pair) =~= seq![cookie_pair(cookie)]);
    assert((a + b).map_values(pair) =~= a.map_values(pair) + b.map_values(pair));
    theorem_joining_adds_up(a.map_values(pair), b.map_values(pair), "; "@);
}

/// A cookie is stored as it was set, but for a domain and a path that it does not name: those are
/// the host, if there is one, and `/`.
pub proof fn theorem_cookies_are_stored_as_set(cookie: CookieView, host: Option<Seq<char>>)
    ensures
        ({
            let stored = completed(cookie, host);
            &&& stored.name == cookie.name
            &&& stored.value == cookie.value
            &&& stored.secure == cookie.secure
            &&& stored.http_only == cookie.http_only
            &&& stored.partitioned == cookie.partitioned
            &&& stored.same_site == cookie.same_site
            &&& stored.max_age_seconds == cookie.max_age_seconds
            &&& stored.expires_at == cookie.expires_at
            &&& cookie.domain is Some ==> stored.domain == cookie.domain
            &&& cookie.domain is None ==> stored.domain == host
            &&& cookie.path is Some ==> stored.path == cookie.path
            &&& cookie.path is None ==> stored.path == Some("/"@)
        }),
{
}

/// A cookie stands for all that it holds.
pub proof fn theorem_cookies_stand_for_themselves(cookie: WebviewCookie)
    ensures
        cookie@.name == cookie.name@,
        cookie@.value == cookie.value@,
        cookie@.domain == cookie.domain.deep_view(),
        cookie@.path == cookie.path.deep_view(),
        cookie@.secure == cookie.secure,
        cookie@.http_only == cookie.http_only,
        cookie@.partitioned == cookie.partitioned,
        cookie@.same_site == cookie.same_site,
        cookie@.max_age_seconds == cookie.max_age_seconds,
        cookie@.expires_at == cookie.expires_at,
{
}

} // verus!
