//! URLs, taken apart.

use vstd::prelude::*;

verus! {

/// The parts of a URL that decisions are made on, and its text.
#[derive(Debug, Clone, PartialEq, Eq)]
pub struct UrlParts {
    pub scheme: String,
    pub host: Option<String>,
    pub path: String,
    pub query: Option<String>,
    /// The whole URL.
    pub text: String,
}

/// What the parts of a URL stand for.
#[verifier::ext_equal]
pub struct UrlView {
    pub scheme: Seq<char>,
    pub host: Option<Seq<char>>,
    pub path: Seq<char>,
    pub query: Option<Seq<char>>,
    pub text: Seq<char>,
}

impl View for UrlParts {
    type V = UrlView;

    open spec fn view(&self) -> UrlView {
        UrlView {
            scheme: self.scheme@,
            host: self.host.deep_view(),
            path: self.path@,
            query: self.query.deep_view(),
            text: self.text@,
        }
    }
}

/// The URL that the `url` crate reads from `text`, if it reads one.
pub uninterp spec fn url_parsed(text: Seq<char>) -> Option<UrlView>;

/// Neither the mark that begins a query nor the one that begins a fragment is in `s`.
pub open spec fn unmarked(s: Seq<char>) -> bool {
    !s.contains('?') && !s.contains('#')
}

/// What holds of every URL that was read from text: the marks that begin a query or a fragment are
/// in neither scheme nor host nor path, and after a host the path is empty or begins with a slash.
pub open spec fn well_formed(url: UrlView) -> bool {
    &&& unmarked(url.scheme)
    &&& (url.host matches Some(host) ==> unmarked(host))
    &&& unmarked(url.path)
    &&& (url.host is Some && url.path.len() > 0 ==> url.path[0] == '/')
}

/// Calls `Url::parse` of the `url` crate and takes the URL apart with `scheme`, `host_str`, `path`,
/// `query` and `as_str`. Claimed of it: what is read depends on the text alone, neither scheme nor
/// host nor path holds a `?` or a `#`, and the path of a URL with a host is empty or begins with a
/// slash.
#[verifier::external_body]
fn parse_url(text: &str) -> (url: Option<UrlParts>)
    ensures
        match url {
            Some(parts) => {
                &&& url_parsed(text@) == Some(parts@)
                &&& well_formed(parts@)
            },
            None => url_parsed(text@) is None,
        },
{
    match url::Url::parse(text) {
        Ok(url) => Some(UrlParts {
            scheme: url.scheme().to_owned(),
            host: url.host_str().map(str::to_owned),
            path: url.path().to_owned(),
            query: url.query().map(str::to_owned),
            text: url.as_str().to_owned(),
        }),
        Err(_) => None,
    }
}

impl UrlParts {
    /// Reads a URL.
    pub fn parse(text: &str) -> (url: Option<UrlParts>)
        ensures
            match url {
                Some(parts) => {
                    &&& url_parsed(text@) == Some(parts@)
                    &&& well_formed(parts@)
                },
                None => url_parsed(text@) is None,
            },
    {
        parse_url(text)
    }

    /// Whether `name` is the host.
    pub fn has_host(&self, name: &str) -> (yes: bool)
        ensures
            yes == (self@.host == Some(name@)),
    {
        match &self.host {
            Some(host) => crate::text::same_text(host.as_str(), name),
            None => false,
        }
    }

    /// Whether `name` is the scheme.
    pub fn has_scheme(&self, name: &str) -> (yes: bool)
        ensures
            yes == (self@.scheme == name@),
    {
        crate::text::same_text(self.scheme.as_str(), name)
    }
}

/// A URL stands for all of its parts.
pub proof fn theorem_urls_stand_for_themselves(url: UrlParts)
    ensures
        url@.scheme == url.scheme@,
        url@.host == url.host.deep_view(),
        url@.path == url.path@,
        url@.query == url.query.deep_view(),
        url@.text == url.text@,
{
}

/// Of a URL that was read, scheme, host and path are free of the marks that begin a query or a
/// fragment, and a path after a host is empty or begins with a slash.
pub proof fn theorem_read_urls_are_clean(url: UrlView, i: int)
    requires
        well_formed(url),
    ensures
        0 <= i < url.scheme.len() ==> url.scheme[i] != '?' && url.scheme[i] != '#',
        0 <= i < url.path.len() ==> url.path[i] != '?' && url.path[i] != '#',
        url.host matches Some(host) ==> 0 <= i < host.len() ==> host[i] != '?' && host[i] != '#',
        url.host is Some && url.path.len() > 0 ==> url.path[0] == '/',
{
    if 0 <= i < url.scheme.len() {
        assert(url.scheme.contains(url.scheme[i]));
    }
    if 0 <= i < url.path.len() {
        assert(url.path.contains(url.path[i]));
    }
    if let Some(host) = url.host {
        if 0 <= i < host.len() {
            assert(host.contains(host[i]));
        }
    }
}

} // verus!
