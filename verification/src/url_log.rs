//! URLs as they are written to the log.

use crate::web_url::{unmarked, url_parsed, UrlParts, UrlView};
use vstd::prelude::*;

verus! {

/// What stands in the log for text that is no URL.
pub const UNPARSED_URL: &'static str = "<unparsed-url>";

/// What stands in the log for the host of a URL without one.
pub const UNKNOWN_HOST: &'static str = "unknown";

/// Scheme, host and path of a URL, and nothing else of it.
pub open spec fn logged(url: Option<UrlView>) -> Seq<char> {
    match url {
        Some(parts) => {
            let host = match parts.host {
                Some(host) => host,
                None => UNKNOWN_HOST@,
            };
            parts.scheme + "://"@ + host + parts.path
        },
        None => UNPARSED_URL@,
    }
}

/// Returns a URL without query parameters or fragments for log output.
pub fn sanitize_url_for_log(url: &str) -> (line: String)
    ensures
        line@ == logged(url_parsed(url@)),
        unmarked(line@),
{
    let parsed = UrlParts::parse(url);
    let line = sanitize_parsed_url(&parsed);
    proof {
        reveal_strlit("<unparsed-url>");
        reveal_strlit("unknown");
        reveal_strlit("://");
    }
    line
}

/// What is logged of a URL that was read, or was not.
pub fn sanitize_parsed_url(url: &Option<UrlParts>) -> (line: String)
    ensures
        line@ == logged(
            match *url {
                Some(parts) => Some(parts@),
                None => None,
            },
        ),
{
    match url {
        Some(parts) => {
            let mut line = parts.scheme.clone();
            line.append("://");
            match &parts.host {
                Some(host) => line.append(host.as_str()),
                None => line.append(UNKNOWN_HOST),
            }
            line.append(parts.path.as_str());
            line
        },
        None => UNPARSED_URL.to_owned(),
    }
}

/// Of a URL's query and fragment nothing is logged: two URLs with the same scheme, host and path
/// are logged alike.
pub proof fn theorem_query_is_not_logged(a: UrlView, b: UrlView)
    requires
        a.scheme == b.scheme,
        a.host == b.host,
        a.path == b.path,
    ensures
        logged(Some(a)) == logged(Some(b)),
{
}

/// A logged URL can be told by scheme, host and path, which are all there in full; what is no URL
/// and what has no host is logged as such.
pub proof fn theorem_places_are_logged(url: UrlView, host: Seq<char>)
    ensures
        url.host == Some(host) ==> logged(Some(url)) == url.scheme + "://"@ + host + url.path,
        url.host is None ==> logged(Some(url)) == url.scheme + "://unknown"@ + url.path,
        logged(None) == "<unparsed-url>"@,
{
    reveal_strlit("://unknown");
    reveal_strlit("://");
    reveal_strlit("unknown");
    assert("://unknown"@ =~= "://"@ + "unknown"@);
    assert(url.scheme + "://unknown"@ =~= url.scheme + "://"@ + "unknown"@);
}

} // verus!
