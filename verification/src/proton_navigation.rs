//! Where navigation goes once a single sign-on flow has landed somewhere in Proton's web apps.

use crate::text::{
    before_first, contains, lemma_count_before, lemma_count_before_is, occurs, same_text, stands_at,
    starts_with, strip_prefix, text_before_first,
};
use crate::web_url::{UrlParts, UrlView};
use vstd::prelude::*;

verus! {

/// The origin of the app itself.
pub const LOCAL_ORIGIN: &'static str = "tauri://localhost";

/// The hosts of the Proton apps that this app does not show.
pub open spec fn unsupported_host(host: Seq<char>) -> bool {
    ||| host == "calendar.proton.me"@
    ||| host == "contacts.proton.me"@
    ||| host == "docs.proton.me"@
    ||| host == "mail.proton.me"@
    ||| host == "pass.proton.me"@
    ||| host == "wallet.proton.me"@
    ||| host == "vpn.proton.me"@
}

/// The hosts on which a login ends.
pub open spec fn login_complete_host(host: Option<Seq<char>>) -> bool {
    host == Some("account.proton.me"@) || host == Some("account.localhost"@)
}

/// The hosts of the app itself.
pub open spec fn local_app_host(host: Option<Seq<char>>) -> bool {
    host == Some("localhost"@) || host == Some("tauri.localhost"@)
}

/// The root of Drive for the user whom a path names, or for no particular user.
pub open spec fn drive_root(path: Seq<char>) -> Seq<char> {
    let user = before_first(path.skip(3), '/');
    if "/u/"@.is_prefix_of(path) && user.len() > 0 {
        "/u/"@ + user + "/"@
    } else {
        "/"@
    }
}

/// A path without a leading `/account`.
pub open spec fn account_path(path: Seq<char>) -> Seq<char> {
    if "/account"@.is_prefix_of(path) {
        path.skip(8)
    } else {
        path
    }
}

/// Where to go from a Proton app that is not shown here.
pub open spec fn unsupported_app_redirect(url: UrlView) -> Option<Seq<char>> {
    match url.host {
        Some(host) if unsupported_host(host) && !"/api/"@.is_prefix_of(url.path)
            && !"/captcha/"@.is_prefix_of(url.path) => Some(
            LOCAL_ORIGIN@ + drive_root(url.path),
        ),
        _ => None,
    }
}

/// Where to go once the account app has finished a login for Drive.
pub open spec fn account_login_complete_redirect(url: UrlView) -> Option<Seq<char>> {
    let path = account_path(url.path);
    if (login_complete_host(url.host) || (local_app_host(url.host)
        && "/account/u/"@.is_prefix_of(url.path))) && "/u/"@.is_prefix_of(path) && occurs(
        path,
        "/drive"@,
    ) {
        Some(LOCAL_ORIGIN@ + drive_root(path))
    } else {
        None
    }
}

/// Returns a local Drive URL when an SSO flow lands on an unsupported Proton app.
pub fn unsupported_app_redirect_url(url: &UrlParts) -> (target: Option<String>)
    ensures
        target.deep_view() == unsupported_app_redirect(url@),
{
    let path = url.path.as_str();
    match &url.host {
        Some(host) => {
            if !is_unsupported_proton_app_host(host.as_str()) || starts_with(path, "/api/")
                || starts_with(path, "/captcha/") {
                None
            } else {
                let root = drive_root_for_user_path(path);
                Some(LOCAL_ORIGIN.to_owned().concat(root.as_str()))
            }
        },
        None => None,
    }
}

/// Returns a local Drive URL when the account app finishes SSO and lands on a user-scoped Drive
/// route.
pub fn account_login_complete_redirect_url(url: &UrlParts) -> (target: Option<String>)
    ensures
        target.deep_view() == account_login_complete_redirect(url@),
{
    proof {
        reveal_strlit("/account");
    }
    let path = url.path.as_str();
    let account_path = match strip_prefix(path, "/account") {
        Some(rest) => rest,
        None => path,
    };
    let host = match &url.host {
        Some(host) => Some(host.as_str()),
        None => None,
    };
    if !is_account_login_complete_host(host) && !(is_local_app_host(host) && starts_with(
        path,
        "/account/u/",
    )) {
        return None;
    }
    if !starts_with(account_path, "/u/") || !contains(account_path, "/drive") {
        return None;
    }
    let root = drive_root_for_user_path(account_path);
    Some(LOCAL_ORIGIN.to_owned().concat(root.as_str()))
}

/// Whether a host is that of a Proton app that is not shown here.
pub fn is_unsupported_proton_app_host(host: &str) -> (yes: bool)
    ensures
        yes == unsupported_host(host@),
{
    same_text(host, "calendar.proton.me") || same_text(host, "contacts.proton.me") || same_text(
        host,
        "docs.proton.me",
    ) || same_text(host, "mail.proton.me") || same_text(host, "pass.proton.me") || same_text(
        host,
        "wallet.proton.me",
    ) || same_text(host, "vpn.proton.me")
}

/// Whether a login ends on a host.
pub fn is_account_login_complete_host(host: Option<&str>) -> (yes: bool)
    ensures
        yes == login_complete_host(host.deep_view()),
{
    match host {
        Some(name) => same_text(name, "account.proton.me") || same_text(name, "account.localhost"),
        None => false,
    }
}

/// Whether a host is that of the app itself.
pub fn is_local_app_host(host: Option<&str>) -> (yes: bool)
    ensures
        yes == local_app_host(host.deep_view()),
{
    match host {
        Some(name) => same_text(name, "localhost") || same_text(name, "tauri.localhost"),
        None => false,
    }
}

/// The root of Drive for the user whom a path names, or for no particular user.
pub fn drive_root_for_user_path(path: &str) -> (root: String)
    ensures
        root@ == drive_root(path@),
{
    proof {
        reveal_strlit("/u/");
    }
    if let Some(rest) = strip_prefix(path, "/u/") {
        let user = text_before_first(rest, '/');
        if !user.is_empty() {
            return "/u/".to_owned().concat(user).concat("/");
        }
    }
    "/".to_owned()
}

/// Every redirect leads to the app itself.
pub proof fn theorem_redirects_are_local(url: UrlView)
    ensures
        match unsupported_app_redirect(url) {
            Some(target) => "tauri://localhost/"@.is_prefix_of(target),
            None => true,
        },
        match account_login_complete_redirect(url) {
            Some(target) => "tauri://localhost/"@.is_prefix_of(target),
            None => true,
        },
{
    lemma_local_root(url.path);
    lemma_local_root(account_path(url.path));
}

/// A root of Drive begins with a slash.
proof fn lemma_local_root(path: Seq<char>)
    ensures
        "tauri://localhost/"@.is_prefix_of(LOCAL_ORIGIN@ + drive_root(path)),
{
    reveal_strlit("tauri://localhost");
    reveal_strlit("tauri://localhost/");
    reveal_strlit("/u/");
    reveal_strlit("/");
    let root = drive_root(path);
    assert(root[0] == '/');
    assert("tauri://localhost/"@ =~= (LOCAL_ORIGIN@ + root).subrange(0, 18));
}

/// A redirect keeps the user: from any path of a user it leads to the root of that user's Drive.
pub proof fn theorem_redirects_keep_the_user(user: Seq<char>, rest: Seq<char>)
    requires
        user.len() > 0,
        !user.contains('/'),
    ensures
        drive_root("/u/"@ + user) == "/u/"@ + user + "/"@,
        drive_root("/u/"@ + user + "/"@ + rest) == "/u/"@ + user + "/"@,
{
    reveal_strlit("/u/");
    reveal_strlit("/");
    let short = "/u/"@ + user;
    assert(short.skip(3) =~= user);
    assert("/u/"@ =~= short.subrange(0, 3));
    lemma_count_before(user, '/');
    assert(before_first(user, '/') =~= user);
    let long = short + "/"@ + rest;
    let tail = user + "/"@ + rest;
    assert(long.skip(3) =~= tail);
    assert("/u/"@ =~= long.subrange(0, 3));
    assert forall|j: int| 0 <= j < user.len() implies tail[j] != '/' by {
        assert(tail[j] == user[j]);
        assert(user.contains(user[j]));
    }
    lemma_count_before_is(tail, '/', user.len() as int);
    assert(before_first(tail, '/') =~= user);
}

/// From a user's page in a Proton app that is not shown here, the way leads to the root of that
/// user's Drive.
pub proof fn theorem_unsupported_apps_lead_to_the_user(
    url: UrlView,
    host: Seq<char>,
    user: Seq<char>,
    rest: Seq<char>,
)
    requires
        url.host == Some(host),
        unsupported_host(host),
        url.path == "/u/"@ + user + "/"@ + rest,
        user.len() > 0,
        !user.contains('/'),
    ensures
        unsupported_app_redirect(url) == Some(LOCAL_ORIGIN@ + ("/u/"@ + user + "/"@)),
{
    reveal_strlit("/u/");
    reveal_strlit("/api/");
    reveal_strlit("/captcha/");
    theorem_redirects_keep_the_user(user, rest);
    assert(url.path[1] == 'u');
    if "/api/"@.is_prefix_of(url.path) {
        assert("/api/"@[1] == url.path[1]);
    }
    if "/captcha/"@.is_prefix_of(url.path) {
        assert("/captcha/"@[1] == url.path[1]);
    }
}

/// From the page on which a user's login for Drive ends, in Proton's account app or in the one that
/// this app brings, the way leads to the root of that user's Drive.
pub proof fn theorem_finished_logins_lead_to_the_user(url: UrlView, user: Seq<char>, rest: Seq<char>)
    requires
        user.len() > 0,
        !user.contains('/'),
        ({
            ||| login_complete_host(url.host) && url.path == "/u/"@ + user + "/drive"@ + rest
            ||| (login_complete_host(url.host) || local_app_host(url.host)) && url.path
                == "/account"@ + ("/u/"@ + user + "/drive"@ + rest)
        }),
    ensures
        account_login_complete_redirect(url) == Some(LOCAL_ORIGIN@ + ("/u/"@ + user + "/"@)),
{
    reveal_strlit("/u/");
    reveal_strlit("/");
    reveal_strlit("/drive");
    reveal_strlit("/account");
    reveal_strlit("/account/u/");
    let route = "/u/"@ + user + "/drive"@ + rest;
    if url.path == route {
        assert(route[1] == 'u');
        assert("/account"@[1] != route[1]);
    } else {
        assert("/account"@ =~= url.path.subrange(0, 8));
        assert(url.path.skip(8) =~= route);
        assert("/account/u/"@ =~= url.path.subrange(0, 11));
    }
    assert(account_path(url.path) == route);
    assert("/u/"@ =~= route.subrange(0, 3));
    let place = 3 + user.len() as int;
    assert(route.subrange(place, place + 6) =~= "/drive"@);
    assert(stands_at(route, "/drive"@, place));
    theorem_redirects_keep_the_user(user, "/drive"@.skip(1) + rest);
    assert(route =~= "/u/"@ + user + "/"@ + ("/drive"@.skip(1) + rest));
}

/// A redirect ends where it leads: the page that it opens, which is the target's path on the app's
/// own host, is not redirected again.
pub proof fn theorem_redirects_end_there(url: UrlView, opened: UrlView)
    requires
        ({
            let target = Some(LOCAL_ORIGIN@ + opened.path);
            unsupported_app_redirect(url) == target || account_login_complete_redirect(url) == target
        }),
        local_app_host(opened.host),
    ensures
        unsupported_app_redirect(opened) is None,
        account_login_complete_redirect(opened) is None,
{
    reveal_strlit("localhost");
    reveal_strlit("tauri.localhost");
    reveal_strlit("calendar.proton.me");
    reveal_strlit("contacts.proton.me");
    reveal_strlit("docs.proton.me");
    reveal_strlit("mail.proton.me");
    reveal_strlit("pass.proton.me");
    reveal_strlit("wallet.proton.me");
    reveal_strlit("vpn.proton.me");
    reveal_strlit("account.proton.me");
    reveal_strlit("account.localhost");
    reveal_strlit("/account/u/");
    reveal_strlit("/u/");
    reveal_strlit("/");
    let path = if unsupported_app_redirect(url) == Some(LOCAL_ORIGIN@ + opened.path) {
        url.path
    } else {
        account_path(url.path)
    };
    let n = LOCAL_ORIGIN@.len() as int;
    assert((LOCAL_ORIGIN@ + opened.path).skip(n) =~= opened.path);
    assert((LOCAL_ORIGIN@ + drive_root(path)).skip(n) =~= drive_root(path));
    assert(opened.path == drive_root(path));
    if "/account/u/"@.is_prefix_of(opened.path) {
        assert("/account/u/"@[1] == opened.path[1]);
    }
    let host = opened.host->0;
    assert(host[0] == 'l' || host[5] == '.');
    assert(!unsupported_host(host));
    assert(!login_complete_host(opened.host));
}

/// Nothing else is redirected: neither the apps that are shown here nor, of the others, the API and
/// the captcha, and of the account app no page but those on which a user's login for Drive ends.
pub proof fn theorem_other_pages_are_left_alone(url: UrlView)
    ensures
        !(url.host matches Some(host) && unsupported_host(host)) ==> unsupported_app_redirect(
            url,
        ) is None,
        "/api/"@.is_prefix_of(url.path) ==> unsupported_app_redirect(url) is None,
        "/captcha/"@.is_prefix_of(url.path) ==> unsupported_app_redirect(url) is None,
        !login_complete_host(url.host) && !local_app_host(url.host)
            ==> account_login_complete_redirect(url) is None,
        !login_complete_host(url.host) && !"/account/u/"@.is_prefix_of(url.path)
            ==> account_login_complete_redirect(url) is None,
        !"/u/"@.is_prefix_of(account_path(url.path)) ==> account_login_complete_redirect(
            url,
        ) is None,
        !occurs(account_path(url.path), "/drive"@) ==> account_login_complete_redirect(url) is None,
{
}

/// The apps that are not shown here are these seven, and of each every page is redirected but those
/// of the API and of the captcha.
pub proof fn theorem_seven_apps_are_redirected(url: UrlView)
    ensures
        unsupported_app_redirect(url) is Some <==> (url.host == Some("calendar.proton.me"@)
            || url.host == Some("contacts.proton.me"@) || url.host == Some("docs.proton.me"@)
            || url.host == Some("mail.proton.me"@) || url.host == Some("pass.proton.me"@)
            || url.host == Some("wallet.proton.me"@) || url.host == Some("vpn.proton.me"@))
            && !"/api/"@.is_prefix_of(url.path) && !"/captcha/"@.is_prefix_of(url.path),
        unsupported_app_redirect(url) matches Some(target) ==> target == "tauri://localhost"@
            + drive_root(url.path),
{
}

/// A finished login is redirected on Proton's account host, on the account host of the app and,
/// under `/account/u/`, on the app's own hosts, wherever the path of a user, without a leading
/// `/account`, has `/drive` in it; whatever the query and the scheme.
pub proof fn theorem_finished_logins_are_redirected(url: UrlView, rest: Seq<char>)
    requires
        url.path == "/account"@ + rest || url.path == rest && !"/account"@.is_prefix_of(rest),
    ensures
        account_login_complete_redirect(url) is Some <==> (url.host == Some("account.proton.me"@)
            || url.host == Some("account.localhost"@) || (url.host == Some("localhost"@) || url.host
            == Some("tauri.localhost"@)) && "/account/u/"@.is_prefix_of(url.path))
            && "/u/"@.is_prefix_of(rest) && occurs(rest, "/drive"@),
        account_login_complete_redirect(url) matches Some(target) ==> target
            == "tauri://localhost"@ + drive_root(rest),
{
    reveal_strlit("/account");
    if url.path == "/account"@ + rest {
        assert("/account"@ =~= url.path.subrange(0, 8));
        assert(url.path.skip(8) =~= rest);
    }
}

/// Without a user there is one root: of a path that does not begin with `/u/`, or that names no one
/// after it.
pub proof fn theorem_no_user_has_the_root(path: Seq<char>, rest: Seq<char>)
    ensures
        !"/u/"@.is_prefix_of(path) ==> drive_root(path) == "/"@,
        drive_root("/u/"@) == "/"@,
        drive_root("/u//"@ + rest) == "/"@,
{
    reveal_strlit("/u/");
    reveal_strlit("/u//");
    let empty = "/u//"@ + rest;
    assert(empty.skip(3)[0] == '/');
    assert("/u/"@.skip(3).len() == 0);
}

} // verus!
