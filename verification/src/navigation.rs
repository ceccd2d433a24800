//! What happens when the web view is about to leave its page.

use crate::proton_navigation::{is_local_app_host, local_app_host, LOCAL_ORIGIN};
use crate::text::{
    before_first, ends_with, join, join_text, lemma_count_before, lemma_split_append,
    lemma_split_join, lemma_split_pieces, lemma_split_single, split, split_text, starts_with,
    strip_prefix, text_before_first, theorem_before_first_is_the_beginning, theorem_joining_adds_up,
};
use crate::web_url::{well_formed, UrlParts, UrlView};
use vstd::prelude::*;

verus! {

/// The page of the account app, from which a login is tried again.
pub const ACCOUNT_APP_URL: &'static str = "tauri://localhost/account/";

/// How long a finished login waits before Drive is opened, in milliseconds.
pub const LOGIN_DELAY_MS: u64 = 300;

/// What is done besides letting a navigation happen or not.
#[derive(Debug, PartialEq, Eq)]
pub enum FollowUp {
    Nothing,
    /// Save the blob that the page knows under `url`.
    SaveBlob { url: String },
    /// Open `url` after `delay_ms` milliseconds.
    Open { url: String, delay_ms: u64 },
}

/// What is decided about a navigation.
#[derive(Debug, PartialEq, Eq)]
pub struct NavigationDecision {
    pub allow: bool,
    pub follow_up: FollowUp,
}

/// What a follow-up stands for.
pub enum FollowUpView {
    Nothing,
    SaveBlob { url: Seq<char> },
    Open { url: Seq<char>, delay_ms: u64 },
}

/// What a decision stands for.
pub struct DecisionView {
    pub allow: bool,
    pub follow_up: FollowUpView,
}

impl View for NavigationDecision {
    type V = DecisionView;

    open spec fn view(&self) -> DecisionView {
        DecisionView {
            allow: self.allow,
            follow_up: match self.follow_up {
                FollowUp::Nothing => FollowUpView::Nothing,
                FollowUp::SaveBlob { url } => FollowUpView::SaveBlob { url: url@ },
                FollowUp::Open { url, delay_ms } => FollowUpView::Open { url: url@, delay_ms },
            },
        }
    }
}

/// Let the navigation happen, or do not.
pub open spec fn plain(allow: bool) -> DecisionView {
    DecisionView { allow, follow_up: FollowUpView::Nothing }
}

/// Do not let the navigation happen, and open `url` instead.
pub open spec fn instead(url: Seq<char>, delay_ms: u64) -> DecisionView {
    DecisionView { allow: false, follow_up: FollowUpView::Open { url, delay_ms } }
}

/// A query with its mark, or nothing where there is none.
pub open spec fn query_suffix(query: Option<Seq<char>>) -> Seq<char> {
    match query {
        Some(text) => "?"@ + text,
        None => Seq::empty(),
    }
}

/// Whether a login keeps a query parameter: what tells of an expired session is dropped.
pub open spec fn keeps_parameter(parameter: Seq<char>) -> bool {
    !"reason="@.is_prefix_of(parameter) && !"type="@.is_prefix_of(parameter)
}

/// The query parameters with which a login starts.
pub open spec fn login_parameters(query: Option<Seq<char>>) -> Seq<Seq<char>> {
    match query {
        Some(text) => seq!["product=drive"@] + split(text, '&').filter(
            |parameter: Seq<char>| keeps_parameter(parameter),
        ),
        None => seq!["product=drive"@],
    }
}

/// The page on which a login starts.
pub open spec fn login_url(query: Option<Seq<char>>) -> Seq<char> {
    ACCOUNT_APP_URL@ + "?"@ + join(login_parameters(query), seq!['&'])
}

/// The root of Drive for the user whom the path of a finished login names.
pub open spec fn login_root(path: Seq<char>) -> Seq<char> {
    let rest = path.skip(3);
    if "/u/"@.is_prefix_of(path) && rest.contains('/') {
        "/u/"@ + before_first(rest, '/') + "/"@
    } else {
        "/"@
    }
}

/// The hosts of the captcha widget.
pub open spec fn hcaptcha_host(host: Option<Seq<char>>) -> bool {
    match host {
        Some(name) => name == "hcaptcha.com"@ || ".hcaptcha.com"@.is_suffix_of(name),
        None => false,
    }
}

/// The pages on which a captcha is solved.
pub open spec fn captcha_page(url: UrlView) -> bool {
    ||| url.host == Some("verify.proton.me"@)
    ||| url.host == Some("verify-api.proton.me"@)
    ||| url.host == Some("mail.proton.me"@) && ("/api/core/v4/captcha"@.is_prefix_of(url.path)
        || "/captcha/"@.is_prefix_of(url.path))
}

/// The page that is opened instead of a URL, and after how long, whatever page is left.
pub open spec fn replacement(url: UrlView) -> Option<(Seq<char>, u64)> {
    if "/login"@.is_prefix_of(url.path) {
        Some((login_url(url.query), 0))
    } else if url.host == Some("account.proton.me"@) {
        Some((LOCAL_ORIGIN@ + "/account"@ + url.path + query_suffix(url.query), 0))
    } else if url.host == Some("drive.proton.me"@) {
        Some((LOCAL_ORIGIN@ + url.path + query_suffix(url.query), 0))
    } else if url.host == Some("account.localhost"@) {
        Some((LOCAL_ORIGIN@ + login_root(url.path), LOGIN_DELAY_MS))
    } else {
        None
    }
}

/// Whether a page may be shown that is neither replaced nor part of a captcha.
pub open spec fn shown(url: UrlView) -> bool {
    &&& !"/api/"@.is_prefix_of(url.path)
    &&& url.scheme == "tauri"@ || url.scheme == "about"@ || local_app_host(url.host)
}

/// What is decided about going to `url`, from a captcha page or from another.
pub open spec fn decision(url: UrlView, on_captcha_page: bool) -> DecisionView {
    if url.scheme == "blob"@ {
        DecisionView { allow: false, follow_up: FollowUpView::SaveBlob { url: url.text } }
    } else if let Some((page, delay_ms)) = replacement(url) {
        instead(page, delay_ms)
    } else if hcaptcha_host(url.host) || captcha_page(url) {
        plain(true)
    } else if on_captcha_page {
        instead(ACCOUNT_APP_URL@, 0)
    } else {
        plain(shown(url))
    }
}

/// Whether the view counts as being on a captcha page after that decision.
pub open spec fn captcha_after(url: UrlView, on_captcha_page: bool) -> bool {
    if url.scheme == "blob"@ || replacement(url) is Some || hcaptcha_host(url.host) {
        on_captcha_page
    } else {
        captcha_page(url)
    }
}

/// The page on which a login starts.
fn login_page(query: &Option<String>) -> (page: String)
    ensures
        page@ == login_url(query.deep_view()),
{
    let mut parameters: Vec<String> = Vec::new();
    parameters.push("product=drive".to_owned());
    let ghost first = seq!["product=drive"@];
    assert(parameters.deep_view() =~= first);
    if let Some(text) = query {
        let pieces = split_text(text.as_str(), '&');
        let ghost all = split(text@, '&');
        let ghost keeps = |parameter: Seq<char>| keeps_parameter(parameter);
        let mut i: usize = 0;
        assert(all.take(0).filter(keeps) =~= seq![]);
        assert(parameters.deep_view() =~= first + all.take(0).filter(keeps));
        while i < pieces.len()
            invariant
                i <= pieces@.len(),
                pieces.deep_view() == all,
                keeps == (|parameter: Seq<char>| keeps_parameter(parameter)),
                parameters.deep_view() == first + all.take(i as int).filter(keeps),
            decreases pieces@.len() - i,
        {
            let ghost before = parameters.deep_view();
            assert(all[i as int] == pieces@[i as int]@);
            assert(all.take(i + 1) =~= all.take(i as int).push(all[i as int]));
            proof {
                all.take(i as int).lemma_filter_push(all[i as int], keeps);
            }
            if !starts_with(pieces[i].as_str(), "reason=") && !starts_with(
                pieces[i].as_str(),
                "type=",
            ) {
                let kept = pieces[i].as_str().to_owned();
                parameters.push(kept);
                assert(parameters.deep_view() =~= before.push(all[i as int]));
            }
            assert(parameters.deep_view() =~= first + all.take(i + 1).filter(keeps));
            i += 1;
        }
        assert(all.take(all.len() as int) =~= all);
        assert(parameters.deep_view() == login_parameters(query.deep_view()));
    }
    proof {
        reveal_strlit("&");
        assert("&"@ =~= seq!['&']);
    }
    let joined = join_text(&parameters, "&");
    ACCOUNT_APP_URL.to_owned().concat("?").concat(joined.as_str())
}

/// `start`, then the path and query of a URL.
fn local_page(start: &str, url: &UrlParts) -> (page: String)
    ensures
        page@ == start@ + url@.path + query_suffix(url@.query),
{
    let page = start.to_owned().concat(url.path.as_str());
    match &url.query {
        Some(query) => {
            let page = page.concat("?").concat(query.as_str());
            assert(page@ =~= start@ + url@.path + ("?"@ + query@));
            page
        },
        None => {
            assert(page@ =~= start@ + url@.path + query_suffix(None));
            page
        },
    }
}

/// The root of Drive for the user whom the path of a finished login names.
fn login_root_for_path(path: &str) -> (root: String)
    ensures
        root@ == login_root(path@),
{
    proof {
        reveal_strlit("/u/");
        reveal_strlit("/");
    }
    if let Some(rest) = strip_prefix(path, "/u/") {
        let user = text_before_first(rest, '/');
        proof {
            lemma_count_before(rest@, '/');
        }
        if user.unicode_len() < rest.unicode_len() {
            return "/u/".to_owned().concat(user).concat("/");
        }
    }
    "/".to_owned()
}

/// Whether a URL is that of the captcha widget.
fn is_hcaptcha(url: &UrlParts) -> (yes: bool)
    ensures
        yes == hcaptcha_host(url@.host),
{
    match &url.host {
        Some(host) => url.has_host("hcaptcha.com") || ends_with(host.as_str(), ".hcaptcha.com"),
        None => false,
    }
}

/// Whether a captcha is solved at a URL.
fn is_captcha_page(url: &UrlParts) -> (yes: bool)
    ensures
        yes == captcha_page(url@),
{
    url.has_host("verify.proton.me") || url.has_host("verify-api.proton.me") || (url.has_host(
        "mail.proton.me",
    ) && (starts_with(url.path.as_str(), "/api/core/v4/captcha") || starts_with(
        url.path.as_str(),
        "/captcha/",
    )))
}

/// The page that is opened instead of a URL, and after how long.
fn replacement_page(url: &UrlParts) -> (page: Option<(String, u64)>)
    ensures
        match page {
            Some((target, delay_ms)) => replacement(url@) == Some((target@, delay_ms)),
            None => replacement(url@) is None,
        },
{
    if starts_with(url.path.as_str(), "/login") {
        Some((login_page(&url.query), 0))
    } else if url.has_host("account.proton.me") {
        let start = LOCAL_ORIGIN.to_owned().concat("/account");
        Some((local_page(start.as_str(), url), 0))
    } else if url.has_host("drive.proton.me") {
        Some((local_page(LOCAL_ORIGIN, url), 0))
    } else if url.has_host("account.localhost") {
        let root = login_root_for_path(url.path.as_str());
        Some((LOCAL_ORIGIN.to_owned().concat(root.as_str()), LOGIN_DELAY_MS))
    } else {
        None
    }
}

/// Whether a page may be shown that is neither replaced nor part of a captcha.
fn is_shown(url: &UrlParts) -> (yes: bool)
    ensures
        yes == shown(url@),
{
    let host = match &url.host {
        Some(host) => Some(host.as_str()),
        None => None,
    };
    !starts_with(url.path.as_str(), "/api/") && (url.has_scheme("tauri") || url.has_scheme("about")
        || is_local_app_host(host))
}

/// Decides about each navigation of the web view.
#[derive(Debug)]
pub struct NavigationGuard {
    on_captcha_page: bool,
}

impl View for NavigationGuard {
    type V = bool;

    /// Whether the view is on a captcha page.
    closed spec fn view(&self) -> bool {
        self.on_captcha_page
    }
}

impl NavigationGuard {
    /// The view is not on a captcha page.
    pub fn new() -> (guard: NavigationGuard)
        ensures
            guard@ == false,
    {
        NavigationGuard { on_captcha_page: false }
    }

    /// Decides about going to `url`.
    pub fn on_navigation(&mut self, url: &UrlParts) -> (made: NavigationDecision)
        ensures
            made@ == decision(url@, old(self)@),
            final(self)@ == captcha_after(url@, old(self)@),
    {
        if url.has_scheme("blob") {
            let text = url.text.as_str().to_owned();
            return NavigationDecision { allow: false, follow_up: FollowUp::SaveBlob { url: text } };
        }
        if let Some((page, delay_ms)) = replacement_page(url) {
            return NavigationDecision {
                allow: false,
                follow_up: FollowUp::Open { url: page, delay_ms },
            };
        }
        if is_hcaptcha(url) {
            return NavigationDecision { allow: true, follow_up: FollowUp::Nothing };
        }
        if is_captcha_page(url) {
            self.on_captcha_page = true;
            return NavigationDecision { allow: true, follow_up: FollowUp::Nothing };
        }
        if self.on_captcha_page {
            self.on_captcha_page = false;
            return NavigationDecision {
                allow: false,
                follow_up: FollowUp::Open { url: ACCOUNT_APP_URL.to_owned(), delay_ms: 0 },
            };
        }
        NavigationDecision { allow: is_shown(url), follow_up: FollowUp::Nothing }
    }
}

/// A navigation that something else is done about does not happen.
pub proof fn theorem_replaced_navigation_is_stopped(url: UrlView, on_captcha_page: bool)
    ensures
        !(decision(url, on_captcha_page).follow_up is Nothing) ==> !decision(
            url,
            on_captcha_page,
        ).allow,
{
}

/// Every page that is opened instead of another belongs to the app itself.
pub proof fn theorem_opened_pages_are_local(url: UrlView, on_captcha_page: bool)
    requires
        well_formed(url),
    ensures
        match decision(url, on_captcha_page).follow_up {
            FollowUpView::Open { url: page, delay_ms } => {
                ||| "tauri://localhost/"@.is_prefix_of(page)
                ||| page == "tauri://localhost"@ + query_suffix(url.query)
            },
            _ => true,
        },
{
    reveal_strlit("tauri://localhost");
    reveal_strlit("tauri://localhost/");
    reveal_strlit("tauri://localhost/account/");
    reveal_strlit("/account");
    reveal_strlit("/u/");
    reveal_strlit("/");
    let origin = "tauri://localhost/"@;
    if let FollowUpView::Open { url: page, delay_ms } = decision(url, on_captcha_page).follow_up {
        if page.len() >= 18 && page[17] == '/' {
            assert(origin =~= page.subrange(0, 18));
        } else {
            assert(url.path.len() == 0);
            assert(page =~= "tauri://localhost"@ + query_suffix(url.query));
        }
    }
}

/// A login starts with `product=drive`, then the parameters that it was asked for with, in order,
/// without those that tell of an expired session; read back from the query they are the same.
pub proof fn theorem_login_parameters_survive(query: Option<Seq<char>>)
    ensures
        split(join(login_parameters(query), seq!['&']), '&') == login_parameters(query),
        login_parameters(query)[0] == "product=drive"@,
        forall|i: int|
            0 <= i < login_parameters(query).len() ==> keeps_parameter(
                #[trigger] login_parameters(query)[i],
            ),
{
    reveal_strlit("product=drive");
    reveal_strlit("reason=");
    reveal_strlit("type=");
    let parameters = login_parameters(query);
    let keeps = |parameter: Seq<char>| keeps_parameter(parameter);
    assert("reason="@[0] != "product=drive"@.subrange(0, 7)[0]);
    assert("type="@[0] != "product=drive"@.subrange(0, 5)[0]);
    assert(keeps_parameter("product=drive"@));
    assert(!"product=drive"@.contains('&'));
    if let Some(text) = query {
        let all = split(text, '&');
        let kept = all.filter(keeps);
        lemma_split_pieces(text, '&');
        assert forall|i: int| 0 <= i < parameters.len() implies keeps_parameter(
            #[trigger] parameters[i],
        ) && !parameters[i].contains('&') by {
            if i > 0 {
                assert(parameters[i] == kept[i - 1]);
                all.lemma_filter_pred(keeps, i - 1);
                assert(kept.contains(kept[i - 1]));
                all.lemma_filter_contains_rev(keeps, kept[i - 1]);
            }
        }
    }
    lemma_split_join(parameters, '&');
}

/// Solving a captcha leads back to the account app, once: the first page after a captcha page that
/// does not belong to the captcha is replaced by it, and the next is decided on as any other.
pub proof fn theorem_captcha_leads_back_once(captcha: UrlView, other: UrlView, before: bool)
    requires
        captcha.scheme != "blob"@,
        replacement(captcha) is None,
        captcha_page(captcha),
        !hcaptcha_host(captcha.host),
        other.scheme != "blob"@,
        replacement(other) is None,
        !captcha_page(other),
        !hcaptcha_host(other.host),
    ensures
        decision(captcha, before) == plain(true),
        captcha_after(captcha, before),
        decision(other, true) == instead(ACCOUNT_APP_URL@, 0),
        !captcha_after(other, true),
        decision(other, false) == plain(shown(other)),
        !captcha_after(other, false),
{
}

/// The captcha widget may load its pages without ending the captcha.
pub proof fn theorem_captcha_widget_is_free(url: UrlView, on_captcha_page: bool)
    requires
        url.scheme != "blob"@,
        replacement(url) is None,
        hcaptcha_host(url.host),
    ensures
        decision(url, on_captcha_page) == plain(true),
        captcha_after(url, on_captcha_page) == on_captcha_page,
{
}

/// The API is fetched from, never navigated to, save for the captcha.
pub proof fn theorem_api_is_not_navigated_to(url: UrlView, on_captcha_page: bool)
    requires
        "/api/"@.is_prefix_of(url.path),
        !captcha_page(url),
        !hcaptcha_host(url.host),
    ensures
        !decision(url, on_captcha_page).allow,
{
}

/// No page is shown but those of the app itself, `about:` pages and those of the captcha.
pub proof fn theorem_only_known_pages_are_shown(url: UrlView, on_captcha_page: bool)
    requires
        decision(url, on_captcha_page).allow,
    ensures
        url.scheme == "tauri"@ || url.scheme == "about"@ || local_app_host(url.host)
            || captcha_page(url) || hcaptcha_host(url.host),
{
}

/// A blob is saved under its whole URL and not navigated to, and a captcha that is being solved
/// goes on.
pub proof fn theorem_blobs_are_saved(url: UrlView, on_captcha_page: bool)
    requires
        url.scheme == "blob"@,
    ensures
        decision(url, on_captcha_page) == (DecisionView {
            allow: false,
            follow_up: FollowUpView::SaveBlob { url: url.text },
        }),
        captcha_after(url, on_captcha_page) == on_captcha_page,
{
}

/// Every way to `/login`, on any host, leads to the account app, which is told that it is for
/// Drive; a captcha that is being solved goes on.
pub proof fn theorem_logins_open_the_account_app(url: UrlView, on_captcha_page: bool)
    requires
        url.scheme != "blob"@,
        "/login"@.is_prefix_of(url.path),
    ensures
        decision(url, on_captcha_page) == (DecisionView {
            allow: false,
            follow_up: FollowUpView::Open { url: login_url(url.query), delay_ms: 0 },
        }),
        captcha_after(url, on_captcha_page) == on_captcha_page,
{
}

/// The page of a login keeps each parameter in full, in order, and drops those that begin with
/// `reason=` or `type=`: a single parameter is kept or dropped by itself, and two rows of them come
/// to what the one comes to and then what the other adds.
pub proof fn theorem_login_pages_add_up(parameter: Seq<char>, a: Seq<char>, b: Seq<char>)
    requires
        !parameter.contains('&'),
    ensures
        ({
            let bare = "tauri://localhost/account/?product=drive"@;
            let kept = !"reason="@.is_prefix_of(parameter) && !"type="@.is_prefix_of(parameter);
            &&& login_url(None) == bare
            &&& kept ==> login_url(Some(parameter)) == bare + "&"@ + parameter
            &&& !kept ==> login_url(Some(parameter)) == bare
            &&& login_url(Some(a.push('&') + b)) == login_url(Some(a)) + login_url(Some(b)).skip(
                bare.len() as int,
            )
        }),
{
    reveal_strlit("tauri://localhost/account/?product=drive");
    reveal_strlit("tauri://localhost/account/");
    reveal_strlit("?");
    reveal_strlit("product=drive");
    reveal_strlit("&");
    let bare = "tauri://localhost/account/?product=drive"@;
    let start = ACCOUNT_APP_URL@ + "?"@;
    let drive = "product=drive"@;
    let and = seq!['&'];
    let keeps = |p: Seq<char>| keeps_parameter(p);
    assert("&"@ =~= and);
    assert(bare =~= start + drive);
    theorem_joining_adds_up(seq![drive], seq![drive], and);
    assert(login_url(None) == bare);
    let one = seq![parameter];
    lemma_split_single(parameter, '&');
    let nothing = Seq::<Seq<char>>::empty();
    assert(nothing.filter(keeps) =~= nothing);
    assert(one =~= nothing.push(parameter));
    nothing.lemma_filter_push(parameter, keeps);
    if keeps_parameter(parameter) {
        assert(one.filter(keeps) =~= one);
        theorem_joining_adds_up(seq![drive], one, and);
        theorem_joining_adds_up(one, one, and);
        assert(login_url(Some(parameter)) =~= bare + "&"@ + parameter);
    } else {
        assert(one.filter(keeps) =~= nothing);
        assert(seq![drive] + nothing =~= seq![drive]);
        assert(login_url(Some(parameter)) =~= bare);
    }
    lemma_split_append(a, b, '&');
    let (left, right) = (split(a, '&'), split(b, '&'));
    Seq::filter_distributes_over_add(left, right, keeps);
    let (first, second) = (left.filter(keeps), right.filter(keeps));
    let all = seq![drive] + (first + second);
    assert(all =~= (seq![drive] + first) + second);
    if second.len() == 0 {
        assert(second =~= nothing);
        assert(all =~= seq![drive] + first);
        assert(seq![drive] + second =~= seq![drive]);
        assert(login_url(Some(b)) =~= bare);
        assert(bare.skip(bare.len() as int) =~= Seq::<char>::empty());
    } else {
        theorem_joining_adds_up(seq![drive] + first, second, and);
        theorem_joining_adds_up(seq![drive], second, and);
        let tail = and + join(second, and);
        assert(login_url(Some(b)) =~= bare + tail);
        assert(login_url(Some(b)).skip(bare.len() as int) =~= tail);
        assert(login_url(Some(a.push('&') + b)) =~= login_url(Some(a)) + tail);
    }
}

/// Proton's account pages and Drive pages are opened from the app itself, at once, under their
/// whole path and with their whole query; a captcha that is being solved goes on.
pub proof fn theorem_proton_pages_are_opened_here(url: UrlView, on_captcha_page: bool)
    requires
        url.scheme != "blob"@,
        !"/login"@.is_prefix_of(url.path),
        url.host == Some("account.proton.me"@) || url.host == Some("drive.proton.me"@),
    ensures
        ({
            let made = decision(url, on_captcha_page);
            let start = if url.host == Some("account.proton.me"@) {
                "tauri://localhost/account"@
            } else {
                "tauri://localhost"@
            };
            let page = match url.query {
                Some(query) => start + url.path + "?"@ + query,
                None => start + url.path,
            };
            &&& made == (DecisionView {
                allow: false,
                follow_up: FollowUpView::Open { url: page, delay_ms: 0 },
            })
            &&& captcha_after(url, on_captcha_page) == on_captcha_page
        }),
{
    reveal_strlit("account.proton.me");
    reveal_strlit("drive.proton.me");
    reveal_strlit("tauri://localhost");
    reveal_strlit("tauri://localhost/account");
    reveal_strlit("/account");
    assert("account.proton.me"@.len() != "drive.proton.me"@.len());
    assert("tauri://localhost/account"@ =~= "tauri://localhost"@ + "/account"@);
    let start = if url.host == Some("account.proton.me"@) {
        "tauri://localhost/account"@
    } else {
        "tauri://localhost"@
    };
    if let Some(query) = url.query {
        assert(start + url.path + "?"@ + query =~= start + url.path + ("?"@ + query));
    } else {
        assert(start + url.path =~= start + url.path + Seq::<char>::empty());
    }
}

/// A finished login opens the root of Drive for the user between `/u/` and the next slash, or the
/// one root where there is no such user, after a short while; a captcha goes on.
pub proof fn theorem_finished_logins_open_drive(
    url: UrlView,
    user: Seq<char>,
    rest: Seq<char>,
    on_captcha_page: bool,
)
    requires
        url.scheme != "blob"@,
        !"/login"@.is_prefix_of(url.path),
        url.host == Some("account.localhost"@),
        !user.contains('/'),
    ensures
        url.path == "/u/"@ + user + "/"@ + rest ==> decision(url, on_captcha_page) == (DecisionView {
            allow: false,
            follow_up: FollowUpView::Open {
                url: "tauri://localhost/u/"@ + user + "/"@,
                delay_ms: 300,
            },
        }),
        url.path == "/u/"@ + user || !"/u/"@.is_prefix_of(url.path) ==> decision(
            url,
            on_captcha_page,
        ) == (DecisionView {
            allow: false,
            follow_up: FollowUpView::Open { url: "tauri://localhost/"@, delay_ms: 300 },
        }),
        captcha_after(url, on_captcha_page) == on_captcha_page,
{
    reveal_strlit("account.localhost");
    reveal_strlit("account.proton.me");
    reveal_strlit("drive.proton.me");
    reveal_strlit("tauri://localhost");
    reveal_strlit("tauri://localhost/");
    reveal_strlit("tauri://localhost/u/");
    reveal_strlit("/u/");
    reveal_strlit("/");
    assert("account.localhost"@[8] != "account.proton.me"@[8]);
    assert("account.localhost"@.len() != "drive.proton.me"@.len());
    assert("tauri://localhost/"@ =~= "tauri://localhost"@ + "/"@);
    if url.path == "/u/"@ + user + "/"@ + rest {
        assert("/u/"@ =~= url.path.subrange(0, 3));
        let tail = url.path.skip(3);
        assert(tail =~= user.push('/') + rest);
        assert(tail[user.len() as int] == '/');
        theorem_before_first_is_the_beginning(user, rest, '/');
        assert("tauri://localhost/u/"@ + user + "/"@ =~= "tauri://localhost"@ + ("/u/"@ + user
            + "/"@));
    }
    if url.path == "/u/"@ + user {
        assert(url.path.skip(3) =~= user);
    }
}

/// The captcha widget's host and every host under it may be navigated to, and the captcha goes on.
pub proof fn theorem_the_widget_may_load(url: UrlView, name: Seq<char>, on_captcha_page: bool)
    requires
        url.scheme != "blob"@,
        !"/login"@.is_prefix_of(url.path),
        url.host == Some("hcaptcha.com"@) || url.host == Some(name + ".hcaptcha.com"@),
    ensures
        decision(url, on_captcha_page) == (DecisionView {
            allow: true,
            follow_up: FollowUpView::Nothing,
        }),
        captcha_after(url, on_captcha_page) == on_captcha_page,
{
    reveal_strlit("hcaptcha.com");
    reveal_strlit(".hcaptcha.com");
    reveal_strlit("account.proton.me");
    reveal_strlit("drive.proton.me");
    reveal_strlit("account.localhost");
    let host = url.host->0;
    if host == name + ".hcaptcha.com"@ {
        assert(".hcaptcha.com"@ =~= host.subrange(name.len() as int, host.len() as int));
    }
    assert(host.last() == 'm' && host[host.len() - 5] == 'a');
    assert("account.proton.me"@.last() == 'e');
    assert("drive.proton.me"@.last() == 'e');
    assert("account.localhost"@.last() == 't');
}

/// The pages on which a captcha is solved may be navigated to, and the view then is on one.
pub proof fn theorem_captcha_pages_are_shown(url: UrlView, on_captcha_page: bool)
    requires
        url.scheme != "blob"@,
        !"/login"@.is_prefix_of(url.path),
        ({
            ||| url.host == Some("verify.proton.me"@)
            ||| url.host == Some("verify-api.proton.me"@)
            ||| url.host == Some("mail.proton.me"@) && "/api/core/v4/captcha"@.is_prefix_of(url.path)
            ||| url.host == Some("mail.proton.me"@) && "/captcha/"@.is_prefix_of(url.path)
        }),
    ensures
        decision(url, on_captcha_page) == (DecisionView {
            allow: true,
            follow_up: FollowUpView::Nothing,
        }),
        captcha_after(url, on_captcha_page),
{
    reveal_strlit("verify.proton.me");
    reveal_strlit("verify-api.proton.me");
    reveal_strlit("mail.proton.me");
    reveal_strlit("account.proton.me");
    reveal_strlit("drive.proton.me");
    reveal_strlit("account.localhost");
    reveal_strlit("hcaptcha.com");
    reveal_strlit(".hcaptcha.com");
    let host = url.host->0;
    assert(host.last() == 'e');
    assert("hcaptcha.com"@.last() == 'm');
    if ".hcaptcha.com"@.is_suffix_of(host) {
        assert(".hcaptcha.com"@.last() == host.last());
    }
    assert(host[0] == 'v' || host[0] == 'm');
    assert("account.proton.me"@[0] == 'a' && "drive.proton.me"@[0] == 'd');
    assert("account.localhost"@[0] == 'a');
}

/// Any other page ends a captcha and is replaced by the account app; without a captcha it is shown
/// where it belongs to the app or is an `about:` page and its path does not lie under `/api/`,
/// whatever its query, and nowhere else.
pub proof fn theorem_other_pages_are_shown_or_not(url: UrlView)
    requires
        url.scheme != "blob"@,
        !"/login"@.is_prefix_of(url.path),
        url.host != Some("account.proton.me"@),
        url.host != Some("drive.proton.me"@),
        url.host != Some("account.localhost"@),
        url.host != Some("hcaptcha.com"@),
        url.host matches Some(host) ==> !".hcaptcha.com"@.is_suffix_of(host),
        url.host != Some("verify.proton.me"@),
        url.host != Some("verify-api.proton.me"@),
        url.host == Some("mail.proton.me"@) ==> !"/api/core/v4/captcha"@.is_prefix_of(url.path)
            && !"/captcha/"@.is_prefix_of(url.path),
    ensures
        decision(url, true) == (DecisionView {
            allow: false,
            follow_up: FollowUpView::Open { url: "tauri://localhost/account/"@, delay_ms: 0 },
        }),
        !captcha_after(url, true),
        decision(url, false).follow_up is Nothing,
        decision(url, false).allow <==> !"/api/"@.is_prefix_of(url.path) && (url.scheme == "tauri"@
            || url.scheme == "about"@ || url.host == Some("localhost"@) || url.host == Some(
            "tauri.localhost"@,
        )),
        !captcha_after(url, false),
{
}

/// The app's own pages are shown, whatever their query.
pub proof fn theorem_own_pages_are_shown(url: UrlView)
    requires
        url.scheme != "blob"@,
        !"/login"@.is_prefix_of(url.path),
        !"/api/"@.is_prefix_of(url.path),
        url.host != Some("account.proton.me"@),
        url.host != Some("drive.proton.me"@),
        url.host != Some("account.localhost"@),
        url.scheme == "tauri"@ || url.scheme == "about"@ || url.host == Some("localhost"@)
            || url.host == Some("tauri.localhost"@),
    ensures
        decision(url, false).allow,
        decision(url, false).follow_up is Nothing,
{
}

/// A decision stands for all that was decided.
pub proof fn theorem_decisions_stand_for_themselves(allow: bool, url: String, delay_ms: u64)
    ensures
        (NavigationDecision { allow, follow_up: FollowUp::Nothing })@ == (DecisionView {
            allow,
            follow_up: FollowUpView::Nothing,
        }),
        (NavigationDecision { allow, follow_up: FollowUp::SaveBlob { url } })@ == (DecisionView {
            allow,
            follow_up: FollowUpView::SaveBlob { url: url@ },
        }),
        (NavigationDecision { allow, follow_up: FollowUp::Open { url, delay_ms } })@
            == (DecisionView { allow, follow_up: FollowUpView::Open { url: url@, delay_ms } }),
{
}

} // verus!
