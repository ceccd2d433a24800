//! What is remembered while the user solves a captcha. Each secret is handed out once.

use crate::web_url::{url_parsed, UrlParts, UrlView};
use vstd::prelude::*;

verus! {

pub const ERR_VERIFICATION_PAGE: &'static str = "Unable to open verification page";

/// The secrets and the page to return to.
#[derive(Debug)]
pub struct CaptchaFlow {
    return_url: Option<String>,
    verification: Option<(String, String)>,
    credentials: Option<(String, String)>,
}

/// What is remembered: the page to return to, the verification token with its type, and the user
/// name with the password.
#[verifier::ext_equal]
pub struct CaptchaView {
    pub return_url: Option<Seq<char>>,
    pub verification: Option<(Seq<char>, Seq<char>)>,
    pub credentials: Option<(Seq<char>, Seq<char>)>,
}

impl View for CaptchaFlow {
    type V = CaptchaView;

    closed spec fn view(&self) -> CaptchaView {
        CaptchaView {
            return_url: self.return_url.deep_view(),
            verification: self.verification.deep_view(),
            credentials: self.credentials.deep_view(),
        }
    }
}

/// What is remembered once a verification token is stored.
pub open spec fn verification_stored(
    flow: CaptchaView,
    token: Seq<char>,
    token_type: Seq<char>,
) -> CaptchaView {
    CaptchaView { verification: Some((token, token_type)), ..flow }
}

/// What is remembered once the verification token is handed out.
pub open spec fn verification_cleared(flow: CaptchaView) -> CaptchaView {
    CaptchaView { verification: None, ..flow }
}

/// What is remembered once a user name and password are stored.
pub open spec fn credentials_stored(
    flow: CaptchaView,
    username: Seq<char>,
    password: Seq<char>,
) -> CaptchaView {
    CaptchaView { credentials: Some((username, password)), ..flow }
}

/// What is remembered once the user name and password are handed out.
pub open spec fn credentials_cleared(flow: CaptchaView) -> CaptchaView {
    CaptchaView { credentials: None, ..flow }
}

/// What is remembered once a page to return to is stored.
pub open spec fn return_url_stored(flow: CaptchaView, url: Seq<char>) -> CaptchaView {
    CaptchaView { return_url: Some(url), ..flow }
}

/// What is remembered once the page to return to is handed out.
pub open spec fn return_url_cleared(flow: CaptchaView) -> CaptchaView {
    CaptchaView { return_url: None, ..flow }
}

/// The page that is to be opened for a captcha, or why it cannot be. Without a window there is
/// none.
pub open spec fn page_to_open(window_open: bool, page: Option<UrlView>) -> Result<
    Option<UrlView>,
    Seq<char>,
> {
    if !window_open {
        Ok(None)
    } else {
        match page {
            Some(url) => Ok(Some(url)),
            None => Err(ERR_VERIFICATION_PAGE@),
        }
    }
}

/// What the result of [`captcha_page_to_open`] stands for.
pub open spec fn opening_view(opening: Result<Option<UrlParts>, String>) -> Result<
    Option<UrlView>,
    Seq<char>,
> {
    match opening {
        Ok(Some(url)) => Ok(Some(url@)),
        Ok(None) => Ok(None),
        Err(error) => Err(error@),
    }
}

/// The page that is to be opened for a captcha whose URL was read, or was not.
pub fn captcha_page_to_open(window_open: bool, page: Option<UrlParts>) -> (opening: Result<
    Option<UrlParts>,
    String,
>)
    ensures
        opening_view(opening) == page_to_open(
            window_open,
            match page {
                Some(url) => Some(url@),
                None => None,
            },
        ),
{
    if !window_open {
        return Ok(None);
    }
    match page {
        Some(url) => Ok(Some(url)),
        None => Err(ERR_VERIFICATION_PAGE.to_owned()),
    }
}

/// What is told of a captcha page that the window was sent to, or could not be sent to.
pub fn captcha_page_opened(navigated: bool) -> (result: Result<(), String>)
    ensures
        match result {
            Ok(()) => navigated,
            Err(error) => !navigated && error@ == ERR_VERIFICATION_PAGE@,
        },
{
    if navigated {
        Ok(())
    } else {
        Err(ERR_VERIFICATION_PAGE.to_owned())
    }
}

impl CaptchaFlow {
    /// Nothing is remembered.
    pub fn new() -> (flow: CaptchaFlow)
        ensures
            flow@ == (CaptchaView { return_url: None, verification: None, credentials: None }),
    {
        CaptchaFlow { return_url: None, verification: None, credentials: None }
    }

    /// Remembers a verification token in place of any before it.
    pub fn store_verification_token(&mut self, token: String, token_type: String)
        ensures
            final(self)@ == verification_stored(old(self)@, token@, token_type@),
    {
        self.verification = Some((token, token_type));
    }

    /// Hands the verification token out and forgets it.
    pub fn get_and_clear_verification_token(&mut self) -> (stored: Option<(String, String)>)
        ensures
            stored.deep_view() == old(self)@.verification,
            final(self)@ == verification_cleared(old(self)@),
    {
        self.verification.take()
    }

    /// Remembers a user name and password in place of any before them.
    pub fn store_login_credentials(&mut self, username: String, password: String)
        ensures
            final(self)@ == credentials_stored(old(self)@, username@, password@),
    {
        self.credentials = Some((username, password));
    }

    /// Hands the user name and password out and forgets them.
    pub fn get_and_clear_login_credentials(&mut self) -> (stored: Option<(String, String)>)
        ensures
            stored.deep_view() == old(self)@.credentials,
            final(self)@ == credentials_cleared(old(self)@),
    {
        self.credentials.take()
    }

    /// Remembers the page to return to, and tells which page is to be opened for the captcha.
    pub fn navigate_to_captcha(
        &mut self,
        window_open: bool,
        captcha_url: &str,
        return_url: String,
    ) -> (opening: Result<Option<UrlParts>, String>)
        ensures
            opening_view(opening) == page_to_open(window_open, url_parsed(captcha_url@)),
            final(self)@ == return_url_stored(old(self)@, return_url@),
    {
        self.return_url = Some(return_url);
        captcha_page_to_open(window_open, UrlParts::parse(captcha_url))
    }

    /// Hands the page to return to out and forgets it.
    pub fn get_captcha_return_url(&mut self) -> (stored: Option<String>)
        ensures
            stored.deep_view() == old(self)@.return_url,
            final(self)@ == return_url_cleared(old(self)@),
    {
        self.return_url.take()
    }
}

/// What is stored is there to be handed out, replaces what was stored before, and is gone once it
/// was handed out; storing or handing out one thing leaves the others as they were.
pub proof fn theorem_secrets_are_handed_out_once(
    flow: CaptchaView,
    first: (Seq<char>, Seq<char>),
    second: (Seq<char>, Seq<char>),
    page: Seq<char>,
)
    ensures
        ({
            let stored = verification_stored(
                verification_stored(flow, first.0, first.1),
                second.0,
                second.1,
            );
            &&& stored.verification == Some(second)
            &&& verification_cleared(stored).verification is None
            &&& verification_cleared(stored) == verification_cleared(flow)
        }),
        ({
            let stored = credentials_stored(
                credentials_stored(flow, first.0, first.1),
                second.0,
                second.1,
            );
            &&& stored.credentials == Some(second)
            &&& credentials_cleared(stored).credentials is None
            &&& credentials_cleared(stored) == credentials_cleared(flow)
        }),
        ({
            let stored = return_url_stored(flow, page);
            &&& stored.return_url == Some(page)
            &&& return_url_cleared(stored).return_url is None
            &&& return_url_cleared(stored) == return_url_cleared(flow)
        }),
{
}

/// Storing and handing out change that one thing and nothing else: token and type, user name and
/// password, and the page to return to are kept as they were given and apart from each other.
pub proof fn theorem_each_secret_is_kept_apart(flow: CaptchaView, a: Seq<char>, b: Seq<char>)
    ensures
        verification_stored(flow, a, b).verification == Some((a, b)),
        verification_stored(flow, a, b).credentials == flow.credentials,
        verification_stored(flow, a, b).return_url == flow.return_url,
        credentials_stored(flow, a, b).credentials == Some((a, b)),
        credentials_stored(flow, a, b).verification == flow.verification,
        credentials_stored(flow, a, b).return_url == flow.return_url,
        return_url_stored(flow, a).return_url == Some(a),
        return_url_stored(flow, a).verification == flow.verification,
        return_url_stored(flow, a).credentials == flow.credentials,
        verification_cleared(flow).verification is None,
        verification_cleared(flow).credentials == flow.credentials,
        verification_cleared(flow).return_url == flow.return_url,
        credentials_cleared(flow).credentials is None,
        credentials_cleared(flow).verification == flow.verification,
        credentials_cleared(flow).return_url == flow.return_url,
        return_url_cleared(flow).return_url is None,
        return_url_cleared(flow).verification == flow.verification,
        return_url_cleared(flow).credentials == flow.credentials,
{
}

/// In an open window every page whose URL was read is opened as it is, and a URL that was not read
/// is an error; without a window neither happens.
pub proof fn theorem_read_pages_are_opened(page: UrlView, read: Option<UrlView>)
    ensures
        page_to_open(true, Some(page)) == Ok::<Option<UrlView>, Seq<char>>(Some(page)),
        page_to_open(true, None) == Err::<Option<UrlView>, Seq<char>>(
            "Unable to open verification page"@,
        ),
        page_to_open(false, read) == Ok::<Option<UrlView>, Seq<char>>(None),
{
}

/// What is to be opened stands for the page, or for why there is none.
pub proof fn theorem_openings_stand_for_themselves(url: UrlParts, error: String)
    ensures
        opening_view(Ok(Some(url))) == Ok::<Option<UrlView>, Seq<char>>(Some(url@)),
        opening_view(Ok(None)) == Ok::<Option<UrlView>, Seq<char>>(None),
        opening_view(Err(error)) == Err::<Option<UrlView>, Seq<char>>(error@),
{
}

} // verus!
