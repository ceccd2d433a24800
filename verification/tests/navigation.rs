use proton_drive::navigation::{FollowUp, NavigationDecision, NavigationGuard};
use proton_drive::web_url::UrlParts;

fn url(text: &str) -> UrlParts {
    UrlParts::parse(text).unwrap()
}

fn decide(text: &str) -> NavigationDecision {
    NavigationGuard::new().on_navigation(&url(text))
}

fn open(page: &str, delay_ms: u64) -> NavigationDecision {
    NavigationDecision {
        allow: false,
        follow_up: FollowUp::Open {
            url: page.to_string(),
            delay_ms,
        },
    }
}

fn plain(allow: bool) -> NavigationDecision {
    NavigationDecision {
        allow,
        follow_up: FollowUp::Nothing,
    }
}

#[test]
fn blobs_are_saved() {
    let text = "blob:tauri://localhost/0d3b";
    assert_eq!(
        decide(text),
        NavigationDecision {
            allow: false,
            follow_up: FollowUp::SaveBlob {
                url: text.to_string()
            }
        }
    );
}

#[test]
fn login_is_rewritten_to_the_account_app() {
    assert_eq!(
        decide("tauri://localhost/login"),
        open("tauri://localhost/account/?product=drive", 0)
    );
    assert_eq!(
        decide("https://drive.proton.me/login?reason=session-expired&type=admin&a=1&b=2"),
        open("tauri://localhost/account/?product=drive&a=1&b=2", 0)
    );
    assert_eq!(
        decide("tauri://localhost/login?"),
        open("tauri://localhost/account/?product=drive&", 0)
    );
}

#[test]
fn account_pages_become_local() {
    assert_eq!(
        decide("https://account.proton.me/switch?x=1"),
        open("tauri://localhost/account/switch?x=1", 0)
    );
    assert_eq!(
        decide("https://account.proton.me/"),
        open("tauri://localhost/account/", 0)
    );
}

#[test]
fn drive_pages_become_local() {
    assert_eq!(
        decide("https://drive.proton.me/u/3/folder?sort=name"),
        open("tauri://localhost/u/3/folder?sort=name", 0)
    );
}

#[test]
fn finished_login_opens_drive_after_a_while() {
    assert_eq!(
        decide("https://account.localhost/u/0/drive/account"),
        open("tauri://localhost/u/0/", 300)
    );
    assert_eq!(
        decide("https://account.localhost/u/0"),
        open("tauri://localhost/", 300)
    );
    assert_eq!(
        decide("https://account.localhost/u//drive"),
        open("tauri://localhost/u//", 300)
    );
    assert_eq!(
        decide("https://account.localhost/other"),
        open("tauri://localhost/", 300)
    );
}

#[test]
fn captcha_leads_back_to_the_account_app_once() {
    let mut guard = NavigationGuard::new();
    let captcha = url("https://verify.proton.me/?methods=captcha&token=t");
    let widget = url("https://newassets.hcaptcha.com/captcha/v1/x");
    let after = url("https://example.com/");
    assert_eq!(guard.on_navigation(&captcha), plain(true));
    assert_eq!(guard.on_navigation(&widget), plain(true));
    assert_eq!(
        guard.on_navigation(&after),
        open("tauri://localhost/account/", 0)
    );
    assert_eq!(guard.on_navigation(&after), plain(false));
}

#[test]
fn captcha_pages_are_allowed() {
    for text in [
        "https://mail.proton.me/api/core/v4/captcha?Token=t",
        "https://mail.proton.me/captcha/v1/x",
        "https://verify-api.proton.me/core/v4/captcha",
        "https://hcaptcha.com/x",
    ] {
        assert_eq!(decide(text), plain(true));
    }
    assert_eq!(decide("https://nothcaptcha.com/"), plain(false));
    assert_eq!(decide("https://mail.proton.me/inbox"), plain(false));
}

#[test]
fn replaced_pages_do_not_end_a_captcha() {
    let mut guard = NavigationGuard::new();
    guard.on_navigation(&url("https://verify.proton.me/"));
    assert_eq!(
        guard.on_navigation(&url("https://drive.proton.me/")),
        open("tauri://localhost/", 0)
    );
    assert_eq!(
        guard.on_navigation(&url("tauri://localhost/u/0/")),
        open("tauri://localhost/account/", 0)
    );
    assert_eq!(guard.on_navigation(&url("tauri://localhost/u/0/")), plain(true));
}

#[test]
fn api_is_fetched_not_navigated_to() {
    assert_eq!(decide("tauri://localhost/api/core/v4/users"), plain(false));
}

#[test]
fn own_pages_are_shown() {
    assert_eq!(decide("tauri://localhost/"), plain(true));
    assert_eq!(decide("about:blank"), plain(true));
    assert_eq!(decide("http://localhost/x"), plain(true));
    assert_eq!(decide("https://tauri.localhost/x"), plain(true));
    assert_eq!(decide("https://proton.me/"), plain(false));
}
