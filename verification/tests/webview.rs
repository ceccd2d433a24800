use proton_drive::captcha::{captcha_page_opened, captcha_page_to_open, CaptchaFlow};
use proton_drive::downloads::{
    download_destination, download_file_name, download_result, save_download,
};
use proton_drive::url_log::{sanitize_parsed_url, sanitize_url_for_log};
use proton_drive::web_url::UrlParts;
use proton_drive::webview_cookies::{
    complete_cookie, store_webview_cookie, supports_cookies, webview_cookie_header, SameSitePolicy,
    WebviewCookie,
};
use proton_drive::worker_support::{worker_support, WorkerSupport};

fn pair(name: &str, value: &str) -> (String, String) {
    (name.to_string(), value.to_string())
}

fn url(text: &str) -> UrlParts {
    UrlParts::parse(text).unwrap()
}

#[test]
fn urls_are_taken_apart() {
    let parts = url("HTTPS://User@Example.COM:8443/a/../b?q=1#f");
    assert_eq!(parts.scheme, "https");
    assert_eq!(parts.host.as_deref(), Some("example.com"));
    assert_eq!(parts.path, "/b");
    assert_eq!(parts.query.as_deref(), Some("q=1"));
    assert_eq!(parts.text, "https://User@example.com:8443/b?q=1#f");
    assert!(parts.has_scheme("https"));
    assert!(!parts.has_host("example.org"));
    let about = url("about:blank");
    assert_eq!(about.host, None);
    assert_eq!(about.path, "blank");
    assert_eq!(about.query, None);
    assert!(!about.has_host(""));
    assert_eq!(UrlParts::parse("no url"), None);
}

#[test]
fn logged_urls_have_no_query() {
    assert_eq!(
        sanitize_url_for_log("https://mail.proton.me/api/x?token=t#frag"),
        "https://mail.proton.me/api/x"
    );
    assert_eq!(
        sanitize_url_for_log("https://mail.proton.me/api/x?token=other"),
        "https://mail.proton.me/api/x"
    );
    assert_eq!(sanitize_url_for_log("about:blank?x"), "about://unknownblank");
    assert_eq!(sanitize_url_for_log("not a url"), "<unparsed-url>");
    assert_eq!(sanitize_parsed_url(&None), "<unparsed-url>");
}

#[test]
fn secrets_are_handed_out_once() {
    let mut flow = CaptchaFlow::new();
    assert_eq!(flow.get_and_clear_verification_token(), None);
    flow.store_verification_token("t".to_string(), "captcha".to_string());
    flow.store_login_credentials("me".to_string(), "old".to_string());
    flow.store_login_credentials("me".to_string(), "pw".to_string());
    assert_eq!(
        flow.get_and_clear_verification_token(),
        Some(pair("t", "captcha"))
    );
    assert_eq!(flow.get_and_clear_verification_token(), None);
    assert_eq!(flow.get_and_clear_login_credentials(), Some(pair("me", "pw")));
    assert_eq!(flow.get_and_clear_login_credentials(), None);
}

#[test]
fn captcha_page_is_opened() {
    let mut flow = CaptchaFlow::new();
    let opened = flow
        .navigate_to_captcha(true, "https://verify.proton.me/?t=1", "tauri://localhost/a".to_string())
        .unwrap()
        .unwrap();
    assert_eq!(opened.text, "https://verify.proton.me/?t=1");
    assert_eq!(
        flow.get_captcha_return_url().as_deref(),
        Some("tauri://localhost/a")
    );
    assert_eq!(flow.get_captcha_return_url(), None);
    assert_eq!(
        flow.navigate_to_captcha(true, "nonsense", "r".to_string()),
        Err("Unable to open verification page".to_string())
    );
    assert_eq!(flow.get_captcha_return_url().as_deref(), Some("r"));
    assert_eq!(
        flow.navigate_to_captcha(false, "nonsense", "r".to_string()),
        Ok(None)
    );
    assert_eq!(captcha_page_to_open(false, Some(url("about:blank"))), Ok(None));
    assert_eq!(captcha_page_opened(true), Ok(()));
    assert_eq!(
        captcha_page_opened(false),
        Err("Unable to open verification page".to_string())
    );
}

#[test]
fn downloads_have_a_directory() {
    let plan = save_download(Some(b"/d".to_vec()), Some(b"/h".to_vec()), "a.txt").unwrap();
    assert_eq!(plan.directory, b"/d");
    assert_eq!(plan.target, b"/d/a.txt");
    let plan = save_download(None, Some(b"/h".to_vec()), "b").unwrap();
    assert_eq!(plan.directory, b"/h/Downloads");
    assert_eq!(plan.target, b"/h/Downloads/b");
    assert_eq!(
        save_download(None, None, "b").unwrap_err(),
        "Unable to access download location"
    );
    assert_eq!(download_result(b"/d/a.txt", true), Ok("/d/a.txt".to_string()));
    assert_eq!(
        download_result(b"/d/a.txt", false),
        Err("Unable to save download".to_string())
    );
}

#[test]
fn downloads_are_named_after_their_url() {
    assert_eq!(download_file_name("https://h/x/report.pdf?v=2"), "report.pdf");
    assert_eq!(download_file_name("https://h/x/"), "");
    assert_eq!(download_file_name("https://h/x?from=/a/b?c"), "b");
    assert_eq!(download_file_name("name"), "name");
    assert_eq!(
        download_destination(&Some(b"/h".to_vec()), "https://h/x/report.pdf?v=2"),
        Some(b"/h/Downloads/report.pdf".to_vec())
    );
    assert_eq!(download_destination(&None, "https://h/x"), None);
}

#[test]
fn cookie_header_lists_the_cookies() {
    let site = url("https://mail.proton.me/");
    let cookies = Some(vec![pair("a", "1"), pair("b", "2=3")]);
    assert_eq!(
        webview_cookie_header(&site, &cookies).as_deref(),
        Some("a=1; b=2=3")
    );
    assert_eq!(webview_cookie_header(&site, &Some(vec![])), None);
    assert_eq!(webview_cookie_header(&site, &None), None);
    assert_eq!(webview_cookie_header(&url("tauri://localhost/"), &cookies), None);
    assert!(supports_cookies(&url("http://x/")));
    assert!(!supports_cookies(&url("about:blank")));
}

#[test]
fn cookies_are_completed() {
    let site = url("https://mail.proton.me/x");
    let stored = store_webview_cookie(&site, "Session=abc; Secure; HttpOnly; SameSite=Lax").unwrap();
    assert_eq!(
        stored,
        WebviewCookie {
            name: "Session".to_string(),
            value: "abc".to_string(),
            domain: Some("mail.proton.me".to_string()),
            path: Some("/".to_string()),
            secure: Some(true),
            http_only: Some(true),
            partitioned: None,
            same_site: Some(SameSitePolicy::Lax),
            max_age_seconds: None,
            expires_at: None,
        }
    );
}

#[test]
fn cookies_keep_their_attributes() {
    let site = url("http://mail.proton.me/x");
    let stored = store_webview_cookie(
        &site,
        "a=b; Domain=proton.me; Path=/api; Max-Age=60; SameSite=None; Partitioned; \
         Expires=Thu, 01 Jan 1970 00:01:40 GMT",
    )
    .unwrap();
    assert_eq!(stored.domain.as_deref(), Some("proton.me"));
    assert_eq!(stored.path.as_deref(), Some("/api"));
    assert_eq!(stored.max_age_seconds, Some(60));
    assert_eq!(stored.expires_at, Some(100));
    assert_eq!(stored.partitioned, Some(true));
    assert_eq!(stored.same_site, Some(SameSitePolicy::Unrestricted));
    assert_eq!(stored.secure, None);
    let strict = store_webview_cookie(&site, "a=b; SameSite=Strict").unwrap();
    assert_eq!(strict.same_site, Some(SameSitePolicy::Strict));
}

#[test]
fn cookies_are_not_stored_without_need() {
    assert_eq!(store_webview_cookie(&url("tauri://localhost/"), "a=b"), None);
    assert_eq!(store_webview_cookie(&url("https://x/"), "no cookie"), None);
    assert_eq!(store_webview_cookie(&url("https://x/"), "=b"), None);
}

#[test]
fn cookie_without_a_host_has_no_domain() {
    let cookie = WebviewCookie {
        name: "a".to_string(),
        value: "b".to_string(),
        domain: None,
        path: None,
        secure: None,
        http_only: None,
        partitioned: None,
        same_site: None,
        max_age_seconds: None,
        expires_at: None,
    };
    let stored = complete_cookie(cookie, &None);
    assert_eq!(stored.domain, None);
    assert_eq!(stored.path.as_deref(), Some("/"));
}

#[test]
fn builds_support_workers_differently() {
    assert_eq!(worker_support(Some("appimage")), WorkerSupport::Native);
    assert_eq!(worker_support(Some("aur")), WorkerSupport::Native);
    for name in ["rpm", "deb", "flatpak", "snap"] {
        assert_eq!(worker_support(Some(name)), WorkerSupport::Disabled);
    }
    assert_eq!(worker_support(None), WorkerSupport::Disabled);
    assert_eq!(worker_support(Some("nix")), WorkerSupport::Blocked);
}
