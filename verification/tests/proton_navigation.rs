use proton_drive::proton_navigation::{
    account_login_complete_redirect_url, drive_root_for_user_path, is_account_login_complete_host,
    is_local_app_host, is_unsupported_proton_app_host, unsupported_app_redirect_url,
};
use proton_drive::web_url::UrlParts;

#[test]
fn redirects_unsupported_app_to_user_scoped_drive_root() {
    let url = UrlParts::parse("https://mail.proton.me/u/7/mail/inbox").unwrap();
    assert_eq!(
        unsupported_app_redirect_url(&url).as_deref(),
        Some("tauri://localhost/u/7/")
    );
}

#[test]
fn skips_proton_api_and_captcha_paths() {
    let api_url = UrlParts::parse("https://mail.proton.me/api/core/v4/users").unwrap();
    let captcha_url = UrlParts::parse("https://mail.proton.me/captcha/token").unwrap();

    assert_eq!(unsupported_app_redirect_url(&api_url), None);
    assert_eq!(unsupported_app_redirect_url(&captcha_url), None);
}

#[test]
fn ignores_supported_drive_host() {
    let url = UrlParts::parse("https://drive.proton.me/u/7/").unwrap();
    assert_eq!(unsupported_app_redirect_url(&url), None);
}

#[test]
fn redirects_account_proton_drive_handoff_to_local_drive_root() {
    let url = UrlParts::parse("https://account.proton.me/u/7/drive/account").unwrap();
    assert_eq!(
        account_login_complete_redirect_url(&url).as_deref(),
        Some("tauri://localhost/u/7/")
    );
}

#[test]
fn redirects_local_account_drive_handoff_to_local_drive_root() {
    let url = UrlParts::parse("tauri://localhost/account/u/7/drive/account").unwrap();
    assert_eq!(
        account_login_complete_redirect_url(&url).as_deref(),
        Some("tauri://localhost/u/7/")
    );
}

#[test]
fn ignores_incomplete_account_routes() {
    let url = UrlParts::parse("tauri://localhost/account/login").unwrap();
    assert_eq!(account_login_complete_redirect_url(&url), None);
}

#[test]
fn other_hosts_are_not_redirected() {
    let drive = UrlParts::parse("https://example.com/u/7/drive").unwrap();
    assert_eq!(unsupported_app_redirect_url(&drive), None);
    assert_eq!(account_login_complete_redirect_url(&drive), None);
    let local = UrlParts::parse("tauri://localhost/u/7/drive").unwrap();
    assert_eq!(account_login_complete_redirect_url(&local), None);
    let no_host = UrlParts::parse("about:blank").unwrap();
    assert_eq!(unsupported_app_redirect_url(&no_host), None);
}

#[test]
fn account_routes_of_other_apps_are_not_redirected() {
    let mail = UrlParts::parse("https://account.proton.me/u/7/mail").unwrap();
    assert_eq!(account_login_complete_redirect_url(&mail), None);
    let settings = UrlParts::parse("https://account.localhost/settings/drive").unwrap();
    assert_eq!(account_login_complete_redirect_url(&settings), None);
}

#[test]
fn finished_logins_keep_the_user() {
    for text in [
        "https://account.localhost/u/12/drive",
        "https://account.proton.me/account/u/12/drive-setup/welcome",
        "https://tauri.localhost/account/u/12/drive",
    ] {
        assert_eq!(
            account_login_complete_redirect_url(&UrlParts::parse(text).unwrap()).as_deref(),
            Some("tauri://localhost/u/12/")
        );
    }
}

#[test]
fn drive_root_names_the_user() {
    assert_eq!(drive_root_for_user_path("/u/7/mail/inbox"), "/u/7/");
    assert_eq!(drive_root_for_user_path("/u/7"), "/u/7/");
    assert_eq!(drive_root_for_user_path("/u//mail"), "/");
    assert_eq!(drive_root_for_user_path("/u/"), "/");
    assert_eq!(drive_root_for_user_path("/mail"), "/");
    assert_eq!(drive_root_for_user_path(""), "/");
}

#[test]
fn hosts_are_told_apart() {
    assert!(is_unsupported_proton_app_host("calendar.proton.me"));
    assert!(is_unsupported_proton_app_host("vpn.proton.me"));
    assert!(!is_unsupported_proton_app_host("drive.proton.me"));
    assert!(is_account_login_complete_host(Some("account.localhost")));
    assert!(!is_account_login_complete_host(Some("localhost")));
    assert!(!is_account_login_complete_host(None));
    assert!(is_local_app_host(Some("tauri.localhost")));
    assert!(!is_local_app_host(Some("account.localhost")));
    assert!(!is_local_app_host(None));
}

#[test]
fn redirects_end_where_they_lead() {
    for text in [
        "https://mail.proton.me/u/7/mail/inbox",
        "https://calendar.proton.me/",
        "https://vpn.proton.me/u/drive/account",
        "https://account.proton.me/u/7/drive/account",
        "tauri://localhost/account/u/drive/drive",
    ] {
        let url = UrlParts::parse(text).unwrap();
        let target = unsupported_app_redirect_url(&url)
            .or(account_login_complete_redirect_url(&url))
            .unwrap();
        let opened = UrlParts::parse(&target).unwrap();
        assert_eq!(unsupported_app_redirect_url(&opened), None);
        assert_eq!(account_login_complete_redirect_url(&opened), None);
    }
}
