use proton_drive::live_sync::{LiveSyncManager, RemoteStep, RemoteSyncChange, WatchStep};
use proton_drive::sync_commands::{
    ensure_sync_command_allowed, get_sync_status, handle_remote_update, plan_start_sync,
    plan_stop_sync, start_sync, stop_sync, sync_result, validate_sync_root_path,
};
use proton_drive::web_url::UrlParts;

const NOT_ALLOWED: &str = "Sync operation is not allowed in this context";

fn page(text: &str) -> Option<UrlParts> {
    UrlParts::parse(text)
}

fn home() -> Option<Vec<u8>> {
    Some(b"/home/u".to_vec())
}

fn deletion(path: &str) -> RemoteSyncChange {
    RemoteSyncChange {
        relative_path: path.to_string(),
        action: "delete".to_string(),
        content_base64: None,
    }
}

#[test]
fn only_own_pages_may_command() {
    for text in ["tauri://localhost/u/0/", "tauri://tauri.localhost/"] {
        assert_eq!(ensure_sync_command_allowed(&page(text)), Ok(()));
    }
    for text in [
        "https://localhost/",
        "tauri://evil/",
        "https://verify.proton.me/",
        "about:blank",
        "no url",
    ] {
        assert_eq!(
            ensure_sync_command_allowed(&page(text)),
            Err(NOT_ALLOWED.to_string())
        );
    }
}

#[test]
fn sync_root_lies_under_home() {
    assert_eq!(
        validate_sync_root_path(Some(b"/home/u/Sync".to_vec()), &home()),
        Ok(b"/home/u/Sync".to_vec())
    );
    for canonical in [Some(b"/home/user".to_vec()), Some(b"/".to_vec()), None] {
        assert_eq!(
            validate_sync_root_path(canonical, &home()),
            Err("Invalid sync folder".to_string())
        );
    }
    assert_eq!(
        validate_sync_root_path(Some(b"/home/u".to_vec()), &None),
        Err("Invalid sync folder".to_string())
    );
}

#[test]
fn commands_work_from_own_pages() {
    let mut manager = LiveSyncManager::default();
    let own = page("tauri://localhost/");
    let folder = Some(b"/home/u/Sync".to_vec());
    let status = start_sync(&mut manager, &own, folder, &home(), true, true).unwrap();
    assert!(status.enabled);
    assert_eq!(status.folder_path.as_deref(), Some("/home/u/Sync"));
    assert!(get_sync_status(&manager, &own).unwrap().enabled);
    let step = handle_remote_update(&manager, &own, deletion("a")).unwrap();
    assert!(matches!(step, RemoteStep::CheckExists { target } if target == b"/home/u/Sync/a"));
    assert!(!stop_sync(&mut manager, &own).unwrap().enabled);
    assert!(!get_sync_status(&manager, &own).unwrap().enabled);
}

#[test]
fn refused_commands_change_nothing() {
    let mut manager = LiveSyncManager::default();
    let own = page("tauri://localhost/");
    let other = page("https://example.com/");
    let folder = || Some(b"/home/u/Sync".to_vec());
    start_sync(&mut manager, &own, folder(), &home(), true, true).unwrap();

    let refused = Some(b"/home/u/Other".to_vec());
    assert_eq!(
        start_sync(&mut manager, &other, refused.clone(), &home(), true, true).unwrap_err(),
        NOT_ALLOWED
    );
    assert_eq!(
        start_sync(&mut manager, &own, refused.clone(), &None, true, true).unwrap_err(),
        "Invalid sync folder"
    );
    assert_eq!(
        start_sync(&mut manager, &own, refused.clone(), &home(), false, true).unwrap_err(),
        "Sync path must be a directory"
    );
    assert_eq!(stop_sync(&mut manager, &other).unwrap_err(), NOT_ALLOWED);
    assert_eq!(get_sync_status(&manager, &other).unwrap_err(), NOT_ALLOWED);
    assert_eq!(
        handle_remote_update(&manager, &other, deletion("a")).unwrap_err(),
        NOT_ALLOWED
    );
    assert_eq!(
        get_sync_status(&manager, &own).unwrap().folder_path.as_deref(),
        Some("/home/u/Sync")
    );
    assert_eq!(
        start_sync(&mut manager, &own, refused, &home(), true, false).unwrap_err(),
        "Failed to start live sync"
    );
    assert!(!get_sync_status(&manager, &own).unwrap().enabled);
}

#[test]
fn starts_and_stops_are_planned() {
    let own = page("tauri://localhost/");
    let other = page("https://example.com/");
    let folder = || Some(b"/home/u/Sync".to_vec());
    let step = plan_start_sync(&own, folder(), &home(), true).unwrap();
    assert!(matches!(step, WatchStep::EndWatch { next: Some(root) } if root == b"/home/u/Sync"));
    let step = plan_start_sync(&own, folder(), &home(), false).unwrap();
    assert!(matches!(step, WatchStep::Done { outcome: Err(_) }));
    assert_eq!(
        plan_start_sync(&other, folder(), &home(), true).unwrap_err(),
        NOT_ALLOWED
    );
    assert_eq!(
        plan_start_sync(&own, Some(b"/etc".to_vec()), &home(), true).unwrap_err(),
        "Invalid sync folder"
    );
    assert!(matches!(
        plan_stop_sync(&own).unwrap(),
        WatchStep::EndWatch { next: None }
    ));
    assert_eq!(plan_stop_sync(&other).unwrap_err(), NOT_ALLOWED);

    let manager = LiveSyncManager::default();
    assert!(!sync_result(&manager, Ok(())).unwrap().enabled);
    assert_eq!(
        sync_result(&manager, Err("why".to_string())).unwrap_err(),
        "why"
    );
}
