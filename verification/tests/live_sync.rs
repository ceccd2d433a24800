use proton_drive::known_files::KnownFiles;
use proton_drive::live_sync::{
    local_change_event, plan_remote_change, plan_start, plan_stop, should_ignore_known_file,
    LiveSyncManager, LocalChange, RemoteContent, RemoteStep, RemoteSyncChange, WatchStep,
};

fn active(folder: &str) -> LiveSyncManager {
    let mut manager = LiveSyncManager::default();
    manager.start(folder.as_bytes().to_vec(), true, true).unwrap();
    manager
}

fn change(path: &str, action: &str, content: Option<&str>) -> RemoteSyncChange {
    RemoteSyncChange {
        relative_path: path.to_string(),
        action: action.to_string(),
        content_base64: content.map(|c| c.to_string()),
    }
}

fn error_of(step: RemoteStep) -> String {
    match step {
        RemoteStep::Done { outcome } => outcome.unwrap_err(),
        other => panic!("{other:?}"),
    }
}

fn end_of(step: RemoteStep) -> String {
    match step {
        RemoteStep::Done { outcome } => outcome.unwrap(),
        other => panic!("{other:?}"),
    }
}

#[test]
fn nothing_is_synchronised_at_first() {
    let status = LiveSyncManager::default().status();
    assert!(!status.enabled);
    assert_eq!(status.folder_path, None);
}

#[test]
fn starting_reports_the_folder() {
    let status = active("/home/u/Sync").status();
    assert!(status.enabled);
    assert_eq!(status.folder_path.as_deref(), Some("/home/u/Sync"));
}

#[test]
fn folder_that_is_no_text_is_reported_lossily() {
    let mut manager = LiveSyncManager::default();
    manager.start(vec![47, 97, 255], true, true).unwrap();
    assert_eq!(manager.status().folder_path.as_deref(), Some("/a\u{fffd}"));
}

#[test]
fn starting_without_a_directory_changes_nothing() {
    let mut manager = active("/old");
    let error = manager.start(b"/new".to_vec(), false, false).unwrap_err();
    assert_eq!(error, "Sync path must be a directory");
    assert_eq!(manager.status().folder_path.as_deref(), Some("/old"));
}

#[test]
fn starting_without_a_watcher_stops() {
    let mut manager = active("/old");
    let error = manager.start(b"/new".to_vec(), true, false).unwrap_err();
    assert_eq!(error, "Failed to start live sync");
    assert!(!manager.status().enabled);
}

#[test]
fn stopping_forgets_the_folder_and_the_known_files() {
    let mut manager = active("/s");
    manager.mark_known_file(b"/s/a");
    manager.stop();
    assert!(!manager.status().enabled);
    let event = manager.local_change(LocalChange::Modify, &vec![b"/s/a".to_vec()]);
    assert_eq!(event.unwrap().paths, vec!["/s/a".to_string()]);
}

#[test]
fn starting_ends_the_old_watch_first() {
    let mut manager = active("/old");
    manager.mark_known_file(b"/old/a");
    manager.mark_known_file(b"/old/b");
    let step = plan_start(b"/new".to_vec(), true);
    assert!(matches!(&step, WatchStep::EndWatch { next: Some(folder) } if folder == b"/new"));
    assert!(manager.status().enabled);

    let step = manager.resume_watch(step, true);
    assert!(matches!(&step, WatchStep::AwaitWorker { next: Some(folder) } if folder == b"/new"));
    assert!(!manager.status().enabled);
    let queued = vec![b"/old/a".to_vec()];
    assert!(manager.local_change(LocalChange::Modify, &queued).is_none());

    let step = manager.resume_watch(step, true);
    assert!(matches!(&step, WatchStep::BeginWatch { folder } if folder == b"/new"));
    let late = vec![b"/old/b".to_vec()];
    assert!(manager.local_change(LocalChange::Modify, &late).is_some());

    let step = manager.resume_watch(step, true);
    assert!(matches!(step, WatchStep::Done { outcome: Ok(()) }));
    assert_eq!(manager.status().folder_path.as_deref(), Some("/new"));
}

#[test]
fn steps_of_a_start_can_fail() {
    let mut manager = active("/old");
    let step = plan_start(b"/new".to_vec(), false);
    let step = manager.resume_watch(step, true);
    assert!(matches!(step, WatchStep::Done { outcome: Err(error) }
        if error == "Sync path must be a directory"));
    assert_eq!(manager.status().folder_path.as_deref(), Some("/old"));

    let step = plan_start(b"/new".to_vec(), true);
    let step = manager.resume_watch(step, true);
    let step = manager.resume_watch(step, true);
    let step = manager.resume_watch(step, false);
    assert!(matches!(step, WatchStep::Done { outcome: Err(error) }
        if error == "Failed to start live sync"));
    assert!(!manager.status().enabled);
}

#[test]
fn stopping_takes_its_steps() {
    let mut manager = active("/s");
    manager.mark_known_file(b"/s/a");
    let step = manager.resume_watch(plan_stop(), true);
    assert!(matches!(step, WatchStep::AwaitWorker { next: None }));
    assert!(!manager.status().enabled);
    let step = manager.resume_watch(step, true);
    assert!(matches!(step, WatchStep::Done { outcome: Ok(()) }));
    let event = manager.local_change(LocalChange::Modify, &vec![b"/s/a".to_vec()]);
    assert!(event.is_some());
}

#[test]
fn giving_the_folder_up_keeps_what_is_known() {
    let mut manager = active("/s");
    manager.mark_known_file(b"/s/a");
    manager.give_up_folder();
    assert!(!manager.status().enabled);
    let paths = vec![b"/s/a".to_vec()];
    assert!(manager.local_change(LocalChange::Remove, &paths).is_none());
}

#[test]
fn update_writes_the_decoded_content() {
    let mut manager = active("/s");
    let step = manager.apply_remote_change(change("docs/a.txt", "update", Some("aGVsbG8=")));
    match &step {
        RemoteStep::CreateParents { target, data } => {
            assert_eq!(target, b"/s/docs/a.txt");
            assert_eq!(data, b"hello");
        }
        other => panic!("{other:?}"),
    }
    let step = manager.resume(step, true);
    match &step {
        RemoteStep::WriteFile { target, data } => {
            assert_eq!(target, b"/s/docs/a.txt");
            assert_eq!(data, b"hello");
        }
        other => panic!("{other:?}"),
    }
    assert_eq!(end_of(manager.resume(step, true)), "/s/docs/a.txt");
}

#[test]
fn paths_are_told_as_text() {
    let mut manager = active("/home/\u{fc}/Sync/");
    let step = manager.apply_remote_change(change("d\u{e9}j\u{e0} vu.txt", "delete", None));
    assert_eq!(
        end_of(manager.resume(step, false)),
        "/home/\u{fc}/Sync/d\u{e9}j\u{e0} vu.txt"
    );
}

#[test]
fn failed_writes_are_told() {
    let mut manager = active("/s");
    let step = manager.apply_remote_change(change("a", "create", Some("")));
    assert_eq!(
        error_of(manager.resume(step, false)),
        "Failed to apply remote file update"
    );
    let step = manager.apply_remote_change(change("a", "create", Some("")));
    let step = manager.resume(step, true);
    assert_eq!(
        error_of(manager.resume(step, false)),
        "Failed to apply remote file update"
    );
}

#[test]
fn delete_removes_what_exists() {
    let mut manager = active("/s");
    let step = manager.apply_remote_change(change("a", "delete", None));
    assert!(matches!(&step, RemoteStep::CheckExists { target } if target == b"/s/a"));
    let step = manager.resume(step, true);
    assert!(matches!(&step, RemoteStep::RemoveFile { target } if target == b"/s/a"));
    assert_eq!(end_of(manager.resume(step, true)), "/s/a");

    let step = manager.apply_remote_change(change("b", "delete", None));
    assert_eq!(end_of(manager.resume(step, false)), "/s/b");

    let step = manager.apply_remote_change(change("c", "delete", None));
    let step = manager.resume(step, true);
    assert_eq!(
        error_of(manager.resume(step, false)),
        "Failed to apply remote file deletion"
    );
}

#[test]
fn finished_changes_stay_finished() {
    let mut manager = active("/s");
    let step = manager.apply_remote_change(change("", "delete", None));
    let step = manager.resume(step, true);
    assert_eq!(error_of(step), "Invalid relative path");
}

#[test]
fn changes_are_refused() {
    let manager = active("/s");
    for path in ["", "/etc/passwd", "../x", "a/../../x", "a/.."] {
        assert_eq!(
            error_of(manager.apply_remote_change(change(path, "delete", None))),
            "Invalid relative path"
        );
    }
    assert_eq!(
        error_of(manager.apply_remote_change(change("a", "update", None))),
        "contentBase64 is required for create/update"
    );
    for content in ["aGVsbG8", "not base64!", "aGVsbG9=", "a"] {
        assert_eq!(
            error_of(manager.apply_remote_change(change("a", "create", Some(content)))),
            "Invalid remote file content"
        );
    }
    assert_eq!(
        error_of(manager.apply_remote_change(change("a", "rename", Some("aGVsbG8=")))),
        "Unknown action"
    );
    assert_eq!(
        error_of(LiveSyncManager::default().apply_remote_change(change("a", "delete", None))),
        "Live sync is not active"
    );
}

#[test]
fn plans_depend_on_the_content() {
    let folder = Some(b"/s/".to_vec());
    let step = plan_remote_change(&folder, "./x", "create", RemoteContent::Decoded(vec![1, 2]));
    assert!(matches!(&step, RemoteStep::CreateParents { target, data }
        if target == b"/s/./x" && data == &vec![1, 2]));
    assert_eq!(
        error_of(plan_remote_change(&folder, "x", "update", RemoteContent::Missing)),
        "contentBase64 is required for create/update"
    );
    assert_eq!(
        error_of(plan_remote_change(&folder, "x", "update", RemoteContent::Undecodable)),
        "Invalid remote file content"
    );
    assert_eq!(
        error_of(plan_remote_change(&None, "x", "update", RemoteContent::Missing)),
        "Live sync is not active"
    );
}

#[test]
fn own_changes_are_ignored_once() {
    let mut manager = active("/s");
    let step = manager.apply_remote_change(change("./docs//a.txt", "create", Some("AAE=")));
    manager.resume(step, true);
    let seen = vec![b"/s/docs/a.txt".to_vec()];
    assert!(manager.local_change(LocalChange::Create, &seen).is_none());
    let event = manager.local_change(LocalChange::Modify, &seen).unwrap();
    assert_eq!(event.kind, "modify");
    assert_eq!(event.paths, vec!["/s/docs/a.txt".to_string()]);
}

#[test]
fn failed_preparation_marks_nothing() {
    let mut manager = active("/s");
    let step = manager.apply_remote_change(change("a", "create", Some("")));
    manager.resume(step, false);
    let event = manager.local_change(LocalChange::Create, &vec![b"/s/a".to_vec()]);
    assert_eq!(event.unwrap().kind, "create");
}

#[test]
fn events_report_what_is_not_known() {
    let mut known = KnownFiles::new();
    known.insert(b"/s/b".to_vec());
    let paths = vec![b"/s/a".to_vec(), b"/s/b/".to_vec(), b"/s/b".to_vec()];
    let event = local_change_event(&mut known, LocalChange::Remove, &paths).unwrap();
    assert_eq!(event.kind, "remove");
    assert_eq!(event.paths, vec!["/s/a".to_string(), "/s/b".to_string()]);
    assert!(!known.contains(b"/s/b"));
}

#[test]
fn other_events_are_passed_over() {
    let mut known = KnownFiles::new();
    known.insert(b"/s/b".to_vec());
    assert!(local_change_event(&mut known, LocalChange::Other, &vec![b"/s/b".to_vec()]).is_none());
    assert!(known.contains(b"/s/b"));
    assert!(local_change_event(&mut known, LocalChange::Create, &vec![]).is_none());
}

#[test]
fn known_files_are_a_set_of_paths() {
    let mut known = KnownFiles::new();
    known.insert(b"/s//a/.".to_vec());
    known.insert(b"/s/a".to_vec());
    assert!(known.contains(b"/s/a/"));
    assert!(should_ignore_known_file(&mut known, b"/s/./a"));
    assert!(!should_ignore_known_file(&mut known, b"/s/a"));
    known.insert(b"x".to_vec());
    assert!(!known.contains(b"./x"));
    known.clear();
    assert!(!known.contains(b"x"));
}
