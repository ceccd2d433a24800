//! The commands of live synchronisation, which only the app's own pages may give.

use crate::live_sync::{
    content_of, first_step, folder_view, inactive, plan_start, plan_stop, start_step, stop_step,
    target_of, theorem_targets_stay_in_folder, ContentView, LiveSyncManager, LiveSyncStatus,
    RemoteStep, RemoteSyncChange, SyncView, WatchStep, ERR_SYNC_NOT_A_DIRECTORY,
    ERR_SYNC_SETUP_FAILED,
};
use crate::path::{is_under, parts, path_text, starts_with};
use crate::proton_navigation::{is_local_app_host, local_app_host};
use crate::web_url::{UrlParts, UrlView};
use vstd::prelude::*;

verus! {

pub const ERR_SYNC_NOT_ALLOWED: &'static str = "Sync operation is not allowed in this context";

pub const ERR_SYNC_INVALID_FOLDER: &'static str = "Invalid sync folder";

/// Whether a page may give commands: it is one of the app itself.
pub open spec fn may_command(page: Option<UrlView>) -> bool {
    match page {
        Some(url) => url.scheme == "tauri"@ && local_app_host(url.host),
        None => false,
    }
}

/// What an optional page stands for.
pub open spec fn page_view(page: Option<UrlParts>) -> Option<UrlView> {
    match page {
        Some(url) => Some(url@),
        None => None,
    }
}

/// The folder that may be synchronised, where both it and a home directory were found.
pub open spec fn sync_root(canonical: Option<Seq<u8>>, home: Option<Seq<u8>>) -> Option<Seq<u8>> {
    match (canonical, home) {
        (Some(folder), Some(directory)) if is_under(folder, directory) => Some(folder),
        _ => None,
    }
}

/// What a status says of a state.
pub open spec fn reports(status: LiveSyncStatus, state: SyncView) -> bool {
    &&& status.enabled == state.folder is Some
    &&& match state.folder {
        Some(root) => status.folder_path.deep_view() == Some(path_text(root)),
        None => status.folder_path is None,
    }
}

/// Whether the page that the window shows, if that could be found out, may give commands.
pub fn ensure_sync_command_allowed(page: &Option<UrlParts>) -> (allowed: Result<(), String>)
    ensures
        match allowed {
            Ok(()) => may_command(page_view(*page)),
            Err(error) => !may_command(page_view(*page)) && error@ == ERR_SYNC_NOT_ALLOWED@,
        },
{
    if let Some(url) = page {
        let host = match &url.host {
            Some(host) => Some(host.as_str()),
            None => None,
        };
        if url.has_scheme("tauri") && is_local_app_host(host) {
            return Ok(());
        }
    }
    Err(ERR_SYNC_NOT_ALLOWED.to_owned())
}

/// The folder that may be synchronised: one that exists, under the home directory. `canonical` is
/// its path without links, if it exists.
pub fn validate_sync_root_path(canonical: Option<Vec<u8>>, home: &Option<Vec<u8>>) -> (root: Result<
    Vec<u8>,
    String,
>)
    ensures
        ({
            let found = sync_root(folder_view(canonical), folder_view(*home));
            match root {
                Ok(folder) => found == Some(folder@),
                Err(error) => found is None && error@ == ERR_SYNC_INVALID_FOLDER@,
            }
        }),
{
    if let Some(folder) = canonical {
        if let Some(directory) = home {
            if starts_with(folder.as_slice(), directory.as_slice()) {
                return Ok(folder);
            }
        }
    }
    Err(ERR_SYNC_INVALID_FOLDER.to_owned())
}

/// The first step of a start on behalf of a page. `is_directory` tells whether the folder is a
/// directory.
pub fn plan_start_sync(
    page: &Option<UrlParts>,
    canonical: Option<Vec<u8>>,
    home: &Option<Vec<u8>>,
    is_directory: bool,
) -> (result: Result<WatchStep, String>)
    ensures
        ({
            let allowed = may_command(page_view(*page));
            let root = sync_root(folder_view(canonical), folder_view(*home));
            match result {
                Ok(step) => allowed && (root matches Some(folder) && step@ == start_step(
                    folder,
                    is_directory,
                )),
                Err(error) => if !allowed {
                    error@ == ERR_SYNC_NOT_ALLOWED@
                } else {
                    root is None && error@ == ERR_SYNC_INVALID_FOLDER@
                },
            }
        }),
{
    match ensure_sync_command_allowed(page) {
        Ok(()) => {},
        Err(error) => {
            return Err(error);
        },
    }
    match validate_sync_root_path(canonical, home) {
        Ok(root) => Ok(plan_start(root, is_directory)),
        Err(error) => Err(error),
    }
}

/// The first step of a stop on behalf of a page.
pub fn plan_stop_sync(page: &Option<UrlParts>) -> (result: Result<WatchStep, String>)
    ensures
        match result {
            Ok(step) => may_command(page_view(*page)) && step@ == stop_step(),
            Err(error) => !may_command(page_view(*page)) && error@ == ERR_SYNC_NOT_ALLOWED@,
        },
{
    match ensure_sync_command_allowed(page) {
        Ok(()) => Ok(plan_stop()),
        Err(error) => Err(error),
    }
}

/// What a page is told once a start or a stop has come to its end.
pub fn sync_result(manager: &LiveSyncManager, outcome: Result<(), String>) -> (result: Result<
    LiveSyncStatus,
    String,
>)
    ensures
        match result {
            Ok(status) => outcome is Ok && reports(status, manager@),
            Err(error) => outcome matches Err(e) && error@ == e@,
        },
{
    match outcome {
        Ok(()) => Ok(manager.status()),
        Err(error) => Err(error),
    }
}

/// Begins to synchronise a folder on behalf of a page.
pub fn start_sync(
    manager: &mut LiveSyncManager,
    page: &Option<UrlParts>,
    canonical: Option<Vec<u8>>,
    home: &Option<Vec<u8>>,
    is_directory: bool,
    watching: bool,
) -> (result: Result<LiveSyncStatus, String>)
    ensures
        ({
            let allowed = may_command(page_view(*page));
            let root = sync_root(folder_view(canonical), folder_view(*home));
            match result {
                Ok(status) => {
                    &&& allowed && root is Some && is_directory && watching
                    &&& final(manager)@ == (SyncView { folder: root, known: Set::empty() })
                    &&& reports(status, final(manager)@)
                },
                Err(error) => if !allowed {
                    error@ == ERR_SYNC_NOT_ALLOWED@ && final(manager)@ == old(manager)@
                } else if root is None {
                    error@ == ERR_SYNC_INVALID_FOLDER@ && final(manager)@ == old(manager)@
                } else if !is_directory {
                    error@ == ERR_SYNC_NOT_A_DIRECTORY@ && final(manager)@ == old(manager)@
                } else {
                    !watching && error@ == ERR_SYNC_SETUP_FAILED@ && final(manager)@ == inactive()
                },
            }
        }),
{
    match ensure_sync_command_allowed(page) {
        Ok(()) => {},
        Err(error) => {
            return Err(error);
        },
    }
    let root = match validate_sync_root_path(canonical, home) {
        Ok(root) => root,
        Err(error) => {
            return Err(error);
        },
    };
    match manager.start(root, is_directory, watching) {
        Ok(()) => Ok(manager.status()),
        Err(error) => Err(error),
    }
}

/// Ends the synchronisation on behalf of a page.
pub fn stop_sync(manager: &mut LiveSyncManager, page: &Option<UrlParts>) -> (result: Result<
    LiveSyncStatus,
    String,
>)
    ensures
        match result {
            Ok(status) => may_command(page_view(*page)) && final(manager)@ == inactive() && reports(
                status,
                inactive(),
            ),
            Err(error) => !may_command(page_view(*page)) && error@ == ERR_SYNC_NOT_ALLOWED@
                && final(manager)@ == old(manager)@,
        },
{
    match ensure_sync_command_allowed(page) {
        Ok(()) => {
            manager.stop();
            Ok(manager.status())
        },
        Err(error) => Err(error),
    }
}

/// Tells a page what is synchronised.
pub fn get_sync_status(manager: &LiveSyncManager, page: &Option<UrlParts>) -> (result: Result<
    LiveSyncStatus,
    String,
>)
    ensures
        match result {
            Ok(status) => may_command(page_view(*page)) && reports(status, manager@),
            Err(error) => !may_command(page_view(*page)) && error@ == ERR_SYNC_NOT_ALLOWED@,
        },
{
    match ensure_sync_command_allowed(page) {
        Ok(()) => Ok(manager.status()),
        Err(error) => Err(error),
    }
}

/// The first step of a change from the remote side that a page passes on.
pub fn handle_remote_update(
    manager: &LiveSyncManager,
    page: &Option<UrlParts>,
    change: RemoteSyncChange,
) -> (result: Result<RemoteStep, String>)
    ensures
        match result {
            Ok(step) => may_command(page_view(*page)) && step@ == first_step(
                manager@.folder,
                change.relative_path@,
                change.action@,
                content_of(change.content_base64.deep_view()),
            ),
            Err(error) => !may_command(page_view(*page)) && error@ == ERR_SYNC_NOT_ALLOWED@,
        },
{
    match ensure_sync_command_allowed(page) {
        Ok(()) => Ok(manager.apply_remote_change(change)),
        Err(error) => Err(error),
    }
}

/// In a folder that may be synchronised, no change reaches outside the home directory.
pub proof fn theorem_changes_stay_at_home(
    canonical: Option<Seq<u8>>,
    home: Seq<u8>,
    relative_path: Seq<char>,
    action: Seq<char>,
    content: ContentView,
)
    ensures
        match target_of(
            first_step(sync_root(canonical, Some(home)), relative_path, action, content),
        ) {
            Some(target) => is_under(target, home),
            None => true,
        },
{
    if let Some(root) = sync_root(canonical, Some(home)) {
        theorem_targets_stay_in_folder(root, relative_path, action, content);
        if let Some(target) = target_of(first_step(Some(root), relative_path, action, content)) {
            let (h, r, t) = (parts(home), parts(root), parts(target));
            assert(t.subrange(0, h.len() as int) =~= t.subrange(0, r.len() as int).subrange(
                0,
                h.len() as int,
            ));
        }
    }
}

/// The pages that may give commands are those with the app's own scheme on one of its two hosts,
/// whatever their path and query.
pub proof fn theorem_own_pages_may_command(url: UrlView)
    ensures
        may_command(Some(url)) <==> url.scheme == "tauri"@ && (url.host == Some("localhost"@)
            || url.host == Some("tauri.localhost"@)),
        !may_command(None),
{
}

/// Every folder under the home directory may be synchronised, and is then the one that is; where
/// there is no folder or no home directory, or the folder lies elsewhere, none may.
pub proof fn theorem_folders_at_home_are_synchronised(folder: Seq<u8>, home: Seq<u8>)
    ensures
        parts(home).is_prefix_of(parts(folder)) ==> sync_root(Some(folder), Some(home)) == Some(
            folder,
        ),
        !parts(home).is_prefix_of(parts(folder)) ==> sync_root(Some(folder), Some(home)) is None,
        sync_root(None, Some(home)) is None,
        sync_root(Some(folder), None) is None,
        sync_root(None, None) is None,
{
}

/// A status tells whether a folder is synchronised and, if so, the text of that folder.
pub proof fn theorem_statuses_tell_the_folder(status: LiveSyncStatus, state: SyncView)
    requires
        reports(status, state),
    ensures
        status.enabled <==> state.folder is Some,
        status.folder_path is Some <==> state.folder is Some,
        state.folder matches Some(root) ==> (status.folder_path matches Some(text) && text@
            == path_text(root)),
{
}

/// An optional page stands for the page.
pub proof fn theorem_pages_stand_for_themselves(url: UrlParts)
    ensures
        page_view(Some(url)) == Some(url@),
        page_view(None) is None,
{
}

} // verus!
