//! Live synchronisation of one folder: changes from the remote side are written into it, and
//! changes made in it are reported, save those that the remote side made.
//!
//! Reading and writing files is left to the caller, and so is watching them: a change from the
//! remote side runs as a row of [`RemoteStep`]s, and a start or a stop as a row of [`WatchStep`]s,
//! each of which the caller performs and reports back.

use crate::known_files::KnownFiles;
use crate::path::{
    components, is_absolute, is_under, join, joined, later_parts, lemma_joined_parts, lemma_no_parts,
    lemma_parts_within, lossy_text, parts, path_text, theorem_roots_and_ways_up_are_seen, PartView,
    PathPart, SEPARATOR,
};
use crate::text::{same_text, split};
use vstd::prelude::*;
use vstd::utf8::encode_utf8;

verus! {

pub const ERR_SYNC_SETUP_FAILED: &'static str = "Failed to start live sync";

pub const ERR_SYNC_STATE_UNAVAILABLE: &'static str = "Live sync is temporarily unavailable";

pub const ERR_SYNC_NOT_ACTIVE: &'static str = "Live sync is not active";

pub const ERR_SYNC_INVALID_REMOTE_CONTENT: &'static str = "Invalid remote file content";

pub const ERR_SYNC_WRITE_FAILED: &'static str = "Failed to apply remote file update";

pub const ERR_SYNC_DELETE_FAILED: &'static str = "Failed to apply remote file deletion";

pub const ERR_SYNC_NOT_A_DIRECTORY: &'static str = "Sync path must be a directory";

pub const ERR_SYNC_INVALID_PATH: &'static str = "Invalid relative path";

pub const ERR_SYNC_CONTENT_REQUIRED: &'static str = "contentBase64 is required for create/update";

pub const ERR_SYNC_UNKNOWN_ACTION: &'static str = "Unknown action";

/// A change in the folder, as it is reported.
#[derive(Debug, Clone)]
pub struct LiveSyncEvent {
    pub kind: String,
    pub paths: Vec<String>,
}

/// Whether a folder is being synchronised, and which.
#[derive(Debug, Clone)]
pub struct LiveSyncStatus {
    pub enabled: bool,
    pub folder_path: Option<String>,
}

/// A change on the remote side. The action is `create`, `update` or `delete`.
#[derive(Debug, Clone)]
pub struct RemoteSyncChange {
    pub relative_path: String,
    pub action: String,
    pub content_base64: Option<String>,
}

/// What a file watcher saw happen.
#[derive(Debug, Clone, Copy, PartialEq, Eq)]
pub enum LocalChange {
    Create,
    Modify,
    Remove,
    Other,
}

/// The content that came with a change.
#[derive(Debug)]
pub enum RemoteContent {
    Missing,
    Undecodable,
    Decoded(Vec<u8>),
}

/// What is to be done next for a change from the remote side.
#[derive(Debug)]
pub enum RemoteStep {
    /// Make the directories above `target`.
    CreateParents { target: Vec<u8>, data: Vec<u8> },
    /// Write `data` to `target`.
    WriteFile { target: Vec<u8>, data: Vec<u8> },
    /// See whether `target` exists.
    CheckExists { target: Vec<u8> },
    /// Remove `target`.
    RemoveFile { target: Vec<u8> },
    /// Nothing more: the path that was changed, or why it was not.
    Done { outcome: Result<String, String> },
}

/// What is to be done next for a start or a stop. `next` is the folder that is to be watched
/// afterwards, if one is.
#[derive(Debug)]
pub enum WatchStep {
    /// End the watch, if there is one; its worker may still have changes to report.
    EndWatch { next: Option<Vec<u8>> },
    /// Wait until the worker of the watch has reported what it has.
    AwaitWorker { next: Option<Vec<u8>> },
    /// Begin to watch `folder`.
    BeginWatch { folder: Vec<u8> },
    /// Nothing more: it is done, or why it is not.
    Done { outcome: Result<(), String> },
}

/// What a content stands for.
pub enum ContentView {
    Missing,
    Undecodable,
    Decoded(Seq<u8>),
}

/// What a step stands for.
pub enum StepView {
    CreateParents { target: Seq<u8>, data: Seq<u8> },
    WriteFile { target: Seq<u8>, data: Seq<u8> },
    CheckExists { target: Seq<u8> },
    RemoveFile { target: Seq<u8> },
    Done { outcome: Result<Seq<char>, Seq<char>> },
}

/// What a step of a start or a stop stands for.
pub enum WatchStepView {
    EndWatch { next: Option<Seq<u8>> },
    AwaitWorker { next: Option<Seq<u8>> },
    BeginWatch { folder: Seq<u8> },
    Done { outcome: Result<(), Seq<char>> },
}

/// The folder that is synchronised, and the paths whose next change is not to be reported.
#[verifier::ext_equal]
pub struct SyncView {
    pub folder: Option<Seq<u8>>,
    pub known: Set<Seq<PartView>>,
}

impl View for RemoteContent {
    type V = ContentView;

    open spec fn view(&self) -> ContentView {
        match *self {
            RemoteContent::Missing => ContentView::Missing,
            RemoteContent::Undecodable => ContentView::Undecodable,
            RemoteContent::Decoded(data) => ContentView::Decoded(data@),
        }
    }
}

impl View for RemoteStep {
    type V = StepView;

    open spec fn view(&self) -> StepView {
        match *self {
            RemoteStep::CreateParents { target, data } => StepView::CreateParents {
                target: target@,
                data: data@,
            },
            RemoteStep::WriteFile { target, data } => StepView::WriteFile {
                target: target@,
                data: data@,
            },
            RemoteStep::CheckExists { target } => StepView::CheckExists { target: target@ },
            RemoteStep::RemoveFile { target } => StepView::RemoveFile { target: target@ },
            RemoteStep::Done { outcome } => StepView::Done {
                outcome: match outcome {
                    Ok(path) => Ok(path@),
                    Err(error) => Err(error@),
                },
            },
        }
    }
}

impl View for WatchStep {
    type V = WatchStepView;

    open spec fn view(&self) -> WatchStepView {
        match *self {
            WatchStep::EndWatch { next } => WatchStepView::EndWatch { next: folder_view(next) },
            WatchStep::AwaitWorker { next } => WatchStepView::AwaitWorker {
                next: folder_view(next),
            },
            WatchStep::BeginWatch { folder } => WatchStepView::BeginWatch { folder: folder@ },
            WatchStep::Done { outcome } => WatchStepView::Done { outcome: outcome_view(outcome) },
        }
    }
}

/// What an optional folder stands for.
pub open spec fn folder_view(folder: Option<Vec<u8>>) -> Option<Seq<u8>> {
    match folder {
        Some(root) => Some(root@),
        None => None,
    }
}

/// What the outcome of a start or a stop stands for.
pub open spec fn outcome_view(outcome: Result<(), String>) -> Result<(), Seq<char>> {
    match outcome {
        Ok(()) => Ok(()),
        Err(error) => Err(error@),
    }
}

/// What the `base64` crate's standard engine decodes `text` to, if it does.
pub uninterp spec fn base64_decoded(text: Seq<char>) -> Option<Seq<u8>>;

/// Calls `decode` of the `base64` crate's `STANDARD` engine. Claimed of it: whether it succeeds,
/// and with which bytes, depends on the text alone.
#[verifier::external_body]
fn decode_base64(text: &str) -> (data: Option<Vec<u8>>)
    ensures
        match data {
            Some(bytes) => base64_decoded(text@) == Some(bytes@),
            None => base64_decoded(text@) is None,
        },
{
    base64::Engine::decode(&base64::engine::general_purpose::STANDARD, text).ok()
}

/// The content that a change brings.
pub open spec fn content_of(encoded: Option<Seq<char>>) -> ContentView {
    match encoded {
        None => ContentView::Missing,
        Some(text) => match base64_decoded(text) {
            None => ContentView::Undecodable,
            Some(data) => ContentView::Decoded(data),
        },
    }
}

/// Whether a path names something in the folder: it is not empty, does not begin at the root and
/// nowhere goes up.
pub open spec fn accepts_path(path: Seq<u8>) -> bool {
    &&& path.len() > 0
    &&& !parts(path).contains(PartView::RootDir)
    &&& !parts(path).contains(PartView::ParentDir)
}

/// The end of a change that failed.
pub open spec fn failed(error: Seq<char>) -> StepView {
    StepView::Done { outcome: Err(error) }
}

/// The end of a change that was made to `target`.
pub open spec fn finished(target: Seq<u8>) -> StepView {
    StepView::Done { outcome: Ok(path_text(target)) }
}

/// The first step of a change.
pub open spec fn first_step(
    folder: Option<Seq<u8>>,
    relative_path: Seq<char>,
    action: Seq<char>,
    content: ContentView,
) -> StepView {
    match folder {
        None => failed(ERR_SYNC_NOT_ACTIVE@),
        Some(root) => {
            let path = encode_utf8(relative_path);
            let target = joined(root, path);
            if !accepts_path(path) {
                failed(ERR_SYNC_INVALID_PATH@)
            } else if action == "create"@ || action == "update"@ {
                match content {
                    ContentView::Missing => failed(ERR_SYNC_CONTENT_REQUIRED@),
                    ContentView::Undecodable => failed(ERR_SYNC_INVALID_REMOTE_CONTENT@),
                    ContentView::Decoded(data) => StepView::CreateParents { target, data },
                }
            } else if action == "delete"@ {
                StepView::CheckExists { target }
            } else {
                failed(ERR_SYNC_UNKNOWN_ACTION@)
            }
        },
    }
}

/// The step after one that succeeded or did not.
pub open spec fn next_step(step: StepView, succeeded: bool) -> StepView {
    match step {
        StepView::CreateParents { target, data } => if succeeded {
            StepView::WriteFile { target, data }
        } else {
            failed(ERR_SYNC_WRITE_FAILED@)
        },
        StepView::WriteFile { target, data } => if succeeded {
            finished(target)
        } else {
            failed(ERR_SYNC_WRITE_FAILED@)
        },
        StepView::CheckExists { target } => if succeeded {
            StepView::RemoveFile { target }
        } else {
            finished(target)
        },
        StepView::RemoveFile { target } => if succeeded {
            finished(target)
        } else {
            failed(ERR_SYNC_DELETE_FAILED@)
        },
        StepView::Done { outcome } => step,
    }
}

/// The known paths after a step: what is about to be written or removed becomes known first.
pub open spec fn next_known(
    known: Set<Seq<PartView>>,
    step: StepView,
    succeeded: bool,
) -> Set<Seq<PartView>> {
    match next_step(step, succeeded) {
        StepView::WriteFile { target, data } => known.insert(parts(target)),
        StepView::RemoveFile { target } => known.insert(parts(target)),
        _ => known,
    }
}

/// The name under which a change is reported, if it is.
pub open spec fn kind_name(kind: LocalChange) -> Option<Seq<char>> {
    match kind {
        LocalChange::Create => Some("create"@),
        LocalChange::Modify => Some("modify"@),
        LocalChange::Remove => Some("remove"@),
        LocalChange::Other => None,
    }
}

/// The known paths once the changes of `paths` have been seen.
pub open spec fn known_after(known: Set<Seq<PartView>>, paths: Seq<Seq<u8>>) -> Set<Seq<PartView>>
    decreases paths.len(),
{
    if paths.len() == 0 {
        known
    } else {
        known_after(known, paths.drop_last()).remove(parts(paths.last()))
    }
}

/// The paths that are reported: those that are not known when their turn comes.
pub open spec fn reported(known: Set<Seq<PartView>>, paths: Seq<Seq<u8>>) -> Seq<Seq<char>>
    decreases paths.len(),
{
    if paths.len() == 0 {
        seq![]
    } else if known_after(known, paths.drop_last()).contains(parts(paths.last())) {
        reported(known, paths.drop_last())
    } else {
        reported(known, paths.drop_last()).push(path_text(paths.last()))
    }
}

/// The first step of a start. Where `folder` is no directory it is the last, so that a watch that
/// goes on is left alone.
pub open spec fn start_step(folder: Seq<u8>, is_directory: bool) -> WatchStepView {
    if is_directory {
        WatchStepView::EndWatch { next: Some(folder) }
    } else {
        WatchStepView::Done { outcome: Err(ERR_SYNC_NOT_A_DIRECTORY@) }
    }
}

/// The first step of a stop.
pub open spec fn stop_step() -> WatchStepView {
    WatchStepView::EndWatch { next: None }
}

/// The step after one that succeeded or did not. That a watch ends does not fail.
pub open spec fn next_watch_step(step: WatchStepView, succeeded: bool) -> WatchStepView {
    match step {
        WatchStepView::EndWatch { next } => WatchStepView::AwaitWorker { next },
        WatchStepView::AwaitWorker { next } => match next {
            Some(folder) => WatchStepView::BeginWatch { folder },
            None => WatchStepView::Done { outcome: Ok(()) },
        },
        WatchStepView::BeginWatch { folder } => WatchStepView::Done {
            outcome: if succeeded {
                Ok(())
            } else {
                Err(ERR_SYNC_SETUP_FAILED@)
            },
        },
        WatchStepView::Done { outcome } => step,
    }
}

/// The state after a step: when the watch has ended the folder is given up, when its worker has
/// ended what is known is forgotten, and when a new watch has begun its folder is synchronised.
pub open spec fn next_watch_state(state: SyncView, step: WatchStepView, succeeded: bool) -> SyncView {
    match step {
        WatchStepView::EndWatch { next } => SyncView { folder: None, ..state },
        WatchStepView::AwaitWorker { next } => SyncView { known: Set::empty(), ..state },
        WatchStepView::BeginWatch { folder } => if succeeded {
            SyncView { folder: Some(folder), ..state }
        } else {
            state
        },
        WatchStepView::Done { outcome } => state,
    }
}

/// What comes of a start.
pub open spec fn start_outcome(is_directory: bool, watching: bool) -> Result<(), Seq<char>> {
    if !is_directory {
        Err(ERR_SYNC_NOT_A_DIRECTORY@)
    } else if !watching {
        Err(ERR_SYNC_SETUP_FAILED@)
    } else {
        Ok(())
    }
}

/// The state after a start: what was synchronised before goes on where the folder is no directory,
/// and stops otherwise.
pub open spec fn started(
    state: SyncView,
    folder: Seq<u8>,
    is_directory: bool,
    watching: bool,
) -> SyncView {
    if !is_directory {
        state
    } else if !watching {
        inactive()
    } else {
        SyncView { folder: Some(folder), known: Set::empty() }
    }
}

/// Whether a path names something in the folder.
fn path_accepted(path: &[u8]) -> (yes: bool)
    ensures
        yes == accepts_path(path@),
{
    if path.len() == 0 {
        return false;
    }
    let found = components(path);
    let ghost all = parts(path@);
    let mut i: usize = 0;
    while i < found.len()
        invariant
            i <= found@.len(),
            all == parts(path@),
            found.deep_view() == all,
            forall|j: int|
                0 <= j < i ==> all[j] != PartView::RootDir && all[j] != PartView::ParentDir,
        decreases found@.len() - i,
    {
        assert(all[i as int] == found@[i as int].deep_view());
        match &found[i] {
            PathPart::RootDir | PathPart::ParentDir => {
                assert(all.contains(all[i as int]));
                return false;
            },
            _ => {},
        }
        i += 1;
    }
    true
}

/// Whether an action writes a file.
fn writes(action: &str) -> (yes: bool)
    ensures
        yes == (action@ == "create"@ || action@ == "update"@),
{
    same_text(action, "create") || same_text(action, "update")
}

/// The end of a change that failed.
fn fail(error: &str) -> (step: RemoteStep)
    ensures
        step@ == failed(error@),
{
    RemoteStep::Done { outcome: Err(error.to_owned()) }
}

/// The end of a change that was made to `target`.
fn finish(target: &Vec<u8>) -> (step: RemoteStep)
    ensures
        step@ == finished(target@),
{
    RemoteStep::Done { outcome: Ok(lossy_text(target.as_slice())) }
}

/// The first step of a change with the given content in the given folder.
pub fn plan_remote_change(
    folder: &Option<Vec<u8>>,
    relative_path: &str,
    action: &str,
    content: RemoteContent,
) -> (step: RemoteStep)
    ensures
        step@ == first_step(
            folder_view(*folder),
            relative_path@,
            action@,
            content@,
        ),
{
    match folder {
        None => fail(ERR_SYNC_NOT_ACTIVE),
        Some(root) => {
            let path = relative_path.as_bytes();
            if !path_accepted(path) {
                return fail(ERR_SYNC_INVALID_PATH);
            }
            let target = join(root.as_slice(), path);
            if writes(action) {
                match content {
                    RemoteContent::Missing => fail(ERR_SYNC_CONTENT_REQUIRED),
                    RemoteContent::Undecodable => fail(ERR_SYNC_INVALID_REMOTE_CONTENT),
                    RemoteContent::Decoded(data) => RemoteStep::CreateParents { target, data },
                }
            } else if same_text(action, "delete") {
                RemoteStep::CheckExists { target }
            } else {
                fail(ERR_SYNC_UNKNOWN_ACTION)
            }
        },
    }
}

/// The first step of a start on `folder`. `is_directory` tells whether it is an existing directory.
pub fn plan_start(folder: Vec<u8>, is_directory: bool) -> (step: WatchStep)
    ensures
        step@ == start_step(folder@, is_directory),
{
    if is_directory {
        WatchStep::EndWatch { next: Some(folder) }
    } else {
        WatchStep::Done { outcome: Err(ERR_SYNC_NOT_A_DIRECTORY.to_owned()) }
    }
}

/// The first step of a stop.
pub fn plan_stop() -> (step: WatchStep)
    ensures
        step@ == stop_step(),
{
    WatchStep::EndWatch { next: None }
}

/// Whether a change of `path` was known; from then on it no longer is.
pub fn should_ignore_known_file(known_files: &mut KnownFiles, path: &[u8]) -> (ignore: bool)
    ensures
        ignore == old(known_files)@.contains(parts(path@)),
        final(known_files)@ == old(known_files)@.remove(parts(path@)),
{
    known_files.remove(path)
}

/// What is reported of a change that a watcher saw at `paths`: nothing where every path was known.
pub fn local_change_event(
    known_files: &mut KnownFiles,
    kind: LocalChange,
    paths: &Vec<Vec<u8>>,
) -> (event: Option<LiveSyncEvent>)
    ensures
        kind is Other ==> event is None && final(known_files)@ == old(known_files)@,
        !(kind is Other) ==> {
            let seen = paths@.map_values(|path: Vec<u8>| path@);
            let left = reported(old(known_files)@, seen);
            &&& final(known_files)@ == known_after(old(known_files)@, seen)
            &&& match event {
                Some(e) => left.len() > 0 && kind_name(kind) == Some(e.kind@)
                    && e.paths.deep_view() == left,
                None => left.len() == 0,
            }
        },
{
    let name = match kind {
        LocalChange::Create => "create",
        LocalChange::Modify => "modify",
        LocalChange::Remove => "remove",
        LocalChange::Other => {
            return None;
        },
    };
    let ghost seen = paths@.map_values(|path: Vec<u8>| path@);
    let mut left: Vec<String> = Vec::new();
    let mut i: usize = 0;
    assert(left.deep_view() =~= seq![]);
    while i < paths.len()
        invariant
            i <= paths@.len(),
            seen == paths@.map_values(|path: Vec<u8>| path@),
            known_files@ == known_after(old(known_files)@, seen.take(i as int)),
            left.deep_view() == reported(old(known_files)@, seen.take(i as int)),
        decreases paths@.len() - i,
    {
        let ghost before = left.deep_view();
        assert(seen.take(i + 1).drop_last() =~= seen.take(i as int));
        assert(seen[i as int] == paths@[i as int]@);
        if !should_ignore_known_file(known_files, paths[i].as_slice()) {
            left.push(lossy_text(paths[i].as_slice()));
            assert(left.deep_view() =~= before.push(path_text(seen[i as int])));
        }
        i += 1;
    }
    assert(seen.take(seen.len() as int) =~= seen);
    assert(left.deep_view().len() == left@.len());
    if left.len() == 0 {
        None
    } else {
        Some(LiveSyncEvent { kind: name.to_owned(), paths: left })
    }
}

/// The state of live synchronisation.
#[derive(Debug)]
pub struct LiveSyncManager {
    folder: Option<Vec<u8>>,
    known_files: KnownFiles,
}

impl View for LiveSyncManager {
    type V = SyncView;

    closed spec fn view(&self) -> SyncView {
        SyncView {
            folder: folder_view(self.folder),
            known: self.known_files@,
        }
    }
}

/// The state in which no folder is synchronised.
pub open spec fn inactive() -> SyncView {
    SyncView { folder: None, known: Set::empty() }
}

impl Default for LiveSyncManager {
    /// No folder is synchronised.
    fn default() -> (manager: Self)
        ensures
            manager@ == inactive(),
    {
        LiveSyncManager { folder: None, known_files: KnownFiles::new() }
    }
}

impl LiveSyncManager {
    /// Begins to synchronise `folder`. `is_directory` tells whether the folder is an existing
    /// directory, and `watching` whether its changes could be watched. What was synchronised
    /// before stops, unless `folder` is not a directory.
    pub fn start(&mut self, folder: Vec<u8>, is_directory: bool, watching: bool) -> (result: Result<
        (),
        String,
    >)
        ensures
            outcome_view(result) == start_outcome(is_directory, watching),
            final(self)@ == started(old(self)@, folder@, is_directory, watching),
    {
        if !is_directory {
            return Err(ERR_SYNC_NOT_A_DIRECTORY.to_owned());
        }
        self.stop();
        if !watching {
            return Err(ERR_SYNC_SETUP_FAILED.to_owned());
        }
        self.folder = Some(folder);
        Ok(())
    }

    /// The state after `step`, which succeeded or did not, and the step after it.
    pub fn resume_watch(&mut self, step: WatchStep, succeeded: bool) -> (next: WatchStep)
        ensures
            next@ == next_watch_step(step@, succeeded),
            final(self)@ == next_watch_state(old(self)@, step@, succeeded),
    {
        match step {
            WatchStep::EndWatch { next } => {
                self.give_up_folder();
                WatchStep::AwaitWorker { next }
            },
            WatchStep::AwaitWorker { next } => {
                self.known_files.clear();
                match next {
                    Some(folder) => WatchStep::BeginWatch { folder },
                    None => WatchStep::Done { outcome: Ok(()) },
                }
            },
            WatchStep::BeginWatch { folder } => if succeeded {
                self.folder = Some(folder);
                WatchStep::Done { outcome: Ok(()) }
            } else {
                WatchStep::Done { outcome: Err(ERR_SYNC_SETUP_FAILED.to_owned()) }
            },
            WatchStep::Done { outcome } => WatchStep::Done { outcome },
        }
    }

    /// Whether a folder is being synchronised, and which.
    pub fn status(&self) -> (status: LiveSyncStatus)
        ensures
            status.enabled == self@.folder is Some,
            match self@.folder {
                Some(root) => status.folder_path.deep_view() == Some(path_text(root)),
                None => status.folder_path is None,
            },
    {
        match &self.folder {
            Some(root) => LiveSyncStatus {
                enabled: true,
                folder_path: Some(lossy_text(root.as_slice())),
            },
            None => LiveSyncStatus { enabled: false, folder_path: None },
        }
    }

    /// The first step of a change from the remote side.
    pub fn apply_remote_change(&self, change: RemoteSyncChange) -> (step: RemoteStep)
        ensures
            step@ == first_step(
                self@.folder,
                change.relative_path@,
                change.action@,
                content_of(change.content_base64.deep_view()),
            ),
    {
        let mut content = RemoteContent::Missing;
        if writes(change.action.as_str()) {
            if let Some(encoded) = &change.content_base64 {
                content = match decode_base64(encoded.as_str()) {
                    Some(data) => RemoteContent::Decoded(data),
                    None => RemoteContent::Undecodable,
                };
            }
        }
        plan_remote_change(
            &self.folder,
            change.relative_path.as_str(),
            change.action.as_str(),
            content,
        )
    }

    /// The step after `step`, which succeeded or did not. For [`RemoteStep::CheckExists`] success
    /// means that the target exists.
    pub fn resume(&mut self, step: RemoteStep, succeeded: bool) -> (next: RemoteStep)
        ensures
            next@ == next_step(step@, succeeded),
            final(self)@.folder == old(self)@.folder,
            final(self)@.known == next_known(old(self)@.known, step@, succeeded),
    {
        match step {
            RemoteStep::CreateParents { target, data } => if succeeded {
                self.mark_known_file(target.as_slice());
                RemoteStep::WriteFile { target, data }
            } else {
                fail(ERR_SYNC_WRITE_FAILED)
            },
            RemoteStep::WriteFile { target, data } => if succeeded {
                finish(&target)
            } else {
                fail(ERR_SYNC_WRITE_FAILED)
            },
            RemoteStep::CheckExists { target } => if succeeded {
                self.mark_known_file(target.as_slice());
                RemoteStep::RemoveFile { target }
            } else {
                finish(&target)
            },
            RemoteStep::RemoveFile { target } => if succeeded {
                finish(&target)
            } else {
                fail(ERR_SYNC_DELETE_FAILED)
            },
            RemoteStep::Done { outcome } => RemoteStep::Done { outcome },
        }
    }

    /// No folder is synchronised any more; what is known stays known until the watch is over.
    pub fn give_up_folder(&mut self)
        ensures
            final(self)@ == (SyncView { folder: None, ..old(self)@ }),
    {
        self.folder = None;
    }

    /// Ends the synchronisation.
    pub fn stop(&mut self)
        ensures
            final(self)@ == inactive(),
    {
        self.give_up_folder();
        self.known_files.clear();
    }

    /// The next change of `path` is not to be reported.
    pub fn mark_known_file(&mut self, path: &[u8])
        ensures
            final(self)@.folder == old(self)@.folder,
            final(self)@.known == old(self)@.known.insert(parts(path@)),
    {
        let copy = vstd::slice::slice_to_vec(path);
        self.known_files.insert(copy);
    }

    /// What is reported of a change that a watcher saw at `paths`.
    pub fn local_change(&mut self, kind: LocalChange, paths: &Vec<Vec<u8>>) -> (event: Option<
        LiveSyncEvent,
    >)
        ensures
            final(self)@.folder == old(self)@.folder,
            kind is Other ==> event is None && final(self)@ == old(self)@,
            !(kind is Other) ==> {
                let seen = paths@.map_values(|path: Vec<u8>| path@);
                let left = reported(old(self)@.known, seen);
                &&& final(self)@.known == known_after(old(self)@.known, seen)
                &&& match event {
                    Some(e) => left.len() > 0 && kind_name(kind) == Some(e.kind@)
                        && e.paths.deep_view() == left,
                    None => left.len() == 0,
                }
            },
    {
        local_change_event(&mut self.known_files, kind, paths)
    }
}

/// The path that a step is about, unless it is the last.
pub open spec fn target_of(step: StepView) -> Option<Seq<u8>> {
    match step {
        StepView::CreateParents { target, data } => Some(target),
        StepView::WriteFile { target, data } => Some(target),
        StepView::CheckExists { target } => Some(target),
        StepView::RemoveFile { target } => Some(target),
        StepView::Done { outcome } => None,
    }
}

/// No change reaches outside the folder: whatever path and action it names, its target is the
/// folder or lies under it, and below the folder nothing in the target goes up again.
pub proof fn theorem_targets_stay_in_folder(
    root: Seq<u8>,
    relative_path: Seq<char>,
    action: Seq<char>,
    content: ContentView,
)
    ensures
        match target_of(first_step(Some(root), relative_path, action, content)) {
            Some(target) => {
                &&& is_under(target, root)
                &&& forall|i: int|
                    parts(root).len() <= i < parts(target).len() ==> parts(target)[i]
                        != PartView::ParentDir && parts(target)[i] != PartView::RootDir
            },
            None => true,
        },
{
    let path = encode_utf8(relative_path);
    let target = joined(root, path);
    if accepts_path(path) {
        if is_absolute(path) {
            assert(parts(path)[0] == PartView::RootDir);
        }
        if root.len() == 0 {
            assert(target =~= path);
            lemma_no_parts(root);
            assert(parts(target).subrange(0, 0) =~= parts(root));
            assert forall|i: int| 0 <= i < parts(target).len() implies parts(target)[i]
                != PartView::ParentDir && parts(target)[i] != PartView::RootDir by {
                assert(parts(path).contains(parts(path)[i]));
            }
        } else {
            lemma_joined_parts(root, path);
            lemma_parts_within(path);
            let below = later_parts(split(path, SEPARATOR));
            assert(parts(target).subrange(0, parts(root).len() as int) =~= parts(root));
            assert forall|i: int|
                parts(root).len() <= i < parts(target).len() implies parts(target)[i]
                != PartView::ParentDir && parts(target)[i] != PartView::RootDir by {
                assert(parts(target)[i] == below[i - parts(root).len()]);
            }
        }
    }
}

/// A change is about one path: each step that follows is about the path of the step before it.
pub proof fn theorem_steps_keep_their_target(step: StepView, succeeded: bool)
    ensures
        match target_of(next_step(step, succeeded)) {
            Some(target) => target_of(step) == Some(target),
            None => true,
        },
{
}

/// A change ends after at most two steps, whatever comes of them.
pub proof fn theorem_changes_end(
    folder: Option<Seq<u8>>,
    relative_path: Seq<char>,
    action: Seq<char>,
    content: ContentView,
    first_succeeded: bool,
    second_succeeded: bool,
)
    ensures
        next_step(
            next_step(first_step(folder, relative_path, action, content), first_succeeded),
            second_succeeded,
        ) is Done,
{
}

/// What the remote side is about to change is not reported when it changes, and is reported again
/// when it changes once more.
pub proof fn theorem_own_changes_are_ignored_once(
    known: Set<Seq<PartView>>,
    step: StepView,
    path: Seq<u8>,
)
    requires
        next_step(step, true) is WriteFile || next_step(step, true) is RemoveFile,
        target_of(step) matches Some(target) && parts(path) == parts(target),
    ensures
        ({
            let marked = next_known(known, step, true);
            &&& reported(marked, seq![path]) == Seq::<Seq<char>>::empty()
            &&& reported(known_after(marked, seq![path]), seq![path]) == seq![path_text(path)]
        }),
{
    let marked = next_known(known, step, true);
    assert(seq![path].drop_last() =~= seq![]);
    reveal_with_fuel(reported, 2);
    reveal_with_fuel(known_after, 2);
    assert(marked.contains(parts(path)));
    assert(reported(known_after(marked, seq![path]), seq![path]) =~= seq![path_text(path)]);
}

/// A change of paths of which none is known is reported in full, in order, and what is known stays
/// known.
pub proof fn theorem_other_changes_are_reported(known: Set<Seq<PartView>>, paths: Seq<Seq<u8>>)
    requires
        forall|i: int| 0 <= i < paths.len() ==> !known.contains(parts(#[trigger] paths[i])),
    ensures
        reported(known, paths) == paths.map_values(|path: Seq<u8>| path_text(path)),
        known_after(known, paths) == known,
    decreases paths.len(),
{
    if paths.len() > 0 {
        let before = paths.drop_last();
        assert forall|i: int| 0 <= i < before.len() implies !known.contains(
            parts(#[trigger] before[i]),
        ) by {
            assert(before[i] == paths[i]);
        }
        theorem_other_changes_are_reported(known, before);
        assert(!known.contains(parts(paths[paths.len() - 1])));
        assert(known.remove(parts(paths.last())) =~= known);
    }
    assert(reported(known, paths) =~= paths.map_values(|path: Seq<u8>| path_text(path)));
}

/// Where nothing fails, a change does what it says: a path that is created or updated gets the
/// content that was sent, a path that is deleted is removed if it exists, and either way the path
/// in the folder is told.
pub proof fn theorem_changes_do_what_they_say(
    root: Seq<u8>,
    relative_path: Seq<char>,
    data: Seq<u8>,
    content: ContentView,
)
    requires
        accepts_path(encode_utf8(relative_path)),
    ensures
        ({
            let target = joined(root, encode_utf8(relative_path));
            let sent = ContentView::Decoded(data);
            let created = first_step(Some(root), relative_path, "create"@, sent);
            let updated = first_step(Some(root), relative_path, "update"@, sent);
            let deleted = first_step(Some(root), relative_path, "delete"@, content);
            let written = next_step(created, true);
            let removed = next_step(deleted, true);
            &&& created == updated
            &&& written == (StepView::WriteFile { target, data })
            &&& next_step(written, true) == finished(target)
            &&& removed == (StepView::RemoveFile { target })
            &&& next_step(removed, true) == finished(target)
            &&& next_step(deleted, false) == finished(target)
        }),
{
    reveal_strlit("create");
    reveal_strlit("update");
    reveal_strlit("delete");
    assert("delete"@[0] != "create"@[0]);
    assert("delete"@[0] != "update"@[0]);
}

/// A start comes to what its steps come to, in this order: nothing happens unless the folder is a
/// directory; then the old watch ends, its folder is given up and what is known stays known until
/// its worker has ended; only when nothing is synchronised or known any more does the new watch
/// begin.
pub proof fn theorem_starts_take_their_steps(
    state: SyncView,
    folder: Seq<u8>,
    is_directory: bool,
    watching: bool,
)
    ensures
        ({
            let first = start_step(folder, is_directory);
            let second = next_watch_step(first, true);
            let third = next_watch_step(second, true);
            let last = next_watch_step(third, watching);
            let ended = next_watch_state(state, first, true);
            let awaited = next_watch_state(ended, second, true);
            let begun = next_watch_state(awaited, third, watching);
            &&& last == (WatchStepView::Done { outcome: start_outcome(is_directory, watching) })
            &&& begun == started(state, folder, is_directory, watching)
            &&& if is_directory {
                &&& first == (WatchStepView::EndWatch { next: Some(folder) })
                &&& ended == (SyncView { folder: None, ..state })
                &&& second == (WatchStepView::AwaitWorker { next: Some(folder) })
                &&& awaited == inactive()
                &&& third == (WatchStepView::BeginWatch { folder })
            } else {
                first == last && begun == state
            }
        }),
{
}

/// A stop comes to what its steps come to: the watch ends, its folder is given up, what is known
/// stays known until its worker has ended, and then nothing is synchronised or known.
pub proof fn theorem_stops_take_their_steps(state: SyncView)
    ensures
        ({
            let first = stop_step();
            let second = next_watch_step(first, true);
            let ended = next_watch_state(state, first, true);
            &&& ended == (SyncView { folder: None, ..state })
            &&& second == (WatchStepView::AwaitWorker { next: None })
            &&& next_watch_state(ended, second, true) == inactive()
            &&& next_watch_step(second, true) == (WatchStepView::Done { outcome: Ok(()) })
        }),
{
}

/// A step that failed makes nothing known.
pub proof fn theorem_failed_steps_mark_nothing(known: Set<Seq<PartView>>, step: StepView)
    ensures
        next_known(known, step, false) == known,
{
}

/// A change ends well only where its last step succeeded, or where there was nothing to delete, and
/// then it tells the path that it was about.
pub proof fn theorem_good_ends_are_earned(step: StepView, succeeded: bool)
    requires
        !(step is Done),
    ensures
        match next_step(step, succeeded) {
            StepView::Done { outcome: Ok(path) } => {
                &&& succeeded || step is CheckExists
                &&& target_of(step) matches Some(target) && path == path_text(target)
            },
            _ => true,
        },
{
}

/// A path is taken whatever names it has and however many, unless it is empty, begins with the
/// separator or has the name `..` between its separators.
pub proof fn theorem_inner_paths_are_accepted(path: Seq<u8>)
    ensures
        accepts_path(path) <==> path.len() > 0 && path[0] != 47 && !split(path, 47u8).contains(
            seq![46u8, 46u8],
        ),
{
    theorem_roots_and_ways_up_are_seen(path);
}

/// In an active folder, a path that is not empty, does not begin with the separator and has no
/// `..` between its separators can be created, updated and deleted: the first step is about the
/// whole path, seen from the folder, and about all of the content.
pub proof fn theorem_inner_paths_are_changed(
    root: Seq<u8>,
    relative_path: Seq<char>,
    data: Seq<u8>,
    content: ContentView,
)
    requires
        encode_utf8(relative_path).len() > 0,
        encode_utf8(relative_path)[0] != 47,
        !split(encode_utf8(relative_path), 47u8).contains(seq![46u8, 46u8]),
    ensures
        ({
            let target = joined(root, encode_utf8(relative_path));
            let sent = ContentView::Decoded(data);
            &&& first_step(Some(root), relative_path, "create"@, sent)
                == (StepView::CreateParents { target, data })
            &&& first_step(Some(root), relative_path, "update"@, sent)
                == (StepView::CreateParents { target, data })
            &&& first_step(Some(root), relative_path, "delete"@, content)
                == (StepView::CheckExists { target })
        }),
{
    theorem_inner_paths_are_accepted(encode_utf8(relative_path));
    theorem_changes_do_what_they_say(root, relative_path, data, content);
}

/// A change is refused for the first of these that holds, and for nothing else: no folder is
/// active, the path leads out of the folder, the action is unknown, content is missing or cannot be
/// decoded.
pub proof fn theorem_changes_are_refused_for_a_reason(
    folder: Option<Seq<u8>>,
    relative_path: Seq<char>,
    action: Seq<char>,
    content: ContentView,
)
    ensures
        ({
            let path = encode_utf8(relative_path);
            let inner = path.len() > 0 && path[0] != 47 && !split(path, 47u8).contains(
                seq![46u8, 46u8],
            );
            let writes = action == "create"@ || action == "update"@;
            let refused = first_step(folder, relative_path, action, content);
            &&& folder is None ==> refused == (StepView::Done {
                outcome: Err("Live sync is not active"@),
            })
            &&& folder is Some && !inner ==> refused == (StepView::Done {
                outcome: Err("Invalid relative path"@),
            })
            &&& folder is Some && inner && !writes && action != "delete"@ ==> refused
                == (StepView::Done { outcome: Err("Unknown action"@) })
            &&& folder is Some && inner && writes && content is Missing ==> refused
                == (StepView::Done { outcome: Err("contentBase64 is required for create/update"@) })
            &&& folder is Some && inner && writes && content is Undecodable ==> refused
                == (StepView::Done { outcome: Err("Invalid remote file content"@) })
            &&& refused is Done ==> folder is None || !inner || !writes && action != "delete"@
                || writes && !(content is Decoded)
        }),
{
    theorem_inner_paths_are_accepted(encode_utf8(relative_path));
}

/// The content of a change is what its text decodes to, byte for byte.
pub proof fn theorem_content_is_what_was_sent(text: Seq<char>)
    ensures
        content_of(None) == ContentView::Missing,
        match base64_decoded(text) {
            Some(data) => content_of(Some(text)) == ContentView::Decoded(data),
            None => content_of(Some(text)) == ContentView::Undecodable,
        },
{
}

/// What a failed step comes to: the write or the deletion is given up, save that nothing needs to
/// be deleted that does not exist. What is done stays done.
pub proof fn theorem_failed_steps_end_the_change(
    target: Seq<u8>,
    data: Seq<u8>,
    outcome: Result<Seq<char>, Seq<char>>,
    succeeded: bool,
)
    ensures
        next_step(StepView::CreateParents { target, data }, false) == (StepView::Done {
            outcome: Err("Failed to apply remote file update"@),
        }),
        next_step(StepView::WriteFile { target, data }, false) == (StepView::Done {
            outcome: Err("Failed to apply remote file update"@),
        }),
        next_step(StepView::RemoveFile { target }, false) == (StepView::Done {
            outcome: Err("Failed to apply remote file deletion"@),
        }),
        next_step(StepView::CheckExists { target }, false) == (StepView::Done {
            outcome: Ok(path_text(target)),
        }),
        next_step(StepView::Done { outcome }, succeeded) == (StepView::Done { outcome }),
{
}

/// What a step that succeeded comes to: the same content is written to the same path whose parents
/// were made, what exists is removed, and in the end the path is told.
pub proof fn theorem_good_steps_go_on(target: Seq<u8>, data: Seq<u8>)
    ensures
        next_step(StepView::CreateParents { target, data }, true) == (StepView::WriteFile {
            target,
            data,
        }),
        next_step(StepView::CheckExists { target }, true) == (StepView::RemoveFile { target }),
        next_step(StepView::WriteFile { target, data }, true) == (StepView::Done {
            outcome: Ok(path_text(target)),
        }),
        next_step(StepView::RemoveFile { target }, true) == (StepView::Done {
            outcome: Ok(path_text(target)),
        }),
{
}

/// Before a path is written or removed it becomes known, and nothing else does; nothing that was
/// known is forgotten.
pub proof fn theorem_steps_mark_their_target_alone(
    known: Set<Seq<PartView>>,
    target: Seq<u8>,
    data: Seq<u8>,
    outcome: Result<Seq<char>, Seq<char>>,
    succeeded: bool,
)
    ensures
        next_known(known, StepView::CreateParents { target, data }, true) == known.insert(
            parts(target),
        ),
        next_known(known, StepView::CheckExists { target }, true) == known.insert(parts(target)),
        next_known(known, StepView::CreateParents { target, data }, false) == known,
        next_known(known, StepView::CheckExists { target }, false) == known,
        next_known(known, StepView::WriteFile { target, data }, succeeded) == known,
        next_known(known, StepView::RemoveFile { target }, succeeded) == known,
        next_known(known, StepView::Done { outcome }, succeeded) == known,
{
}

/// Seeing changes takes the paths that were seen out of what is known, and no other.
pub proof fn theorem_only_seen_paths_are_forgotten(known: Set<Seq<PartView>>, paths: Seq<Seq<u8>>)
    ensures
        forall|other: Seq<PartView>| #[trigger]
            known_after(known, paths).contains(other) <==> known.contains(other) && forall|i: int|
                0 <= i < paths.len() ==> parts(#[trigger] paths[i]) != other,
    decreases paths.len(),
{
    if paths.len() > 0 {
        let before = paths.drop_last();
        let last = paths.len() - 1;
        theorem_only_seen_paths_are_forgotten(known, before);
        assert forall|other: Seq<PartView>| #[trigger]
            known_after(known, paths).contains(other) <==> known.contains(other) && forall|i: int|
                0 <= i < paths.len() ==> parts(#[trigger] paths[i]) != other by {
            if known_after(known, paths).contains(other) {
                assert(known_after(known, before).contains(other));
                assert forall|i: int| 0 <= i < paths.len() implies parts(#[trigger] paths[i])
                    != other by {
                    if i < last {
                        assert(parts(before[i]) != other);
                    }
                }
            }
            if known.contains(other) && forall|i: int|
                0 <= i < paths.len() ==> parts(#[trigger] paths[i]) != other {
                assert(parts(paths[last]) != other);
                assert forall|i: int| 0 <= i < before.len() implies parts(#[trigger] before[i])
                    != other by {
                    assert(parts(paths[i]) != other);
                }
                assert(known_after(known, before).contains(other));
            }
        }
    }
}

/// Changes that are seen together are reported as those that are seen one after the other: first
/// what the earlier ones come to, then what the later ones come to with what is still known. A
/// single path is left out where it is known and told in full where it is not.
pub proof fn theorem_reports_add_up(
    known: Set<Seq<PartView>>,
    earlier: Seq<Seq<u8>>,
    later: Seq<Seq<u8>>,
    path: Seq<u8>,
)
    ensures
        reported(known, earlier + later) == reported(known, earlier) + reported(
            known_after(known, earlier),
            later,
        ),
        known_after(known, earlier + later) == known_after(known_after(known, earlier), later),
        reported(known, Seq::empty()) == Seq::<Seq<char>>::empty(),
        known.contains(parts(path)) ==> reported(known, seq![path]) == Seq::<Seq<char>>::empty(),
        !known.contains(parts(path)) ==> reported(known, seq![path]) == seq![path_text(path)],
    decreases later.len(),
{
    reveal_with_fuel(reported, 2);
    reveal_with_fuel(known_after, 2);
    assert(seq![path].drop_last() =~= seq![]);
    assert(reported(known, seq![path]) =~= (if known.contains(parts(path)) {
        seq![]
    } else {
        seq![path_text(path)]
    }));
    if later.len() == 0 {
        assert(earlier + later =~= earlier);
        assert(reported(known, earlier) + seq![] =~= reported(known, earlier));
    } else {
        let before = later.drop_last();
        theorem_reports_add_up(known, earlier, before, path);
        assert((earlier + later).drop_last() =~= earlier + before);
        assert((earlier + later).last() == later.last());
        assert(reported(known, earlier + later) =~= reported(known, earlier) + reported(
            known_after(known, earlier),
            later,
        ));
    }
}

/// Of two paths that are known and unlike, neither is reported, whether their changes are seen
/// together or in turn, and the second stays known until it is seen.
pub proof fn theorem_known_paths_are_each_left_out(
    known: Set<Seq<PartView>>,
    first: Seq<u8>,
    second: Seq<u8>,
)
    requires
        known.contains(parts(first)),
        known.contains(parts(second)),
        parts(first) != parts(second),
    ensures
        reported(known, seq![first, second]) == Seq::<Seq<char>>::empty(),
        known_after(known, seq![first]).contains(parts(second)),
        !known_after(known, seq![first]).contains(parts(first)),
{
    assert(seq![first, second] =~= seq![first] + seq![second]);
    theorem_reports_add_up(known, seq![first], seq![second], first);
    theorem_only_seen_paths_are_forgotten(known, seq![first]);
    let left = known_after(known, seq![first]);
    assert(parts(seq![first][0]) == parts(first));
    assert(left.contains(parts(second)));
    theorem_reports_add_up(left, seq![], seq![], second);
}

/// The kinds of change that are reported have these names, and no other kind is reported.
pub proof fn theorem_kinds_have_their_names(kind: LocalChange)
    ensures
        kind is Create ==> kind_name(kind) == Some("create"@),
        kind is Modify ==> kind_name(kind) == Some("modify"@),
        kind is Remove ==> kind_name(kind) == Some("remove"@),
        kind is Other ==> kind_name(kind) is None,
{
}

/// A start that succeeds leaves the new folder synchronised and nothing known; one that fails for
/// want of a watch leaves nothing synchronised; one that fails for want of a directory leaves all
/// as it was.
pub proof fn theorem_starts_come_to_this(state: SyncView, folder: Seq<u8>, watching: bool)
    ensures
        start_outcome(true, true) == Ok::<(), Seq<char>>(()),
        start_outcome(true, false) == Err::<(), Seq<char>>("Failed to start live sync"@),
        start_outcome(false, watching) == Err::<(), Seq<char>>("Sync path must be a directory"@),
        started(state, folder, true, true).folder == Some(folder),
        started(state, folder, true, true).known == Set::<Seq<PartView>>::empty(),
        started(state, folder, true, false) == inactive(),
        started(state, folder, false, watching) == state,
        inactive().folder is None,
        inactive().known == Set::<Seq<PartView>>::empty(),
{
}

/// Steps, contents, folders and outcomes stand for all that they hold.
pub proof fn theorem_steps_stand_for_themselves(
    target: Vec<u8>,
    data: Vec<u8>,
    path: String,
    next: Option<Vec<u8>>,
)
    ensures
        RemoteContent::Missing@ == ContentView::Missing,
        RemoteContent::Undecodable@ == ContentView::Undecodable,
        RemoteContent::Decoded(data)@ == ContentView::Decoded(data@),
        (RemoteStep::CreateParents { target, data })@ == (StepView::CreateParents {
            target: target@,
            data: data@,
        }),
        (RemoteStep::WriteFile { target, data })@ == (StepView::WriteFile {
            target: target@,
            data: data@,
        }),
        (RemoteStep::CheckExists { target })@ == (StepView::CheckExists { target: target@ }),
        (RemoteStep::RemoveFile { target })@ == (StepView::RemoveFile { target: target@ }),
        (RemoteStep::Done { outcome: Ok(path) })@ == (StepView::Done { outcome: Ok(path@) }),
        (RemoteStep::Done { outcome: Err(path) })@ == (StepView::Done { outcome: Err(path@) }),
        folder_view(Some(target)) == Some(target@),
        folder_view(None) is None,
        outcome_view(Ok(())) == Ok::<(), Seq<char>>(()),
        outcome_view(Err(path)) == Err::<(), Seq<char>>(path@),
        (WatchStep::EndWatch { next })@ == (WatchStepView::EndWatch { next: folder_view(next) }),
        (WatchStep::AwaitWorker { next })@ == (WatchStepView::AwaitWorker {
            next: folder_view(next),
        }),
        (WatchStep::BeginWatch { folder: target })@ == (WatchStepView::BeginWatch {
            folder: target@,
        }),
        (WatchStep::Done { outcome: Ok(()) })@ == (WatchStepView::Done { outcome: Ok(()) }),
        (WatchStep::Done { outcome: Err(path) })@ == (WatchStepView::Done { outcome: Err(path@) }),
{
}

/// A watch ends and its worker is awaited whatever comes of it, the folder that is next stays the
/// one that was asked for, and what is done stays done.
pub proof fn theorem_watch_steps_go_on(
    state: SyncView,
    next: Option<Seq<u8>>,
    folder: Seq<u8>,
    outcome: Result<(), Seq<char>>,
    succeeded: bool,
)
    ensures
        next_watch_step(WatchStepView::EndWatch { next }, succeeded)
            == (WatchStepView::AwaitWorker { next }),
        next_watch_step(WatchStepView::AwaitWorker { next: Some(folder) }, succeeded)
            == (WatchStepView::BeginWatch { folder }),
        next_watch_step(WatchStepView::AwaitWorker { next: None }, succeeded)
            == (WatchStepView::Done { outcome: Ok(()) }),
        next_watch_step(WatchStepView::BeginWatch { folder }, true) == (WatchStepView::Done {
            outcome: Ok(()),
        }),
        next_watch_step(WatchStepView::BeginWatch { folder }, false) == (WatchStepView::Done {
            outcome: Err("Failed to start live sync"@),
        }),
        next_watch_step(WatchStepView::Done { outcome }, succeeded) == (WatchStepView::Done {
            outcome,
        }),
        ({
            let ended = next_watch_state(state, WatchStepView::EndWatch { next }, succeeded);
            let awaited = next_watch_state(state, WatchStepView::AwaitWorker { next }, succeeded);
            let begun = next_watch_state(state, WatchStepView::BeginWatch { folder }, true);
            &&& ended.folder is None && ended.known == state.known
            &&& awaited.folder == state.folder && awaited.known == Set::<Seq<PartView>>::empty()
            &&& begun.folder == Some(folder) && begun.known == state.known
            &&& next_watch_state(state, WatchStepView::BeginWatch { folder }, false) == state
            &&& next_watch_state(state, WatchStepView::Done { outcome }, succeeded) == state
        }),
{
}

/// A start on a directory begins by ending the watch, and one on anything else ends at once; a stop
/// begins as a start does, with nothing to watch afterwards.
pub proof fn theorem_first_watch_steps(folder: Seq<u8>)
    ensures
        start_step(folder, true) == (WatchStepView::EndWatch { next: Some(folder) }),
        start_step(folder, false) == (WatchStepView::Done {
            outcome: Err("Sync path must be a directory"@),
        }),
        stop_step() == (WatchStepView::EndWatch { next: None }),
{
}

} // verus!
