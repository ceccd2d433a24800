//! How the web view of a distribution's build deals with web workers.

use crate::text::same_text;
use vstd::prelude::*;

verus! {

/// What the page's scripts see of web workers.
#[derive(Debug, Clone, Copy, PartialEq, Eq)]
pub enum WorkerSupport {
    /// They work.
    Native,
    /// They are not there, so that the page does without.
    Disabled,
    /// They refuse to start, which is safe on any system.
    Blocked,
}

/// What a kind of build supports. A build of no particular kind counts as one that uses the
/// system's libraries.
pub open spec fn supported(distribution: Option<Seq<char>>) -> WorkerSupport {
    match distribution {
        None => WorkerSupport::Disabled,
        Some(name) => if name == "appimage"@ || name == "aur"@ {
            WorkerSupport::Native
        } else if name == "rpm"@ || name == "deb"@ || name == "flatpak"@ || name == "snap"@ {
            WorkerSupport::Disabled
        } else {
            WorkerSupport::Blocked
        },
    }
}

/// What a kind of build supports.
pub fn worker_support(distribution: Option<&str>) -> (support: WorkerSupport)
    ensures
        support == supported(distribution.deep_view()),
{
    match distribution {
        None => WorkerSupport::Disabled,
        Some(name) => if same_text(name, "appimage") || same_text(name, "aur") {
            WorkerSupport::Native
        } else if same_text(name, "rpm") || same_text(name, "deb") || same_text(name, "flatpak")
            || same_text(name, "snap") {
            WorkerSupport::Disabled
        } else {
            WorkerSupport::Blocked
        },
    }
}

/// Two kinds of build run workers, four and one of no particular kind do without, and any other
/// blocks them.
pub proof fn theorem_builds_support_workers(name: Seq<char>)
    ensures
        supported(None) == WorkerSupport::Disabled,
        supported(Some(name)) == WorkerSupport::Native <==> name == "appimage"@ || name == "aur"@,
        supported(Some(name)) == WorkerSupport::Disabled <==> name == "rpm"@ || name == "deb"@ || name
            == "flatpak"@ || name == "snap"@,
{
    reveal_strlit("appimage");
    reveal_strlit("aur");
    reveal_strlit("rpm");
    reveal_strlit("deb");
    reveal_strlit("flatpak");
    reveal_strlit("snap");
    assert("appimage"@.len() == 8 && "flatpak"@.len() == 7 && "snap"@.len() == 4);
    assert("aur"@[0] != "rpm"@[0] && "aur"@[0] != "deb"@[0]);
}

} // verus!
