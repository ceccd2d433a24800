//! Where downloads are saved.

use crate::path::{join, joined, lossy_text, path_text};
use crate::text::{
    after_last, before_first, lemma_count_before, text_after_last, text_before_first,
    theorem_after_last_is_the_end, theorem_before_first_is_the_beginning,
};
use vstd::prelude::*;
use vstd::utf8::encode_utf8;

verus! {

pub const ERR_DOWNLOAD_LOCATION: &'static str = "Unable to access download location";

pub const ERR_DOWNLOAD_FAILED: &'static str = "Unable to save download";

/// The directory for downloads in a home directory.
pub const DOWNLOADS_DIR: &'static str = "Downloads";

/// A file that is to be saved, and the directory that must exist before.
#[derive(Debug)]
pub struct DownloadPlan {
    pub directory: Vec<u8>,
    pub target: Vec<u8>,
}

/// The directory for downloads: the system's, or else one in the home directory.
pub open spec fn download_directory(downloads: Option<Seq<u8>>, home: Option<Seq<u8>>) -> Option<
    Seq<u8>,
> {
    match (downloads, home) {
        (Some(directory), _) => Some(directory),
        (None, Some(directory)) => Some(joined(directory, encode_utf8(DOWNLOADS_DIR@))),
        (None, None) => None,
    }
}

/// The name of the file that a URL leads to: what follows its last slash, without a query.
pub open spec fn file_name(url: Seq<char>) -> Seq<char> {
    before_first(after_last(url, '/'), '?')
}

/// The bytes of an optional path.
pub open spec fn bytes_of(path: Option<Vec<u8>>) -> Option<Seq<u8>> {
    match path {
        Some(bytes) => Some(bytes@),
        None => None,
    }
}

/// Where a download of that name is saved.
pub fn save_download(downloads: Option<Vec<u8>>, home: Option<Vec<u8>>, filename: &str) -> (plan:
    Result<DownloadPlan, String>)
    ensures
        match plan {
            Ok(p) => {
                &&& download_directory(bytes_of(downloads), bytes_of(home)) == Some(p.directory@)
                &&& p.target@ == joined(p.directory@, encode_utf8(filename@))
            },
            Err(error) => {
                &&& download_directory(bytes_of(downloads), bytes_of(home)) is None
                &&& error@ == ERR_DOWNLOAD_LOCATION@
            },
        },
{
    let directory = match (downloads, home) {
        (Some(directory), _) => directory,
        (None, Some(directory)) => join(directory.as_slice(), DOWNLOADS_DIR.as_bytes()),
        (None, None) => {
            return Err(ERR_DOWNLOAD_LOCATION.to_owned());
        },
    };
    let target = join(directory.as_slice(), filename.as_bytes());
    Ok(DownloadPlan { directory, target })
}

/// What is told of a download to `target` that was saved, or was not.
pub fn download_result(target: &[u8], saved: bool) -> (result: Result<String, String>)
    ensures
        match result {
            Ok(path) => saved && path@ == path_text(target@),
            Err(error) => !saved && error@ == ERR_DOWNLOAD_FAILED@,
        },
{
    if saved {
        Ok(lossy_text(target))
    } else {
        Err(ERR_DOWNLOAD_FAILED.to_owned())
    }
}

/// The name of the file that a URL leads to.
pub fn download_file_name(url: &str) -> (name: &str)
    ensures
        name@ == file_name(url@),
{
    text_before_first(text_after_last(url, '/'), '?')
}

/// Where the web view saves a download from `url`, if there is a home directory.
pub fn download_destination(home: &Option<Vec<u8>>, url: &str) -> (destination: Option<Vec<u8>>)
    ensures
        match destination {
            Some(path) => home matches Some(directory) && path@ == joined(
                joined(directory@, encode_utf8(DOWNLOADS_DIR@)),
                encode_utf8(file_name(url@)),
            ),
            None => home is None,
        },
{
    match home {
        Some(directory) => {
            let downloads = join(directory.as_slice(), DOWNLOADS_DIR.as_bytes());
            Some(join(downloads.as_slice(), download_file_name(url).as_bytes()))
        },
        None => None,
    }
}

/// The text after the last separator does not hold it.
proof fn lemma_after_last<T>(s: Seq<T>, c: T)
    ensures
        !after_last(s, c).contains(c),
        after_last(s, c).is_suffix_of(s),
    decreases s.len(),
{
    if s.len() > 0 && s.last() != c {
        let before = s.drop_last();
        lemma_after_last(before, c);
        let tail = after_last(before, c);
        assert forall|i: int| 0 <= i < after_last(s, c).len() implies after_last(s, c)[i] != c by {
            if i < tail.len() {
                assert(tail.contains(tail[i]));
            }
        }
        assert(after_last(s, c) =~= s.subrange(s.len() - after_last(s, c).len(), s.len() as int));
    }
}

/// The name of a downloaded file is part of its URL, is no path and has no query.
pub proof fn theorem_file_names_are_plain(url: Seq<char>)
    ensures
        !file_name(url).contains('/'),
        !file_name(url).contains('?'),
        file_name(url).is_prefix_of(after_last(url, '/')),
        after_last(url, '/').is_suffix_of(url),
{
    lemma_after_last(url, '/');
    let tail = after_last(url, '/');
    lemma_count_before(tail, '?');
    let name = file_name(url);
    assert(name =~= tail.subrange(0, name.len() as int));
    assert forall|i: int| 0 <= i < name.len() implies name[i] != '/' && name[i] != '?' by {
        assert(name[i] == tail[i]);
        assert(tail.contains(tail[i]));
    }
}

/// A download is named by what follows the last slash of its URL, in full up to a query.
pub proof fn theorem_files_are_named_in_full(start: Seq<char>, name: Seq<char>, query: Seq<char>)
    requires
        !name.contains('/'),
        !name.contains('?'),
        !query.contains('/'),
    ensures
        file_name(name) == name,
        file_name(start.push('/') + name) == name,
        file_name(start.push('/') + (name.push('?') + query)) == name,
{
    let tail = name.push('?') + query;
    assert forall|i: int| 0 <= i < tail.len() implies tail[i] != '/' by {
        if i < name.len() {
            assert(name.contains(name[i]));
        } else if i > name.len() {
            assert(tail[i] == query[i - name.len() - 1]);
            assert(query.contains(query[i - name.len() - 1]));
        }
    }
    theorem_after_last_is_the_end(start, name, '/');
    theorem_after_last_is_the_end(start, tail, '/');
    theorem_before_first_is_the_beginning(name, query, '?');
}

/// The system's directory for downloads is taken where there is one, and else `Downloads` in the
/// home directory.
pub proof fn theorem_downloads_have_a_directory(directory: Seq<u8>, home: Option<Seq<u8>>)
    ensures
        download_directory(Some(directory), home) == Some(directory),
        home matches Some(place) ==> download_directory(None, home) == Some(
            joined(place, encode_utf8("Downloads"@)),
        ),
        download_directory(None, None) is None,
{
}

/// An optional path stands for its bytes.
pub proof fn theorem_bytes_stand_for_themselves(path: Vec<u8>)
    ensures
        bytes_of(Some(path)) == Some(path@),
        bytes_of(None) is None,
{
}

} // verus!
