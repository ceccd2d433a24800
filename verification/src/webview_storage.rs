//! Where the web view keeps its data.

use crate::path::{is_under, join, joined, lemma_joined_parts, lemma_no_parts, parts};
use vstd::prelude::*;
use vstd::utf8::encode_utf8;

verus! {

/// The name of the web view's directory.
pub const WEBVIEW_DIR: &'static str = "webview";

/// Returns the persistent WebView storage directory under the app data folder.
pub fn persistent_webview_data_dir(app_data_dir: &[u8]) -> (dir: Vec<u8>)
    ensures
        dir@ == joined(app_data_dir@, encode_utf8(WEBVIEW_DIR@)),
        is_under(dir@, app_data_dir@),
{
    let dir = join(app_data_dir, WEBVIEW_DIR.as_bytes());
    proof {
        reveal_strlit("webview");
        let name = encode_utf8(WEBVIEW_DIR@);
        vstd::utf8::is_ascii_chars_encode_utf8(WEBVIEW_DIR@);
        assert(name[0] == 'w' as u8);
        if app_data_dir@.len() > 0 {
            lemma_joined_parts(app_data_dir@, name);
            assert(parts(dir@).subrange(0, parts(app_data_dir@).len() as int) =~= parts(
                app_data_dir@,
            ));
        } else {
            lemma_no_parts(app_data_dir@);
            assert(parts(dir@).subrange(0, 0) =~= parts(app_data_dir@));
        }
    }
    dir
}

} // verus!
