//! The logic of a desktop client for Proton Drive.
//!
//! Windows, files and the network are the caller's: it tells the functions here what it found and
//! does what they decide. The app is for Unix systems, and file system paths are theirs.

pub mod captcha;
pub mod downloads;
pub mod known_files;
pub mod live_sync;
pub mod navigation;
pub mod path;
pub mod proton_navigation;
pub mod proxy;
pub mod response_headers;
pub mod sync_commands;
pub mod text;
pub mod url_log;
pub mod web_url;
pub mod webview_cookies;
pub mod webview_storage;
pub mod worker_support;
