# proton_drive

The logic of a desktop client for Proton Drive, verified with Verus.

- `src/` is the library. It decides: where a navigation goes, what is sent for a request of the web
  app and what is handed back, which file a change from the remote side touches and which changes
  are reported, which page may give commands, where downloads and the web view's data lie. Windows,
  files and the network are not its business: it is told what was found and says what is to be done.
- `app/` opens the window, watches the folder, reads and writes files and sends requests.
- `tests/` run the library.

Paths are those of Unix: bytes, with `/` between the names.

What is believed without proof are the wrappers around outside functions: `parse_url`
(`web_url.rs`), `parse_cookie` (`webview_cookies.rs`), `decode_base64` (`live_sync.rs`),
`http_method` and `header_value_text` (`proxy.rs`), `lossy_text` (`path.rs`), `to_lowercase` and
`to_uppercase` (`text.rs`). Each says in its comment what it claims.
