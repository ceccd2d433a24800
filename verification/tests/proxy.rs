use proton_drive::proxy::{
    collect_headers, is_forwarded, method_or_get, proxy_request, proxy_response, request_headers,
    request_method, target_url, ProxyRequest, RawResponse,
};
use proton_drive::response_headers::ResponseHeaders;

fn pair(name: &str, value: &str) -> (String, String) {
    (name.to_string(), value.to_string())
}

fn raw(name: &str, value: &[u8]) -> (String, Vec<u8>) {
    (name.to_string(), value.to_vec())
}

fn value(headers: &ResponseHeaders, name: &str) -> Option<String> {
    headers.get(name).cloned()
}

#[test]
fn targets() {
    for (url, expected) in [
        ("https://localhost/api/core?x=1", "https://mail.proton.me/api/core?x=1"),
        ("http://localhost/api/", "https://mail.proton.me/api/"),
        ("https://localhost/apis", "https://localhost/apis"),
        ("https://example.com/api/x", "https://example.com/api/x"),
        ("http://example.com", "http://example.com"),
        ("tauri://localhost/api/core/api", "https://mail.proton.me/api/core/api"),
        ("tauri://localhost/x/apix", "https://mail.proton.me/apix"),
        ("tauri://localhost/x", "tauri://localhost/x"),
        ("/api/core", "https://mail.proton.me/api/core"),
        ("api/core", "https://mail.proton.me/api/core"),
        ("", "https://mail.proton.me/"),
    ] {
        assert_eq!(target_url(url), expected);
    }
}

#[test]
fn methods() {
    assert_eq!(request_method("post"), "POST");
    assert_eq!(request_method("Purge"), "PURGE");
    assert_eq!(request_method("ge t"), "GET");
    assert_eq!(request_method(""), "GET");
    assert_eq!(request_method("stra\u{df}e"), "STRASSE");
    assert_eq!(request_method("p\u{e9}"), "GET");
    assert_eq!(method_or_get("x!#$%&'*+-.^_`|~9"), "x!#$%&'*+-.^_`|~9");
    assert_eq!(method_or_get("A/B"), "GET");
}

#[test]
fn host_and_cookie_headers_stay() {
    let headers = vec![
        pair("Accept", "a"),
        pair("HOST", "h"),
        pair("Cookie", "c"),
        pair("coo\u{212a}ie", "kelvin"),
        pair("x-pm-uid", "u"),
    ];
    assert_eq!(
        request_headers(&headers),
        vec![pair("Accept", "a"), pair("x-pm-uid", "u")]
    );
    let mixed = vec![pair("\u{c4}pfel", "1"), pair("hOsT", "h"), pair("Accept", "a")];
    assert_eq!(
        request_headers(&mixed),
        vec![pair("\u{c4}pfel", "1"), pair("Accept", "a")]
    );
    assert!(is_forwarded("cookies"));
    assert!(!is_forwarded("host"));
    assert!(!is_forwarded("cookie"));
}

#[test]
fn requests_are_sent() {
    let outgoing = proxy_request(ProxyRequest {
        method: "put".to_string(),
        url: "/api/x".to_string(),
        headers: vec![pair("host", "h"), pair("a", "b")],
        body: Some("text".to_string()),
    });
    assert_eq!(outgoing.method, "PUT");
    assert_eq!(outgoing.url, "https://mail.proton.me/api/x");
    assert_eq!(outgoing.headers, vec![pair("a", "b")]);
    assert_eq!(outgoing.body.as_deref(), Some("text"));
}

#[test]
fn reply_headers_are_collected() {
    let headers = collect_headers(&vec![
        raw("a", b"1"),
        raw("Set-Cookie", b"x=1; Path=/"),
        raw("a", b"2\t3"),
        raw("b", b"\xff"),
        raw("c", b"bad\x7f"),
        raw("set-cookie", b"y=2"),
        raw("set-cookie", b"z=\x01"),
    ]);
    assert_eq!(value(&headers, "a").as_deref(), Some("2\t3"));
    assert_eq!(value(&headers, "b"), None);
    assert_eq!(value(&headers, "c"), None);
    assert_eq!(value(&headers, "set-cookie"), None);
    let cookies = value(&headers, "x-set-cookie").unwrap();
    assert_eq!(cookies, "x=1; Path=/|||y=2");
    let parts: Vec<&str> = cookies.split("|||").collect();
    assert_eq!(parts, vec!["x=1; Path=/", "y=2"]);
    assert_eq!(headers.into_entries().len(), 2);
}

#[test]
fn cookies_replace_a_header_of_the_same_name() {
    let headers = collect_headers(&vec![raw("x-set-cookie", b"other"), raw("SET-COOKIE", b"a=b")]);
    assert_eq!(headers.into_entries(), vec![pair("x-set-cookie", "a=b")]);
    let headers = collect_headers(&vec![raw("x-set-cookie", b"other")]);
    assert_eq!(headers.into_entries(), vec![pair("x-set-cookie", "other")]);
}

#[test]
fn cookies_with_leading_bars_split_back() {
    let headers = collect_headers(&vec![
        raw("set-cookie", b"a"),
        raw("set-cookie", b"|b"),
        raw("set-cookie", b""),
        raw("set-cookie", b"c|"),
    ]);
    let cookies = value(&headers, "x-set-cookie").unwrap();
    let parts: Vec<&str> = cookies.split("|||").collect();
    assert_eq!(parts, vec!["a", "|b", "", "c|"]);
}

#[test]
fn replies_are_handed_on() {
    let response = proxy_response(Some(RawResponse {
        status: 422,
        headers: vec![raw("a", b"b")],
        body: Some("{}".to_string()),
    }))
    .unwrap();
    assert_eq!(response.status, 422);
    assert_eq!(response.body, "{}");
    assert_eq!(response.headers.into_entries(), vec![pair("a", "b")]);
    let empty = proxy_response(Some(RawResponse {
        status: 200,
        headers: vec![],
        body: None,
    }))
    .unwrap();
    assert_eq!(empty.body, "");
    assert_eq!(proxy_response(None).unwrap_err(), "Request failed");
}

#[test]
fn headers_are_a_map() {
    let mut headers = ResponseHeaders::new();
    headers.insert("a".to_string(), "1".to_string());
    headers.insert("b".to_string(), "2".to_string());
    headers.insert("a".to_string(), "3".to_string());
    assert_eq!(value(&headers, "a").as_deref(), Some("3"));
    assert_eq!(value(&headers, "b").as_deref(), Some("2"));
    assert_eq!(value(&headers, "c"), None);
    assert_eq!(headers.into_entries(), vec![pair("a", "3"), pair("b", "2")]);
}
