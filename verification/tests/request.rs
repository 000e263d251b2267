use worker::{
    assemble_request, collect_headers, convert_request, Error, HeaderEntry, HostFault,
    HostRequest, Method, StandardRequest,
};

fn entry(key: &str, value: &str) -> HeaderEntry {
    HeaderEntry { key: Some(key.to_string()), value: Some(value.to_string()) }
}

fn host_request(method: &str, url: &str, headers: Vec<HeaderEntry>, body: &[u8]) -> HostRequest {
    HostRequest {
        method: method.to_string(),
        url: url.to_string(),
        headers,
        body: Ok(body.to_vec()),
    }
}

fn header_pairs(request: &StandardRequest) -> Vec<(String, Vec<u8>)> {
    request
        .headers()
        .entries()
        .into_iter()
        .map(|(name, value)| (name.as_str().to_string(), value.as_bytes().to_vec()))
        .collect()
}

fn values_of(request: &StandardRequest, name: &str) -> Vec<Vec<u8>> {
    header_pairs(request).into_iter().filter(|(n, _)| n == name).map(|(_, v)| v).collect()
}

#[test]
fn plain_get_is_materialized() {
    let request = convert_request(host_request("GET", "/", Vec::new(), b"")).unwrap();
    assert_eq!(request.method(), &Method::Get);
    assert_eq!(request.uri(), "/");
    assert!(request.body().is_empty());
    assert!(header_pairs(&request).is_empty());
}

#[test]
fn request_keeps_method_url_headers_and_body() {
    let headers = vec![entry("Content-Type", "text/plain"), entry("X-Trace", "abc")];
    let request = convert_request(host_request(
        "POST",
        "https://example.com/submit?x=1",
        headers,
        b"payload",
    ))
    .unwrap();
    assert_eq!(request.method(), &Method::Post);
    assert_eq!(request.uri(), "https://example.com/submit?x=1");
    assert_eq!(request.body(), b"payload");
    assert_eq!(header_pairs(&request).len(), 2);
    assert_eq!(values_of(&request, "content-type"), vec![b"text/plain".to_vec()]);
    assert_eq!(values_of(&request, "x-trace"), vec![b"abc".to_vec()]);
    assert_eq!(request.into_body(), b"payload".to_vec());
}

#[test]
fn repeated_names_keep_every_value_in_order() {
    let headers = vec![
        entry("Set-Cookie", "a=1"),
        entry("host", "example.com"),
        entry("set-cookie", "b=2"),
        entry("SET-COOKIE", "c=3"),
    ];
    let request = convert_request(host_request("GET", "/", headers, b"")).unwrap();
    assert_eq!(header_pairs(&request).len(), 4);
    assert_eq!(
        values_of(&request, "set-cookie"),
        vec![b"a=1".to_vec(), b"b=2".to_vec(), b"c=3".to_vec()],
    );
    assert_eq!(values_of(&request, "host"), vec![b"example.com".to_vec()]);
}

#[test]
fn malformed_entries_are_skipped_without_aborting() {
    let headers = vec![
        entry("", "empty name"),
        entry("accept", "text/html"),
        entry("x-bad", "line\nbreak"),
        entry("bad name", "v"),
        HeaderEntry { key: None, value: Some("orphan".to_string()) },
        HeaderEntry { key: Some("x-lonely".to_string()), value: None },
        HeaderEntry { key: None, value: None },
        entry("x-nul", "a\0b"),
        entry("host", "example.com"),
    ];
    let request = convert_request(host_request("GET", "/", headers, b"")).unwrap();
    assert_eq!(
        header_pairs(&request),
        vec![
            ("accept".to_string(), b"text/html".to_vec()),
            ("host".to_string(), b"example.com".to_vec()),
        ],
    );
}

#[test]
fn only_malformed_entries_give_no_headers() {
    let headers = vec![entry("", "v"), entry("x", "\u{7f}"), entry("a b", "v")];
    let request = convert_request(host_request("GET", "/", headers, b"")).unwrap();
    assert!(header_pairs(&request).is_empty());
}

#[test]
fn values_beyond_ascii_are_taken_in() {
    let request =
        convert_request(host_request("GET", "/", vec![entry("x-name", "caf\u{e9}")], b""))
            .unwrap();
    assert_eq!(values_of(&request, "x-name"), vec!["caf\u{e9}".as_bytes().to_vec()]);
}

#[test]
fn malformed_method_is_refused() {
    let refused = convert_request(host_request("NOT A METHOD", "/", Vec::new(), b""));
    assert_eq!(refused.unwrap_err(), Error::Method);
    let refused = convert_request(host_request("", "/", Vec::new(), b""));
    assert_eq!(refused.unwrap_err(), Error::Method);
}

#[test]
fn method_is_looked_at_before_the_body_and_the_uri() {
    let request = HostRequest {
        method: "BAD METHOD".to_string(),
        url: String::new(),
        headers: Vec::new(),
        body: Err(HostFault { text: Some("read failed".to_string()), error_text: None }),
    };
    assert_eq!(convert_request(request).unwrap_err(), Error::Method);
}

#[test]
fn failed_body_read_surfaces_the_fault() {
    let request = HostRequest {
        method: "POST".to_string(),
        url: "/".to_string(),
        headers: Vec::new(),
        body: Err(HostFault { text: None, error_text: Some("TypeError: locked".to_string()) }),
    };
    assert_eq!(
        convert_request(request).unwrap_err(),
        Error::JsError("TypeError: locked".to_string()),
    );
    let request = HostRequest {
        method: "POST".to_string(),
        url: "/".to_string(),
        headers: Vec::new(),
        body: Err(HostFault { text: None, error_text: None }),
    };
    assert_eq!(convert_request(request).unwrap_err(), Error::Internal);
}

#[test]
fn body_fault_comes_before_the_uri() {
    let request = HostRequest {
        method: "GET".to_string(),
        url: String::new(),
        headers: Vec::new(),
        body: Err(HostFault { text: Some("gone".to_string()), error_text: None }),
    };
    assert_eq!(convert_request(request).unwrap_err(), Error::JsError("gone".to_string()));
}

#[test]
fn refused_uri_is_an_http_error() {
    let refused = convert_request(host_request("GET", "", Vec::new(), b"")).unwrap_err();
    assert_eq!(refused, Error::Http("empty string".to_string()));
    let refused = convert_request(host_request("GET", "http://", Vec::new(), b"")).unwrap_err();
    assert!(matches!(refused, Error::Http(_)));
    let refused = convert_request(host_request("GET", "/a b", Vec::new(), b"")).unwrap_err();
    assert_eq!(refused, Error::Http("invalid uri character".to_string()));
}

#[test]
fn uri_refusal_is_that_of_the_http_crate() {
    for url in ["", "/", "*", "/a b", "http://", "https://example.com/x", "example.com", "?", "\u{e9}", "http://[::1"] {
        let ours = convert_request(host_request("GET", url, Vec::new(), b""));
        match http::Request::builder().uri(url).body(()) {
            Ok(_) => assert_eq!(ours.unwrap().uri(), url),
            Err(e) => assert_eq!(ours.unwrap_err(), Error::Http(e.to_string())),
        }
    }
}

#[test]
fn overlong_uri_is_refused() {
    let url = format!("/{}", "a".repeat(70_000));
    let refused = convert_request(host_request("GET", &url, Vec::new(), b"")).unwrap_err();
    assert_eq!(refused, Error::Http("uri too long".to_string()));
}

#[test]
fn assembling_goes_by_the_refusal_it_is_given() {
    let built = assemble_request(host_request("GET", "/ok", Vec::new(), b"x"), None).unwrap();
    assert_eq!(built.uri(), "/ok");
    assert_eq!(built.body(), b"x");
    let refused =
        assemble_request(host_request("GET", "/ok", Vec::new(), b"x"), Some("no".to_string()));
    assert_eq!(refused.unwrap_err(), Error::Http("no".to_string()));
    let refused =
        assemble_request(host_request("G T", "/ok", Vec::new(), b"x"), Some("no".to_string()));
    assert_eq!(refused.unwrap_err(), Error::Method);
}

#[test]
fn body_is_kept_byte_for_byte() {
    for len in 0usize..=300 {
        let body: Vec<u8> = (0..len).map(|i| (i * 7 + len) as u8).collect();
        let request = convert_request(host_request("PUT", "/", Vec::new(), &body)).unwrap();
        assert_eq!(request.body(), &body[..]);
        assert_eq!(request.into_body(), body);
    }
}

#[test]
fn too_many_names_are_refused_for_want_of_room() {
    let headers: Vec<HeaderEntry> =
        (0..40000).map(|i| entry(&format!("x-{}", i), "v")).collect();
    let refused = convert_request(host_request("GET", "/", headers, b"")).unwrap_err();
    assert_eq!(refused, Error::Http("max size reached".to_string()));
}

#[test]
fn collecting_skips_and_keeps() {
    let headers = collect_headers(&vec![
        entry("A", "1"),
        entry("\u{0}", "2"),
        entry("a", "3"),
    ])
    .unwrap();
    let pairs: Vec<(String, Vec<u8>)> = headers
        .entries()
        .into_iter()
        .map(|(n, v)| (n.as_str().to_string(), v.as_bytes().to_vec()))
        .collect();
    assert_eq!(pairs, vec![("a".to_string(), b"1".to_vec()), ("a".to_string(), b"3".to_vec())]);
}

#[test]
fn extension_method_is_taken_over() {
    let request = convert_request(host_request("PROPFIND", "/dav", Vec::new(), b"")).unwrap();
    assert_eq!(request.method(), &Method::Extension("PROPFIND".to_string()));
}

#[test]
fn a_request_of_ones_own_making() {
    let request = StandardRequest::new(
        Method::Delete,
        "/items/7".to_string(),
        worker::Headers::new(),
        vec![1, 2, 3],
    );
    assert_eq!(request.method(), &Method::Delete);
    assert_eq!(request.uri(), "/items/7");
    assert_eq!(request.body(), &[1, 2, 3]);
    assert!(request.headers().entries().is_empty());
}

#[test]
fn empty_name_is_skipped_beside_accept() {
    let headers = vec![entry("", "x"), entry("accept", "*/*")];
    let request = convert_request(host_request("GET", "/", headers, b"")).unwrap();
    assert_eq!(header_pairs(&request), vec![("accept".to_string(), b"*/*".to_vec())]);
}

#[test]
fn control_character_in_a_value_is_skipped_beside_accept() {
    let headers = vec![entry("x-a", "a\u{1}b"), entry("accept", "*/*")];
    let request = convert_request(host_request("GET", "/", headers, b"")).unwrap();
    assert_eq!(header_pairs(&request), vec![("accept".to_string(), b"*/*".to_vec())]);
    assert!(values_of(&request, "x-a").is_empty());
}

#[test]
fn two_cookies_are_kept_in_order() {
    let headers = vec![entry("set-cookie", "a=1"), entry("set-cookie", "b=2")];
    let request = convert_request(host_request("GET", "/", headers, b"")).unwrap();
    assert_eq!(values_of(&request, "set-cookie"), vec![b"a=1".to_vec(), b"b=2".to_vec()]);
    assert_eq!(header_pairs(&request).len(), 2);
}

#[test]
fn as_many_names_as_there_is_sure_room_for_are_taken() {
    let room = worker::headers::SURE_ROOM;
    assert_eq!(room, 6554);
    let headers: Vec<HeaderEntry> = (0..room).map(|i| entry(&format!("x-{}", i), "v")).collect();
    let request = convert_request(host_request("GET", "/", headers, b"body")).unwrap();
    assert_eq!(header_pairs(&request).len(), room);
    assert_eq!(request.body(), b"body");
}

#[test]
fn malformed_entries_do_not_count_against_the_room() {
    let room = worker::headers::SURE_ROOM;
    let mut headers: Vec<HeaderEntry> = Vec::new();
    for i in 0..room {
        headers.push(entry("", "skipped"));
        headers.push(entry(&format!("n{}", i % 50), &format!("v{}", i)));
        headers.push(entry("x", "bad\nvalue"));
    }
    let request = convert_request(host_request("GET", "/", headers, b"")).unwrap();
    assert_eq!(header_pairs(&request).len(), room);
    assert_eq!(values_of(&request, "n7").len(), room / 50 + if 7 < room % 50 { 1 } else { 0 });
}
