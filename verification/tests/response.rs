use worker::{
    convert_request, convert_response, parse_header_name, parse_header_value, BodyEvent,
    BytePoll, ByteStream, Error, HeaderEntry, HeaderValue, Headers, HostFault, HostPoll,
    HostRequest, ResponseBody, StandardResponse, StreamSignal,
};

fn headers_of(pairs: &[(&str, &str)]) -> Headers {
    let mut headers = Headers::new();
    for (name, value) in pairs {
        let name = parse_header_name(name).unwrap();
        headers.append(&name, parse_header_value(value).unwrap()).unwrap();
    }
    headers
}

fn texts(list: &Vec<(String, String)>, name: &str) -> Vec<String> {
    list.iter().filter(|(n, _)| n == name).map(|(_, v)| v.clone()).collect()
}

#[test]
fn status_must_lie_between_100_and_599() {
    assert!(StandardResponse::new(99, Headers::new(), ResponseBody::Empty).is_none());
    assert!(StandardResponse::new(100, Headers::new(), ResponseBody::Empty).is_some());
    assert!(StandardResponse::new(599, Headers::new(), ResponseBody::Empty).is_some());
    assert!(StandardResponse::new(600, Headers::new(), ResponseBody::Empty).is_none());
    assert!(StandardResponse::new(0, Headers::new(), ResponseBody::Empty).is_none());
    assert!(StandardResponse::new(u16::MAX, Headers::new(), ResponseBody::Lazy).is_none());
}

#[test]
fn response_gives_back_what_it_was_made_of() {
    let response = StandardResponse::new(
        404,
        headers_of(&[("content-type", "text/plain")]),
        ResponseBody::Fixed(b"nope".to_vec()),
    )
    .unwrap();
    assert_eq!(response.status(), 404);
    assert_eq!(response.headers().entries().len(), 1);
    assert_eq!(response.into_body(), ResponseBody::Fixed(b"nope".to_vec()));
}

#[test]
fn head_is_committed_with_status_and_headers() {
    let response = StandardResponse::new(
        201,
        headers_of(&[("Content-Type", "application/json"), ("X-Id", "42")]),
        ResponseBody::Lazy,
    )
    .unwrap();
    let host = convert_response(&response).unwrap();
    assert_eq!(host.status(), 201);
    assert!(host.is_open());
    assert_eq!(host.headers().len(), 2);
    assert_eq!(texts(host.headers(), "content-type"), vec!["application/json".to_string()]);
    assert_eq!(texts(host.headers(), "x-id"), vec!["42".to_string()]);
}

#[test]
fn response_without_headers_commits_none() {
    let response = StandardResponse::new(204, Headers::new(), ResponseBody::Empty).unwrap();
    let host = convert_response(&response).unwrap();
    assert_eq!(host.status(), 204);
    assert!(host.headers().is_empty());
}

#[test]
fn value_that_is_no_text_is_refused_on_the_way_out() {
    let mut headers = headers_of(&[("a", "fine")]);
    let name = parse_header_name("x-opaque").unwrap();
    headers.append(&name, HeaderValue::from_bytes(vec![0x80, 0xff]).unwrap()).unwrap();
    let response = StandardResponse::new(200, headers, ResponseBody::Empty).unwrap();
    assert_eq!(convert_response(&response).unwrap_err(), Error::HeaderValueContent);
}

#[test]
fn lenient_in_strict_out() {
    let request = convert_request(HostRequest {
        method: "GET".to_string(),
        url: "/".to_string(),
        headers: vec![HeaderEntry {
            key: Some("x-name".to_string()),
            value: Some("caf\u{e9}".to_string()),
        }],
        body: Ok(Vec::new()),
    })
    .unwrap();
    let mut headers = Headers::new();
    for (name, value) in request.headers().entries() {
        headers.append(&name, value).unwrap();
    }
    let response = StandardResponse::new(200, headers, ResponseBody::Empty).unwrap();
    assert_eq!(convert_response(&response).unwrap_err(), Error::HeaderValueContent);
}

#[test]
fn headers_round_trip_through_request_and_response() {
    let entries = vec![
        ("set-cookie", "a=1"),
        ("Accept", "text/html"),
        ("set-cookie", "b=2"),
        ("x-empty", ""),
        ("ACCEPT", "*/*;q=0.8"),
        ("set-cookie", "a=1"),
        ("x-tab", "a\tb"),
    ];
    let request = convert_request(HostRequest {
        method: "GET".to_string(),
        url: "/".to_string(),
        headers: entries
            .iter()
            .map(|(k, v)| HeaderEntry { key: Some(k.to_string()), value: Some(v.to_string()) })
            .collect(),
        body: Ok(Vec::new()),
    })
    .unwrap();
    let mut headers = Headers::new();
    for (name, value) in request.headers().entries() {
        headers.append(&name, value).unwrap();
    }
    let response = StandardResponse::new(200, headers, ResponseBody::Empty).unwrap();
    let host = convert_response(&response).unwrap();
    assert_eq!(host.headers().len(), entries.len());
    for name in ["set-cookie", "accept", "x-empty", "x-tab", "absent"] {
        let expected: Vec<String> = entries
            .iter()
            .filter(|(k, _)| k.to_lowercase() == name)
            .map(|(_, v)| v.to_string())
            .collect();
        assert_eq!(texts(host.headers(), name), expected);
    }
}

#[test]
fn three_chunks_then_end() {
    let response = StandardResponse::new(200, Headers::new(), ResponseBody::Lazy).unwrap();
    let mut host = convert_response(&response).unwrap();
    let b1 = b"first".to_vec();
    let b2 = b"".to_vec();
    let b3 = b"third and last".to_vec();
    assert_eq!(host.push_event(&BodyEvent::Chunk(b1.clone())), Some(StreamSignal::Push(b1)));
    assert!(host.is_open());
    assert_eq!(host.push_event(&BodyEvent::Chunk(b2.clone())), Some(StreamSignal::Push(b2)));
    assert_eq!(host.push_event(&BodyEvent::Chunk(b3.clone())), Some(StreamSignal::Push(b3)));
    assert!(host.is_open());
    assert_eq!(host.push_event(&BodyEvent::End), Some(StreamSignal::Close));
    assert!(!host.is_open());
    assert_eq!(host.push_event(&BodyEvent::Chunk(b"late".to_vec())), None);
    assert_eq!(host.push_event(&BodyEvent::End), None);
}

#[test]
fn three_chunks_then_end_in_one_run() {
    let response = StandardResponse::new(200, Headers::new(), ResponseBody::Lazy).unwrap();
    let mut host = convert_response(&response).unwrap();
    let events = vec![
        BodyEvent::Chunk(vec![1]),
        BodyEvent::Chunk(vec![2, 2]),
        BodyEvent::Chunk(vec![3, 3, 3]),
        BodyEvent::End,
    ];
    assert_eq!(
        host.push_events(&events),
        vec![
            StreamSignal::Push(vec![1]),
            StreamSignal::Push(vec![2, 2]),
            StreamSignal::Push(vec![3, 3, 3]),
            StreamSignal::Close,
        ],
    );
    assert!(!host.is_open());
}

#[test]
fn fault_after_first_chunk_aborts_and_leaves_the_head() {
    let response = StandardResponse::new(
        206,
        headers_of(&[("content-type", "text/plain"), ("x-a", "1")]),
        ResponseBody::Lazy,
    )
    .unwrap();
    let mut host = convert_response(&response).unwrap();
    let head = host.headers().clone();
    let events = vec![
        BodyEvent::Chunk(b"b1".to_vec()),
        BodyEvent::Fault("connection reset".to_string()),
        BodyEvent::Chunk(b"b2".to_vec()),
        BodyEvent::End,
    ];
    assert_eq!(
        host.push_events(&events),
        vec![
            StreamSignal::Push(b"b1".to_vec()),
            StreamSignal::Abort("connection reset".to_string()),
        ],
    );
    assert!(!host.is_open());
    assert_eq!(host.status(), 206);
    assert_eq!(host.headers(), &head);
}

#[test]
fn no_events_no_signals() {
    let response = StandardResponse::new(200, Headers::new(), ResponseBody::Lazy).unwrap();
    let mut host = convert_response(&response).unwrap();
    assert!(host.push_events(&Vec::new()).is_empty());
    assert!(host.is_open());
}

#[test]
fn resident_bodies_yield_one_chunk_unless_empty() {
    assert_eq!(ResponseBody::Empty.into_events(), Some(vec![BodyEvent::End]));
    assert_eq!(ResponseBody::Fixed(Vec::new()).into_events(), Some(vec![BodyEvent::End]));
    assert_eq!(
        ResponseBody::Fixed(b"Hi!".to_vec()).into_events(),
        Some(vec![BodyEvent::Chunk(b"Hi!".to_vec()), BodyEvent::End]),
    );
    assert_eq!(ResponseBody::Lazy.into_events(), None);
}

#[test]
fn body_goes_in_and_out_unchanged() {
    for len in 0usize..=200 {
        let body: Vec<u8> = (0..len).map(|i| (i * 31 + 5) as u8).collect();
        let request = convert_request(HostRequest {
            method: "POST".to_string(),
            url: "/echo".to_string(),
            headers: Vec::new(),
            body: Ok(body.clone()),
        })
        .unwrap();
        let response = StandardResponse::new(
            200,
            Headers::new(),
            ResponseBody::Fixed(request.into_body()),
        )
        .unwrap();
        let mut host = convert_response(&response).unwrap();
        let events = response.into_body().into_events().unwrap();
        let signals = host.push_events(&events);
        assert_eq!(signals.last(), Some(&StreamSignal::Close));
        let mut seen = Vec::new();
        for signal in &signals {
            if let StreamSignal::Push(bytes) = signal {
                seen.extend_from_slice(bytes);
            }
        }
        assert_eq!(seen, body);
    }
}

#[test]
fn get_root_answered_with_hi() {
    let request = convert_request(HostRequest {
        method: "GET".to_string(),
        url: "/".to_string(),
        headers: Vec::new(),
        body: Ok(Vec::new()),
    })
    .unwrap();
    assert_eq!(request.method(), &worker::Method::Get);
    assert_eq!(request.uri(), "/");
    let response =
        StandardResponse::new(200, Headers::new(), ResponseBody::Fixed(b"Hi!".to_vec())).unwrap();
    let mut host = convert_response(&response).unwrap();
    assert_eq!(host.status(), 200);
    let events = response.into_body().into_events().unwrap();
    assert_eq!(
        host.push_events(&events),
        vec![StreamSignal::Push(b"Hi!".to_vec()), StreamSignal::Close],
    );
}

#[test]
fn signal_for_each_kind_of_event() {
    assert_eq!(
        worker::streams::signal_for(&BodyEvent::Chunk(vec![9, 8])),
        StreamSignal::Push(vec![9, 8]),
    );
    assert_eq!(worker::streams::signal_for(&BodyEvent::End), StreamSignal::Close);
    assert_eq!(
        worker::streams::signal_for(&BodyEvent::Fault("x".to_string())),
        StreamSignal::Abort("x".to_string()),
    );
}

#[test]
fn byte_stream_passes_polls_on() {
    let mut stream = ByteStream::new();
    assert_eq!(stream.poll_next(HostPoll::Pending), BytePoll::Pending);
    assert_eq!(stream.poll_next(HostPoll::Chunk(vec![1, 2, 3])), BytePoll::Chunk(vec![1, 2, 3]));
    assert_eq!(stream.poll_next(HostPoll::Chunk(Vec::new())), BytePoll::Chunk(Vec::new()));
    assert_eq!(stream.poll_next(HostPoll::Ended), BytePoll::Ended);
}

#[test]
fn byte_stream_turns_faults_into_failures() {
    let mut stream = ByteStream::new();
    let fault = HostFault { text: Some("aborted".to_string()), error_text: None };
    assert_eq!(
        stream.poll_next(HostPoll::Fault(fault)),
        BytePoll::Failed(Error::JsError("aborted".to_string())),
    );
    let fault = HostFault { text: None, error_text: Some("Error: x".to_string()) };
    assert_eq!(
        stream.poll_next(HostPoll::Fault(fault)),
        BytePoll::Failed(Error::JsError("Error: x".to_string())),
    );
    let fault = HostFault { text: None, error_text: None };
    assert_eq!(stream.poll_next(HostPoll::Fault(fault)), BytePoll::Failed(Error::Internal));
}

#[test]
fn closed_stream_stays_closed_after_a_run() {
    let response = StandardResponse::new(200, Headers::new(), ResponseBody::Lazy).unwrap();
    let mut host = convert_response(&response).unwrap();
    host.push_events(&vec![BodyEvent::Chunk(vec![1]), BodyEvent::Chunk(vec![2])]);
    assert!(host.is_open());
    host.push_events(&vec![BodyEvent::Chunk(vec![3]), BodyEvent::End, BodyEvent::Chunk(vec![4])]);
    assert!(!host.is_open());
    assert!(host.push_events(&vec![BodyEvent::Chunk(vec![5])]).is_empty());
    assert!(!host.is_open());
    assert!(host.push_events(&Vec::new()).is_empty());
    assert!(!host.is_open());
}
