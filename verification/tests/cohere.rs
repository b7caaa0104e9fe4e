use smg::cohere::{
    attempt, forwarded_headers, original_content_type, upstream_url, Answer, CohereChatEndpoint,
    CohereChatRequest, CohereRoute, Header, RouteMetric, Sent,
};

fn header(name: &str, value: &str, forwardable: bool) -> Header {
    Header { name: name.to_string(), value: value.as_bytes().to_vec(), forwardable }
}

#[test]
fn metadata_is_read_and_bytes_are_kept() {
    let body = b"{ \"model\": \"  command-r \", \"stream\": true, \"x\": [1] }".to_vec();
    let request =
        CohereChatRequest::from_bytes(CohereChatEndpoint::V2, body.clone()).unwrap();
    assert_eq!(request.model(), "command-r");
    assert!(request.stream());
    assert_eq!(request.body(), &body);
    assert_eq!(request.endpoint(), CohereChatEndpoint::V2);
    assert_eq!(request.endpoint().path(), "/v2/chat");
    assert_eq!(CohereChatEndpoint::V1.path(), "/v1/chat");
}

#[test]
fn stream_defaults_to_false() {
    let body = b"{\"model\":\"m\",\"stream\":\"yes\"}".to_vec();
    let request = CohereChatRequest::from_bytes(CohereChatEndpoint::V1, body).unwrap();
    assert!(!request.stream());
}

#[test]
fn requests_without_a_model_are_refused() {
    for body in ["{}", "{\"model\":\"  \"}", "{\"model\":3}", "[1]"] {
        let error =
            CohereChatRequest::from_bytes(CohereChatEndpoint::V1, body.as_bytes().to_vec())
                .unwrap_err();
        assert_eq!(error.message(), "Cohere chat routing requires a non-empty 'model' field");
    }
    let error =
        CohereChatRequest::from_bytes(CohereChatEndpoint::V1, b"{".to_vec()).unwrap_err();
    assert!(error.message().starts_with("Invalid Cohere JSON body: EOF"));
}

#[test]
fn found_members_come_to_metadata() {
    let fields = Ok((Some(" m ".to_string()), None));
    let request =
        CohereChatRequest::from_fields(CohereChatEndpoint::V1, vec![1], fields).unwrap();
    assert_eq!(request.model(), "m");
    let error = CohereChatRequest::from_fields(
        CohereChatEndpoint::V1,
        vec![1],
        Err("bad".to_string()),
    )
    .unwrap_err();
    assert_eq!(error.message(), "Invalid Cohere JSON body: bad");
}

#[test]
fn requests_go_to_the_worker_under_their_path() {
    assert_eq!(upstream_url("http://w//", CohereChatEndpoint::V1), "http://w/v1/chat");
    assert_eq!(upstream_url("http://w", CohereChatEndpoint::V2), "http://w/v2/chat");
    let headers = vec![
        header("X-A", "1", true),
        header("Authorization", "secret", true),
        header("Host", "h", false),
        header("CONTENT-TYPE", "text/json", true),
    ];
    assert_eq!(forwarded_headers(&headers), vec![0, 3]);
    assert_eq!(original_content_type(&headers), b"text/json");
    assert_eq!(original_content_type(&vec![]), b"application/json");
    let foreign = Header { value: vec![b'a', 0xe4], ..header("Content-Type", "", true) };
    assert_eq!(original_content_type(&vec![foreign]), vec![b'a', 0xe4]);
}

#[test]
fn a_route_from_start_to_end() {
    let body = b"{\"model\":\"m\",\"stream\":true}".to_vec();
    let request =
        CohereChatRequest::from_bytes(CohereChatEndpoint::V2, body.clone()).unwrap();
    let (mut route, metric) = CohereRoute::begin(request);
    assert_eq!(
        metric,
        RouteMetric::Request { endpoint: CohereChatEndpoint::V2, streaming: true }
    );
    let upstream = route.on_worker(Some("http://w/"), &vec![]).ok().unwrap();
    assert_eq!(upstream.url, "http://w/v2/chat");
    assert_eq!(upstream.accept, Some("text/event-stream"));
    assert_eq!(upstream.body, body);
    assert_eq!(
        route.on_retryable(true),
        RouteMetric::Retry { endpoint: CohereChatEndpoint::V2 }
    );
    let (recorded, answer) =
        attempt(Sent::Streaming { status: 200, content_type: Some(b"a/b".to_vec()) });
    assert_eq!(recorded, 200);
    assert_eq!(
        route.conclude(&answer),
        RouteMetric::Duration { endpoint: CohereChatEndpoint::V2 }
    );
}

#[test]
fn a_route_without_workers() {
    let request =
        CohereChatRequest::from_bytes(CohereChatEndpoint::V1, b"{\"model\":\"m\"}".to_vec())
            .unwrap();
    let (mut route, _) = CohereRoute::begin(request);
    assert_eq!(
        route.on_worker(None, &vec![]).err(),
        Some(RouteMetric::NoWorkers { endpoint: CohereChatEndpoint::V1 })
    );
}

#[test]
fn failures_are_answered() {
    let (recorded, answer) = attempt(Sent::Failed { error: "refused".to_string() });
    assert_eq!(recorded, 503);
    match answer {
        Answer::Error { answer } => {
            assert_eq!(answer.status, 503);
            assert_eq!(answer.code, "upstream_error");
            assert_eq!(answer.message, "Failed to contact upstream: refused");
        }
        _ => panic!("expected an error"),
    }
    let (recorded, answer) = attempt(Sent::Answered {
        status: 200,
        content_type: None,
        body: Err("cut".to_string()),
    });
    assert_eq!(recorded, 200);
    assert!(!answer.is_success());
    let (recorded, answer) =
        attempt(Sent::Answered { status: 42, content_type: None, body: Ok(vec![1]) });
    assert_eq!(recorded, 500);
    match answer {
        Answer::Upstream { status, body, .. } => {
            assert_eq!(status, 500);
            assert_eq!(body, vec![1]);
        }
        _ => panic!("expected the upstream answer"),
    }
}
