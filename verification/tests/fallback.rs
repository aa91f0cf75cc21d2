use axum::http::{HeaderMap, HeaderName, HeaderValue, Response, Version};
use mcp_cache_ci::base_url::derive_base_url;
use mcp_cache_ci::fallback::{
    plan_from_fields, plan_request, Exchange, ExchangeAction, ExchangeEvent, FallbackError,
    InboundRequest, OutboundRequest, RequestTarget, MAX_BODY_BYTES,
};
use mcp_cache_ci::headers::Header;
use mcp_cache_ci::method::forward_method;
use mcp_cache_ci::response::{relay_fields, relay_reply, MAX_NAME_LEN, NAME_LIMIT, NAME_ROOM};

fn map(fields: &[(&str, &str)]) -> HeaderMap<HeaderValue> {
    let mut res = HeaderMap::new();
    for (name, value) in fields {
        res.append(
            HeaderName::from_bytes(name.as_bytes()).unwrap(),
            HeaderValue::from_str(value).unwrap(),
        );
    }
    res
}

fn target(text: &str) -> RequestTarget {
    RequestTarget { path_and_query: Some(text.to_string()), path: "/unused".to_string() }
}

fn inbound(method: &str, path: &str, fields: &[(&str, &str)]) -> InboundRequest {
    InboundRequest { method: method.to_string(), target: target(path), headers: map(fields) }
}

fn header(name: &str, value: &[u8]) -> Header {
    Header { name: name.to_string(), value: value.to_vec() }
}

fn pairs(request: &OutboundRequest) -> Vec<(String, String)> {
    request
        .headers
        .iter()
        .map(|h| (h.name.clone(), String::from_utf8(h.value.clone()).unwrap()))
        .collect()
}

fn text_pairs(fields: &[(&str, &str)]) -> Vec<(String, String)> {
    fields.iter().map(|(n, v)| (n.to_string(), v.to_string())).collect()
}

fn values(response: &Response<Vec<u8>>, name: &str) -> Vec<String> {
    response
        .headers()
        .get_all(name)
        .iter()
        .map(|v| v.to_str().unwrap().to_string())
        .collect()
}

fn rejected(step: Option<(Exchange, ExchangeAction)>) -> FallbackError {
    match step {
        Some((Exchange::Finished, ExchangeAction::Reject(error))) => error,
        _ => panic!("not rejected"),
    }
}

fn sent() -> Exchange {
    let (exchange, _) = Exchange::start("http://b".to_string(), inbound("GET", "/x", &[]));
    match exchange.step(ExchangeEvent::BodyRead(vec![])) {
        Some((next, ExchangeAction::Send(_))) => next,
        _ => panic!("not sent"),
    }
}

fn replied(status: u16, headers: HeaderMap<HeaderValue>) -> Exchange {
    match sent().step(ExchangeEvent::ReplyStarted { status, headers }) {
        Some((next, ExchangeAction::ReadReply)) => next,
        _ => panic!("reply not read"),
    }
}

#[test]
fn errors_have_their_statuses() {
    assert_eq!(FallbackError::PayloadTooLarge.status_code(), 413);
    assert_eq!(FallbackError::MethodNotAllowed.status_code(), 405);
    assert_eq!(FallbackError::BadGateway.status_code(), 502);
    assert_eq!(FallbackError::InternalServerError.status_code(), 500);
}

#[test]
fn methods_are_tokens() {
    for method in ["GET", "POST", "get", "QUERY", "M-SEARCH", "X!#$%&'*+-.^_`|~09"] {
        assert_eq!(forward_method(method), Some(method.to_string()));
    }
    let long = "A".repeat(300);
    assert_eq!(forward_method(&long), Some(long.clone()));
    for method in ["", " ", "GE T", "GET\n", "a/b", "a(b", "a:b", "\"", "ПУТЬ", "\u{7f}", "a{b}"] {
        assert_eq!(forward_method(method), None, "{method}");
    }
}

#[test]
fn every_ascii_character_in_a_method() {
    for byte in 0u8..128 {
        let c = byte as char;
        let allowed = c.is_ascii_alphanumeric() || "!#$%&'*+-.^_`|~".contains(c);
        assert_eq!(forward_method(&c.to_string()).is_some(), allowed, "{byte}");
    }
}

#[test]
fn target_falls_back_to_the_path() {
    assert_eq!(target("/a?b=c").as_text(), "/a?b=c");
    let bare = RequestTarget { path_and_query: None, path: "/only".to_string() };
    assert_eq!(bare.as_text(), "/only");
}

#[test]
fn request_is_passed_on_transparently() {
    let base = derive_base_url("http://backend:9000/mcp");
    let request = inbound(
        "POST",
        "/federate/search?q=1",
        &[
            ("Host", "proxy"),
            ("Content-Type", "application/json"),
            ("X-Tag", "one"),
            ("Connection", "close"),
            ("X-Tag", "two"),
            ("Content-Length", "2"),
        ],
    );
    let planned = plan_request(&base, &request, b"{}".to_vec()).ok().unwrap();
    assert_eq!(planned.method, "POST");
    assert_eq!(planned.url, "http://backend:9000/federate/search?q=1");
    assert_eq!(planned.body, b"{}".to_vec());
    let mut found = pairs(&planned);
    found.sort();
    assert_eq!(
        found,
        text_pairs(&[("content-type", "application/json"), ("x-tag", "one"), ("x-tag", "two")])
    );
}

#[test]
fn plan_from_fields_keeps_order() {
    let planned = plan_from_fields(
        "http://b/",
        "PATCH",
        &target("/p"),
        &vec![header("b", b"2"), header("TE", b"x"), header("a", b"1")],
        vec![0, 255],
    )
    .ok()
    .unwrap();
    assert_eq!(planned.method, "PATCH");
    assert_eq!(planned.url, "http://b/p");
    assert_eq!(planned.body, vec![0, 255]);
    assert_eq!(pairs(&planned), text_pairs(&[("b", "2"), ("a", "1")]));
}

#[test]
fn body_limit_is_sixteen_mebibytes() {
    assert_eq!(MAX_BODY_BYTES, 16_777_216);
    let request = inbound("GET", "/x", &[]);
    assert!(plan_request("http://b", &request, vec![0; MAX_BODY_BYTES]).is_ok());
    let refused = plan_request("http://b", &request, vec![0; MAX_BODY_BYTES + 1]).err();
    assert_eq!(refused, Some(FallbackError::PayloadTooLarge));
}

#[test]
fn long_body_comes_before_bad_method() {
    let request = inbound("B D", "/x", &[]);
    let refused = plan_request("http://b", &request, vec![0; MAX_BODY_BYTES + 1]).err();
    assert_eq!(refused, Some(FallbackError::PayloadTooLarge));
    let refused = plan_request("http://b", &request, vec![]).err();
    assert_eq!(refused, Some(FallbackError::MethodNotAllowed));
}

#[test]
fn exchange_relays_a_reply() {
    let (exchange, action) = Exchange::start(
        derive_base_url("http://b:1/mcp/"),
        inbound("PUT", "/federate/x", &[("accept", "*/*"), ("host", "h")]),
    );
    assert!(matches!(action, ExchangeAction::ReadBody { limit: MAX_BODY_BYTES }));

    let (exchange, action) = exchange.step(ExchangeEvent::BodyRead(b"in".to_vec())).unwrap();
    match action {
        ExchangeAction::Send(planned) => {
            assert_eq!(planned.method, "PUT");
            assert_eq!(planned.url, "http://b:1/federate/x");
            assert_eq!(planned.body, b"in".to_vec());
            assert_eq!(pairs(&planned), text_pairs(&[("accept", "*/*")]));
        }
        _ => panic!("not sent"),
    }

    let headers = map(&[
        ("content-type", "text/plain"),
        ("content-length", "3"),
        ("set-cookie", "a"),
        ("transfer-encoding", "chunked"),
        ("set-cookie", "b"),
        ("keep-alive", "timeout=5"),
    ]);
    let (exchange, action) =
        exchange.step(ExchangeEvent::ReplyStarted { status: 404, headers }).unwrap();
    assert!(matches!(action, ExchangeAction::ReadReply));

    let (exchange, action) = exchange.step(ExchangeEvent::ReplyRead(b"out".to_vec())).unwrap();
    match action {
        ExchangeAction::Respond(response) => {
            assert_eq!(response.status().as_u16(), 404);
            assert_eq!(response.body(), &b"out".to_vec());
            assert_eq!(response.headers().len(), 4);
            assert_eq!(values(&response, "content-type"), vec!["text/plain"]);
            assert_eq!(values(&response, "set-cookie"), vec!["a", "b"]);
            assert_eq!(values(&response, "keep-alive"), vec!["timeout=5"]);
        }
        _ => panic!("no response"),
    }
    assert!(exchange.step(ExchangeEvent::BodyFailed).is_none());
}

#[test]
fn exchange_fails_stage_by_stage() {
    let start = || Exchange::start("http://b".to_string(), inbound("GET", "/x", &[])).0;
    assert_eq!(rejected(start().step(ExchangeEvent::BodyFailed)), FallbackError::PayloadTooLarge);

    let bad = Exchange::start("http://b".to_string(), inbound("B D", "/x", &[])).0;
    assert_eq!(
        rejected(bad.step(ExchangeEvent::BodyRead(vec![]))),
        FallbackError::MethodNotAllowed
    );
    assert_eq!(rejected(sent().step(ExchangeEvent::SendFailed)), FallbackError::BadGateway);
    assert_eq!(
        rejected(replied(200, map(&[])).step(ExchangeEvent::ReplyFailed)),
        FallbackError::BadGateway
    );
    assert_eq!(
        rejected(replied(1000, map(&[])).step(ExchangeEvent::ReplyRead(vec![]))),
        FallbackError::InternalServerError
    );
}

#[test]
fn events_out_of_turn_are_not_taken() {
    let start = || Exchange::start("http://b".to_string(), inbound("GET", "/x", &[])).0;
    assert!(start().step(ExchangeEvent::SendFailed).is_none());
    assert!(start().step(ExchangeEvent::ReplyRead(vec![])).is_none());
    assert!(sent().step(ExchangeEvent::BodyRead(vec![])).is_none());
    assert!(sent().step(ExchangeEvent::ReplyFailed).is_none());
    assert!(replied(200, map(&[])).step(ExchangeEvent::SendFailed).is_none());
    assert!(Exchange::Finished.step(ExchangeEvent::ReplyFailed).is_none());
}

#[test]
fn status_of_a_response_has_three_digits() {
    for status in [0, 99, 1000, u16::MAX] {
        assert!(relay_fields(status, &vec![], vec![]).is_none(), "{status}");
    }
    for status in [100, 200, 599, 999] {
        let response = relay_fields(status, &vec![], vec![1]).unwrap();
        assert_eq!(response.status().as_u16(), status);
        assert_eq!(response.body(), &vec![1]);
        assert!(response.headers().is_empty());
    }
}

#[test]
fn fields_of_a_response_are_checked() {
    let with = |name: &str, value: &[u8]| relay_fields(200, &vec![header(name, value)], vec![]);
    let response = with("X-Mixed", b"\tvalue \xff").unwrap();
    let (name, value) = response.headers().iter().next().unwrap();
    assert_eq!(name.as_str(), "x-mixed");
    assert_eq!(value.as_bytes(), b"\tvalue \xff");
    assert!(with("x", b"").is_some());
    assert!(with("", b"v").is_none());
    assert!(with("a b", b"v").is_none());
    assert!(with("имя", b"v").is_none());
    assert!(with("x", b"a\nb").is_none());
    assert!(with("x", b"a\x7f").is_none());
    assert!(with(&"n".repeat(MAX_NAME_LEN), b"v").is_some());
    assert!(with(&"n".repeat(MAX_NAME_LEN + 1), b"v").is_none());
    // A field that stays behind is not checked.
    assert!(with("Content-Length", b"\n").is_some());
}

#[test]
fn every_ascii_character_in_a_field() {
    for byte in 0u8..=255 {
        let value = relay_fields(200, &vec![header("x", &[byte])], vec![]);
        assert_eq!(value.is_some(), byte == 9 || (byte >= 32 && byte != 127), "{byte}");
    }
    for byte in 0u8..128 {
        let c = byte as char;
        let allowed = c.is_ascii_alphanumeric() || "!#$%&'*+-.^_`|~".contains(c);
        for name in [c.to_string(), format!("{}{}", "x".repeat(100), c)] {
            assert_eq!(relay_fields(200, &vec![header(&name, b"")], vec![]).is_some(), allowed, "{byte}");
        }
    }
}

#[test]
fn response_has_room() {
    let count = NAME_ROOM - 1;
    let distinct: Vec<Header> = (0..count).map(|i| header(&format!("x-{i}"), b"v")).collect();
    assert_eq!(relay_fields(200, &distinct, vec![]).unwrap().headers().len(), count);
    let same: Vec<Header> = (0..20_000).map(|_| header("x", b"v")).collect();
    assert_eq!(relay_fields(200, &same, vec![]).unwrap().headers().len(), 20_000);
}

#[test]
fn response_has_no_room_beyond_the_limit() {
    let count = NAME_LIMIT + 1;
    let distinct: Vec<Header> = (0..count).map(|i| header(&format!("x-{i}"), b"v")).collect();
    assert!(relay_fields(200, &distinct, vec![]).is_none());
}

#[test]
fn values_of_a_name_keep_their_order() {
    let fields: Vec<Header> = [("x-a", "1"), ("x-b", "2"), ("X-A", "3"), ("x-b", "0"), ("x-a", "2")]
        .iter()
        .map(|(n, v)| header(n, v.as_bytes()))
        .collect();
    let response = relay_fields(200, &fields, vec![]).unwrap();
    assert_eq!(values(&response, "x-a"), vec!["1", "3", "2"]);
    assert_eq!(values(&response, "x-b"), vec!["2", "0"]);
}

#[test]
fn names_of_a_response_keep_their_order() {
    let fields: Vec<Header> =
        ["z", "a", "Z", "m", "a", "b"].iter().map(|n| header(n, b"v")).collect();
    let response = relay_fields(200, &fields, vec![]).unwrap();
    let names: Vec<&str> = response.headers().iter().map(|(n, _)| n.as_str()).collect();
    assert_eq!(names, vec!["z", "z", "a", "a", "m", "b"]);
}

#[test]
fn response_is_plain_http() {
    let response = relay_fields(200, &vec![], vec![]).unwrap();
    assert_eq!(response.version(), Version::HTTP_11);
    assert_eq!(response.extensions().len(), 0);
}

#[test]
fn reply_with_a_map_is_relayed() {
    let headers = map(&[("Connection", "close"), ("X-A", "1"), ("x-a", "2")]);
    let response = relay_reply(201, &headers, b"body".to_vec()).unwrap();
    assert_eq!(response.status().as_u16(), 201);
    assert_eq!(response.headers().len(), 2);
    assert_eq!(values(&response, "x-a"), vec!["1", "2"]);
    assert_eq!(response.body(), &b"body".to_vec());
    assert!(relay_reply(99, &headers, vec![]).is_none());
}
