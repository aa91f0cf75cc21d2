use mcp_cache_ci::headers::{
    is_dropped_from_request, is_dropped_from_response, select_request_headers,
    select_response_headers, Header,
};

fn header(name: &str, value: &str) -> Header {
    Header { name: name.to_string(), value: value.as_bytes().to_vec() }
}

fn pairs(headers: &Vec<Header>) -> Vec<(String, String)> {
    headers
        .iter()
        .map(|h| (h.name.clone(), String::from_utf8(h.value.clone()).unwrap()))
        .collect()
}

const REQUEST: [&str; 10] = [
    "host",
    "content-length",
    "connection",
    "keep-alive",
    "transfer-encoding",
    "upgrade",
    "proxy-authenticate",
    "proxy-authorization",
    "te",
    "trailers",
];

#[test]
fn connection_fields_stay_behind_in_a_request() {
    for name in REQUEST {
        assert!(is_dropped_from_request(name), "{name}");
        assert!(is_dropped_from_request(&name.to_ascii_uppercase()), "{name}");
    }
    for name in ["accept", "content-type", "authorization", "mcp-session-id", "hos", "hostx", "trailer", ""] {
        assert!(!is_dropped_from_request(name), "{name}");
    }
}

#[test]
fn framing_fields_stay_behind_in_a_reply() {
    for name in ["content-length", "connection", "transfer-encoding", "Content-Length"] {
        assert!(is_dropped_from_response(name), "{name}");
        assert!(is_dropped_from_request(name), "{name}");
    }
    for name in ["host", "keep-alive", "upgrade", "te", "trailers", "content-type"] {
        assert!(!is_dropped_from_response(name), "{name}");
    }
}

#[test]
fn other_fields_pass_in_order_and_unchanged() {
    let all = vec![
        header("accept", "*/*"),
        header("Host", "example"),
        header("x-a", "1"),
        header("te", "trailers"),
        header("x-a", "2"),
        header("X-A", "1"),
        header("Connection", "close"),
    ];
    let request = pairs(&select_request_headers(&all));
    let expected: Vec<(String, String)> = [("accept", "*/*"), ("x-a", "1"), ("x-a", "2"), ("X-A", "1")]
        .iter()
        .map(|(n, v)| (n.to_string(), v.to_string()))
        .collect();
    assert_eq!(request, expected);

    let response = pairs(&select_response_headers(&all));
    assert_eq!(response.len(), 6);
    assert_eq!(response[1], ("Host".to_string(), "example".to_string()));
    assert_eq!(response[3], ("te".to_string(), "trailers".to_string()));
}

#[test]
fn selecting_twice_changes_nothing_more() {
    let all = vec![header("host", "h"), header("a", "1"), header("upgrade", "x")];
    let once = select_request_headers(&all);
    assert_eq!(pairs(&select_request_headers(&once)), pairs(&once));
    let once = select_response_headers(&all);
    assert_eq!(pairs(&select_response_headers(&once)), pairs(&once));
    assert_eq!(once.len(), 3);
    assert_eq!(select_request_headers(&vec![]).len(), 0);
}
