use http_server_starter_rust::http::ContentType;
use http_server_starter_rust::http::DecodeError;
use http_server_starter_rust::http::HTTPMethod;
use http_server_starter_rust::http::HTTPRequest;
use http_server_starter_rust::http::StatusCode;
use http_server_starter_rust::http::handle_lines;
use http_server_starter_rust::http::handle_request;
use http_server_starter_rust::http::resolve;

fn lines(ls: &[&str]) -> Vec<String> {
    ls.iter().map(|s| s.to_string()).collect()
}

fn respond(ls: &[&str]) -> Vec<u8> {
    let out = handle_lines(&lines(ls)).expect("request should decode");
    out.as_ref().to_vec()
}

#[test]
fn get_root_is_ok_empty_plain() {
    let out = respond(&["GET / HTTP/1.1"]);
    assert_eq!(
        out,
        b"HTTP/1.1 200 OK\r\nContent-Type: text/plain\r\nContent-Length: 0\r\n\r\n".to_vec()
    );
}

#[test]
fn get_echo_hello_answers_hello() {
    let out = respond(&["GET /echo/hello HTTP/1.1"]);
    assert_eq!(
        out,
        b"HTTP/1.1 200 OK\r\nContent-Type: text/plain\r\nContent-Length: 5\r\n\r\nhello".to_vec()
    );
}

#[test]
fn get_echo_empty_segment_answers_empty() {
    let out = respond(&["GET /echo/ HTTP/1.1"]);
    assert_eq!(
        out,
        b"HTTP/1.1 200 OK\r\nContent-Type: text/plain\r\nContent-Length: 0\r\n\r\n".to_vec()
    );
}

#[test]
fn get_user_agent_answers_header_value() {
    let out = respond(&["GET /user-agent HTTP/1.1", "User-Agent: test-agent/1.0"]);
    assert_eq!(
        out,
        b"HTTP/1.1 200 OK\r\nContent-Type: text/plain\r\nContent-Length: 14\r\n\r\ntest-agent/1.0"
            .to_vec()
    );
}

#[test]
fn get_unknown_path_is_not_found() {
    let out = respond(&["GET /nonexistent HTTP/1.1"]);
    assert_eq!(
        out,
        b"HTTP/1.1 404 Not Found\r\nContent-Type: text/plain\r\nContent-Length: 0\r\n\r\n".to_vec()
    );
}

#[test]
fn post_is_bare_405_line() {
    let out = respond(&["POST / HTTP/1.1"]);
    assert_eq!(out, b"HTTP/1.1 405 Method Not Allowed\r\n\r\n".to_vec());
}

#[test]
fn every_non_get_method_is_bare_405() {
    for m in ["PUT", "DELETE", "PATCH", "OPTIONS", "HEAD", "CONNECT", "TRACE"] {
        let out = respond(&[&format!("{} / HTTP/1.1", m)]);
        assert_eq!(out, b"HTTP/1.1 405 Method Not Allowed\r\n\r\n".to_vec());
    }
}

// A deliberate policy choice, asserted here rather than inherited silently:
// an echo route with no value segment is the peer's malformed request, and
// it draws a 404 answer instead of tearing the handler down.
#[test]
fn missing_echo_segment_is_not_found() {
    let out = respond(&["GET /echo HTTP/1.1"]);
    assert_eq!(
        out,
        b"HTTP/1.1 404 Not Found\r\nContent-Type: text/plain\r\nContent-Length: 0\r\n\r\n".to_vec()
    );
}

// The same policy for the user-agent route without a `User-Agent` header.
#[test]
fn missing_user_agent_header_is_not_found() {
    let out = respond(&["GET /user-agent HTTP/1.1", "Host: localhost"]);
    assert_eq!(
        out,
        b"HTTP/1.1 404 Not Found\r\nContent-Type: text/plain\r\nContent-Length: 0\r\n\r\n".to_vec()
    );
}

#[test]
fn resolve_non_get_yields_no_templated_response() {
    let req = HTTPRequest::from_lines(&lines(&["POST /echo/x HTTP/1.1"])).unwrap();
    assert!(resolve(&req).is_none());
}

#[test]
fn resolve_get_echo_carries_plain_body() {
    let req = HTTPRequest::from_lines(&lines(&["GET /echo/abc HTTP/1.1"])).unwrap();
    let resp = resolve(&req).unwrap();
    assert!(matches!(resp.status_code, StatusCode::OK));
    assert!(matches!(resp.content_type, ContentType::PLAIN));
    assert_eq!(resp.body.as_ref(), b"abc");
}

#[test]
fn decode_empty_lines_is_incomplete() {
    let r = HTTPRequest::from_lines(&Vec::new());
    assert!(matches!(r, Err(DecodeError::Incomplete)));
}

#[test]
fn decode_one_token_line_is_malformed_request() {
    let r = HTTPRequest::from_lines(&lines(&["GET"]));
    assert!(matches!(r, Err(DecodeError::MalformedRequestLine)));
}

#[test]
fn decode_unknown_method_is_unsupported() {
    let r = HTTPRequest::from_lines(&lines(&["BREW /coffee HTTP/1.1"]));
    assert!(matches!(r, Err(DecodeError::UnsupportedMethod)));
}

#[test]
fn decode_header_without_separator_is_malformed_header() {
    let r = HTTPRequest::from_lines(&lines(&["GET / HTTP/1.1", "Host=localhost"]));
    assert!(matches!(r, Err(DecodeError::MalformedHeader)));
    let ok = HTTPRequest::from_lines(&lines(&["GET / HTTP/1.1", "Host: localhost"]));
    assert!(ok.is_ok());
}

#[test]
fn handle_lines_reports_nothing_to_write_on_decode_failure() {
    assert!(handle_lines(&lines(&["GET"])).is_none());
    assert!(handle_lines(&Vec::new()).is_none());
}

#[test]
fn decode_splits_target_and_keeps_header_order() {
    let req = HTTPRequest::from_lines(&lines(&[
        "GET /a/b HTTP/1.1",
        "Host: localhost",
        "Accept: */*",
    ]))
    .unwrap();
    assert!(matches!(req.method, HTTPMethod::GET));
    assert_eq!(req.paths, vec!["".to_string(), "a".to_string(), "b".to_string()]);
    assert_eq!(req.headers.len(), 2);
    assert_eq!(req.headers[0], ("Host".to_string(), "localhost".to_string()));
    assert_eq!(req.headers[1], ("Accept".to_string(), "*/*".to_string()));
    assert!(req.body.is_empty());
}

#[test]
fn header_value_splits_on_first_separator_only() {
    let req = HTTPRequest::from_lines(&lines(&["GET / HTTP/1.1", "X: a: b"])).unwrap();
    assert_eq!(req.get_headers("X"), Some("a: b".to_string()));
}

#[test]
fn get_headers_returns_first_match_among_duplicates() {
    let req = HTTPRequest::from_lines(&lines(&[
        "GET / HTTP/1.1",
        "Accept: text/html",
        "Accept: application/json",
    ]))
    .unwrap();
    assert_eq!(req.get_headers("Accept"), Some("text/html".to_string()));
    assert_eq!(req.get_headers("accept"), None);
    assert_eq!(req.get_headers("User-Agent"), None);
}

#[test]
fn request_round_trip_keeps_method_and_path() {
    let req = HTTPRequest::from_lines(&lines(&["GET /echo/xyz HTTP/1.1", "Host: h"])).unwrap();
    let out = req.to_bytes();
    assert_eq!(out.as_ref(), b"GET /echo/xyz\r\nHost: h\r\n\r\n");
}

#[test]
fn handle_request_encodes_resolved_response() {
    let req = HTTPRequest::from_lines(&lines(&["GET /echo/zz HTTP/1.1"])).unwrap();
    let out = handle_request(&req);
    assert_eq!(
        out.as_ref(),
        b"HTTP/1.1 200 OK\r\nContent-Type: text/plain\r\nContent-Length: 2\r\n\r\nzz"
    );
}
