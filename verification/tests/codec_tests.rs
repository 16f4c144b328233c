use bytes::Bytes;
use http_server_starter_rust::http::ContentType;
use http_server_starter_rust::http::HTTPMethod;
use http_server_starter_rust::http::HTTPResponse;
use http_server_starter_rust::http::StatusCode;
use http_server_starter_rust::utils::join_slash;
use http_server_starter_rust::utils::split_path;

#[test]
fn split_path_keeps_empty_segments() {
    assert_eq!(split_path("/a/b/c"), vec!["", "a", "b", "c"]);
    assert_eq!(split_path("/"), vec!["", ""]);
    assert_eq!(split_path(""), vec![""]);
    assert_eq!(split_path("/echo/"), vec!["", "echo", ""]);
    assert_eq!(split_path("a//b"), vec!["a", "", "b"]);
}

#[test]
fn join_slash_undoes_split_path() {
    for target in ["/", "/a/b/c", "", "/echo/", "a//b", "/user-agent"] {
        assert_eq!(join_slash(&split_path(target)), target);
    }
}

#[test]
fn status_code_reason_phrases() {
    assert_eq!(StatusCode::OK.to_str(), "200 OK");
    assert_eq!(StatusCode::NotFound.to_str(), "404 Not Found");
}

#[test]
fn content_type_mime_strings() {
    assert_eq!(ContentType::HTML.to_string(), "text/html");
    assert_eq!(ContentType::JSON.to_string(), "application/json");
    assert_eq!(ContentType::XML.to_string(), "application/xml");
    assert_eq!(ContentType::PLAIN.to_string(), "text/plain");
}

#[test]
fn method_tokens_round_trip() {
    let cases = [
        (HTTPMethod::GET, "GET"),
        (HTTPMethod::POST, "POST"),
        (HTTPMethod::PUT, "PUT"),
        (HTTPMethod::DELETE, "DELETE"),
        (HTTPMethod::PATCH, "PATCH"),
        (HTTPMethod::OPTIONS, "OPTIONS"),
        (HTTPMethod::HEAD, "HEAD"),
        (HTTPMethod::CONNECT, "CONNECT"),
        (HTTPMethod::TRACE, "TRACE"),
    ];
    for (m, tok) in cases {
        assert_eq!(m.to_string(), tok);
        assert_eq!(HTTPMethod::from_str(tok), Some(m));
    }
    assert_eq!(HTTPMethod::from_str("get"), None);
    assert_eq!(HTTPMethod::from_str("GETX"), None);
    assert_eq!(HTTPMethod::from_str(""), None);
}

#[test]
fn encode_counts_body_bytes_exactly() {
    let resp = HTTPResponse {
        status_code: StatusCode::OK,
        content_type: ContentType::JSON,
        body: Bytes::from(vec![b'{', b'}', 0xc3, 0xa9]),
    };
    let out = resp.to_bytes();
    assert_eq!(
        out.as_ref(),
        b"HTTP/1.1 200 OK\r\nContent-Type: application/json\r\nContent-Length: 4\r\n\r\n{}\xc3\xa9"
    );
}

#[test]
fn encode_empty_body_emits_zero_length() {
    let resp = HTTPResponse {
        status_code: StatusCode::NotFound,
        content_type: ContentType::HTML,
        body: Bytes::new(),
    };
    let out = resp.to_bytes();
    assert_eq!(
        out.as_ref(),
        b"HTTP/1.1 404 Not Found\r\nContent-Type: text/html\r\nContent-Length: 0\r\n\r\n"
    );
}

#[test]
fn encode_large_body_emits_decimal_length() {
    let body: Vec<u8> = std::iter::repeat(b'x').take(1234).collect();
    let resp = HTTPResponse {
        status_code: StatusCode::OK,
        content_type: ContentType::PLAIN,
        body: Bytes::from(body.clone()),
    };
    let out = resp.to_bytes();
    let mut expected =
        b"HTTP/1.1 200 OK\r\nContent-Type: text/plain\r\nContent-Length: 1234\r\n\r\n".to_vec();
    expected.extend_from_slice(&body);
    assert_eq!(out.as_ref(), expected.as_slice());
}
