use rust_http::response::HttpResponse;

fn response(status: &str, body: &str) -> HttpResponse {
    HttpResponse::new(status.to_string(), body.to_string())
}

#[test]
fn test_send_response() {
    let response = response("HTTP/1.1 200 OK", "").to_string();
    assert_eq!(response, "HTTP/1.1 200 OK\r\n\r\n");
    assert!(response.contains("HTTP/1.1 200 OK"));
}

#[test]
fn new_response_has_no_headers() {
    let r = response("HTTP/1.1 404 Not Found", "gone");
    assert_eq!(r.status_line(), "HTTP/1.1 404 Not Found");
    assert_eq!(r.body(), "gone");
    assert_eq!(r.header_count(), 0);
    assert_eq!(r.header("Content-Type"), None);
}

#[test]
fn serialized_response_is_exact() {
    let mut r = response("HTTP/1.1 200 OK", "{\"ok\":true}");
    r.insert_header("Content-Type".to_string(), "application/json".to_string());
    r.insert_header("Content-Length".to_string(), "11".to_string());
    assert_eq!(
        r.to_string(),
        "HTTP/1.1 200 OK\r\nContent-Type: application/json\r\nContent-Length: 11\r\n\r\n{\"ok\":true}"
    );
}

#[test]
fn inserting_a_known_name_replaces_the_value_in_place() {
    let mut r = response("HTTP/1.1 200 OK", "");
    r.insert_header("A".to_string(), "1".to_string());
    r.insert_header("B".to_string(), "2".to_string());
    r.insert_header("A".to_string(), "3".to_string());
    assert_eq!(r.header_count(), 2);
    assert_eq!(r.header("A"), Some("3"));
    assert_eq!(r.header("B"), Some("2"));
    assert_eq!(r.to_string(), "HTTP/1.1 200 OK\r\nA: 3\r\nB: 2\r\n\r\n");
}

#[test]
fn headers_stand_in_the_order_of_their_first_insertion() {
    let mut r = response("HTTP/1.1 200 OK", "");
    r.insert_header("B".to_string(), "1".to_string());
    r.insert_header("A".to_string(), "2".to_string());
    r.insert_header("B".to_string(), "3".to_string());
    assert_eq!(r.header_at(0), Some(("B", "3")));
    assert_eq!(r.header_at(1), Some(("A", "2")));
    assert_eq!(r.header_at(2), None);
}

#[test]
fn header_names_are_matched_by_case() {
    let mut r = response("HTTP/1.1 200 OK", "");
    r.insert_header("Set-Cookie".to_string(), "a".to_string());
    r.insert_header("set-cookie".to_string(), "b".to_string());
    assert_eq!(r.header_count(), 2);
    assert_eq!(r.header("Set-Cookie"), Some("a"));
    assert_eq!(r.header("set-cookie"), Some("b"));
    assert_eq!(r.header("SET-COOKIE"), None);
}

/// Splits the wire text at line endings again: the status line, the
/// headers up to the empty line, and the body.
fn read_back(wire: &str) -> (String, Vec<(String, String)>, String) {
    let mut pieces = wire.split("\r\n");
    let status = pieces.next().unwrap().to_string();
    let mut headers = Vec::new();
    loop {
        let line = pieces.next().unwrap();
        if line.is_empty() {
            break;
        }
        let (name, value) = line.split_once(": ").unwrap();
        headers.push((name.to_string(), value.to_string()));
    }
    let body: Vec<&str> = pieces.collect();
    (status, headers, body.join("\r\n"))
}

#[test]
fn serialized_response_can_be_read_back() {
    let mut r = response("HTTP/1.1 201 Created", "line one\r\n\r\nline: two\r\n");
    r.insert_header("Content-Type".to_string(), "text/plain".to_string());
    r.insert_header("X-Odd:".to_string(), ": a: b\r".to_string());
    r.insert_header("Set-Cookie".to_string(), "sessionId=7; Path=/".to_string());
    let (status, headers, body) = read_back(&r.to_string());
    assert_eq!(status, "HTTP/1.1 201 Created");
    assert_eq!(
        headers,
        vec![
            ("Content-Type".to_string(), "text/plain".to_string()),
            ("X-Odd:".to_string(), ": a: b\r".to_string()),
            ("Set-Cookie".to_string(), "sessionId=7; Path=/".to_string()),
        ]
    );
    assert_eq!(body, "line one\r\n\r\nline: two\r\n");
    for (name, value) in &headers {
        assert_eq!(r.header(name), Some(value.as_str()));
    }
    assert_eq!(r.header_count(), headers.len());
}

#[test]
fn empty_response_can_be_read_back() {
    let r = response("", "");
    assert_eq!(r.to_string(), "\r\n\r\n");
    assert_eq!(read_back(&r.to_string()), (String::new(), Vec::new(), String::new()));
}
