use rust_http::parser::{parse_request, parse_text};

#[test]
fn test_parse_request() {
    let request = b"GET /get HTTP/1.1\r\nHost: localhost\r\nCookie: sessionId=1234\r\n\r\n";

    let parsed_request = parse_request(request).unwrap();

    assert_eq!(parsed_request.method, "GET");
    assert_eq!(parsed_request.path, "/get");
    assert_eq!(parsed_request.cookie.unwrap(), "1234");
}

#[test]
fn parse_keeps_header_lines_in_order_without_the_request_line() {
    let request = parse_request(
        b"GET /get HTTP/1.1\r\nHost: localhost\r\nCookie: sessionId=1234\r\n\r\n",
    )
    .unwrap();
    assert_eq!(
        request.headers,
        vec!["Host: localhost".to_string(), "Cookie: sessionId=1234".to_string()]
    );
    assert_eq!(request.body, "");
}

#[test]
fn parse_text_agrees_with_parse_request_on_ascii() {
    let text = "PUT /item/7 HTTP/1.1\r\nCookie: sessionId=abc\r\n\r\n{\"a\":1}";
    assert_eq!(parse_text(text), parse_request(text.as_bytes()));
    let request = parse_text(text).unwrap();
    assert_eq!(request.method, "PUT");
    assert_eq!(request.path, "/item/7");
    assert_eq!(request.body, "{\"a\":1}");
    assert_eq!(request.cookie, Some("abc".to_string()));
}

#[test]
fn empty_read_holds_no_request() {
    assert_eq!(parse_request(b""), None);
    assert_eq!(parse_text(""), None);
}

#[test]
fn text_without_blank_line_holds_no_request() {
    assert_eq!(parse_request(b"GET / HTTP/1.1\r\nHost: localhost\r\n"), None);
    assert_eq!(parse_request(b"GET / HTTP/1.1"), None);
    assert_eq!(parse_request(b"GET / HTTP/1.1\n\n"), None);
}

#[test]
fn empty_header_section_holds_no_request() {
    assert_eq!(parse_request(b"\r\n\r\n"), None);
    assert_eq!(parse_request(b"\r\n\r\nGET / HTTP/1.1\r\n\r\n"), None);
}

#[test]
fn request_line_without_method_holds_no_request() {
    assert_eq!(parse_request(b"   \r\nHost: localhost\r\n\r\n"), None);
    assert_eq!(parse_request(b"\nHost: localhost\r\n\r\n"), None);
    assert_eq!(parse_request(b"\t\r\n\r\n"), None);
}

#[test]
fn missing_path_is_empty_and_no_failure() {
    let request = parse_request(b"GET\r\n\r\n").unwrap();
    assert_eq!(request.method, "GET");
    assert_eq!(request.path, "");
    assert_eq!(request.headers, Vec::<String>::new());
    assert_eq!(request.cookie, None);
}

#[test]
fn words_of_the_request_line_are_cut_at_any_white_space() {
    let request = parse_request(b"  \tDELETE \t /a/b   HTTP/1.1 \r\n\r\n").unwrap();
    assert_eq!(request.method, "DELETE");
    assert_eq!(request.path, "/a/b");
    let request = parse_text("GET\u{a0}/x\u{3000}HTTP/1.1\r\n\r\n").unwrap();
    assert_eq!(request.method, "GET");
    assert_eq!(request.path, "/x");
}

#[test]
fn body_is_all_that_follows_the_first_blank_line() {
    let request = parse_request(b"POST / HTTP/1.1\r\n\r\nfirst\r\n\r\nsecond").unwrap();
    assert_eq!(request.body, "first\r\n\r\nsecond");
    let request = parse_request(b"POST / HTTP/1.1\r\n\r\n{invalid json").unwrap();
    assert_eq!(request.method, "POST");
    assert_eq!(request.path, "/");
    assert_eq!(request.body, "{invalid json");
}

#[test]
fn cookie_header_without_equals_sign_gives_no_cookie() {
    let request = parse_request(b"GET / HTTP/1.1\r\nCookie: none\r\n\r\n").unwrap();
    assert_eq!(request.cookie, None);
}

#[test]
fn cookie_is_the_second_field_trimmed() {
    let request = parse_request(b"GET / HTTP/1.1\r\nCookie: a=b=c\r\n\r\n").unwrap();
    assert_eq!(request.cookie, Some("b".to_string()));
    let request = parse_request(b"GET / HTTP/1.1\r\nCookie: sessionId=  12 34 \t\r\n\r\n").unwrap();
    assert_eq!(request.cookie, Some("12 34".to_string()));
    let request = parse_request(b"GET / HTTP/1.1\r\nCookie: sessionId=\r\n\r\n").unwrap();
    assert_eq!(request.cookie, Some(String::new()));
}

#[test]
fn only_the_first_cookie_line_counts() {
    let request =
        parse_request(b"GET / HTTP/1.1\r\nCookie: id=1\r\nCookie: id=2\r\n\r\n").unwrap();
    assert_eq!(request.cookie, Some("1".to_string()));
    let request =
        parse_request(b"GET / HTTP/1.1\r\nCookie: none\r\nCookie: id=2\r\n\r\n").unwrap();
    assert_eq!(request.cookie, None);
}

#[test]
fn cookie_token_is_matched_by_case_and_as_a_prefix() {
    let request = parse_request(b"GET / HTTP/1.1\r\ncookie: id=1\r\n\r\n").unwrap();
    assert_eq!(request.cookie, None);
    let request = parse_request(b"GET / HTTP/1.1\r\n Cookie: id=1\r\n\r\n").unwrap();
    assert_eq!(request.cookie, None);
    let request = parse_request(b"GET / HTTP/1.1\r\nCookies-Extra: k=v\r\n\r\n").unwrap();
    assert_eq!(request.cookie, Some("v".to_string()));
}

#[test]
fn request_line_is_not_searched_for_a_cookie() {
    let request = parse_request(b"Cookie=1 /\r\nHost: h\r\n\r\n").unwrap();
    assert_eq!(request.method, "Cookie=1");
    assert_eq!(request.cookie, None);
}

#[test]
fn lines_end_at_line_feed_with_or_without_carriage_return() {
    let request = parse_request(b"GET /a\nHost: h\nAccept: x\r\n\r\n").unwrap();
    assert_eq!(request.path, "/a");
    assert_eq!(request.headers, vec!["Host: h".to_string(), "Accept: x".to_string()]);
    let request = parse_request(b"GET /\r\nA: b\r\r\n\r\n").unwrap();
    assert_eq!(request.headers, vec!["A: b\r".to_string()]);
    let request = parse_request(b"GET /\r\n\r\nA: b\n\r\n\r\n").unwrap();
    assert_eq!(request.headers, Vec::<String>::new());
    assert_eq!(request.body, "A: b\n\r\n\r\n");
}

#[test]
fn empty_header_lines_are_kept() {
    let request = parse_request(b"GET /\n\nA: b\r\n\r\n").unwrap();
    assert_eq!(request.headers, vec![String::new(), "A: b".to_string()]);
}

#[test]
fn bytes_that_are_no_utf8_become_replacement_characters() {
    let request = parse_request(b"GET /\xff HTTP/1.1\r\nCookie: id=\xc3\x28\r\n\r\n").unwrap();
    assert_eq!(request.method, "GET");
    assert_eq!(request.path, "/\u{fffd}");
    assert_eq!(request.cookie, Some("\u{fffd}(".to_string()));
}

#[test]
fn utf8_text_is_decoded() {
    let request = parse_request("GET /caf\u{e9} HTTP/1.1\r\n\r\n\u{4f60}".as_bytes()).unwrap();
    assert_eq!(request.path, "/caf\u{e9}");
    assert_eq!(request.body, "\u{4f60}");
}
