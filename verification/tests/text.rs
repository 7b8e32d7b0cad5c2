use rust_http::search::{cut_second_field, find_first, matches_at, split_lines};
use rust_http::text::{
    count_until, is_whitespace, skip_space, skip_space_back, split_word, to_chars, to_text,
    trimmed,
};

fn chars(s: &str) -> Vec<char> {
    s.chars().collect()
}

#[test]
fn chars_and_text_are_inverse() {
    assert_eq!(to_chars("a\u{e9}\u{1f600}\r\n"), vec!['a', '\u{e9}', '\u{1f600}', '\r', '\n']);
    assert_eq!(to_chars(""), Vec::<char>::new());
    assert_eq!(to_text(&['h', 'i', '\u{fffd}']), "hi\u{fffd}");
    assert_eq!(to_text(&to_chars("GET / HTTP/1.1")), "GET / HTTP/1.1");
}

#[test]
fn white_space_is_what_std_calls_white_space() {
    let mut code: u32 = 0;
    while code <= 0x11_0000 {
        if let Some(c) = char::from_u32(code) {
            assert_eq!(is_whitespace(c), c.is_whitespace(), "U+{:04X}", code);
        }
        code += 1;
    }
}

#[test]
fn trimming_drops_white_space_at_the_ends_only() {
    assert_eq!(skip_space(&chars(" \t a b ")), &chars("a b ")[..]);
    assert_eq!(skip_space_back(&chars(" a b \r\n")), &chars(" a b")[..]);
    assert_eq!(trimmed(&chars("\u{a0} a  b \u{2003}")), &chars("a  b")[..]);
    assert_eq!(trimmed(&chars("   ")), &chars("")[..]);
    assert_eq!(trimmed(&chars("")), &chars("")[..]);
    assert_eq!(trimmed(&chars("x")), &chars("x")[..]);
}

#[test]
fn words_are_split_at_white_space() {
    let line = chars("  GET   /path HTTP/1.1");
    let (first, rest) = split_word(&line);
    assert_eq!(first, &chars("GET")[..]);
    assert_eq!(rest, &chars("   /path HTTP/1.1")[..]);
    let (second, rest) = split_word(rest);
    assert_eq!(second, &chars("/path")[..]);
    let (third, rest) = split_word(rest);
    assert_eq!(third, &chars("HTTP/1.1")[..]);
    let (none, rest) = split_word(rest);
    assert!(none.is_empty());
    assert!(rest.is_empty());
}

#[test]
fn count_until_stops_at_the_first_stop() {
    assert_eq!(count_until(&chars("ab=c=d"), '='), 2);
    assert_eq!(count_until(&chars("=ab"), '='), 0);
    assert_eq!(count_until(&chars("abc"), '='), 3);
    assert_eq!(count_until(&chars(""), '='), 0);
}

#[test]
fn find_first_gives_the_first_occurrence() {
    let text = chars("a\r\nb\r\n\r\nc\r\n\r\n");
    assert_eq!(find_first(&text, &chars("\r\n\r\n")), Some(4));
    assert_eq!(find_first(&text, &chars("\r\n")), Some(1));
    assert_eq!(find_first(&text, &chars("a")), Some(0));
    assert_eq!(find_first(&text, &chars("\n\n")), None);
    assert_eq!(find_first(&chars("\r\n\r"), &chars("\r\n\r\n")), None);
    assert_eq!(find_first(&chars("\r\r\n\r\n"), &chars("\r\n\r\n")), Some(1));
    assert_eq!(find_first(&chars(""), &chars("x")), None);
    assert_eq!(find_first(&chars("abc"), &chars("")), Some(0));
    assert_eq!(find_first(&chars(""), &chars("")), Some(0));
}

#[test]
fn matches_at_checks_one_position() {
    let text = chars("Cookie: a");
    assert!(matches_at(&text, &chars("Cookie"), 0));
    assert!(!matches_at(&text, &chars("Cookie"), 1));
    assert!(matches_at(&text, &chars(": a"), 6));
    assert!(!matches_at(&text, &chars(": a"), 7));
    assert!(!matches_at(&text, &chars("a"), 9));
    assert!(matches_at(&text, &chars(""), 9));
    assert!(!matches_at(&text, &chars(""), 10));
    assert!(!matches_at(&chars("Cook"), &chars("Cookie"), 0));
}

fn lines_of(s: &str) -> Vec<String> {
    let text = chars(s);
    split_lines(&text).iter().map(|l| l.iter().collect()).collect()
}

#[test]
fn split_lines_does_what_std_lines_does() {
    let samples = [
        "",
        "a",
        "a\n",
        "a\r\n",
        "a\r",
        "\n",
        "\r\n",
        "\r",
        "a\nb",
        "a\r\nb\r\n",
        "a\n\nb",
        "a\r\n\r\nb",
        "a\r\r\nb\r",
        "\n\n",
        "GET / HTTP/1.1\r\nHost: h\r\nCookie: id=1",
    ];
    for s in samples {
        let expected: Vec<String> = s.lines().map(|l| l.to_string()).collect();
        assert_eq!(lines_of(s), expected, "{:?}", s);
    }
}

#[test]
fn split_lines_exact() {
    assert_eq!(lines_of("a\r\nb\n\nc\r"), vec!["a", "b", "", "c\r"]);
    assert_eq!(lines_of(""), Vec::<String>::new());
    assert_eq!(lines_of("\n"), vec![""]);
}

#[test]
fn second_field_is_cut_between_separators() {
    let cut = |s: &str| -> Option<String> {
        let text = chars(s);
        cut_second_field(&text, '=').map(|f| f.iter().collect())
    };
    assert_eq!(cut("Cookie: sessionId=1234"), Some("1234".to_string()));
    assert_eq!(cut("a=b=c"), Some("b".to_string()));
    assert_eq!(cut("a="), Some(String::new()));
    assert_eq!(cut("=x"), Some("x".to_string()));
    assert_eq!(cut("a==c"), Some(String::new()));
    assert_eq!(cut("abc"), None);
    assert_eq!(cut(""), None);
}
