//! The request parser: from the bytes of one read to a request.

use crate::request::{model_of, text_of, texts, HttpRequest, RequestModel};
use crate::scan::{lemma_run, lemma_run_is};
use crate::search::{
    after_first_line, contains, cut_second_field, find, find_first, first_at, first_line,
    lemma_find, lines, matches_at, occurs_at, second_field, split_lines, starts_with, views,
};
use crate::text::{
    after_first_word, first_word, other_than, other_than_spaces, split_word, to_chars, to_text,
    trim, trim_start, trimmed,
};
use vstd::prelude::*;
use vstd::slice::slice_subrange;
use vstd::utf8::{
    decode_utf8, decode_utf8_encode_utf8, encode_scalar, encode_utf8, is_ascii_chars_encode_utf8,
    valid_utf8,
};

verus! {

/// The marker that ends the header section.
pub open spec fn blank_line() -> Seq<char> {
    "\r\n\r\n"@
}

/// The bytes of the blank-line marker.
pub open spec fn blank_line_bytes() -> Seq<u8> {
    seq![13u8, 10u8, 13u8, 10u8]
}

/// What a header line begins with when it carries the session cookie.
/// Letter case counts.
pub open spec fn cookie_token() -> Seq<char> {
    "Cookie"@
}

/// The first of `headers` that begins with the cookie token.
pub open spec fn cookie_line(headers: Seq<Seq<char>>) -> Option<Seq<char>>
    decreases headers.len(),
{
    if headers.len() == 0 {
        None
    } else if starts_with(headers[0], cookie_token()) {
        Some(headers[0])
    } else {
        cookie_line(headers.drop_first())
    }
}

/// The session cookie among `headers`: of the first line that begins with
/// the cookie token, the field after the first `=`, without the white
/// space around it. Later cookie lines are not looked at.
pub open spec fn cookie_of(headers: Seq<Seq<char>>) -> Option<Seq<char>> {
    match cookie_line(headers) {
        Some(line) => match second_field(line, '=') {
            Some(field) => Some(trim(field)),
            None => None,
        },
        None => None,
    }
}

/// The request that `text` holds.
///
/// The header section ends at the first blank-line marker, and what
/// follows the marker is the body. A text without the marker, with an empty
/// header section or without a method holds no request.
pub open spec fn parse(text: Seq<char>) -> Option<RequestModel> {
    match find(text, blank_line()) {
        None => None,
        Some(at) => {
            let head = text.take(at);
            let request_line = first_line(head);
            let headers = lines(after_first_line(head));
            if head.len() == 0 || first_word(request_line).len() == 0 {
                None
            } else {
                Some(
                    RequestModel {
                        method: first_word(request_line),
                        path: first_word(after_first_word(request_line)),
                        headers,
                        body: text.skip(at + blank_line().len()),
                        cookie: cookie_of(headers),
                    },
                )
            }
        },
    }
}

/// Finds the session cookie among the header lines.
fn find_cookie(headers: &[&[char]]) -> (cookie: Option<String>)
    ensures
        text_of(cookie) == cookie_of(views(headers@)),
{
    let token = to_chars("Cookie");
    let mut i: usize = 0;
    assert(views(headers@).skip(0) == views(headers@));
    while i < headers.len()
        invariant
            i <= headers.len(),
            token@ == cookie_token(),
            cookie_line(views(headers@)) == cookie_line(views(headers@).skip(i as int)),
        decreases headers.len() - i,
    {
        let ghost rest = views(headers@).skip(i as int);
        assert(rest[0] == headers@[i as int]@);
        if matches_at(headers[i], token.as_slice(), 0) {
            return match cut_second_field(headers[i], '=') {
                Some(field) => Some(to_text(trimmed(field))),
                None => None,
            };
        }
        assert(rest.drop_first() == views(headers@).skip(i + 1));
        i += 1;
    }
    None
}

/// Parses the text of one read.
pub fn parse_text(text: &str) -> (r: Option<HttpRequest>)
    ensures
        model_of(r) == parse(text@),
        r matches Some(request) ==> request@.well_formed(),
{
    proof {
        lemma_parse_well_formed(text@);
    }
    let chars = to_chars(text);
    let s = chars.as_slice();
    let marker = to_chars("\r\n\r\n");
    let at = match find_first(s, marker.as_slice()) {
        Some(at) => at,
        None => {
            return None;
        },
    };
    proof {
        lemma_find(s@, marker@);
        assert(first_at(s@, marker@, at as int));
        assert(occurs_at(s@, marker@, at as int));
    }
    assert(at + marker.len() <= s.len());
    if at == 0 {
        return None;
    }
    let head = slice_subrange(s, 0, at);
    let body = slice_subrange(s, at + marker.len(), s.len());
    let all = split_lines(head);
    assert(all@.len() > 0 && all@[0]@ == first_line(head@) && views(all@).skip(1) == lines(
        after_first_line(head@),
    )) by {
        let rest = lines(after_first_line(head@));
        assert(lines(head@) == seq![first_line(head@)] + rest);
        assert(views(all@).len() == all@.len());
        assert(views(all@)[0] == all@[0]@);
        assert(views(all@).skip(1) =~= rest);
    }
    let (method, rest) = split_word(all[0]);
    if method.len() == 0 {
        return None;
    }
    let (path, _) = split_word(rest);
    let header_lines = slice_subrange(all.as_slice(), 1, all.len());
    assert(views(header_lines@) == views(all@).skip(1));
    let cookie = find_cookie(header_lines);
    let mut headers: Vec<String> = Vec::new();
    let mut i: usize = 0;
    while i < header_lines.len()
        invariant
            i <= header_lines.len(),
            headers@.len() == i,
            texts(headers@) == views(header_lines@).take(i as int),
        decreases header_lines.len() - i,
    {
        let ghost before = headers@;
        headers.push(to_text(header_lines[i]));
        i += 1;
        assert(texts(headers@) =~= views(header_lines@).take(i as int)) by {
            assert forall|k: int| 0 <= k < i implies texts(headers@)[k] == views(
                header_lines@,
            )[k] by {
                if k < i - 1 {
                    assert(texts(before)[k] == views(header_lines@).take(i - 1)[k]);
                }
            }
        }
    }
    assert(views(header_lines@).take(i as int) == views(header_lines@));
    Some(
        HttpRequest {
            method: to_text(method),
            path: to_text(path),
            headers,
            body: to_text(body),
            cookie,
        },
    )
}

/// The text that a lossy UTF-8 decoding makes of `bytes`: every byte
/// sequence that is no valid UTF-8 gives a replacement character.
pub uninterp spec fn utf8_lossy(bytes: Seq<u8>) -> Seq<char>;

/// `String::from_utf8_lossy`: decodes bytes as UTF-8 and never fails.
/// Bytes that are valid UTF-8 decode to the text they encode; what the
/// decoding makes of other bytes is only named.
#[verifier::external_body]
fn decode_lossy(bytes: &[u8]) -> (text: String)
    ensures
        text@ == utf8_lossy(bytes@),
        valid_utf8(bytes@) ==> text@ == decode_utf8(bytes@),
{
    String::from_utf8_lossy(bytes).into_owned()
}

/// Parses the bytes of one read. The bytes are decoded as UTF-8, with a
/// replacement character for what is not, and the text is parsed.
pub fn parse_request(bytes: &[u8]) -> (r: Option<HttpRequest>)
    ensures
        model_of(r) == parse(utf8_lossy(bytes@)),
        valid_utf8(bytes@) ==> model_of(r) == parse(decode_utf8(bytes@)),
        bytes@.len() == 0 ==> r is None,
        valid_utf8(bytes@) && !contains(bytes@, blank_line_bytes()) ==> r is None,
        r matches Some(request) ==> request@.well_formed(),
{
    let text = decode_lossy(bytes);
    proof {
        if valid_utf8(bytes@) && !contains(bytes@, blank_line_bytes()) {
            lemma_parse_needs_blank_line_bytes(bytes@);
        }
        if bytes@.len() == 0 {
            assert(valid_utf8(bytes@));
            assert(text@.len() == 0);
            lemma_parse_empty();
            assert(text@ == Seq::<char>::empty());
        }
    }
    parse_text(text.as_str())
}

/// A text without the blank-line marker holds no request.
pub proof fn lemma_parse_needs_blank_line(text: Seq<char>)
    requires
        !contains(text, blank_line()),
    ensures
        parse(text) is None,
{
}

/// The encoding of two texts, one after the other, is the encoding of the
/// first and then that of the second.
proof fn lemma_encode_concat(a: Seq<char>, b: Seq<char>)
    ensures
        encode_utf8(a + b) == encode_utf8(a) + encode_utf8(b),
    decreases a.len(),
{
    if a.len() == 0 {
        assert(a + b == b);
        assert(encode_utf8(a) + encode_utf8(b) == encode_utf8(b));
    } else {
        lemma_encode_concat(a.drop_first(), b);
        assert((a + b).drop_first() == a.drop_first() + b);
        assert(encode_utf8(a + b) == encode_scalar(a[0] as u32) + (encode_utf8(
            a.drop_first(),
        ) + encode_utf8(b)));
    }
}

/// Bytes that are UTF-8 and hold no blank-line marker hold no request.
pub proof fn lemma_parse_needs_blank_line_bytes(bytes: Seq<u8>)
    requires
        valid_utf8(bytes),
        !contains(bytes, blank_line_bytes()),
    ensures
        parse(decode_utf8(bytes)) is None,
{
    let text = decode_utf8(bytes);
    if contains(text, blank_line()) {
        reveal_strlit("\r\n\r\n");
        let i = choose|i: int| occurs_at(text, blank_line(), i);
        let before = text.take(i);
        let marker = text.subrange(i, i + 4);
        let after = text.skip(i + 4);
        assert(text == before + marker + after);
        decode_utf8_encode_utf8(bytes);
        lemma_encode_concat(before + marker, after);
        lemma_encode_concat(before, marker);
        is_ascii_chars_encode_utf8(marker);
        let at = encode_utf8(before).len() as int;
        assert(encode_utf8(marker) == blank_line_bytes());
        assert(bytes.subrange(at, at + 4) == blank_line_bytes());
        assert(occurs_at(bytes, blank_line_bytes(), at));
    }
}

/// The header line that a client sends to name its session.
pub open spec fn session_cookie_line(id: Seq<char>) -> Seq<char> {
    "Cookie: sessionId="@ + id
}

/// Where the first cookie line among the headers is the session cookie
/// line for `id`, the cookie is `id`, if `id` holds no `=` and has no
/// white space around it.
pub proof fn lemma_session_cookie(headers: Seq<Seq<char>>, id: Seq<char>)
    requires
        cookie_line(headers) == Some(session_cookie_line(id)),
        forall|i: int| 0 <= i < id.len() ==> id[i] != '=',
        trim(id) == id,
    ensures
        cookie_of(headers) == Some(id),
{
    reveal_strlit("Cookie: sessionId=");
    let line = session_cookie_line(id);
    lemma_run_is(line, other_than('='), 17);
    let rest = line.skip(18);
    assert(rest == id);
    lemma_run_is(rest, other_than('='), id.len() as int);
    assert(rest.take(id.len() as int) == id);
}

/// The empty text holds no request.
pub proof fn lemma_parse_empty()
    ensures
        parse(Seq::<char>::empty()) is None,
{
    reveal_strlit("\r\n\r\n");
    let text = Seq::<char>::empty();
    assert forall|i: int| !occurs_at(text, blank_line(), i) by {}
}

/// A parsed request has a method: one word, not empty.
pub proof fn lemma_parse_well_formed(text: Seq<char>)
    ensures
        parse(text) matches Some(request) ==> request.well_formed(),
{
    if let Some(at) = find(text, blank_line()) {
        let line = first_line(text.take(at));
        let t = trim_start(line);
        lemma_run(t, other_than_spaces());
    }
}

} // verus!
