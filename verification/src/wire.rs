//! Reading a response back from its text on the wire, and the law that
//! this undoes the writing.

use crate::response::{colon_space, crlf, headers_text, serialize, HeaderModel, ResponseModel};
use crate::search::{contains, find, first_at, lemma_find, lemma_find_is, occurs_at};
use vstd::prelude::*;

verus! {

/// The headers and the body that `text` holds, where `text` is what
/// follows the status line: a header up to each line ending, cut at its
/// first `: `, until the empty line; the body is what follows that line.
pub open spec fn read_headers(text: Seq<char>) -> Option<(Seq<HeaderModel>, Seq<char>)>
    decreases text.len(),
{
    match find(text, crlf()) {
        None => None,
        Some(end) => {
            let line = text.take(end);
            let rest = text.skip(end + crlf().len());
            if end == 0 {
                Some((Seq::empty(), rest))
            } else {
                proof {
                    lemma_find(text, crlf());
                }
                match (find(line, colon_space()), read_headers(rest)) {
                    (Some(at), Some((headers, body))) => Some(
                        (
                            seq![(line.take(at), line.skip(at + colon_space().len()))] + headers,
                            body,
                        ),
                    ),
                    _ => None,
                }
            }
        },
    }
}

/// The response that `text` holds: the status line up to the first line
/// ending, then the headers and the body.
pub open spec fn read_response(text: Seq<char>) -> Option<ResponseModel> {
    match find(text, crlf()) {
        None => None,
        Some(end) => match read_headers(text.skip(end + crlf().len())) {
            Some((headers, body)) => Some(
                ResponseModel { status_line: text.take(end), headers, body },
            ),
            None => None,
        },
    }
}

/// A response can be read back: its status line, the names and the values
/// of its headers hold no line ending, and no name holds `: `.
pub open spec fn readable(r: ResponseModel) -> bool {
    &&& !contains(r.status_line, crlf())
    &&& forall|i: int|
        0 <= i < r.headers.len() ==> {
            &&& !contains((#[trigger] r.headers[i]).0, crlf())
            &&& !contains(r.headers[i].0, colon_space())
            &&& !contains(r.headers[i].1, crlf())
        }
}

/// A pattern of two different characters that does not stand in `a` first
/// stands in `a + pat + rest` right after `a`.
proof fn lemma_find_after(a: Seq<char>, pat: Seq<char>, rest: Seq<char>)
    requires
        pat.len() == 2,
        pat[0] != pat[1],
        !contains(a, pat),
    ensures
        find(a + pat + rest, pat) == Some(a.len() as int),
        (a + pat + rest).take(a.len() as int) == a,
        (a + pat + rest).skip(a.len() as int + pat.len()) == rest,
{
    let text = a + pat + rest;
    let n = a.len() as int;
    assert(text.subrange(n, n + 2) == pat);
    assert forall|j: int| 0 <= j < n implies !occurs_at(text, pat, j) by {
        if occurs_at(text, pat, j) {
            let found = text.subrange(j, j + 2);
            assert(found[0] == text[j] && found[1] == text[j + 1]);
            if j + 2 <= n {
                assert(a.subrange(j, j + 2) == pat);
                assert(occurs_at(a, pat, j));
            } else {
                assert(text[j + 1] == pat[0]);
            }
        }
    }
    assert(first_at(text, pat, n));
    lemma_find_is(text, pat, n);
    assert(text.take(n) == a);
    assert(text.skip(n + 2) == rest);
}

/// A name and a value without a line ending make a header line without one.
proof fn lemma_header_line(name: Seq<char>, value: Seq<char>)
    requires
        !contains(name, crlf()),
        !contains(value, crlf()),
    ensures
        !contains(name + colon_space() + value, crlf()),
{
    reveal_strlit("\r\n");
    reveal_strlit(": ");
    let line = name + colon_space() + value;
    let n = name.len() as int;
    assert forall|j: int| !occurs_at(line, crlf(), j) by {
        if occurs_at(line, crlf(), j) {
            let found = line.subrange(j, j + 2);
            assert(found[0] == line[j] && found[1] == line[j + 1]);
            if j + 2 <= n {
                assert(name.subrange(j, j + 2) == crlf());
                assert(occurs_at(name, crlf(), j));
            } else if j >= n + 2 {
                assert(value.subrange(j - n - 2, j - n) == crlf());
                assert(occurs_at(value, crlf(), j - n - 2));
            }
        }
    }
}

/// The header lines of readable headers, then an empty line and a body,
/// are read back as those headers and that body.
proof fn lemma_read_headers(headers: Seq<HeaderModel>, body: Seq<char>)
    requires
        forall|i: int|
            0 <= i < headers.len() ==> {
                &&& !contains((#[trigger] headers[i]).0, crlf())
                &&& !contains(headers[i].0, colon_space())
                &&& !contains(headers[i].1, crlf())
            },
    ensures
        read_headers(headers_text(headers) + crlf() + body) == Some((headers, body)),
    decreases headers.len(),
{
    reveal_strlit("\r\n");
    reveal_strlit(": ");
    let text = headers_text(headers) + crlf() + body;
    if headers.len() == 0 {
        let none = Seq::<char>::empty();
        assert(text == none + crlf() + body);
        lemma_find_after(none, crlf(), body);
    } else {
        let h = headers[0];
        let tail = headers.drop_first();
        let line = h.0 + colon_space() + h.1;
        let rest = headers_text(tail) + crlf() + body;
        assert(text == line + crlf() + rest);
        lemma_header_line(h.0, h.1);
        lemma_find_after(line, crlf(), rest);
        lemma_find_after(h.0, colon_space(), h.1);
        assert forall|i: int| 0 <= i < tail.len() implies {
            &&& !contains((#[trigger] tail[i]).0, crlf())
            &&& !contains(tail[i].0, colon_space())
            &&& !contains(tail[i].1, crlf())
        } by {
            assert(tail[i] == headers[i + 1]);
        }
        lemma_read_headers(tail, body);
        assert(seq![h] + tail == headers);
    }
}

/// Writing a response and reading the text back gives the response: the
/// same status line, the same headers with the same values, in the same
/// order, and the same body.
pub proof fn lemma_round_trip(r: ResponseModel)
    requires
        readable(r),
    ensures
        read_response(serialize(r)) == Some(r),
{
    reveal_strlit("\r\n");
    let rest = headers_text(r.headers) + crlf() + r.body;
    assert(serialize(r) == r.status_line + crlf() + rest);
    lemma_find_after(r.status_line, crlf(), rest);
    lemma_read_headers(r.headers, r.body);
}

} // verus!
