//! The response: a status line, headers with unique names, and a body,
//! with the text that goes on the wire.

use crate::scan::{lemma_run, lemma_run_is, run};
use vstd::prelude::*;
use vstd::string::StringExecFns;

verus! {

/// One header: its name and its value.
pub type HeaderModel = (Seq<char>, Seq<char>);

/// What a response holds, as mathematical text. The headers stand in the
/// order in which their names were first inserted.
pub struct ResponseModel {
    pub status_line: Seq<char>,
    pub headers: Seq<HeaderModel>,
    pub body: Seq<char>,
}

/// The headers whose name is not `name`.
pub open spec fn other_name(name: Seq<char>) -> spec_fn(HeaderModel) -> bool {
    |h: HeaderModel| h.0 != name
}

/// The position of the first header called `name`; the number of headers
/// when none is.
pub open spec fn position(headers: Seq<HeaderModel>, name: Seq<char>) -> nat {
    run(headers, other_name(name))
}

/// No two headers have the same name.
pub open spec fn unique_names(headers: Seq<HeaderModel>) -> bool {
    forall|i: int, j: int| 0 <= i < j < headers.len() ==> headers[i].0 != headers[j].0
}

/// The value of the header called `name`.
pub open spec fn value_of(headers: Seq<HeaderModel>, name: Seq<char>) -> Option<Seq<char>> {
    let at = position(headers, name) as int;
    if at < headers.len() {
        Some(headers[at].1)
    } else {
        None
    }
}

/// `headers` with `name` set to `value`: in place where a header is
/// called `name` already, at the end where none is.
pub open spec fn with_header(headers: Seq<HeaderModel>, name: Seq<char>, value: Seq<char>) -> Seq<
    HeaderModel,
> {
    let at = position(headers, name) as int;
    if at < headers.len() {
        headers.update(at, (name, value))
    } else {
        headers.push((name, value))
    }
}

/// The end of a line on the wire.
pub open spec fn crlf() -> Seq<char> {
    "\r\n"@
}

/// What stands between a header's name and its value.
pub open spec fn colon_space() -> Seq<char> {
    ": "@
}

/// One header as a line on the wire, with its line ending.
pub open spec fn header_text(h: HeaderModel) -> Seq<char> {
    h.0 + colon_space() + h.1 + crlf()
}

/// The header lines on the wire, one after the other.
pub open spec fn headers_text(headers: Seq<HeaderModel>) -> Seq<char>
    decreases headers.len(),
{
    if headers.len() == 0 {
        Seq::empty()
    } else {
        header_text(headers[0]) + headers_text(headers.drop_first())
    }
}

/// The response on the wire: the status line, each header as
/// `Name: value`, a blank line, and the body, with a line ending after
/// each line.
pub open spec fn serialize(r: ResponseModel) -> Seq<char> {
    r.status_line + crlf() + headers_text(r.headers) + crlf() + r.body
}

/// The headers that the pairs of `v` hold.
pub open spec fn pairs(v: Seq<(String, String)>) -> Seq<HeaderModel> {
    Seq::new(v.len(), |i: int| (v[i].0@, v[i].1@))
}

/// Setting a header keeps the names unique.
pub proof fn lemma_with_header_unique(headers: Seq<HeaderModel>, name: Seq<char>, value: Seq<char>)
    requires
        unique_names(headers),
    ensures
        unique_names(with_header(headers, name, value)),
        value_of(with_header(headers, name, value), name) == Some(value),
{
    lemma_run(headers, other_name(name));
    let at = position(headers, name) as int;
    let after = with_header(headers, name, value);
    if at < headers.len() {
        assert forall|i: int, j: int| 0 <= i < j < after.len() implies after[i].0 != after[j].0 by {
            assert(headers[i].0 != headers[j].0);
        }
    } else {
        assert forall|i: int, j: int| 0 <= i < j < after.len() implies after[i].0 != after[j].0 by {
            if j < headers.len() {
                assert(headers[i].0 != headers[j].0);
            } else {
                assert(other_name(name)(headers[i]));
            }
        }
    }
    assert forall|i: int| 0 <= i < at implies other_name(name)(#[trigger] after[i]) by {
        assert(other_name(name)(headers[i]));
    }
    lemma_run_is(after, other_name(name), at);
}

/// The header lines of `headers` with one more header are those of
/// `headers`, then the line of that header.
pub proof fn lemma_headers_text_push(headers: Seq<HeaderModel>, h: HeaderModel)
    ensures
        headers_text(headers.push(h)) == headers_text(headers) + header_text(h),
    decreases headers.len(),
{
    let all = headers.push(h);
    if headers.len() == 0 {
        assert(all.drop_first() == Seq::<HeaderModel>::empty());
        assert(headers_text(all.drop_first()) == Seq::<char>::empty());
        assert(headers_text(all) == header_text(h) + Seq::<char>::empty());
    } else {
        lemma_headers_text_push(headers.drop_first(), h);
        assert(all.drop_first() == headers.drop_first().push(h));
        assert(headers_text(all) == header_text(headers[0]) + (headers_text(headers.drop_first())
            + header_text(h)));
    }
}

/// A response to send: a status line, headers and a body.
#[derive(Debug)]
pub struct HttpResponse {
    status_line: String,
    headers: Vec<(String, String)>,
    body: String,
}

impl View for HttpResponse {
    type V = ResponseModel;

    closed spec fn view(&self) -> ResponseModel {
        ResponseModel {
            status_line: self.status_line@,
            headers: pairs(self.headers@),
            body: self.body@,
        }
    }
}

impl HttpResponse {
    /// No two headers have the same name.
    #[verifier::type_invariant]
    spec fn names_are_unique(&self) -> bool {
        unique_names(pairs(self.headers@))
    }

    /// A response without headers.
    pub fn new(status_line: String, body: String) -> (r: HttpResponse)
        ensures
            r@.status_line == status_line@,
            r@.headers == Seq::<HeaderModel>::empty(),
            r@.body == body@,
    {
        let r = HttpResponse { status_line, headers: Vec::new(), body };
        assert(r@.headers =~= Seq::<HeaderModel>::empty());
        r
    }

    /// The status line.
    pub fn status_line(&self) -> (s: &str)
        ensures
            s@ == self@.status_line,
    {
        self.status_line.as_str()
    }

    /// The body.
    pub fn body(&self) -> (s: &str)
        ensures
            s@ == self@.body,
    {
        self.body.as_str()
    }

    /// The number of headers. No two of them have the same name.
    pub fn header_count(&self) -> (n: usize)
        ensures
            n == self@.headers.len(),
            unique_names(self@.headers),
    {
        proof {
            use_type_invariant(self);
        }
        self.headers.len()
    }

    /// The name and the value of the header at position `i`.
    pub fn header_at(&self, i: usize) -> (header: Option<(&str, &str)>)
        ensures
            match header {
                Some((name, value)) => i < self@.headers.len() && self@.headers[i as int] == (
                    name@,
                    value@,
                ),
                None => i >= self@.headers.len(),
            },
    {
        if i < self.headers.len() {
            Some((self.headers[i].0.as_str(), self.headers[i].1.as_str()))
        } else {
            None
        }
    }

    /// Where the header called `name` stands; the number of headers when
    /// none is called so.
    fn find_header(&self, name: &str) -> (at: usize)
        ensures
            at == position(self@.headers, name@),
            at <= self.headers.len(),
    {
        let mut i: usize = 0;
        while i < self.headers.len() && !self.headers[i].0.as_str().eq(name)
            invariant
                i <= self.headers.len(),
                forall|k: int| 0 <= k < i ==> other_name(name@)(#[trigger] pairs(self.headers@)[k]),
            decreases self.headers.len() - i,
        {
            i += 1;
        }
        proof {
            lemma_run_is(pairs(self.headers@), other_name(name@), i as int);
        }
        i
    }

    /// The value of the header called `name`.
    pub fn header(&self, name: &str) -> (value: Option<&str>)
        ensures
            match value {
                Some(v) => value_of(self@.headers, name@) == Some(v@),
                None => value_of(self@.headers, name@) is None,
            },
    {
        let at = self.find_header(name);
        if at < self.headers.len() {
            Some(self.headers[at].1.as_str())
        } else {
            None
        }
    }

    /// Sets the header `name` to `value`. A header of that name keeps its
    /// place and takes the new value; a new name goes to the end.
    pub fn insert_header(&mut self, name: String, value: String)
        ensures
            final(self)@.status_line == old(self)@.status_line,
            final(self)@.body == old(self)@.body,
            final(self)@.headers == with_header(old(self)@.headers, name@, value@),
            unique_names(final(self)@.headers),
            value_of(final(self)@.headers, name@) == Some(value@),
    {
        proof {
            use_type_invariant(&*self);
            lemma_with_header_unique(self@.headers, name@, value@);
        }
        let at = self.find_header(name.as_str());
        // The headers are taken out of the response to be changed, and
        // put back with the names still unique.
        let mut headers: Vec<(String, String)> = Vec::new();
        assert(pairs(headers@) =~= Seq::<HeaderModel>::empty());
        core::mem::swap(&mut headers, &mut self.headers);
        if at < headers.len() {
            headers.set(at, (name, value));
        } else {
            headers.push((name, value));
        }
        assert(pairs(headers@) =~= with_header(pairs(old(self).headers@), name@, value@));
        core::mem::swap(&mut headers, &mut self.headers);
    }

    /// The text of the response as it goes on the wire.
    pub fn to_string(&self) -> (text: String)
        ensures
            text@ == serialize(self@),
    {
        let mut text = self.status_line.clone();
        text.append("\r\n");
        let ghost start = text@;
        let mut i: usize = 0;
        while i < self.headers.len()
            invariant
                i <= self.headers.len(),
                text@ == start + headers_text(pairs(self.headers@).take(i as int)),
            decreases self.headers.len() - i,
        {
            let ghost before = text@;
            text.append(self.headers[i].0.as_str());
            text.append(": ");
            text.append(self.headers[i].1.as_str());
            text.append("\r\n");
            proof {
                let hs = pairs(self.headers@);
                lemma_headers_text_push(hs.take(i as int), hs[i as int]);
                assert(hs.take(i + 1) == hs.take(i as int).push(hs[i as int]));
                assert(text@ == before + header_text(hs[i as int]));
            }
            i += 1;
        }
        assert(pairs(self.headers@).take(i as int) == pairs(self.headers@));
        text.append("\r\n");
        text.append(self.body.as_str());
        text
    }
}

} // verus!
