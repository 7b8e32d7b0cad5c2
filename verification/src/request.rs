//! The parsed request.

use crate::text::whitespace;
use vstd::prelude::*;

verus! {

/// One request as the parser read it. It is built once per connection and
/// not changed afterwards.
#[derive(Debug, PartialEq, Eq)]
pub struct HttpRequest {
    /// The method token, never empty.
    pub method: String,
    /// The request target; empty where the request line names none.
    pub path: String,
    /// The header lines after the request line, as they came and in their order.
    pub headers: Vec<String>,
    /// What follows the blank line; empty where nothing does.
    pub body: String,
    /// The session cookie that the first `Cookie` header line carries.
    pub cookie: Option<String>,
}

/// What a request holds, as mathematical text.
pub struct RequestModel {
    pub method: Seq<char>,
    pub path: Seq<char>,
    pub headers: Seq<Seq<char>>,
    pub body: Seq<char>,
    pub cookie: Option<Seq<char>>,
}

/// The texts that the strings of `v` hold.
pub open spec fn texts(v: Seq<String>) -> Seq<Seq<char>> {
    Seq::new(v.len(), |i: int| v[i]@)
}

/// The text that `s` holds, if it holds one.
pub open spec fn text_of(s: Option<String>) -> Option<Seq<char>> {
    match s {
        Some(t) => Some(t@),
        None => None,
    }
}

impl View for HttpRequest {
    type V = RequestModel;

    open spec fn view(&self) -> RequestModel {
        RequestModel {
            method: self.method@,
            path: self.path@,
            headers: texts(self.headers@),
            body: self.body@,
            cookie: text_of(self.cookie),
        }
    }
}

impl RequestModel {
    /// The method is one non-empty word.
    pub open spec fn well_formed(self) -> bool {
        &&& self.method.len() > 0
        &&& forall|i: int| 0 <= i < self.method.len() ==> !whitespace(#[trigger] self.method[i])
    }
}

/// The model of a parse result.
pub open spec fn model_of(r: Option<HttpRequest>) -> Option<RequestModel> {
    match r {
        Some(request) => Some(request@),
        None => None,
    }
}

} // verus!
