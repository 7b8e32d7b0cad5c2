//! The connection handler as a state machine. It decides; the caller
//! does the work on the socket and calls the route handler between the
//! steps, and holds the lock on the session store for one step only.

use crate::json::body_value;
use crate::parser::{parse, parse_request, utf8_lossy};
use crate::request::{HttpRequest, RequestModel};
use crate::response::{serialize, value_of, with_header, HttpResponse, ResponseModel};
use crate::router::{route_of, route_request, Route};
use crate::session::{known, resolve, Server, Sessions};
use vstd::prelude::*;
use vstd::string::StringExecFns;

verus! {

/// The name of the header that carries the session identifier.
pub open spec fn set_cookie() -> Seq<char> {
    "Set-Cookie"@
}

/// The value of that header for a session.
pub open spec fn cookie_value(session_id: Seq<char>) -> Seq<char> {
    "sessionId="@ + session_id + "; Path=/"@
}

/// `r` with the session header set for `session_id`, in place of any
/// session header that `r` had.
pub open spec fn stamped(r: ResponseModel, session_id: Seq<char>) -> ResponseModel {
    ResponseModel {
        status_line: r.status_line,
        headers: with_header(r.headers, set_cookie(), cookie_value(session_id)),
        body: r.body,
    }
}

/// Sets the session header of a response.
pub fn stamp(response: &mut HttpResponse, session_id: &str)
    ensures
        final(response)@ == stamped(old(response)@, session_id@),
        value_of(final(response)@.headers, set_cookie()) == Some(cookie_value(session_id@)),
{
    let mut value = String::from_str("sessionId=");
    value.append(session_id);
    value.append("; Path=/");
    response.insert_header(String::from_str("Set-Cookie"), value);
}

/// Where the handling of one connection stands.
#[derive(Clone, Copy, Debug, PartialEq, Eq)]
pub enum Phase {
    /// Nothing was read yet.
    Idle,
    /// The request was parsed.
    Parsed,
    /// The session of the request is known; the route handler is to be called.
    SessionResolved,
    /// The route handler gave its response.
    Dispatched,
    /// The response went out for writing.
    Sent,
    /// The response was written.
    Done,
    /// Reading, parsing or writing failed. Nothing more is done.
    Aborted,
}

/// The state of a connection: where it stands, and what it holds there.
#[derive(Debug)]
enum State {
    Idle,
    Parsed { request: HttpRequest },
    SessionResolved { request: HttpRequest, session_id: String },
    Dispatched { response: HttpResponse, session_id: String },
    Sent { wire: String },
    Done,
    Aborted,
}

/// The handling of one connection. It starts `Idle` and goes on by the
/// steps below and in no other way.
#[derive(Debug)]
pub struct Connection {
    state: State,
}

/// The state of a connection, as mathematical text.
pub enum ConnectionModel {
    Idle,
    Parsed { request: RequestModel },
    SessionResolved { request: RequestModel, session_id: Seq<char> },
    Dispatched { response: ResponseModel, session_id: Seq<char> },
    /// `wire` is the text to write.
    Sent { wire: Seq<char> },
    Done,
    Aborted,
}

impl State {
    /// The state as mathematical text.
    spec fn model(&self) -> ConnectionModel {
        match self {
            State::Idle => ConnectionModel::Idle,
            State::Parsed { request } => ConnectionModel::Parsed { request: request@ },
            State::SessionResolved { request, session_id } => ConnectionModel::SessionResolved {
                request: request@,
                session_id: session_id@,
            },
            State::Dispatched { response, session_id } => ConnectionModel::Dispatched {
                response: response@,
                session_id: session_id@,
            },
            State::Sent { wire } => ConnectionModel::Sent { wire: wire@ },
            State::Done => ConnectionModel::Done,
            State::Aborted => ConnectionModel::Aborted,
        }
    }
}

impl View for Connection {
    type V = ConnectionModel;

    closed spec fn view(&self) -> ConnectionModel {
        self.state.model()
    }
}

/// The text of a read: the bytes decoded, or nothing where reading failed.
pub open spec fn text_read(read: Option<&[u8]>) -> Option<Seq<char>> {
    match read {
        Some(bytes) => Some(utf8_lossy(bytes@)),
        None => None,
    }
}

impl ConnectionModel {
    /// Where the connection stands.
    pub open spec fn phase(self) -> Phase {
        match self {
            ConnectionModel::Idle => Phase::Idle,
            ConnectionModel::Parsed { .. } => Phase::Parsed,
            ConnectionModel::SessionResolved { .. } => Phase::SessionResolved,
            ConnectionModel::Dispatched { .. } => Phase::Dispatched,
            ConnectionModel::Sent { .. } => Phase::Sent,
            ConnectionModel::Done => Phase::Done,
            ConnectionModel::Aborted => Phase::Aborted,
        }
    }

    /// After the read. From `Idle`, a text that holds a request leads to
    /// `Parsed`; a failed read and a text that holds none lead to
    /// `Aborted`. Every other state stays.
    pub open spec fn received(self, text: Option<Seq<char>>) -> ConnectionModel {
        match self {
            ConnectionModel::Idle => match text {
                Some(t) => match parse(t) {
                    Some(request) => ConnectionModel::Parsed { request },
                    None => ConnectionModel::Aborted,
                },
                None => ConnectionModel::Aborted,
            },
            _ => self,
        }
    }

    /// After the session store was asked. From `Parsed`, the cookie of the
    /// request is resolved and the state is `SessionResolved`. In every
    /// other state nothing happens, to the store neither.
    pub open spec fn resolved(self, sessions: Sessions) -> (
        ConnectionModel,
        Sessions,
    ) {
        match self {
            ConnectionModel::Parsed { request } => (
                ConnectionModel::SessionResolved {
                    request,
                    session_id: resolve(sessions, request.cookie).1,
                },
                resolve(sessions, request.cookie).0,
            ),
            _ => (self, sessions),
        }
    }

    /// After the route handler returned `response`. From
    /// `SessionResolved` the state is `Dispatched`; every other state stays.
    pub open spec fn dispatched(self, response: ResponseModel) -> ConnectionModel {
        match self {
            ConnectionModel::SessionResolved { request, session_id } => ConnectionModel::Dispatched {
                response,
                session_id,
            },
            _ => self,
        }
    }

    /// After the response was made ready for the wire. From `Dispatched`,
    /// the session header is set, whatever the handler set, and the
    /// response is written out as text; the state is `Sent`. Every other
    /// state stays.
    pub open spec fn sent(self) -> ConnectionModel {
        match self {
            ConnectionModel::Dispatched { response, session_id } => ConnectionModel::Sent {
                wire: serialize(stamped(response, session_id)),
            },
            _ => self,
        }
    }

    /// After the write. From `Sent`, a write that succeeded leads to
    /// `Done` and one that failed to `Aborted`. Every other state stays.
    pub open spec fn written(self, ok: bool) -> ConnectionModel {
        match self {
            ConnectionModel::Sent { wire } => if ok {
                ConnectionModel::Done
            } else {
                ConnectionModel::Aborted
            },
            _ => self,
        }
    }
}

/// A request whose cookie names a session is resolved to that session,
/// and the session store is the same afterwards as before, however often
/// the request comes.
pub proof fn lemma_known_session_keeps_store(
    text: Seq<char>,
    sessions: Sessions,
    request: RequestModel,
)
    requires
        parse(text) == Some(request),
        known(sessions, request.cookie),
    ensures
        ({
            let first = ConnectionModel::Idle.received(Some(text)).resolved(sessions);
            let second = ConnectionModel::Idle.received(Some(text)).resolved(first.1);
            &&& first.0 == ConnectionModel::SessionResolved {
                request,
                session_id: request.cookie->0,
            }
            &&& first.1 == sessions
            &&& second == first
        }),
{
}

/// The steps come in one order: a state is entered only from the state
/// before it, and `Done` and `Aborted` are left by no step.
pub proof fn lemma_steps_in_order(
    c: ConnectionModel,
    text: Option<Seq<char>>,
    sessions: Sessions,
    response: ResponseModel,
    ok: bool,
)
    ensures
        c.received(text) != c ==> (c is Idle),
        c.received(text) is Parsed ==> (c is Idle) || (c is Parsed),
        c.resolved(sessions).0 != c ==> (c is Parsed) && (c.resolved(sessions).0 is SessionResolved),
        c.resolved(sessions).1 != sessions ==> (c is Parsed),
        c.dispatched(response) != c ==> (c is SessionResolved) && (c.dispatched(response)
            is Dispatched),
        c.sent() != c ==> (c is Dispatched) && (c.sent() is Sent),
        c.written(ok) != c ==> (c is Sent),
        (c is Done) || (c is Aborted) ==> c.received(text) == c && c.resolved(sessions) == (
            c,
            sessions,
        ) && c.dispatched(response) == c && c.sent() == c && c.written(ok) == c,
{
}

impl Connection {
    /// A connection on which nothing was read yet.
    pub fn new() -> (c: Connection)
        ensures
            c@ == ConnectionModel::Idle,
    {
        Connection { state: State::Idle }
    }

    /// Where the connection stands.
    pub fn phase(&self) -> (p: Phase)
        ensures
            p == self@.phase(),
    {
        match &self.state {
            State::Idle => Phase::Idle,
            State::Parsed { .. } => Phase::Parsed,
            State::SessionResolved { .. } => Phase::SessionResolved,
            State::Dispatched { .. } => Phase::Dispatched,
            State::Sent { .. } => Phase::Sent,
            State::Done => Phase::Done,
            State::Aborted => Phase::Aborted,
        }
    }

    /// Takes what was read from the socket: the bytes of one read, or
    /// `None` where reading failed. A read of no bytes holds no request.
    pub fn receive(self, read: Option<&[u8]>) -> (c: Connection)
        ensures
            c@ == self@.received(text_read(read)),
    {
        let state = match self.state {
            State::Idle => match read {
                Some(bytes) => match parse_request(bytes) {
                    Some(request) => State::Parsed { request },
                    None => State::Aborted,
                },
                None => State::Aborted,
            },
            other => other,
        };
        Connection { state }
    }

    /// Resolves the session of the parsed request in `server`. This is the
    /// one step that needs the session store.
    pub fn resolve_session(self, server: &mut Server) -> (c: Connection)
        ensures
            (c@, final(server)@) == self@.resolved(old(server)@),
    {
        let state = match self.state {
            State::Parsed { request } => {
                let session_id = server.handle_cookie(&request);
                State::SessionResolved { request, session_id }
            },
            other => other,
        };
        Connection { state }
    }

    /// The session identifier, once the session is resolved and until the
    /// response goes out.
    pub fn session_id(&self) -> (id: Option<&str>)
        ensures
            match self@ {
                ConnectionModel::SessionResolved { request, session_id } => id matches Some(s)
                    && s@ == session_id,
                ConnectionModel::Dispatched { response, session_id } => id matches Some(s) && s@
                    == session_id,
                _ => id is None,
            },
    {
        match &self.state {
            State::SessionResolved { request, session_id } => Some(session_id.as_str()),
            State::Dispatched { response, session_id } => Some(session_id.as_str()),
            _ => None,
        }
    }

    /// The route handler to call, and what to hand to it. There is one
    /// in the state `SessionResolved` and in no other.
    pub fn route(&self) -> (route: Option<Route>)
        ensures
            match self@ {
                ConnectionModel::SessionResolved { request, session_id } => route matches Some(r)
                    && r@ == route_of(request.method, request.path, body_value(request.body)),
                _ => route is None,
            },
    {
        match &self.state {
            State::SessionResolved { request, session_id } => Some(route_request(request)),
            _ => None,
        }
    }

    /// Takes the response of the route handler.
    pub fn dispatched(self, response: HttpResponse) -> (c: Connection)
        ensures
            c@ == self@.dispatched(response@),
    {
        let state = match self.state {
            State::SessionResolved { request, session_id } => State::Dispatched {
                response,
                session_id,
            },
            other => other,
        };
        Connection { state }
    }

    /// Makes the response ready for the wire: sets the session header and
    /// writes the response out as text.
    pub fn send(self) -> (c: Connection)
        ensures
            c@ == self@.sent(),
    {
        let state = match self.state {
            State::Dispatched { response, session_id } => {
                let mut response = response;
                stamp(&mut response, session_id.as_str());
                State::Sent { wire: response.to_string() }
            },
            other => other,
        };
        Connection { state }
    }

    /// The text to write to the socket, in the state `Sent`.
    pub fn wire(&self) -> (text: Option<&str>)
        ensures
            match self@ {
                ConnectionModel::Sent { wire } => text matches Some(t) && t@ == wire,
                _ => text is None,
            },
    {
        match &self.state {
            State::Sent { wire } => Some(wire.as_str()),
            _ => None,
        }
    }

    /// Takes the outcome of the write.
    pub fn written(self, ok: bool) -> (c: Connection)
        ensures
            c@ == self@.written(ok),
    {
        let state = match self.state {
            State::Sent { wire } => if ok {
                State::Done
            } else {
                State::Aborted
            },
            other => other,
        };
        Connection { state }
    }
}

} // verus!
