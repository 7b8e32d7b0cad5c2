//! The session store: session data by session identifier, with the one
//! operation that resolves a cookie to a session or creates a new one.

use crate::request::HttpRequest;
use vstd::hash_map::StringHashMap;
use vstd::prelude::*;

verus! {

broadcast use vstd::hash_map::group_hash_map_axioms;

/// The sessions of a store: session data by session identifier.
pub type Sessions = Map<Seq<char>, Seq<char>>;

/// The character that stands for the digit `d`.
pub open spec fn digit(d: nat) -> char
    recommends
        d < 10,
{
    ((48 + d) as u8) as char
}

/// The decimal numeral of `n`, without leading zeros.
pub open spec fn decimal(n: nat) -> Seq<char>
    decreases n,
{
    if n < 10 {
        seq![digit(n)]
    } else {
        decimal(n / 10).push(digit(n % 10))
    }
}

/// `n` is the least number whose numeral names no session in `ids`.
pub open spec fn is_first_free(ids: Set<Seq<char>>, n: nat) -> bool {
    &&& !ids.contains(decimal(n))
    &&& forall|k: nat| k < n ==> ids.contains(#[trigger] decimal(k))
}

/// The identifier of the next new session: the numeral of the least
/// number that names no session yet.
pub open spec fn fresh_id(sessions: Sessions) -> Seq<char> {
    decimal(choose|n: nat| is_first_free(sessions.dom(), n))
}

/// `cookie` names a session.
pub open spec fn known(sessions: Sessions, cookie: Option<Seq<char>>) -> bool {
    cookie matches Some(id) && sessions.contains_key(id)
}

/// The text of a cookie, if there is a cookie.
pub open spec fn candidate(cookie: Option<&str>) -> Option<Seq<char>> {
    match cookie {
        Some(c) => Some(c@),
        None => None,
    }
}

/// What resolving `cookie` makes of the store, and the session identifier
/// it gives. A cookie that names a session gives that session and leaves the
/// store as it is. Any other cookie, and none, give a new session with
/// empty data under a fresh identifier.
pub open spec fn resolve(sessions: Sessions, cookie: Option<Seq<char>>) -> (Sessions, Seq<char>) {
    if known(sessions, cookie) {
        (sessions, cookie->0)
    } else {
        (sessions.insert(fresh_id(sessions), Seq::empty()), fresh_id(sessions))
    }
}

/// Different numbers have different numerals.
pub proof fn lemma_decimal_injective(a: nat, b: nat)
    requires
        decimal(a) == decimal(b),
    ensures
        a == b,
    decreases a,
{
    lemma_decimal_len(a);
    lemma_decimal_len(b);
    if a < 10 {
        assert(decimal(a).len() == 1);
        if b >= 10 {
            lemma_decimal_len(b / 10);
        }
        assert(decimal(a)[0] == digit(a));
        assert(decimal(b)[0] == digit(b));
    } else {
        lemma_decimal_len(a / 10);
        assert(b >= 10);
        assert(decimal(a).last() == digit(a % 10));
        assert(decimal(b).last() == digit(b % 10));
        assert(decimal(a).drop_last() == decimal(a / 10));
        assert(decimal(b).drop_last() == decimal(b / 10));
        lemma_decimal_injective(a / 10, b / 10);
    }
}

/// A numeral has at least one digit, and more than one from ten on.
proof fn lemma_decimal_len(n: nat)
    ensures
        decimal(n).len() >= 1,
        n >= 10 ==> decimal(n).len() >= 2,
    decreases n,
{
    if n >= 10 {
        lemma_decimal_len(n / 10);
    }
}

/// A finite set that holds the numerals of all numbers below `m` has at
/// least `m` elements.
proof fn lemma_numerals_fit(ids: Set<Seq<char>>, m: nat)
    requires
        ids.finite(),
        forall|k: nat| k < m ==> ids.contains(#[trigger] decimal(k)),
    ensures
        m <= ids.len(),
    decreases m,
{
    if m > 0 {
        let last = decimal((m - 1) as nat);
        let fewer = ids.remove(last);
        assert forall|k: nat| k < m - 1 implies fewer.contains(#[trigger] decimal(k)) by {
            if decimal(k) == last {
                lemma_decimal_injective(k, (m - 1) as nat);
            }
        }
        lemma_numerals_fit(fewer, (m - 1) as nat);
    }
}

/// There is only one least free number, and its numeral is the fresh
/// identifier.
pub proof fn lemma_fresh_id_is(sessions: Sessions, n: nat)
    requires
        is_first_free(sessions.dom(), n),
    ensures
        fresh_id(sessions) == decimal(n),
{
    let m = choose|m: nat| is_first_free(sessions.dom(), m);
    if m < n {
        assert(sessions.dom().contains(decimal(m)));
    } else if n < m {
        assert(sessions.dom().contains(decimal(n)));
    }
}

/// In a finite set some numeral is missing, and so one is the first.
proof fn lemma_first_free_exists(ids: Set<Seq<char>>, n: nat)
    requires
        ids.finite(),
        forall|k: nat| k < n ==> ids.contains(#[trigger] decimal(k)),
    ensures
        exists|m: nat| is_first_free(ids, m),
    decreases ids.len() - n,
{
    lemma_numerals_fit(ids, n);
    if ids.contains(decimal(n)) {
        lemma_numerals_fit(ids, n + 1);
        lemma_first_free_exists(ids, n + 1);
    } else {
        assert(is_first_free(ids, n));
    }
}

/// A fresh identifier names no session.
pub proof fn lemma_fresh_id_is_new(sessions: Sessions)
    requires
        sessions.dom().finite(),
    ensures
        !sessions.contains_key(fresh_id(sessions)),
{
    lemma_first_free_exists(sessions.dom(), 0);
}

/// A cookie that names a session resolves to that session, and no
/// session is made.
pub proof fn lemma_known_session(sessions: Sessions, id: Seq<char>)
    requires
        sessions.contains_key(id),
    ensures
        resolve(sessions, Some(id)) == (sessions, id),
{
}

/// Without a cookie, or with one that names no session, exactly one
/// session is made: it has the identifier that is returned, which named no
/// session before, and every other session stays as it was.
pub proof fn lemma_new_session(sessions: Sessions, cookie: Option<Seq<char>>)
    requires
        sessions.dom().finite(),
        !known(sessions, cookie),
    ensures
        ({
            let (after, id) = resolve(sessions, cookie);
            &&& !sessions.contains_key(id)
            &&& after.dom() == sessions.dom().insert(id)
            &&& after.len() == sessions.len() + 1
            &&& after[id] == Seq::<char>::empty()
            &&& forall|k: Seq<char>| sessions.contains_key(k) ==> after[k] == sessions[k]
        }),
{
    lemma_fresh_id_is_new(sessions);
}

/// Resolving a cookie that names a session a second time gives the same
/// session again, and the store is the same after both as before.
pub proof fn lemma_resolve_again(sessions: Sessions, id: Seq<char>)
    requires
        sessions.contains_key(id),
    ensures
        resolve(resolve(sessions, Some(id)).0, Some(id)) == (sessions, id),
{
}

/// Appends the decimal numeral of `n` to `text`.
fn push_decimal(text: &mut String, n: usize)
    ensures
        final(text)@ == old(text)@ + decimal(n as nat),
    decreases n,
{
    if n >= 10 {
        push_decimal(text, n / 10);
    }
    let d: u8 = (n % 10) as u8;
    text.push((48 + d) as char);
    proof {
        if n < 10 {
            assert(final(text)@ == old(text)@ + seq![digit(n as nat)]);
        } else {
            assert(final(text)@ == old(text)@ + decimal((n / 10) as nat).push(
                digit((n % 10) as nat),
            ));
        }
    }
}

/// The decimal numeral of `n`.
fn numeral(n: usize) -> (text: String)
    ensures
        text@ == decimal(n as nat),
{
    let mut text = String::new();
    push_decimal(&mut text, n);
    text
}

/// The session data that the strings of `m` hold.
pub open spec fn data(m: Map<Seq<char>, String>) -> Sessions {
    m.map_values(|v: String| v@)
}

/// The session store. Sessions are added and never removed.
pub struct Server {
    sessions: StringHashMap<String>,
    /// Every number below this one names a session.
    next: usize,
}

impl View for Server {
    type V = Sessions;

    closed spec fn view(&self) -> Sessions {
        data(self.sessions@)
    }
}

impl Server {
    /// The store is finite, and every number below `next` names a session.
    #[verifier::type_invariant]
    spec fn well_formed(&self) -> bool {
        &&& self.sessions@.dom().finite()
        &&& forall|k: nat| k < self.next ==> self.sessions@.contains_key(#[trigger] decimal(k))
    }

    /// A store without sessions.
    pub fn new() -> (server: Server)
        ensures
            server@ == Sessions::empty(),
    {
        let server = Server { sessions: StringHashMap::new(), next: 0 };
        assert(server@ =~= Sessions::empty());
        server
    }

    /// The number of sessions.
    pub fn len(&self) -> (n: usize)
        ensures
            n == self@.len(),
            self@.dom().finite(),
    {
        proof {
            use_type_invariant(self);
            assert(self@.dom() =~= self.sessions@.dom());
        }
        self.sessions.len()
    }

    /// Whether `id` names a session.
    pub fn contains_key(&self, id: &str) -> (known: bool)
        ensures
            known == self@.contains_key(id@),
    {
        self.sessions.contains_key(id)
    }

    /// The data of the session that `id` names.
    pub fn get(&self, id: &str) -> (found: Option<&str>)
        ensures
            match found {
                Some(d) => self@.contains_key(id@) && self@[id@] == d@,
                None => !self@.contains_key(id@),
            },
    {
        match self.sessions.get(id) {
            Some(d) => Some(d.as_str()),
            None => None,
        }
    }

    /// Puts `session_data` under `id`, in place of what was there.
    pub fn insert(&mut self, id: String, session_data: String)
        ensures
            final(self)@ == old(self)@.insert(id@, session_data@),
    {
        proof {
            use_type_invariant(&*self);
        }
        let next = self.next;
        self.put(id, session_data, next);
    }

    /// Puts `session_data` under `id` and sets the number below which
    /// every number names a session.
    ///
    /// The map is taken out of the store to be changed. While it is out
    /// that number is 0, so that the store is well formed at every step.
    fn put(&mut self, id: String, session_data: String, next: usize)
        requires
            forall|k: nat|
                k < next ==> old(self).sessions@.insert(id@, session_data).contains_key(
                    #[trigger] decimal(k),
                ),
        ensures
            final(self)@ == old(self)@.insert(id@, session_data@),
    {
        proof {
            use_type_invariant(&*self);
        }
        self.next = 0;
        let mut sessions: StringHashMap<String> = StringHashMap::new();
        core::mem::swap(&mut sessions, &mut self.sessions);
        sessions.insert(id, session_data);
        core::mem::swap(&mut sessions, &mut self.sessions);
        self.next = next;
        assert(self@ =~= old(self)@.insert(id@, session_data@));
    }

    /// Resolves a cookie to a session identifier.
    ///
    /// A cookie that names a session gives that session, and the store
    /// stays as it is. Any other cookie, and none, make one new session
    /// with empty data under an identifier that named no session before:
    /// the numeral of the least number that names none.
    pub fn resolve_or_create(&mut self, cookie: Option<&str>) -> (id: String)
        ensures
            (final(self)@, id@) == resolve(old(self)@, candidate(cookie)),
            known(old(self)@, candidate(cookie)) ==> Some(id@) == candidate(cookie) && final(self)@
                == old(self)@,
            !known(old(self)@, candidate(cookie)) ==> !old(self)@.contains_key(id@) && final(self)@
                == old(self)@.insert(id@, Seq::empty()),
            old(self)@.submap_of(final(self)@),
    {
        if let Some(c) = cookie {
            if self.sessions.contains_key(c) {
                return c.to_owned();
            }
        }
        proof {
            use_type_invariant(&*self);
            lemma_numerals_fit(self.sessions@.dom(), self.next as nat);
        }
        // Among the numbers up to the number of sessions one names none.
        let count = self.sessions.len();
        let mut n: usize = self.next;
        let mut id = numeral(n);
        while n < count && self.sessions.contains_key(id.as_str())
            invariant
                n <= count == self.sessions@.len(),
                forall|k: nat| k < n ==> self.sessions@.contains_key(#[trigger] decimal(k)),
                id@ == decimal(n as nat),
            decreases count - n,
        {
            n += 1;
            id = numeral(n);
        }
        proof {
            if self.sessions@.contains_key(id@) {
                lemma_numerals_fit(self.sessions@.dom(), (n + 1) as nat);
            }
            assert(self@.dom() =~= self.sessions@.dom());
            lemma_fresh_id_is(self@, n as nat);
        }
        let next = if n < usize::MAX {
            n + 1
        } else {
            n
        };
        self.put(id.clone(), String::new(), next);
        id
    }

    /// Resolves the session of `request`, by the cookie it carries.
    pub fn handle_cookie(&mut self, request: &HttpRequest) -> (id: String)
        ensures
            (final(self)@, id@) == resolve(old(self)@, request@.cookie),
            known(old(self)@, request@.cookie) ==> Some(id@) == request@.cookie && final(self)@
                == old(self)@,
            !known(old(self)@, request@.cookie) ==> !old(self)@.contains_key(id@) && final(self)@
                == old(self)@.insert(id@, Seq::empty()),
            old(self)@.submap_of(final(self)@),
    {
        match &request.cookie {
            Some(c) => self.resolve_or_create(Some(c.as_str())),
            None => self.resolve_or_create(None),
        }
    }
}

} // verus!
