//! The state of the server.

use vstd::hash_map::StringHashMap;
use vstd::prelude::*;

use crate::config::{Config, ConfigView};
use crate::headers;
use crate::store::{Binding, BindingView, PendingRegistration, PendingView, Sessions};
use crate::text;

verus! {

/// The lifetime of the bound cookie, in seconds.
pub const COOKIE_MAX_AGE_SECS: u64 = 300;

/// How long the binding to a device holds, in seconds: thirty days. After that the session is not
/// known any more.
pub const SESSION_TTL_SECS: u64 = 2_592_000;

/// How long the challenge of a registration stays valid, in seconds.
pub const REG_CHALLENGE_TTL_SECS: u64 = 300;

/// The identifier that counter value `n` gives.
pub open spec fn nonce_text(prefix: Seq<char>, n: u64) -> Seq<char> {
    prefix + text::decimal_text(n as nat)
}

/// The counter after `n`. It starts again at 0 after the largest value.
pub open spec fn after(n: u64) -> u64 {
    if n == u64::MAX {
        0
    } else {
        (n + 1) as u64
    }
}

/// A short identifier, different for each value of the counter, such as `sess3`. It is not
/// random: the counter makes for readable logs.
pub fn nonce(counter: &mut u64, prefix: &str) -> (r: String)
    ensures
        r@ == nonce_text(prefix@, *old(counter)),
        *final(counter) == after(*old(counter)),
{
    let n: u64 = *counter;
    *counter = n.wrapping_add(1);
    text::cat2(prefix, text::decimal(n).as_str())
}

/// The state of the server: its configuration, the counter of identifiers, the sessions by
/// their identifiers, and the pending registrations by the login they were offered to.
pub struct AppState {
    config: Config,
    counter: u64,
    sessions: Sessions,
    pending: StringHashMap<PendingRegistration>,
}

/// What the state holds.
#[verifier::ext_equal]
pub struct StateView {
    pub config: ConfigView,
    pub counter: u64,
    pub sessions: Map<Seq<char>, BindingView>,
    pub pending: Map<Seq<char>, PendingView>,
}

impl View for AppState {
    type V = StateView;

    closed spec fn view(&self) -> StateView {
        StateView {
            config: self.config@,
            counter: self.counter,
            sessions: self.sessions@,
            pending: self.pending@.map_values(|p: PendingRegistration| p@),
        }
    }
}

/// Every session identifier can stand in a header.
pub open spec fn ids_safe(sessions: Map<Seq<char>, BindingView>) -> bool {
    forall|id: Seq<char>| #[trigger] sessions.contains_key(id) ==> headers::header_safe(id)
}

impl AppState {
    /// The state is one that a server can be in.
    pub closed spec fn wf(self) -> bool {
        &&& self.sessions.wf()
        &&& ids_safe(self.sessions@)
    }

    /// A server that has not seen a request.
    pub fn new(config: Config) -> (r: AppState)
        ensures
            r.wf(),
            r@ == (StateView {
                config: config@,
                counter: 1,
                sessions: Map::empty(),
                pending: Map::empty(),
            }),
    {
        let r = AppState {
            config,
            counter: 1,
            sessions: Sessions::new(),
            pending: StringHashMap::new(),
        };
        assert(r@.pending =~= Map::<Seq<char>, PendingView>::empty());
        r
    }

    /// The configuration.
    pub fn cfg(&self) -> (r: &Config)
        ensures
            r@ == self@.config,
    {
        &self.config
    }

    /// The next identifier with the prefix `prefix`.
    pub(crate) fn mint(&mut self, prefix: &str) -> (r: String)
        requires
            old(self).wf(),
        ensures
            final(self).wf(),
            r@ == nonce_text(prefix@, old(self)@.counter),
            final(self)@ == (StateView { counter: after(old(self)@.counter), ..old(self)@ }),
    {
        nonce(&mut self.counter, prefix)
    }

    /// Keeps the challenge that was offered to the login `login`.
    pub(crate) fn offer(&mut self, login: String, offered: PendingRegistration)
        requires
            old(self).wf(),
        ensures
            final(self).wf(),
            final(self)@ == (StateView {
                pending: old(self)@.pending.insert(login@, offered@),
                ..old(self)@
            }),
    {
        self.pending.insert(login, offered);
        assert(self@.pending =~= old(self)@.pending.insert(login@, offered@));
    }

    /// What was offered to the login `login`.
    pub(crate) fn offered_to(&self, login: &str) -> (r: Option<PendingRegistration>)
        ensures
            match r {
                Some(p) => self@.pending.contains_key(login@) && self@.pending[login@] == p@,
                None => !self@.pending.contains_key(login@),
            },
    {
        match self.pending.get(login) {
            Some(p) => Some(p.clone()),
            None => None,
        }
    }

    /// Takes out the registration that is pending for the login `login`.
    pub(crate) fn take_pending(&mut self, login: &str) -> (r: Option<PendingRegistration>)
        requires
            old(self).wf(),
        ensures
            final(self).wf(),
            final(self)@ == (StateView {
                pending: old(self)@.pending.remove(login@),
                ..old(self)@
            }),
            match r {
                Some(p) => old(self)@.pending.contains_key(login@) && old(self)@.pending[login@]
                    == p@,
                None => !old(self)@.pending.contains_key(login@),
            },
    {
        let found = self.offered_to(login);
        self.pending.remove(login);
        assert(self@.pending =~= old(self)@.pending.remove(login@));
        found
    }

    /// What is kept for the session `id`.
    pub(crate) fn binding(&self, id: &str) -> (r: Option<Binding>)
        ensures
            match r {
                Some(b) => self@.sessions.contains_key(id@) && self@.sessions[id@] == b@,
                None => !self@.sessions.contains_key(id@),
            },
    {
        match self.sessions.get(id) {
            Some(b) => Some(b.clone()),
            None => None,
        }
    }

    /// Keeps `binding` for the session `id`, in place of what was kept for it.
    pub(crate) fn bind(&mut self, id: String, binding: Binding)
        requires
            old(self).wf(),
            headers::header_safe(id@),
        ensures
            final(self).wf(),
            final(self)@ == (StateView {
                sessions: old(self)@.sessions.insert(id@, binding@),
                ..old(self)@
            }),
    {
        self.sessions.insert(id, binding);
    }

    /// Forgets the session `id`.
    pub(crate) fn unbind(&mut self, id: &str)
        requires
            old(self).wf(),
        ensures
            final(self).wf(),
            final(self)@ == (StateView {
                sessions: old(self)@.sessions.remove(id@),
                ..old(self)@
            }),
    {
        self.sessions.remove(id);
    }

    /// A session whose bound cookie has the value `value`.
    pub(crate) fn session_by_cookie(&self, value: &str) -> (r: Option<String>)
        requires
            self.wf(),
        ensures
            match r {
                Some(id) => self@.sessions.contains_key(id@) && self@.sessions[id@].cookie_value
                    == value@,
                None => forall|id: Seq<char>| #[trigger]
                    self@.sessions.contains_key(id) ==> self@.sessions[id].cookie_value != value@,
            },
    {
        self.sessions.find_by_cookie(value)
    }

    /// The session identifiers of a state that a server can be in can stand in a header.
    pub proof fn lemma_ids_safe(self, id: Seq<char>)
        requires
            self.wf(),
            self@.sessions.contains_key(id),
        ensures
            headers::header_safe(id),
    {
    }
}

/// An identifier is its prefix and the numeral of the counter, and the counter goes up by one,
/// from the largest value to 0.
pub proof fn law_identifier_tells_counter(prefix: Seq<char>, n: u64)
    ensures
        prefix.is_prefix_of(nonce_text(prefix, n)),
        ({
            let numeral = nonce_text(prefix, n).skip(prefix.len() as int);
            &&& numeral.len() > 0
            &&& forall|i: int| 0 <= i < numeral.len() ==> '0' <= #[trigger] numeral[i] <= '9'
            &&& numeral.first() == '0' ==> numeral.len() == 1
            &&& text::numeral_value(numeral) == n
        }),
        after(n) == (n + 1) % 0x1_0000_0000_0000_0000,
{
    text::law_numeral_spells_number(n as nat);
    assert(nonce_text(prefix, n).skip(prefix.len() as int) =~= text::decimal_text(n as nat));
    assert(prefix =~= nonce_text(prefix, n).subrange(0, prefix.len() as int));
}

} // verus!
