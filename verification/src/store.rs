//! What the server keeps: the sessions that are bound to a device, and the registrations that it
//! has offered and not seen answered.

use vstd::hash_map::StringHashMap;
use vstd::prelude::*;

use crate::es256::{PubKey, PubKeyView};
use crate::text;

verus! {

/// What is kept per session. That there is one is the mark of a device-bound session.
pub struct Binding {
    /// The account that the session belongs to.
    pub user_id: String,
    /// The key that every proof of a refresh is verified against.
    pub device_public_key: PubKey,
    /// The signing algorithm.
    pub algorithm: String,
    /// The current value of the bound cookie.
    pub cookie_value: String,
    /// The challenge issued last.
    pub challenge: String,
    /// When the session was registered, in Unix seconds.
    pub created_at: u64,
    /// When the session ends, in Unix seconds.
    pub expires_at: u64,
}

/// What a binding holds.
#[verifier::ext_equal]
pub struct BindingView {
    pub user_id: Seq<char>,
    pub device_public_key: PubKeyView,
    pub algorithm: Seq<char>,
    pub cookie_value: Seq<char>,
    pub challenge: Seq<char>,
    pub created_at: u64,
    pub expires_at: u64,
}

impl View for Binding {
    type V = BindingView;

    open spec fn view(&self) -> BindingView {
        BindingView {
            user_id: self.user_id@,
            device_public_key: self.device_public_key@,
            algorithm: self.algorithm@,
            cookie_value: self.cookie_value@,
            challenge: self.challenge@,
            created_at: self.created_at,
            expires_at: self.expires_at,
        }
    }
}

impl Clone for Binding {
    fn clone(&self) -> (r: Self)
        ensures
            r == *self,
    {
        Binding {
            user_id: self.user_id.clone(),
            device_public_key: self.device_public_key.clone(),
            algorithm: self.algorithm.clone(),
            cookie_value: self.cookie_value.clone(),
            challenge: self.challenge.clone(),
            created_at: self.created_at,
            expires_at: self.expires_at,
        }
    }
}

/// A registration that was offered: the challenge that the device has to sign.
pub struct PendingRegistration {
    pub challenge: String,
    /// When it was offered, in Unix seconds.
    pub created_at: u64,
}

/// What a pending registration holds.
#[verifier::ext_equal]
pub struct PendingView {
    pub challenge: Seq<char>,
    pub created_at: u64,
}

impl View for PendingRegistration {
    type V = PendingView;

    open spec fn view(&self) -> PendingView {
        PendingView { challenge: self.challenge@, created_at: self.created_at }
    }
}

impl Clone for PendingRegistration {
    fn clone(&self) -> (r: Self)
        ensures
            r == *self,
    {
        PendingRegistration { challenge: self.challenge.clone(), created_at: self.created_at }
    }
}

/// The bindings by session identifier, and the identifiers in a list, to be gone through.
pub struct Sessions {
    bindings: StringHashMap<Binding>,
    ids: Vec<String>,
}

impl View for Sessions {
    type V = Map<Seq<char>, BindingView>;

    closed spec fn view(&self) -> Map<Seq<char>, BindingView> {
        self.bindings@.map_values(|b: Binding| b@)
    }
}

impl Sessions {
    /// The list holds the identifiers of the map, each of them once.
    pub closed spec fn wf(self) -> bool {
        &&& text::texts(self.ids@).no_duplicates()
        &&& forall|id: Seq<char>|
            self.bindings@.contains_key(id) <==> #[trigger] text::texts(self.ids@).contains(id)
    }

    /// No sessions.
    pub fn new() -> (r: Sessions)
        ensures
            r.wf(),
            r@ == Map::<Seq<char>, BindingView>::empty(),
    {
        let r = Sessions { bindings: StringHashMap::new(), ids: Vec::new() };
        assert(r@ =~= Map::<Seq<char>, BindingView>::empty());
        r
    }

    /// The binding of the session `id`.
    pub fn get(&self, id: &str) -> (r: Option<&Binding>)
        ensures
            match r {
                Some(b) => self@.contains_key(id@) && self@[id@] == b@,
                None => !self@.contains_key(id@),
            },
    {
        self.bindings.get(id)
    }

    /// Binds the session `id`.
    pub fn insert(&mut self, id: String, binding: Binding)
        requires
            old(self).wf(),
        ensures
            final(self).wf(),
            final(self)@ == old(self)@.insert(id@, binding@),
    {
        let known = self.bindings.contains_key(id.as_str());
        let ghost ids = text::texts(self.ids@);
        assert(known == ids.contains(id@));
        if !known {
            let name = id.clone();
            proof {
                text::lemma_texts_push(self.ids@, name);
            }
            self.ids.push(name);
        }
        self.bindings.insert(id, binding);
        proof {
            assert(self@ =~= old(self)@.insert(id@, binding@));
            if !known {
                assert(text::texts(self.ids@) == ids.push(id@));
                assert forall|i: int, j: int| 0 <= i < j < ids.push(id@).len() implies ids.push(
                    id@,
                )[i] != ids.push(id@)[j] by {
                    assert(ids.contains(ids[i]));
                }
            }
            assert forall|k: Seq<char>|
                self.bindings@.contains_key(k) <==> #[trigger] text::texts(self.ids@).contains(
                    k,
                ) by {
                if !known {
                    let now = text::texts(self.ids@);
                    assert(now == ids.push(id@));
                    assert(now[ids.len() as int] == id@);
                    if ids.contains(k) {
                        let j = choose|j: int| 0 <= j < ids.len() && ids[j] == k;
                        assert(now[j] == k);
                    }
                    if now.contains(k) && k != id@ {
                        let j = choose|j: int| 0 <= j < now.len() && now[j] == k;
                        assert(ids[j] == k);
                    }
                }
            }
        }
    }

    /// Where in the list `id` stands.
    fn position(&self, id: &str) -> (r: Option<usize>)
        ensures
            match r {
                Some(i) => i < self.ids@.len() && self.ids@[i as int]@ == id@,
                None => !text::texts(self.ids@).contains(id@),
            },
    {
        let mut i: usize = 0;
        while i < self.ids.len()
            invariant
                i <= self.ids@.len(),
                forall|j: int| 0 <= j < i ==> text::texts(self.ids@)[j] != id@,
            decreases self.ids.len() - i,
        {
            if text::same_text(self.ids[i].as_str(), id) {
                return Some(i);
            }
            i = i + 1;
        }
        None
    }

    /// Forgets the session `id`.
    pub fn remove(&mut self, id: &str)
        requires
            old(self).wf(),
        ensures
            final(self).wf(),
            final(self)@ == old(self)@.remove(id@),
    {
        let ghost ids = text::texts(self.ids@);
        match self.position(id) {
            Some(i) => {
                self.ids.remove(i);
                proof {
                    let now = text::texts(self.ids@);
                    assert(now =~= ids.remove(i as int));
                    assert(ids[i as int] == id@);
                    assert forall|k: Seq<char>|
                        now.contains(k) <==> (ids.contains(k) && k != id@) by {
                        if now.contains(k) {
                            let j = choose|j: int| 0 <= j < now.len() && now[j] == k;
                            if j < i {
                                assert(ids[j] == k);
                            } else {
                                assert(ids[j + 1] == k);
                            }
                        }
                        if ids.contains(k) && k != id@ {
                            let j = choose|j: int| 0 <= j < ids.len() && ids[j] == k;
                            if j < i {
                                assert(now[j] == k);
                            } else {
                                assert(now[j - 1] == k);
                            }
                        }
                    }
                }
            },
            None => {},
        }
        self.bindings.remove(id);
        assert(self@ =~= old(self)@.remove(id@));
    }

    /// A session whose bound cookie has the value `value`.
    pub fn find_by_cookie(&self, value: &str) -> (r: Option<String>)
        requires
            self.wf(),
        ensures
            match r {
                Some(id) => self@.contains_key(id@) && self@[id@].cookie_value == value@,
                None => forall|id: Seq<char>| #[trigger]
                    self@.contains_key(id) ==> self@[id].cookie_value != value@,
            },
    {
        let mut i: usize = 0;
        while i < self.ids.len()
            invariant
                self.wf(),
                i <= self.ids@.len(),
                forall|j: int|
                    #![trigger text::texts(self.ids@)[j]]
                    0 <= j < i ==> self@[text::texts(self.ids@)[j]].cookie_value != value@,
            decreases self.ids.len() - i,
        {
            let ghost id = text::texts(self.ids@)[i as int];
            assert(text::texts(self.ids@).contains(id));
            match self.bindings.get(self.ids[i].as_str()) {
                Some(b) => {
                    if text::same_text(b.cookie_value.as_str(), value) {
                        return Some(self.ids[i].clone());
                    }
                },
                None => {},
            }
            i = i + 1;
        }
        proof {
            assert forall|id: Seq<char>| #[trigger] self@.contains_key(id) implies self@[id].cookie_value
                != value@ by {
                assert(text::texts(self.ids@).contains(id));
                let j = choose|j: int|
                    0 <= j < text::texts(self.ids@).len() && text::texts(self.ids@)[j] == id;
            }
        }
        None
    }
}

/// What is said of a binding and of a pending registration is said of their values.
pub proof fn law_records_are_what_they_hold(b: Binding, p: PendingRegistration)
    ensures
        b@.user_id == b.user_id@,
        b@.device_public_key.x == b.device_public_key.x@,
        b@.device_public_key.y == b.device_public_key.y@,
        b@.algorithm == b.algorithm@,
        b@.cookie_value == b.cookie_value@,
        b@.challenge == b.challenge@,
        b@.created_at == b.created_at,
        b@.expires_at == b.expires_at,
        p@.challenge == p.challenge@,
        p@.created_at == p.created_at,
{
}

} // verus!
