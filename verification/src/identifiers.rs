//! The identifiers in the state: all of them were minted by its counter, whatever the requests.

use vstd::prelude::*;

use crate::config::ConfigView;
use crate::logout;
use crate::refresh;
use crate::refresh::RenewalView;
use crate::register;
use crate::register::AttemptView;
use crate::start;
use crate::state;
use crate::state::StateView;
use crate::store::BindingView;
use crate::text;

verus! {

/// `t` is the identifier with the prefix `prefix` that a counter below `counter` gave.
pub open spec fn minted_below(prefix: Seq<char>, t: Seq<char>, counter: u64) -> bool {
    exists|n: u64| n < counter && t == #[trigger] state::nonce_text(prefix, n)
}

/// What is kept for a session was minted by a counter below `counter`: the value of the cookie,
/// and the challenge, at the last renewal or by a request without a proof.
pub open spec fn binding_minted(b: BindingView, counter: u64) -> bool {
    &&& minted_below("cookie"@, b.cookie_value, counter)
    &&& minted_below("chal"@, b.challenge, counter) || minted_below(
        "refchal"@,
        b.challenge,
        counter,
    )
}

/// All identifiers in the state were minted by its counter, and no two sessions have the same
/// value of the bound cookie.
pub open spec fn minted(s: StateView) -> bool {
    &&& forall|id: Seq<char>| #[trigger]
        s.sessions.contains_key(id) ==> minted_below("sess"@, id, s.counter) && binding_minted(
            s.sessions[id],
            s.counter,
        )
    &&& forall|a: Seq<char>, b: Seq<char>|
        #![trigger s.sessions.contains_key(a), s.sessions.contains_key(b)]
        s.sessions.contains_key(a) && s.sessions.contains_key(b) && a != b
            ==> s.sessions[a].cookie_value != s.sessions[b].cookie_value
    &&& forall|l: Seq<char>| #[trigger]
        s.pending.contains_key(l) ==> minted_below("login"@, l, s.counter) && minted_below(
            "chal"@,
            s.pending[l].challenge,
            s.counter,
        )
}

/// Identifiers with the same prefix are different when the counter is.
pub proof fn law_nonces_differ(prefix: Seq<char>, m: u64, n: u64)
    requires
        m != n,
    ensures
        state::nonce_text(prefix, m) != state::nonce_text(prefix, n),
{
    let a = text::decimal_text(m as nat);
    let b = text::decimal_text(n as nat);
    if prefix + a == prefix + b {
        assert((prefix + a).skip(prefix.len() as int) =~= a);
        assert((prefix + b).skip(prefix.len() as int) =~= b);
        text::lemma_decimal_injective(m as nat, n as nat);
    }
}

/// Letters and digits give identifiers of letters and digits, at most twenty characters longer.
pub proof fn law_nonces_alphanumeric(prefix: Seq<char>, n: u64)
    requires
        alphanumeric(prefix),
    ensures
        alphanumeric(state::nonce_text(prefix, n)),
        state::nonce_text(prefix, n).len() <= prefix.len() + 20,
{
    lemma_decimal_digits(n as nat);
    lemma_decimal_length(n as nat, 20);
}

/// Text of ASCII letters and digits.
pub open spec fn alphanumeric(t: Seq<char>) -> bool {
    forall|i: int|
        0 <= i < t.len() ==> 'a' <= #[trigger] t[i] <= 'z' || 'A' <= t[i] <= 'Z' || '0' <= t[i]
            <= '9'
}

/// A numeral consists of digits.
proof fn lemma_decimal_digits(n: nat)
    ensures
        forall|i: int|
            0 <= i < text::decimal_text(n).len() ==> '0' <= #[trigger] text::decimal_text(n)[i]
                <= '9',
    decreases n,
{
    let t = text::decimal_text(n);
    if n >= 10 {
        let rest = text::decimal_text(n / 10);
        lemma_decimal_digits(n / 10);
        assert forall|i: int| 0 <= i < t.len() implies '0' <= #[trigger] t[i] <= '9' by {
            if i < rest.len() {
                assert(t[i] == rest[i]);
            } else {
                assert(t[i] == text::digit(n % 10));
            }
        }
    } else {
        assert(t[0] == text::digit(n));
    }
}

/// Ten to the power `k`.
spec fn ten_to(k: nat) -> nat
    decreases k,
{
    if k == 0 {
        1
    } else {
        10 * ten_to((k - 1) as nat)
    }
}

/// A number below ten to the power `k` has at most `k` digits.
proof fn lemma_digits_bound(n: nat, k: nat)
    requires
        k > 0,
        n < ten_to(k),
    ensures
        text::decimal_text(n).len() <= k,
    decreases k,
{
    if n >= 10 {
        if k == 1 {
            assert(ten_to(0) == 1);
            assert(ten_to(1) == 10);
        } else {
            lemma_digits_bound(n / 10, (k - 1) as nat);
        }
    }
}

/// A counter value has at most twenty digits.
proof fn lemma_decimal_length(n: nat, k: nat)
    requires
        n <= u64::MAX,
        k == 20,
    ensures
        text::decimal_text(n).len() <= k,
{
    reveal_with_fuel(ten_to, 21);
    lemma_digits_bound(n, k);
}

/// What was minted stays minted as the counter goes up.
pub proof fn lemma_minted_up(prefix: Seq<char>, t: Seq<char>, counter: u64, later: u64)
    requires
        minted_below(prefix, t, counter),
        counter <= later,
    ensures
        minted_below(prefix, t, later),
{
    let n = choose|n: u64| n < counter && t == #[trigger] state::nonce_text(prefix, n);
    assert(n < later && t == state::nonce_text(prefix, n));
}

/// What was minted for a session stays minted as the counter goes up.
proof fn lemma_binding_up(b: BindingView, counter: u64, later: u64)
    requires
        binding_minted(b, counter),
        counter <= later,
    ensures
        binding_minted(b, later),
{
    lemma_minted_up("cookie"@, b.cookie_value, counter, later);
    if minted_below("chal"@, b.challenge, counter) {
        lemma_minted_up("chal"@, b.challenge, counter, later);
    } else {
        lemma_minted_up("refchal"@, b.challenge, counter, later);
    }
}

/// The identifier that the counter gives next is none that was minted before.
pub proof fn lemma_next_is_new(prefix: Seq<char>, t: Seq<char>, counter: u64, n: u64)
    requires
        minted_below(prefix, t, counter),
        counter <= n,
    ensures
        t != state::nonce_text(prefix, n),
{
    let m = choose|m: u64| m < counter && t == #[trigger] state::nonce_text(prefix, m);
    law_nonces_differ(prefix, m, n);
}

/// A server starts with every identifier minted by its counter: it has none.
pub proof fn law_new_state_minted(config: ConfigView)
    ensures
        minted(
            StateView { config, counter: 1, sessions: Map::empty(), pending: Map::empty() },
        ),
{
}

/// An invitation keeps every identifier minted by the counter, as long as it does not run over.
pub proof fn law_start_keeps_minted(s: StateView, now: u64)
    requires
        minted(s),
        s.counter <= start::started(s, now).counter,
    ensures
        minted(start::started(s, now)),
{
    let t = start::started(s, now);
    assert forall|id: Seq<char>| #[trigger] t.sessions.contains_key(id) implies minted_below(
        "sess"@,
        id,
        t.counter,
    ) && binding_minted(t.sessions[id], t.counter) by {
        assert(s.sessions.contains_key(id));
        lemma_minted_up("sess"@, id, s.counter, t.counter);
        lemma_binding_up(s.sessions[id], s.counter, t.counter);
    }
    assert forall|l: Seq<char>| #[trigger] t.pending.contains_key(l) implies minted_below(
        "login"@,
        l,
        t.counter,
    ) && minted_below("chal"@, t.pending[l].challenge, t.counter) by {
        if l == start::offered_login(s) {
            assert(l == state::nonce_text("login"@, (s.counter + 1) as u64));
            assert(t.pending[l].challenge == state::nonce_text("chal"@, s.counter));
        } else {
            assert(s.pending.contains_key(l));
            lemma_minted_up("login"@, l, s.counter, t.counter);
            lemma_minted_up("chal"@, s.pending[l].challenge, s.counter, t.counter);
        }
    }
    assert forall|a: Seq<char>, b: Seq<char>|
        #![trigger t.sessions.contains_key(a), t.sessions.contains_key(b)]
        t.sessions.contains_key(a) && t.sessions.contains_key(b) && a
            != b implies t.sessions[a].cookie_value != t.sessions[b].cookie_value by {
        assert(s.sessions.contains_key(a) && s.sessions.contains_key(b));
    }
}

/// A registration keeps every identifier minted by the counter, as long as it does not run over.
pub proof fn law_register_keeps_minted(s: StateView, a: AttemptView, now: u64)
    requires
        minted(s),
        s.counter <= register::registered(s, a, now).counter,
    ensures
        minted(register::registered(s, a, now)),
{
    let t = register::registered(s, a, now);
    let new_id = register::next_session_id(s);
    assert(s.counter <= t.counter);
    assert forall|id: Seq<char>| #[trigger] t.sessions.contains_key(id) implies minted_below(
        "sess"@,
        id,
        t.counter,
    ) && binding_minted(t.sessions[id], t.counter) by {
        if s.sessions.contains_key(id) {
            lemma_minted_up("sess"@, id, s.counter, t.counter);
            lemma_binding_up(s.sessions[id], s.counter, t.counter);
            lemma_next_is_new("sess"@, id, s.counter, s.counter);
        } else {
            assert(id == state::nonce_text("sess"@, s.counter));
            assert(t.sessions[id].cookie_value == state::nonce_text(
                "cookie"@,
                (s.counter + 1) as u64,
            ));
            assert(t.sessions[id].challenge == state::nonce_text(
                "chal"@,
                (s.counter + 2) as u64,
            ));
        }
    }
    assert forall|l: Seq<char>| #[trigger] t.pending.contains_key(l) implies minted_below(
        "login"@,
        l,
        t.counter,
    ) && minted_below("chal"@, t.pending[l].challenge, t.counter) by {
        assert(s.pending.contains_key(l));
        lemma_minted_up("login"@, l, s.counter, t.counter);
        lemma_minted_up("chal"@, s.pending[l].challenge, s.counter, t.counter);
    }
    assert forall|x: Seq<char>, y: Seq<char>|
        #![trigger t.sessions.contains_key(x), t.sessions.contains_key(y)]
        t.sessions.contains_key(x) && t.sessions.contains_key(y) && x
            != y implies t.sessions[x].cookie_value != t.sessions[y].cookie_value by {
        if s.sessions.contains_key(x) {
            lemma_next_is_new("sess"@, x, s.counter, s.counter);
            if t.counter > s.counter {
                lemma_next_is_new(
                    "cookie"@,
                    s.sessions[x].cookie_value,
                    s.counter,
                    (s.counter + 1) as u64,
                );
            }
        }
        if s.sessions.contains_key(y) {
            lemma_next_is_new("sess"@, y, s.counter, s.counter);
            if t.counter > s.counter {
                lemma_next_is_new(
                    "cookie"@,
                    s.sessions[y].cookie_value,
                    s.counter,
                    (s.counter + 1) as u64,
                );
            }
        }
    }
}

/// A refresh keeps every identifier minted by the counter, as long as it does not run over.
pub proof fn law_refresh_keeps_minted(s: StateView, q: RenewalView, now: u64)
    requires
        minted(s),
        s.counter <= refresh::refreshed(s, q, now).counter,
    ensures
        minted(refresh::refreshed(s, q, now)),
{
    let t = refresh::refreshed(s, q, now);
    assert forall|id: Seq<char>| #[trigger] t.sessions.contains_key(id) implies minted_below(
        "sess"@,
        id,
        t.counter,
    ) && binding_minted(t.sessions[id], t.counter) by {
        assert(s.sessions.contains_key(id));
        lemma_minted_up("sess"@, id, s.counter, t.counter);
        lemma_binding_up(s.sessions[id], s.counter, t.counter);
        if id == q.session_id && refresh::renews(s, q, now) {
            assert(t.sessions[id].cookie_value == state::nonce_text("cookie"@, s.counter));
            assert(t.sessions[id].challenge == state::nonce_text("chal"@, (s.counter + 1) as u64));
        } else if id == q.session_id && refresh::known(s, id, now) {
            assert(t.sessions[id].challenge == state::nonce_text("refchal"@, s.counter));
        }
    }
    assert forall|l: Seq<char>| #[trigger] t.pending.contains_key(l) implies minted_below(
        "login"@,
        l,
        t.counter,
    ) && minted_below("chal"@, t.pending[l].challenge, t.counter) by {
        assert(s.pending.contains_key(l));
        lemma_minted_up("login"@, l, s.counter, t.counter);
        lemma_minted_up("chal"@, s.pending[l].challenge, s.counter, t.counter);
    }
    assert forall|x: Seq<char>, y: Seq<char>|
        #![trigger t.sessions.contains_key(x), t.sessions.contains_key(y)]
        t.sessions.contains_key(x) && t.sessions.contains_key(y) && x
            != y implies t.sessions[x].cookie_value != t.sessions[y].cookie_value by {
        assert(s.sessions.contains_key(x) && s.sessions.contains_key(y));
        lemma_next_is_new("cookie"@, s.sessions[x].cookie_value, s.counter, s.counter);
        lemma_next_is_new("cookie"@, s.sessions[y].cookie_value, s.counter, s.counter);
    }
}

/// A logout keeps every identifier minted by the counter.
pub proof fn law_logout_keeps_minted(s: StateView, revoked: Option<Seq<char>>)
    requires
        minted(s),
    ensures
        minted(logout::logged_out(s, revoked)),
{
    let t = logout::logged_out(s, revoked);
    assert forall|id: Seq<char>| #[trigger] t.sessions.contains_key(id) implies minted_below(
        "sess"@,
        id,
        t.counter,
    ) && binding_minted(t.sessions[id], t.counter) by {
        assert(s.sessions.contains_key(id));
    }
    assert forall|x: Seq<char>, y: Seq<char>|
        #![trigger t.sessions.contains_key(x), t.sessions.contains_key(y)]
        t.sessions.contains_key(x) && t.sessions.contains_key(y) && x
            != y implies t.sessions[x].cookie_value != t.sessions[y].cookie_value by {
        assert(s.sessions.contains_key(x) && s.sessions.contains_key(y));
    }
}

} // verus!
