//! What holds of the handshake as a whole, from the invitation to the end of a session.

use axum::http::HeaderMap;
use vstd::prelude::*;

use crate::access;
use crate::config::ConfigView;
use crate::cookies;
use crate::es256::PubKeyView;
use crate::headers;
use crate::identifiers;
use crate::jwt::ProofView;
use crate::logout;
use crate::refresh;
use crate::refresh::RenewalView;
use crate::register;
use crate::register::{AttemptView, Refusal};
use crate::reply;
use crate::reply::BodyView;
use crate::session;
use crate::start;
use crate::state;
use crate::state::{StateView, REG_CHALLENGE_TTL_SECS, SESSION_TTL_SECS};
use crate::text;

verus! {

/// No text of `pairs` has a semicolon in it.
pub open spec fn no_semicolons(pairs: Seq<Seq<char>>) -> bool {
    forall|i: int, j: int|
        0 <= i < pairs.len() && 0 <= j < pairs[i].len() ==> #[trigger] pairs[i][j] != ';'
}

/// The `Cookie` headers of a request with the cookie `name` in its last header, behind `others`;
/// no cookie of that name stands before it.
pub open spec fn carries(
    lines: Seq<Seq<char>>,
    others: Seq<Seq<char>>,
    name: Seq<char>,
    value: Seq<char>,
) -> bool {
    &&& lines.len() > 0
    &&& cookies::value_in_lines(lines.drop_last(), name) is None
    &&& no_semicolons(others)
    &&& cookies::value_in_pieces(others, name) is None
    &&& lines.last() == text::join_text(others.push(name + "="@ + value), "; "@)
}

/// Text that can be the name of a cookie: without semicolons, and without white space in front.
pub open spec fn cookie_named(name: Seq<char>) -> bool {
    &&& name.len() > 0 ==> !text::is_white(name.first())
    &&& forall|j: int| 0 <= j < name.len() ==> #[trigger] name[j] != ';'
}

/// A minted identifier is read back from the cookie that carries it.
proof fn lemma_carried(
    lines: Seq<Seq<char>>,
    others: Seq<Seq<char>>,
    name: Seq<char>,
    prefix: Seq<char>,
    n: u64,
)
    requires
        cookie_named(name),
        identifiers::alphanumeric(prefix),
        carries(lines, others, name, state::nonce_text(prefix, n)),
    ensures
        cookies::value_in_lines(lines, name) == Some(state::nonce_text(prefix, n)),
{
    let value = state::nonce_text(prefix, n);
    identifiers::law_nonces_alphanumeric(prefix, n);
    text::lemma_decimal_not_empty(n as nat);
    assert forall|j: int| 0 <= j < value.len() implies #[trigger] value[j] != ';' by {}
    assert(value.last() == value[value.len() - 1]);
    cookies::law_cookie_read_back(others, name, value);
    cookies::law_every_header_counts(lines.drop_last(), seq![lines.last()], name);
    assert(lines.drop_last() + seq![lines.last()] =~= lines);
    let last = seq![lines.last()];
    assert(last.first() == lines.last());
}

/// What the invitation sends is what the server keeps: the challenge in the registration header
/// is pending for the login in the cookie, from the time of the invitation.
pub proof fn law_offer_sent_is_kept(s: StateView, now: u64)
    ensures
        ({
            let t = start::started(s, now);
            let login = start::offered_login(s);
            let sent = start::start_reply(start::offered_challenge(s), login);
            &&& t.pending.contains_key(login)
            &&& t.pending[login].created_at == now
            &&& sent.status == 200
            &&& sent.headers == reply::two_fields(
                "secure-session-registration"@,
                start::registration_value(t.pending[login].challenge),
                "set-cookie"@,
                start::login_cookie(login),
            )
        }),
{
}

/// The invitation opens no session and ends none.
pub proof fn law_offer_keeps_sessions(s: StateView, now: u64)
    ensures
        start::started(s, now).sessions == s.sessions,
        start::started(s, now).config == s.config,
{
}

/// The registration completes: when the browser sends back the login cookie, and a proof in order
/// that echoes the challenge of the invitation in time, a session is opened for the device key
/// in the proof.
pub proof fn law_invited_device_is_registered(
    s: StateView,
    now: u64,
    others: Seq<Seq<char>>,
    a: AttemptView,
    later: u64,
)
    requires
        carries(a.cookies, others, "login_auth_id"@, start::offered_login(s)),
        a.malformed() is None,
        a.shown->0.shown_jti() == start::offered_challenge(s),
        later - now <= REG_CHALLENGE_TTL_SECS,
        later + SESSION_TTL_SECS <= u64::MAX,
    ensures
        ({
            let t = start::started(s, now);
            let id = register::next_session_id(t);
            let opened = register::registered(t, a, later);
            &&& register::register_reply(t, a, later).status == 200
            &&& opened.sessions.contains_key(id)
            &&& opened.sessions[id].device_public_key == a.shown->0.key->0
            &&& opened.sessions[id].created_at == later
            &&& opened.sessions[id].expires_at == later + SESSION_TTL_SECS
        }),
{
    reveal_strlit("login_auth_id");
    reveal_strlit("login");
    assert(cookie_named("login_auth_id"@));
    assert(identifiers::alphanumeric("login"@));
    lemma_carried(a.cookies, others, "login_auth_id"@, "login"@, state::after(s.counter));
    assert(a.login() == Some(start::offered_login(s)));
}

/// An offer stays open while other requests are served: another invitation (as long as the
/// counter does not run over), a refresh, a logout, and a registration that belongs to another
/// login or whose proof is not in order.
pub proof fn law_offer_stays_open(
    s: StateView,
    login: Seq<char>,
    now: u64,
    q: RenewalView,
    revoked: Option<Seq<char>>,
    a: AttemptView,
)
    requires
        identifiers::minted(s),
        s.pending.contains_key(login),
    ensures
        s.counter < u64::MAX ==> register::pending_for(start::started(s, now), Some(login)) == Some(
            s.pending[login],
        ),
        register::pending_for(refresh::refreshed(s, q, now), Some(login)) == Some(s.pending[login]),
        register::pending_for(logout::logged_out(s, revoked), Some(login)) == Some(
            s.pending[login],
        ),
        a.login() != Some(login) || a.malformed() is Some ==> register::pending_for(
            register::registered(s, a, now),
            Some(login),
        ) == Some(s.pending[login]),
{
    if s.counter < u64::MAX {
        identifiers::lemma_next_is_new("login"@, login, s.counter, (s.counter + 1) as u64);
    }
}

/// A challenge is good for one try: once a proof in order was presented for a login, whatever came
/// of it, the next one for the same login is refused for want of an offer.
pub proof fn law_offer_is_single_use(
    s: StateView,
    a: AttemptView,
    now: u64,
    b: AttemptView,
    later: u64,
)
    requires
        a.malformed() is None,
        b.malformed() is None,
        a.login() == b.login(),
    ensures
        ({
            let t = register::registered(s, a, now);
            &&& b.refusal(register::pending_for(t, b.login()), later) == Some(Refusal::NoPending)
            &&& register::register_reply(t, b, later).status == 400
            &&& register::registered(t, b, later).sessions == t.sessions
        }),
{
}

/// A proof that comes later than the challenge is valid is refused, even if it echoes it, and
/// the offer is gone.
pub proof fn law_late_proof_refused(s: StateView, a: AttemptView, now: u64)
    requires
        a.malformed() is None,
        register::pending_for(s, a.login()) is Some,
        now - register::pending_for(s, a.login())->0.created_at > REG_CHALLENGE_TTL_SECS,
    ensures
        register::register_reply(s, a, now).status == 400,
        register::register_reply(s, a, now).body == BodyView::Text(Refusal::Expired.answer()),
        register::registered(s, a, now).sessions == s.sessions,
        register::pending_for(register::registered(s, a, now), a.login()) is None,
{
}

/// A proof that echoes another challenge than the one that was offered is refused.
pub proof fn law_other_challenge_refused(s: StateView, a: AttemptView, now: u64)
    requires
        a.malformed() is None,
        register::pending_for(s, a.login()) is Some,
        register::pending_for(s, a.login())->0.challenge != a.shown->0.shown_jti(),
    ensures
        register::register_reply(s, a, now).status == 400,
        register::registered(s, a, now).sessions == s.sessions,
        register::pending_for(register::registered(s, a, now), a.login()) is None,
{
}

/// A proof that claims another algorithm than ES256 is refused, whatever was offered, and its
/// signature does not count as verified.
pub proof fn law_other_algorithm_refused(s: StateView, a: AttemptView, now: u64)
    requires
        a.jwt is Some,
        a.shown is Some,
        a.shown->0.alg != Some("ES256"@),
    ensures
        register::register_reply(s, a, now).status == 400,
        register::register_reply(s, a, now).body == BodyView::Text(
            Refusal::WrongAlgorithm.answer(),
        ),
        register::registered(s, a, now) == s,
        forall|id: Seq<char>| !#[trigger] refresh::signed_for(s, id, a.shown),
{
}

/// A refused registration opens no session, mints nothing, and sends no cookie; a proof that is
/// not in order leaves the offer open.
pub proof fn law_refused_registration_opens_nothing(s: StateView, a: AttemptView, now: u64)
    requires
        register::register_reply(s, a, now).status != 200,
    ensures
        register::register_reply(s, a, now).status == 400,
        register::register_reply(s, a, now).headers == headers::no_fields(),
        register::registered(s, a, now).sessions == s.sessions,
        register::registered(s, a, now).counter == s.counter,
        register::registered(s, a, now).config == s.config,
        a.malformed() is Some ==> register::registered(s, a, now) == s,
{
}

/// A registration that succeeds opens one session, under an identifier that no session had, and
/// leaves the others as they are.
pub proof fn law_registration_opens_one_session(s: StateView, a: AttemptView, now: u64)
    requires
        identifiers::minted(s),
        register::register_reply(s, a, now).status == 200,
    ensures
        ({
            let t = register::registered(s, a, now);
            let id = register::next_session_id(s);
            &&& !s.sessions.contains_key(id)
            &&& t.sessions.dom() == s.sessions.dom().insert(id)
            &&& forall|other: Seq<char>| #[trigger]
                s.sessions.contains_key(other) ==> t.sessions[other] == s.sessions[other]
            &&& t.sessions[id].algorithm == "ES256"@
            &&& a.shown->0.alg == Some(t.sessions[id].algorithm)
        }),
{
    let t = register::registered(s, a, now);
    let id = register::next_session_id(s);
    assert forall|other: Seq<char>| #[trigger] s.sessions.contains_key(other) implies other
        != id by {
        identifiers::lemma_next_is_new("sess"@, other, s.counter, s.counter);
    }
    assert(t.sessions.dom() =~= s.sessions.dom().insert(id));
}

/// A session that was opened or renewed is what the browser is told: the cookie that is sent has
/// the value that is kept, and the configuration names the session.
pub open spec fn told(s: StateView, id: Seq<char>, sent: reply::ReplyView) -> bool {
    &&& s.sessions.contains_key(id)
    &&& sent.status == 200
    &&& sent.headers == reply::field(
        "set-cookie"@,
        session::bound_cookie(s.config.cookie_name, s.sessions[id].cookie_value),
    )
    &&& sent.body == BodyView::Json(session::session_config(s.config, id))
}

/// A registration that succeeds sends the cookie that it keeps.
pub proof fn law_registered_cookie_is_kept(s: StateView, a: AttemptView, now: u64)
    requires
        register::register_reply(s, a, now).status == 200,
    ensures
        told(
            register::registered(s, a, now),
            register::next_session_id(s),
            register::register_reply(s, a, now),
        ),
{
}

/// A refresh with a proof sends the cookie that it keeps, for the session that was named.
pub proof fn law_renewed_cookie_is_kept(s: StateView, q: RenewalView, now: u64)
    requires
        refresh::known(s, q.session_id, now),
        q.jwt is Some,
    ensures
        told(refresh::refreshed(s, q, now), q.session_id, refresh::refresh_reply(s, q, now)),
{
}

/// A refresh without a proof is answered with 403 and the challenge that is kept for the session,
/// and the cookie stays as it is.
pub proof fn law_challenge_sent_is_kept(s: StateView, q: RenewalView, now: u64)
    requires
        refresh::known(s, q.session_id, now),
        q.jwt is None,
    ensures
        ({
            let t = refresh::refreshed(s, q, now);
            let sent = refresh::refresh_reply(s, q, now);
            &&& sent.status == 403
            &&& sent.headers == reply::field(
                "secure-session-challenge"@,
                refresh::challenge_value(t.sessions[q.session_id].challenge, q.session_id),
            )
            &&& t.sessions[q.session_id].cookie_value == s.sessions[q.session_id].cookie_value
        }),
{
}

/// A refresh is answered with 404 exactly when the session is not known, or has come to its end;
/// then nothing changes.
pub proof fn law_unknown_session_dropped(s: StateView, q: RenewalView, now: u64)
    ensures
        ({
            let sent = refresh::refresh_reply(s, q, now);
            let id = q.session_id;
            &&& sent.status == 404 <==> !s.sessions.contains_key(id) || now
                > s.sessions[id].expires_at
            &&& sent.status == 404 ==> {
                &&& sent.headers == headers::no_fields()
                &&& sent.body == BodyView::Text("unknown session"@)
                &&& refresh::refreshed(s, q, now) == s
            }
        }),
{
}

/// A session past its end is dropped, with a proof or without, and not renewed. A refresh that
/// came before does not put the end off.
pub proof fn law_ended_session_dropped(
    s: StateView,
    before: RenewalView,
    earlier: u64,
    q: RenewalView,
    now: u64,
)
    requires
        s.sessions.contains_key(q.session_id),
        now > s.sessions[q.session_id].expires_at,
    ensures
        ({
            let t = refresh::refreshed(s, before, earlier);
            &&& refresh::refresh_reply(t, q, now).status == 404
            &&& refresh::refreshed(t, q, now) == t
        }),
{
    law_refresh_keeps_session(s, before, earlier, q.session_id);
}

/// A session that was registered is known for the whole of its lifetime, and not beyond.
pub proof fn law_session_kept_for_its_lifetime(s: StateView, a: AttemptView, now: u64, later: u64)
    requires
        register::opens(s, a, now),
        now + SESSION_TTL_SECS <= u64::MAX,
    ensures
        refresh::known(register::registered(s, a, now), register::next_session_id(s), later)
            <==> later <= now + SESSION_TTL_SECS,
{
}

/// A server that was restarted drops every session that a browser kept.
pub proof fn law_restart_drops_sessions(config: ConfigView, q: RenewalView, now: u64)
    ensures
        refresh::refresh_reply(
            StateView { config, counter: 1, sessions: Map::empty(), pending: Map::empty() },
            q,
            now,
        ).status == 404,
{
}

/// A refresh keeps what a session is: its identifier, its device key, its owner, its algorithm,
/// when it began and when it ends. It opens no session and ends none, and leaves the others, the
/// offers and the configuration as they are.
pub proof fn law_refresh_keeps_session(s: StateView, q: RenewalView, now: u64, id: Seq<char>)
    ensures
        ({
            let t = refresh::refreshed(s, q, now);
            &&& t.sessions.dom() == s.sessions.dom()
            &&& t.pending == s.pending
            &&& t.config == s.config
            &&& s.sessions.contains_key(id) && id != q.session_id ==> t.sessions[id]
                == s.sessions[id]
            &&& s.sessions.contains_key(id) ==> {
                &&& t.sessions[id].device_public_key == s.sessions[id].device_public_key
                &&& t.sessions[id].user_id == s.sessions[id].user_id
                &&& t.sessions[id].algorithm == s.sessions[id].algorithm
                &&& t.sessions[id].created_at == s.sessions[id].created_at
                &&& t.sessions[id].expires_at == s.sessions[id].expires_at
            }
        }),
{
    assert(refresh::refreshed(s, q, now).sessions.dom() =~= s.sessions.dom());
}

/// A refresh with a proof rotates the cookie: the new value is none that any session had.
pub proof fn law_refresh_rotates_cookie(s: StateView, q: RenewalView, now: u64, id: Seq<char>)
    requires
        identifiers::minted(s),
        refresh::known(s, q.session_id, now),
        q.jwt is Some,
        s.sessions.contains_key(id),
    ensures
        refresh::refreshed(s, q, now).sessions[q.session_id].cookie_value
            != s.sessions[id].cookie_value,
{
    identifiers::lemma_next_is_new(
        "cookie"@,
        s.sessions[id].cookie_value,
        s.counter,
        s.counter,
    );
}

/// Identifiers are different when the first characters of their prefixes are.
proof fn lemma_other_prefix(a: Seq<char>, m: u64, b: Seq<char>, n: u64)
    requires
        a.len() > 0,
        b.len() > 0,
        a.first() != b.first(),
    ensures
        state::nonce_text(a, m) != state::nonce_text(b, n),
{
    assert(state::nonce_text(a, m).first() == a.first());
    assert(state::nonce_text(b, n).first() == b.first());
}

/// Every refresh of a known session rotates the challenge that is kept for it, with a proof or
/// without, as long as the counter does not run over on the way to the new one.
pub proof fn law_refresh_rotates_challenge(s: StateView, q: RenewalView, now: u64)
    requires
        identifiers::minted(s),
        q.jwt is Some ==> s.counter < u64::MAX,
        refresh::known(s, q.session_id, now),
    ensures
        refresh::refreshed(s, q, now).sessions[q.session_id].challenge
            != s.sessions[q.session_id].challenge,
{
    reveal_strlit("chal");
    reveal_strlit("refchal");
    let kept = s.sessions[q.session_id].challenge;
    let fresh = if q.jwt is Some {
        (s.counter + 1) as u64
    } else {
        s.counter
    };
    if identifiers::minted_below("chal"@, kept, s.counter) {
        let n = choose|n: u64| n < s.counter && kept == #[trigger] state::nonce_text("chal"@, n);
        lemma_other_prefix("chal"@, n, "refchal"@, fresh);
        identifiers::lemma_next_is_new("chal"@, kept, s.counter, fresh);
    } else {
        let n = choose|n: u64|
            n < s.counter && kept == #[trigger] state::nonce_text("refchal"@, n);
        lemma_other_prefix("refchal"@, n, "chal"@, fresh);
        identifiers::lemma_next_is_new("refchal"@, kept, s.counter, fresh);
    }
}

/// A key that a proof brings along to a refresh is ignored: whether the proof counts as signed,
/// the state and the reply are the same with another key in it, or none.
pub proof fn law_refresh_ignores_presented_key(
    s: StateView,
    q: RenewalView,
    now: u64,
    p: ProofView,
    key: Option<PubKeyView>,
)
    requires
        q.shown == Some(p),
    ensures
        ({
            let other = Some(ProofView { key, ..p });
            let asked = RenewalView { shown: other, ..q };
            &&& refresh::signed_for(s, q.session_id, other) == refresh::signed_for(
                s,
                q.session_id,
                q.shown,
            )
            &&& refresh::refreshed(s, asked, now) == refresh::refreshed(s, q, now)
            &&& refresh::refresh_reply(s, asked, now) == refresh::refresh_reply(s, q, now)
        }),
{
}

/// The key that a refresh is tried against is the one that was kept at registration, however many
/// refreshes came between: one more changes nothing in whether a proof counts as signed.
pub proof fn law_enrolled_key_decides(
    s: StateView,
    q: RenewalView,
    now: u64,
    id: Seq<char>,
    shown: Option<ProofView>,
)
    ensures
        refresh::signed_for(refresh::refreshed(s, q, now), id, shown) == refresh::signed_for(
            s,
            id,
            shown,
        ),
{
    law_refresh_keeps_session(s, q, now, id);
    let t = refresh::refreshed(s, q, now);
    assert(t.sessions.dom().contains(id) == s.sessions.dom().contains(id));
}

/// A session that was ended cannot be refreshed: the browser is told to drop it.
pub proof fn law_revoked_session_not_refreshed(
    s: StateView,
    presented: Option<Seq<char>>,
    revoked: Option<Seq<char>>,
    q: RenewalView,
    now: u64,
)
    requires
        logout::revocable(s, presented, revoked),
        revoked == Some(q.session_id),
    ensures
        refresh::refresh_reply(logout::logged_out(s, revoked), q, now).status == 404,
{
}

/// A logout ends at most the one session, and leaves the others, the offers, the counter and the
/// configuration as they are.
pub proof fn law_logout_spares_others(s: StateView, revoked: Option<Seq<char>>, id: Seq<char>)
    ensures
        ({
            let t = logout::logged_out(s, revoked);
            &&& revoked != Some(id) ==> t.sessions.contains_key(id) == s.sessions.contains_key(id)
            &&& revoked != Some(id) && s.sessions.contains_key(id) ==> t.sessions[id]
                == s.sessions[id]
            &&& t.pending == s.pending
            &&& t.counter == s.counter
            &&& t.config == s.config
        }),
{
}

/// Which session a logout ends is determined by the value of the bound cookie.
pub proof fn law_logout_determined(
    s: StateView,
    presented: Option<Seq<char>>,
    a: Option<Seq<char>>,
    b: Option<Seq<char>>,
)
    requires
        identifiers::minted(s),
        logout::revocable(s, presented, a),
        logout::revocable(s, presented, b),
    ensures
        a == b,
{
    if a is Some {
        assert(logout::owns(s, a->0, presented));
    }
    if b is Some {
        assert(logout::owns(s, b->0, presented));
    }
    if a is Some && b is Some {
        assert(s.sessions.contains_key(a->0) && s.sessions.contains_key(b->0));
    }
}

/// The cookie of a session ends that session, and after that no session: the second logout with
/// the same cookie finds nothing.
pub proof fn law_logout_by_cookie(
    s: StateView,
    id: Seq<char>,
    revoked: Option<Seq<char>>,
    again: Option<Seq<char>>,
)
    requires
        identifiers::minted(s),
        s.sessions.contains_key(id),
        logout::revocable(s, Some(s.sessions[id].cookie_value), revoked),
        logout::revocable(
            logout::logged_out(s, revoked),
            Some(s.sessions[id].cookie_value),
            again,
        ),
    ensures
        revoked == Some(id),
        again is None,
{
    let presented = Some(s.sessions[id].cookie_value);
    assert(logout::owns(s, id, presented));
    assert(logout::revocable(s, presented, Some(id)));
    law_logout_determined(s, presented, revoked, Some(id));
    if again is Some {
        assert(logout::owns(logout::logged_out(s, revoked), again->0, presented));
        assert(s.sessions.contains_key(again->0));
    }
}

/// A cookie that was rotated away ends no session.
pub proof fn law_stale_cookie_ends_nothing(
    s: StateView,
    q: RenewalView,
    now: u64,
    revoked: Option<Seq<char>>,
)
    requires
        identifiers::minted(s),
        refresh::known(s, q.session_id, now),
        q.jwt is Some,
        logout::revocable(
            refresh::refreshed(s, q, now),
            Some(s.sessions[q.session_id].cookie_value),
            revoked,
        ),
    ensures
        revoked is None,
{
    if revoked is Some {
        let id = revoked->0;
        let t = refresh::refreshed(s, q, now);
        assert(logout::owns(t, id, Some(s.sessions[q.session_id].cookie_value)));
        assert(s.sessions.contains_key(id));
        law_refresh_rotates_cookie(s, q, now, q.session_id);
    }
}

/// A request that carries the bound cookie of a session, behind other cookies and in any of its
/// `Cookie` headers, is authenticated, and a logout with it ends that session.
pub proof fn law_bound_cookie_recognised(
    s: StateView,
    id: Seq<char>,
    lines: Seq<Seq<char>>,
    others: Seq<Seq<char>>,
)
    requires
        identifiers::minted(s),
        s.sessions.contains_key(id),
        cookie_named(s.config.cookie_name),
        carries(lines, others, s.config.cookie_name, s.sessions[id].cookie_value),
    ensures
        access::protected_reply(lines, s.config.cookie_name).body == BodyView::Json(
            access::protected_json(cookies::shown_cookies(lines), true),
        ),
        logout::revocable(
            s,
            cookies::value_in_lines(lines, s.config.cookie_name),
            Some(id),
        ),
{
    reveal_strlit("cookie");
    assert(identifiers::alphanumeric("cookie"@));
    let value = s.sessions[id].cookie_value;
    let n = choose|n: u64| n < s.counter && value == #[trigger] state::nonce_text("cookie"@, n);
    lemma_carried(lines, others, s.config.cookie_name, "cookie"@, n);
}

/// A request without cookies is not authenticated, and a logout without them ends no session.
pub proof fn law_no_cookie_no_access(s: StateView, revoked: Option<Seq<char>>)
    requires
        logout::revocable(
            s,
            cookies::value_in_lines(Seq::empty(), s.config.cookie_name),
            revoked,
        ),
    ensures
        access::protected_reply(Seq::empty(), s.config.cookie_name).body == BodyView::Json(
            access::protected_json("(none)"@, false),
        ),
        revoked is None,
        logout::logged_out(s, revoked) == s,
{
}

/// The identifier that the browser was told names the session when it comes back in the
/// `Sec-Secure-Session-Id` header.
pub proof fn law_session_named_back(s: StateView, id: Seq<char>, headers: HeaderMap)
    requires
        identifiers::minted(s),
        s.sessions.contains_key(id),
        headers::values_of(headers, "sec-secure-session-id"@) == seq![
            vstd::utf8::encode_utf8(id),
        ],
    ensures
        refresh::named_session(headers) == id,
{
    reveal_strlit("sess");
    let n = choose|n: u64| n < s.counter && id == #[trigger] state::nonce_text("sess"@, n);
    headers::lemma_decimal_printable(n as nat);
    assert(headers::printable("sess"@));
    assert(headers::printable(id));
    headers::lemma_printable_shown(id);
}

} // verus!
