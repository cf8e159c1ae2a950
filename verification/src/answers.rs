//! What every request is owed: which answer it gets, what goes out with it, and what is kept.
//! All of it is told in terms of what the request presents and what the server kept before.

use axum::http::HeaderMap;
use vstd::prelude::*;

use crate::access;
use crate::config::ConfigView;
use crate::cookies;
use crate::es256;
use crate::headers;
use crate::identifiers;
use crate::json;
use crate::json::Json;
use crate::jwt;
use crate::jwt::ProofView;
use crate::log;
use crate::logout;
use crate::refresh;
use crate::refresh::RenewalView;
use crate::register;
use crate::register::AttemptView;
use crate::reply::{BodyView, ReplyView};
use crate::session;
use crate::start;
use crate::state;
use crate::state::StateView;
use crate::store::{BindingView, PendingView};
use crate::text;

verus! {

/// `sent` has the field `name`, once, with the text `value`.
pub open spec fn sends(sent: ReplyView, name: Seq<char>, value: Seq<char>) -> bool {
    sent.headers.contains_key(name) && sent.headers[name] == seq![vstd::utf8::encode_utf8(value)]
}

/// `sent` is a refusal with these words, and nothing else goes out with it.
pub open spec fn refuses(sent: ReplyView, status: u16, words: Seq<char>) -> bool {
    &&& sent.status == status
    &&& sent.headers.dom() == Set::<Seq<char>>::empty()
    &&& sent.body == BodyView::Text(words)
}

/// The invitation keeps a fresh challenge for a fresh login, both with the number of the counter,
/// and changes nothing else.
pub proof fn law_invitation_keeps_challenge(s: StateView, now: u64)
    ensures
        ({
            let t = start::started(s, now);
            let login = start::offered_login(s);
            let challenge = start::offered_challenge(s);
            &&& challenge == state::nonce_text("chal"@, s.counter)
            &&& login == state::nonce_text("login"@, state::after(s.counter))
            &&& t.counter == state::after(state::after(s.counter))
            &&& t.pending == s.pending.insert(login, PendingView { challenge, created_at: now })
            &&& t.sessions == s.sessions
            &&& t.config == s.config
        }),
{
}

/// The invitation sends what is kept: the challenge in the registration header, with the one
/// algorithm, the place to post the proof and the authorization code, and the login in a cookie.
pub proof fn law_invitation_sends_challenge(s: StateView, now: u64)
    ensures
        ({
            let login = start::offered_login(s);
            let kept = start::started(s, now).pending[login].challenge;
            let sent = start::start_reply(start::offered_challenge(s), login);
            let invitation = "(ES256); path=\"/dbsc/register\"; challenge=\""@ + kept
                + "\"; authorization=\"auth-code-123\""@;
            let cookie = "login_auth_id="@ + login + "; Path=/; Max-Age=3600"@;
            &&& sent.status == 200
            &&& sent.headers.dom() == set!["secure-session-registration"@, "set-cookie"@]
            &&& sends(sent, "secure-session-registration"@, invitation)
            &&& sends(sent, "set-cookie"@, cookie)
            &&& sent.body == BodyView::Html(start::STARTED_HTML@)
            &&& sent.log.len() == 6
            &&& sent.log[0] == log::banner(1, "TRIGGER  (POST /start-form)"@)
            &&& sent.log[1] == "  REQUEST : POST /start-form   (HTML form submit; no body)"@
            &&& sent.log[2] == "  RESPONSE: 200 OK"@
            &&& sent.log[3] == "            Secure-Session-Registration: "@ + invitation
            &&& sent.log[4] == "            Set-Cookie: "@ + cookie
            &&& sent.log[5] == "  STORE [pending]  key(login_auth_id)="@ + login
                + " -> challenge stored for /register to check"@
        }),
{
    reveal_strlit("secure-session-registration");
    reveal_strlit("set-cookie");
    assert("secure-session-registration"@.len() != "set-cookie"@.len());
    let sent = start::start_reply(start::offered_challenge(s), start::offered_login(s));
    assert(sent.headers.dom() =~= set!["secure-session-registration"@, "set-cookie"@]);
}

/// Cut at its quotes, the text of a registration header gives back the challenge, and the place
/// to post the proof.
pub proof fn law_challenge_read_back(challenge: Seq<char>)
    requires
        forall|j: int| 0 <= j < challenge.len() ==> #[trigger] challenge[j] != '"',
    ensures
        text::split_text(start::registration_value(challenge), '"') == seq![
            "(ES256); path="@,
            "/dbsc/register"@,
            "; challenge="@,
            challenge,
            "; authorization="@,
            "auth-code-123"@,
            ""@,
        ],
{
    reveal_strlit("(ES256); path=\"/dbsc/register\"; challenge=\"");
    reveal_strlit("\"; authorization=\"auth-code-123\"");
    reveal_strlit("(ES256); path=");
    reveal_strlit("/dbsc/register");
    reveal_strlit("; challenge=");
    reveal_strlit("; authorization=");
    reveal_strlit("auth-code-123");
    reveal_strlit("");
    let t0 = "(ES256); path="@;
    text::lemma_split_single(t0, '"');
    text::lemma_split_append(t0, "/dbsc/register"@, '"');
    let t1 = t0.push('"') + "/dbsc/register"@;
    text::lemma_split_append(t1, "; challenge="@, '"');
    let t2 = t1.push('"') + "; challenge="@;
    assert(t2.push('"') =~= "(ES256); path=\"/dbsc/register\"; challenge=\""@);
    text::lemma_split_append(t2, challenge, '"');
    let t3 = t2.push('"') + challenge;
    text::lemma_split_append(t3, "; authorization="@, '"');
    let t4 = t3.push('"') + "; authorization="@;
    text::lemma_split_append(t4, "auth-code-123"@, '"');
    let t5 = t4.push('"') + "auth-code-123"@;
    text::lemma_split_append(t5, ""@, '"');
    let t6 = t5.push('"') + ""@;
    assert(t6 =~= start::registration_value(challenge));
    assert(text::split_text(t6, '"') =~= seq![
        t0,
        "/dbsc/register"@,
        "; challenge="@,
        challenge,
        "; authorization="@,
        "auth-code-123"@,
        ""@,
    ]);
}

/// Invitations with different challenges have different registration headers.
pub proof fn law_invitations_differ(a: Seq<char>, b: Seq<char>)
    requires
        a != b,
    ensures
        start::registration_value(a) != start::registration_value(b),
{
    let head = "(ES256); path=\"/dbsc/register\"; challenge=\""@;
    let tail = "\"; authorization=\"auth-code-123\""@;
    if start::registration_value(a) == start::registration_value(b) {
        lemma_middle_told(head, a, b, tail);
    }
}

/// What stands between the same two texts can be told from the whole.
proof fn lemma_middle_told(head: Seq<char>, a: Seq<char>, b: Seq<char>, tail: Seq<char>)
    requires
        head + a + tail == head + b + tail,
    ensures
        a == b,
{
    let whole = head + a + tail;
    assert(whole.len() == head.len() + a.len() + tail.len());
    assert(whole.len() == head.len() + b.len() + tail.len());
    let from = head.len() as int;
    assert(whole.subrange(from, from + a.len()) =~= a);
    assert(whole.subrange(from, from + b.len()) =~= b);
}

/// A minted identifier has neither quotes nor semicolons in it, and is not empty.
proof fn lemma_minted_plain(prefix: Seq<char>, n: u64)
    requires
        identifiers::alphanumeric(prefix),
    ensures
        forall|j: int|
            0 <= j < state::nonce_text(prefix, n).len() ==> #[trigger] state::nonce_text(
                prefix,
                n,
            )[j] != '"' && state::nonce_text(prefix, n)[j] != ';',
        state::nonce_text(prefix, n).len() > 0,
        !text::is_white(state::nonce_text(prefix, n).last()),
{
    let t = state::nonce_text(prefix, n);
    identifiers::law_nonces_alphanumeric(prefix, n);
    text::lemma_decimal_not_empty(n as nat);
    assert(t.last() == t[t.len() - 1]);
}

/// The browser learns from the invitation what the server keeps: the challenge stands between
/// quotes in the registration header, and the login is what the cookie reads back as.
pub proof fn law_invitation_read_back(s: StateView, now: u64)
    ensures
        ({
            let login = start::offered_login(s);
            let kept = start::started(s, now).pending[login].challenge;
            let sent = start::start_reply(start::offered_challenge(s), login);
            &&& exists|invitation: Seq<char>|
                {
                    &&& #[trigger] sends(sent, "secure-session-registration"@, invitation)
                    &&& text::split_text(invitation, '"')[2] == "; challenge="@
                    &&& text::split_text(invitation, '"')[3] == kept
                }
            &&& exists|cookie: Seq<char>|
                {
                    &&& #[trigger] sends(sent, "set-cookie"@, cookie)
                    &&& cookies::value_in_line(cookie, "login_auth_id"@) == Some(login)
                }
        }),
{
    reveal_strlit("chal");
    reveal_strlit("login");
    assert(identifiers::alphanumeric("chal"@));
    assert(identifiers::alphanumeric("login"@));
    lemma_minted_plain("chal"@, s.counter);
    lemma_minted_plain("login"@, state::after(s.counter));
    let login = start::offered_login(s);
    let kept = start::started(s, now).pending[login].challenge;
    law_invitation_sends_challenge(s, now);
    law_challenge_read_back(kept);
    let sent = start::start_reply(start::offered_challenge(s), login);
    assert(sends(sent, "secure-session-registration"@, start::registration_value(kept)));
    reveal_strlit("login_auth_id");
    reveal_strlit("login_auth_id=");
    reveal_strlit("=");
    let attributes = "; Path=/; Max-Age=3600"@;
    reveal_strlit("; Path=/; Max-Age=3600");
    assert("login_auth_id="@ =~= "login_auth_id"@ + "="@);
    lemma_cookie_read_back("login_auth_id"@, login, attributes);
    assert(sends(sent, "set-cookie"@, start::login_cookie(login)));
}

/// A cookie is read back from the text that sets it, whatever attributes follow.
proof fn lemma_cookie_read_back(name: Seq<char>, value: Seq<char>, attributes: Seq<char>)
    requires
        forall|j: int| 0 <= j < name.len() ==> #[trigger] name[j] != ';',
        forall|j: int| 0 <= j < value.len() ==> #[trigger] value[j] != ';',
        name.len() > 0 ==> !text::is_white(name.first()),
        value.len() > 0 ==> !text::is_white(value.last()),
        attributes.len() > 0,
        attributes.first() == ';',
    ensures
        cookies::value_in_line(name + "="@ + value + attributes, name) == Some(value),
{
    reveal_strlit("=");
    let pair = name + "="@ + value;
    assert forall|j: int| 0 <= j < pair.len() implies pair[j] != ';' by {
        if j < name.len() {
            assert(pair[j] == name[j]);
        } else if j > name.len() {
            assert(pair[j] == value[j - name.len() - 1]);
        }
    }
    text::lemma_split_single(pair, ';');
    lemma_first_piece_kept(pair, attributes, ';');
    let pieces = text::split_text(pair + attributes, ';');
    assert(pieces.first() == pair);
    assert(pair.first() == (if name.len() > 0 {
        name.first()
    } else {
        '='
    }));
    assert(pair.last() == (if value.len() > 0 {
        value.last()
    } else {
        '='
    }));
    text::lemma_trim_same(pair);
    let prefix = name + "="@;
    assert(prefix =~= pair.subrange(0, prefix.len() as int));
    assert(pair.skip(prefix.len() as int) =~= value);
}

/// What follows a separator does not change the first piece.
proof fn lemma_first_piece_kept(first: Seq<char>, rest: Seq<char>, sep: char)
    requires
        text::split_text(first, sep) == seq![first],
        rest.len() > 0,
        rest.first() == sep,
    ensures
        text::split_text(first + rest, sep).len() > 1,
        text::split_text(first + rest, sep).first() == first,
    decreases rest.len(),
{
    let whole = first + rest;
    assert(whole.drop_last() =~= first + rest.drop_last());
    assert(whole.last() == rest.last());
    if rest.len() == 1 {
        assert(first + rest.drop_last() =~= first);
    } else {
        lemma_first_piece_kept(first, rest.drop_last(), sep);
    }
}

/// The next invitation has another challenge and another login.
pub proof fn law_next_invitation_is_fresh(s: StateView, now: u64)
    ensures
        ({
            let t = start::started(s, now);
            &&& start::offered_challenge(t) != start::offered_challenge(s)
            &&& start::offered_login(t) != start::offered_login(s)
        }),
{
    let t = start::started(s, now);
    identifiers::law_nonces_differ("chal"@, s.counter, t.counter);
    identifiers::law_nonces_differ("login"@, state::after(s.counter), state::after(t.counter));
}

/// Which answer a registration gets, from what the request presents and what is pending for its
/// login. A proof is refused for its own form exactly when there is none, it is no JWT, its
/// algorithm is not ES256, or it has no key; then the offer has to be there, at most five minutes
/// old, and of the challenge that the proof echoes.
pub proof fn law_registration_decided(s: StateView, a: AttemptView, now: u64)
    ensures
        ({
            let sent = register::register_reply(s, a, now);
            let login = cookies::value_in_lines(a.cookies, "login_auth_id"@);
            let formed = a.jwt is Some && a.shown is Some && a.shown->0.alg == Some("ES256"@)
                && a.shown->0.key is Some;
            let offered = login is Some && s.pending.contains_key(login->0);
            let p = s.pending[login->0];
            let echoed = match a.shown->0.jti {
                Some(jti) => jti,
                None => "?"@,
            };
            &&& a.jwt is None ==> refuses(sent, 400, "missing Secure-Session-Response"@)
            &&& a.jwt is Some && a.shown is None ==> refuses(
                sent,
                400,
                "could not parse DBSC JWT"@,
            )
            &&& a.jwt is Some && a.shown is Some && a.shown->0.alg != Some("ES256"@) ==> refuses(
                sent,
                400,
                "unsupported JWT alg (need ES256)"@,
            )
            &&& a.jwt is Some && a.shown is Some && a.shown->0.alg == Some("ES256"@)
                && a.shown->0.key is None ==> refuses(sent, 400, "no jwk in JWT header"@)
            &&& formed && !offered ==> refuses(sent, 400, "no pending registration"@)
            &&& formed && offered && now > p.created_at + 300 ==> refuses(
                sent,
                400,
                "registration challenge expired"@,
            )
            &&& formed && offered && now <= p.created_at + 300 && p.challenge != echoed ==> refuses(
                sent,
                400,
                "challenge mismatch"@,
            )
            &&& formed && offered && now <= p.created_at + 300 && p.challenge == echoed
                ==> sent.status == 200
        }),
{
}

/// What a registration keeps. One that is refused changes no session, and takes the offer of its
/// login unless the proof itself is not in order; one that succeeds takes the offer and keeps, under
/// the next identifier, the key of the proof, a new cookie, a new challenge, and an end thirty days
/// on.
pub proof fn law_registration_kept(s: StateView, a: AttemptView, now: u64)
    requires
        now + 2_592_000 <= u64::MAX,
    ensures
        ({
            let t = register::registered(s, a, now);
            let sent = register::register_reply(s, a, now);
            let login = cookies::value_in_lines(a.cookies, "login_auth_id"@);
            let formed = a.jwt is Some && a.shown is Some && a.shown->0.alg == Some("ES256"@)
                && a.shown->0.key is Some;
            let second = state::after(s.counter);
            let third = state::after(second);
            &&& t.config == s.config
            &&& t.pending == (if formed && login is Some {
                s.pending.remove(login->0)
            } else {
                s.pending
            })
            &&& sent.status != 200 ==> t.sessions == s.sessions && t.counter == s.counter
            &&& sent.status == 200 ==> {
                &&& t.counter == state::after(third)
                &&& t.sessions == s.sessions.insert(
                    state::nonce_text("sess"@, s.counter),
                    BindingView {
                        user_id: "demo-user"@,
                        device_public_key: a.shown->0.key->0,
                        algorithm: "ES256"@,
                        cookie_value: state::nonce_text("cookie"@, second),
                        challenge: state::nonce_text("chal"@, third),
                        created_at: now,
                        expires_at: (now + 2_592_000) as u64,
                    },
                )
            }
        }),
{
}

/// A registration that succeeds answers with the session that it keeps.
pub proof fn law_registration_answers_with_session(s: StateView, a: AttemptView, now: u64)
    ensures
        ({
            let sent = register::register_reply(s, a, now);
            let id = state::nonce_text("sess"@, s.counter);
            let kept = register::registered(s, a, now).sessions[id].cookie_value;
            sent.status == 200 ==> exists|before: Seq<Seq<char>>|
                sent == #[trigger] session::session_reply(s.config, id, kept, before)
        }),
{
    if register::register_reply(s, a, now).status == 200 {
        let id = state::nonce_text("sess"@, s.counter);
        let before = register::accepted_lines(s, a, now);
        assert(register::register_reply(s, a, now) == session::session_reply(
            s.config,
            id,
            register::registered(s, a, now).sessions[id].cookie_value,
            before,
        ));
    }
}

/// A session can be opened when its end fits in 64 bits and the name of its cookie has no ASCII
/// control character but the tab; a request opens one exactly when it is answered with 200.
pub proof fn law_opening(s: StateView, a: AttemptView, now: u64)
    ensures
        register::openable(s, now) <==> now + 2_592_000 <= u64::MAX && headers::header_safe(
            s.config.cookie_name,
        ),
        register::opens(s, a, now) <==> register::register_reply(s, a, now).status == 200,
{
}

/// What goes out with a session: one field, the bound cookie, which has the configured name and
/// the value that was handed in, lives five minutes, and goes to this host over TLS only and not
/// to scripts; and the lines that show it.
pub proof fn law_session_answer(
    config: ConfigView,
    id: Seq<char>,
    value: Seq<char>,
    before: Seq<Seq<char>>,
)
    ensures
        ({
            let sent = session::session_reply(config, id, value, before);
            let cookie = config.cookie_name + "="@ + value
                + "; Path=/; Max-Age=300; Secure; HttpOnly; SameSite=Lax"@;
            let shown = match json::json_printed(session::session_config(config, id)) {
                Some(printed) => printed,
                None => Seq::empty(),
            };
            &&& sent.status == 200
            &&& sent.headers.dom() == set!["set-cookie"@]
            &&& sends(sent, "set-cookie"@, cookie)
            &&& sent.body == BodyView::Json(session::session_config(config, id))
            &&& sent.log == before + seq![
                "  RESPONSE: 200 OK"@,
                "            Set-Cookie: "@ + cookie,
                "            body (session config): "@ + shown,
            ]
        }),
{
    reveal_strlit("; Path=/; Max-Age=300; Secure; HttpOnly; SameSite=Lax");
    reveal_strlit("; Path=/; Max-Age=");
    reveal_strlit("; Secure; HttpOnly; SameSite=Lax");
    lemma_three_hundred();
    let sent = session::session_reply(config, id, value, before);
    assert(session::bound_cookie(config.cookie_name, value) =~= config.cookie_name + "="@ + value
        + "; Path=/; Max-Age=300; Secure; HttpOnly; SameSite=Lax"@);
    assert(sent.headers.dom() =~= set!["set-cookie"@]);
}

/// The numeral of three hundred.
proof fn lemma_three_hundred()
    ensures
        text::decimal_text(300) == seq!['3', '0', '0'],
{
    assert(text::decimal_text(3) =~= seq!['3']);
    assert(text::decimal_text(30) =~= seq!['3', '0']);
    assert(text::decimal_text(300) =~= seq!['3', '0', '0']);
}

/// The bound cookie that is sent is read back with the value that is kept, for every value that
/// was minted.
pub proof fn law_bound_cookie_read_back(name: Seq<char>, n: u64)
    requires
        forall|j: int| 0 <= j < name.len() ==> #[trigger] name[j] != ';',
        name.len() > 0 ==> !text::is_white(name.first()),
    ensures
        cookies::value_in_line(
            session::bound_cookie(name, state::nonce_text("cookie"@, n)),
            name,
        ) == Some(state::nonce_text("cookie"@, n)),
{
    reveal_strlit("cookie");
    reveal_strlit("; Path=/; Max-Age=");
    assert(identifiers::alphanumeric("cookie"@));
    lemma_minted_plain("cookie"@, n);
    let value = state::nonce_text("cookie"@, n);
    let attributes = "; Path=/; Max-Age="@ + text::decimal_text(300)
        + "; Secure; HttpOnly; SameSite=Lax"@;
    lemma_cookie_read_back(name, value, attributes);
    assert(session::bound_cookie(name, value) =~= name + "="@ + value + attributes);
}

/// Different values give different cookies.
pub proof fn law_bound_cookies_differ(name: Seq<char>, a: Seq<char>, b: Seq<char>)
    requires
        a != b,
    ensures
        session::bound_cookie(name, a) != session::bound_cookie(name, b),
{
    let tail = "; Path=/; Max-Age="@ + text::decimal_text(300)
        + "; Secure; HttpOnly; SameSite=Lax"@;
    assert(session::bound_cookie(name, a) =~= name + "="@ + a + tail);
    assert(session::bound_cookie(name, b) =~= name + "="@ + b + tail);
    if session::bound_cookie(name, a) == session::bound_cookie(name, b) {
        lemma_middle_told(name + "="@, a, b, tail);
    }
}

/// What the browser is told of a session: its identifier, where to renew it, the configured origin
/// and no other site, and one credential, the cookie with the configured name. There are no other
/// members.
pub proof fn law_session_config_told(config: ConfigView, id: Seq<char>)
    ensures
        session::session_config(config, id) matches Json::Object(told) && {
            &&& told.dom() == set![
                "session_identifier"@,
                "refresh_url"@,
                "scope"@,
                "credentials"@,
            ]
            &&& told["session_identifier"@] == Json::Text(id)
            &&& told["refresh_url"@] == Json::Text("/dbsc/refresh"@)
            &&& told["scope"@] matches Json::Object(scope) && {
                &&& scope.dom() == set!["origin"@, "include_site"@]
                &&& scope["origin"@] == Json::Text(config.origin)
                &&& scope["include_site"@] == Json::Bool(false)
            }
            &&& told["credentials"@] matches Json::Array(credentials) && {
                &&& credentials.len() == 1
                &&& credentials[0] matches Json::Object(credential) && {
                    &&& credential.dom() == set!["type"@, "name"@, "attributes"@]
                    &&& credential["type"@] == Json::Text("cookie"@)
                    &&& credential["name"@] == Json::Text(config.cookie_name)
                    &&& credential["attributes"@] == Json::Text(
                        "Path=/; Secure; HttpOnly; SameSite=Lax"@,
                    )
                }
            }
        },
{
    reveal_strlit("origin");
    reveal_strlit("include_site");
    assert("origin"@.len() != "include_site"@.len());
    reveal_strlit("type");
    reveal_strlit("name");
    reveal_strlit("attributes");
    assert("type"@[0] != "name"@[0]);
    assert("attributes"@.len() != "type"@.len());
    reveal_strlit("session_identifier");
    reveal_strlit("refresh_url");
    reveal_strlit("scope");
    reveal_strlit("credentials");
    assert("refresh_url"@[0] != "credentials"@[0]);
    assert("refresh_url"@.len() != "session_identifier"@.len());
    assert("scope"@.len() != "session_identifier"@.len());
    assert("scope"@.len() != "refresh_url"@.len());
    let told = session::session_config(config, id)->Object_0;
    assert(told.dom() =~= set!["session_identifier"@, "refresh_url"@, "scope"@, "credentials"@]);
    assert(told["scope"@]->Object_0.dom() =~= set!["origin"@, "include_site"@]);
    assert(told["credentials"@]->Array_0[0]->Object_0.dom() =~= set![
        "type"@,
        "name"@,
        "attributes"@,
    ]);
}

/// The lines about a registration show what was asked and what was answered: for a proof that is
/// in order its cookies, the JWT, the challenge that it echoes and whether its signature holds;
/// and the answer as it goes out.
pub proof fn law_registration_logged(s: StateView, a: AttemptView, now: u64)
    ensures
        ({
            let log = register::register_reply(s, a, now).log;
            let login = cookies::value_in_lines(a.cookies, "login_auth_id"@);
            let es256 = a.jwt is Some && a.shown is Some && a.shown->0.alg == Some("ES256"@);
            let formed = es256 && a.shown->0.key is Some;
            let offered = login is Some && s.pending.contains_key(login->0);
            let p = s.pending[login->0];
            let echoed = match a.shown->0.jti {
                Some(jti) => jti,
                None => "?"@,
            };
            let id = state::nonce_text("sess"@, s.counter);
            let kept = register::registered(s, a, now).sessions[id];
            &&& log[0] == log::banner(2, "REGISTER  (POST /dbsc/register)"@)
            &&& a.jwt is None ==> log.len() == 3 && log[1] == "  REQUEST : (missing proof JWT)"@
                && log[2] == "  RESPONSE: 400 missing Secure-Session-Response"@
            &&& a.jwt is Some && a.shown is None ==> log.len() == 2 && log[1]
                == "  RESPONSE: 400 could not parse DBSC JWT"@
            &&& a.jwt is Some && a.shown is Some && !es256 ==> log.len() == 2 && log[1]
                == "  RESPONSE: 400 unsupported JWT alg (need ES256)"@
            &&& es256 && !formed ==> log.len() == 2 && log[1]
                == "  RESPONSE: 400 no jwk in JWT header"@
            &&& formed ==> {
                &&& log[1] == "  REQUEST : POST /dbsc/register"@
                &&& log[2] == "            Cookie: "@ + cookies::shown_cookies(a.cookies)
                &&& log[3] == "            Secure-Session-Response (JWT): "@ + a.jwt->0
                &&& log[4] == "            decoded -> jwk=<device public key>, jti="@ + echoed
                    + ", ES256 verified="@ + text::bool_text(a.verified)
            }
            &&& formed && !offered ==> log.len() == 6 && log[5]
                == "  RESPONSE: 400 no pending registration for login_auth_id="@
                + text::debug_text(login) + " (challenge unknown)"@
            &&& formed && offered && now > p.created_at + 300 ==> log.len() == 6 && log[5]
                == "  RESPONSE: 400 registration challenge expired"@
            &&& formed && offered && now <= p.created_at + 300 && p.challenge != echoed
                ==> log.len() == 6 && log[5] == "  RESPONSE: 400 challenge mismatch (jti="@ + echoed
                + " != issued "@ + p.challenge + ")"@
            &&& formed && offered && now <= p.created_at + 300 && p.challenge == echoed ==> {
                &&& log.len() == 17
                &&& log[5] == "            challenge OK: jti matches the issued challenge ("@ + echoed
                    + ")"@
                &&& log.subrange(6, 14) == log::binding_lines("created"@, id, kept)
            }
        }),
{
    let sent = register::register_reply(s, a, now);
    if sent.status == 200 {
        let id = state::nonce_text("sess"@, s.counter);
        let kept = register::registered(s, a, now).sessions[id];
        assert(sent.log.subrange(6, 14) =~= log::binding_lines("created"@, id, kept));
    }
}

/// The banner of a flow tells its number and its title.
pub proof fn law_banner_tells_flow(n: u8, title: Seq<char>)
    ensures
        exists|numeral: Seq<char>|
            {
                &&& log::banner(n, title) == #[trigger] ("\n════════ FLOW "@ + numeral) + ": "@
                    + title + " ════════"@
                &&& text::numeral_value(numeral) == n
                &&& numeral.first() == '0' ==> numeral.len() == 1
            },
{
    let numeral = text::decimal_text(n as nat);
    text::law_numeral_spells_number(n as nat);
    assert(log::banner(n, title) == ("\n════════ FLOW "@ + numeral) + ": "@ + title
        + " ════════"@);
}

/// The lines about a session show the identifier and all that is kept, the coordinates of the key
/// aside.
pub proof fn law_kept_session_shown(label: Seq<char>, id: Seq<char>, b: BindingView)
    ensures
        ({
            let lines = log::binding_lines(label, id, b);
            &&& lines.len() == 8
            &&& lines[0] == "  STORE ["@ + label + "]  key(session_identifier)="@ + id
                + " -> Binding {"@
            &&& lines[1] == "           user_id          = "@ + b.user_id
            &&& lines[2]
                == "           device_public_key= <EC P-256 x/y>   (verify every refresh against this)"@
            &&& lines[3] == "           algorithm        = "@ + b.algorithm
            &&& lines[4] == "           cookie_value     = "@ + b.cookie_value
                + "   (rotates every refresh)"@
            &&& lines[5] == "           challenge        = "@ + b.challenge
                + "   (next refresh must present as jti)"@
            &&& lines[6] == "           created_at       = "@ + text::decimal_text(
                b.created_at as nat,
            ) + "   expires_at = "@ + text::decimal_text(b.expires_at as nat)
            &&& lines[7] == "         }"@
        }),
{
}

/// Which answer a refresh gets: 404 when there is no such session or it is past its end, 403 with a
/// challenge when there is no proof, and else the session with its new cookie. The challenge is the
/// one that is kept, and it names the session that the request named.
pub proof fn law_refresh_decided(s: StateView, q: RenewalView, now: u64)
    ensures
        ({
            let sent = refresh::refresh_reply(s, q, now);
            let id = q.session_id;
            let known = s.sessions.contains_key(id) && now <= s.sessions[id].expires_at;
            let kept = refresh::refreshed(s, q, now).sessions[id];
            &&& refresh::known(s, id, now) <==> known
            &&& refresh::renews(s, q, now) <==> known && q.jwt is Some
            &&& !known ==> refuses(sent, 404, "unknown session"@)
            &&& known && q.jwt is None ==> {
                &&& sent.status == 403
                &&& sent.headers.dom() == set!["secure-session-challenge"@]
                &&& sends(
                    sent,
                    "secure-session-challenge"@,
                    "\""@ + kept.challenge + "\";id=\""@ + id + "\""@,
                )
                &&& sent.body == BodyView::Text("challenge issued"@)
            }
            &&& known && q.jwt is Some ==> exists|before: Seq<Seq<char>>|
                sent == #[trigger] session::session_reply(s.config, id, kept.cookie_value, before)
        }),
{
    let sent = refresh::refresh_reply(s, q, now);
    let id = q.session_id;
    if refresh::known(s, id, now) {
        let kept = refresh::refreshed(s, q, now).sessions[id];
        if q.jwt is None {
            assert(sent.headers.dom() =~= set!["secure-session-challenge"@]);
        } else {
            let before = refresh::proof_lines(q) + log::binding_lines("updated"@, id, kept);
            assert(sent == session::session_reply(s.config, id, kept.cookie_value, before));
        }
    }
}

/// What a refresh keeps: nothing changes for a session that is not known; without a proof a new
/// challenge is kept, and with one a new cookie and a new challenge. All the rest stays.
pub proof fn law_refresh_kept(s: StateView, q: RenewalView, now: u64)
    ensures
        ({
            let t = refresh::refreshed(s, q, now);
            let id = q.session_id;
            let known = s.sessions.contains_key(id) && now <= s.sessions[id].expires_at;
            let second = state::after(s.counter);
            &&& t.config == s.config
            &&& t.pending == s.pending
            &&& !known ==> t == s
            &&& known && q.jwt is None ==> t.counter == second && t.sessions == s.sessions.insert(
                id,
                BindingView {
                    challenge: state::nonce_text("refchal"@, s.counter),
                    ..s.sessions[id]
                },
            )
            &&& known && q.jwt is Some ==> t.counter == state::after(second) && t.sessions
                == s.sessions.insert(
                id,
                BindingView {
                    cookie_value: state::nonce_text("cookie"@, s.counter),
                    challenge: state::nonce_text("chal"@, second),
                    ..s.sessions[id]
                },
            )
        }),
{
}

/// Cut at its quotes, the text of a challenge header gives back the challenge and the session.
pub proof fn law_refresh_challenge_read_back(challenge: Seq<char>, id: Seq<char>)
    requires
        forall|j: int| 0 <= j < challenge.len() ==> #[trigger] challenge[j] != '"',
        forall|j: int| 0 <= j < id.len() ==> #[trigger] id[j] != '"',
    ensures
        text::split_text(refresh::challenge_value(challenge, id), '"') == seq![
            ""@,
            challenge,
            ";id="@,
            id,
            ""@,
        ],
{
    reveal_strlit("");
    reveal_strlit("\"");
    reveal_strlit(";id=");
    reveal_strlit("\";id=\"");
    let t0 = ""@;
    text::lemma_split_single(t0, '"');
    text::lemma_split_append(t0, challenge, '"');
    let t1 = t0.push('"') + challenge;
    text::lemma_split_append(t1, ";id="@, '"');
    let t2 = t1.push('"') + ";id="@;
    text::lemma_split_append(t2, id, '"');
    let t3 = t2.push('"') + id;
    text::lemma_split_append(t3, ""@, '"');
    let t4 = t3.push('"') + ""@;
    assert(t4 =~= refresh::challenge_value(challenge, id));
    assert(text::split_text(t4, '"') =~= seq![""@, challenge, ";id="@, id, ""@]);
}

/// Challenge headers for different sessions differ, and so do those with different challenges.
pub proof fn law_refresh_challenges_differ(
    a: Seq<char>,
    b: Seq<char>,
    challenge: Seq<char>,
    id: Seq<char>,
)
    requires
        a != b,
    ensures
        refresh::challenge_value(challenge, a) != refresh::challenge_value(challenge, b),
        refresh::challenge_value(a, id) != refresh::challenge_value(b, id),
{
    let quote = "\""@;
    let between = "\";id=\""@;
    if refresh::challenge_value(challenge, a) == refresh::challenge_value(challenge, b) {
        lemma_middle_told(quote + challenge + between, a, b, quote);
    }
    let tail = between + id + quote;
    assert(refresh::challenge_value(a, id) =~= quote + a + tail);
    assert(refresh::challenge_value(b, id) =~= quote + b + tail);
    if refresh::challenge_value(a, id) == refresh::challenge_value(b, id) {
        lemma_middle_told(quote, a, b, tail);
    }
}

/// The browser learns from the 403 the challenge that is kept, for the session that it named, and
/// can read both from between the quotes.
pub proof fn law_refresh_challenge_learned(s: StateView, q: RenewalView, now: u64)
    requires
        identifiers::minted(s),
        refresh::known(s, q.session_id, now),
        q.jwt is None,
    ensures
        exists|value: Seq<char>|
            {
                let pieces = text::split_text(value, '"');
                &&& #[trigger] sends(
                    refresh::refresh_reply(s, q, now),
                    "secure-session-challenge"@,
                    value,
                )
                &&& pieces[1] == refresh::refreshed(s, q, now).sessions[q.session_id].challenge
                &&& pieces[2] == ";id="@
                &&& pieces[3] == q.session_id
            },
{
    reveal_strlit("refchal");
    reveal_strlit("sess");
    assert(identifiers::alphanumeric("refchal"@));
    assert(identifiers::alphanumeric("sess"@));
    let id = q.session_id;
    let n = choose|n: u64| n < s.counter && id == #[trigger] state::nonce_text("sess"@, n);
    lemma_minted_plain("sess"@, n);
    lemma_minted_plain("refchal"@, s.counter);
    let challenge = refresh::refreshed(s, q, now).sessions[id].challenge;
    law_refresh_challenge_read_back(challenge, id);
    law_refresh_decided(s, q, now);
    assert(sends(
        refresh::refresh_reply(s, q, now),
        "secure-session-challenge"@,
        refresh::challenge_value(challenge, id),
    ));
}

/// The lines about a refresh show what was asked and what was answered.
pub proof fn law_refresh_logged(s: StateView, q: RenewalView, now: u64)
    ensures
        ({
            let log = refresh::refresh_reply(s, q, now).log;
            let id = q.session_id;
            let known = s.sessions.contains_key(id) && now <= s.sessions[id].expires_at;
            let kept = refresh::refreshed(s, q, now).sessions[id];
            let echoed = match q.shown {
                Some(p) => match p.jti {
                    Some(jti) => jti,
                    None => "?"@,
                },
                None => "?"@,
            };
            &&& log[1] == "  REQUEST : POST /dbsc/refresh"@
            &&& log[2] == "            Cookie: "@ + cookies::shown_cookies(q.cookies)
            &&& !known ==> {
                &&& log.len() == 6
                &&& log[0] == log::banner(3, "REFRESH — CHALLENGE  (POST /dbsc/refresh)"@)
                &&& log[3] == "            Sec-Secure-Session-Id: "@ + id + "  (unknown to server)"@
                &&& log[4] == "  RESPONSE: 404 Not Found   (tells Chrome to drop the stale session)"@
                &&& log[5] == "            body: unknown session"@
            }
            &&& known && q.jwt is None ==> {
                &&& log.len() == 6
                &&& log[0] == log::banner(3, "REFRESH — CHALLENGE  (POST /dbsc/refresh, no proof)"@)
                &&& log[3] == "            Sec-Secure-Session-Id: "@ + id + "   (no proof yet)"@
                &&& log[4] == "  RESPONSE: 403 Forbidden"@
                &&& log[5] == "            Secure-Session-Challenge: "@ + ("\""@ + kept.challenge
                    + "\";id=\""@ + id + "\""@)
            }
            &&& known && q.jwt is Some ==> {
                &&& log.len() == 17
                &&& log[0] == log::banner(4, "REFRESH — PROOF  (POST /dbsc/refresh, signed JWT)"@)
                &&& log[3] == "            Sec-Secure-Session-Id: "@ + id
                &&& log[4] == "            Secure-Session-Response (JWT): "@ + q.jwt->0
                &&& log[5] == "            decoded -> jti="@ + echoed
                    + ", no jwk, verified vs STORED key="@ + text::bool_text(q.verified)
                &&& log.subrange(6, 14) == log::binding_lines("updated"@, id, kept)
            }
        }),
{
    let sent = refresh::refresh_reply(s, q, now);
    let id = q.session_id;
    if refresh::renews(s, q, now) {
        let kept = refresh::refreshed(s, q, now).sessions[id];
        assert(sent.log.subrange(6, 14) =~= log::binding_lines("updated"@, id, kept));
    }
}

/// What a request to register presents is read from it: all its cookies, the proof in its header
/// or body, what the proof says, and whether the key that the proof brings accepts its signature.
pub proof fn law_attempt_read_from_request(headers: HeaderMap, body: Seq<char>)
    ensures
        ({
            let a = register::attempt_of(headers, body);
            &&& a.cookies == cookies::request_cookies(headers)
            &&& a.jwt == jwt::presented_jwt(
                headers::header_text_of(headers, "secure-session-response"@),
                body,
            )
            &&& a.jwt is None ==> a.shown is None
            &&& a.jwt matches Some(t) ==> a.shown == jwt::proof_in(t)
            &&& a.verified <==> a.shown is Some && a.shown->0.alg == Some("ES256"@)
                && a.shown->0.key is Some && es256::signed(
                a.shown->0.signing_input,
                a.shown->0.signature,
                a.shown->0.key->0,
            )
        }),
{
}

/// What a request to refresh presents is read from it; its proof is tried with the key that is
/// kept for the session that it names.
pub proof fn law_renewal_read_from_request(s: StateView, headers: HeaderMap, body: Seq<char>)
    ensures
        ({
            let q = refresh::renewal_of(s, headers, body);
            let named = headers::header_text_of(headers, "sec-secure-session-id"@);
            &&& named matches Some(id) ==> q.session_id == id
            &&& named is None ==> q.session_id == "unknown"@
            &&& q.cookies == cookies::request_cookies(headers)
            &&& q.jwt == jwt::presented_jwt(
                headers::header_text_of(headers, "secure-session-response"@),
                body,
            )
            &&& q.jwt is None ==> q.shown is None
            &&& q.jwt matches Some(t) ==> q.shown == jwt::proof_in(t)
            &&& q.verified <==> refresh::signed_for(s, q.session_id, q.shown)
        }),
{
}

/// A proof counts for a session exactly when it says ES256 and the key that is kept for the session
/// accepts its signature.
pub proof fn law_kept_key_is_tried(s: StateView, id: Seq<char>, shown: Option<ProofView>)
    ensures
        refresh::signed_for(s, id, shown) <==> shown is Some && s.sessions.contains_key(id)
            && shown->0.alg == Some("ES256"@) && es256::signed(
            shown->0.signing_input,
            shown->0.signature,
            s.sessions[id].device_public_key,
        ),
{
}

/// The protected page tells whether the bound cookie came along, with whatever value, and what
/// cookies did, and sets nothing.
pub proof fn law_protected_answer(lines: Seq<Seq<char>>, cookie_name: Seq<char>)
    ensures
        ({
            let sent = access::protected_reply(lines, cookie_name);
            let came = cookies::value_in_lines(lines, cookie_name) is Some;
            let shown = cookies::shown_cookies(lines);
            &&& sent.status == 200
            &&& sent.headers.dom() == Set::<Seq<char>>::empty()
            &&& sent.body matches BodyView::Json(Json::Object(told)) && {
                &&& told.dom() == set!["authenticated"@, "cookie_header"@]
                &&& told["authenticated"@] == Json::Bool(came)
                &&& told["cookie_header"@] == Json::Text(shown)
            }
            &&& sent.log.len() == 3
            &&& sent.log[0] == log::banner(5, "PROTECTED  (GET /api/protected)"@)
            &&& sent.log[1] == "  REQUEST : GET /api/protected  |  Cookie: "@ + shown
            &&& sent.log[2] == "  RESPONSE: authenticated="@ + text::bool_text(came)
        }),
{
    reveal_strlit("authenticated");
    reveal_strlit("cookie_header");
    assert("authenticated"@[0] != "cookie_header"@[0]);
    let sent = access::protected_reply(lines, cookie_name);
    assert(sent.body->Json_0->Object_0.dom() =~= set!["authenticated"@, "cookie_header"@]);
}

/// A logout tells the browser to drop the bound cookie and the session, whatever was revoked and
/// also when nothing was: the reply has the cookie with the configured name, no value and no time
/// to live, the order to clear the cookies, and no other field.
pub proof fn law_logout_clears_browser(cookie_name: Seq<char>, revoked: Option<Seq<char>>)
    ensures
        ({
            let sent = logout::logout_reply(cookie_name, revoked);
            let cookie = cookie_name + "="@ + "; Path=/; Max-Age=0; Secure; HttpOnly; SameSite=Lax"@;
            &&& sent.status == 200
            &&& sent.headers.dom() == set!["set-cookie"@, "clear-site-data"@]
            &&& sends(sent, "set-cookie"@, cookie)
            &&& sends(sent, "clear-site-data"@, "\"cookies\""@)
            &&& sent.body == BodyView::Html(logout::LOGGED_OUT_HTML@)
            &&& sent.log.len() == 5
            &&& sent.log[0] == log::banner(7, "LOGOUT / REVOKE  (GET /logout)"@)
            &&& revoked matches Some(id) ==> sent.log[1]
                == "  REVOKE  : deleted Binding for session_identifier="@ + id
            &&& revoked is None ==> sent.log[1]
                == "  REVOKE  : no matching session to delete (no/unknown bound cookie)"@
            &&& sent.log[2] == "  RESPONSE: 200 OK"@
            &&& sent.log[3] == "            Set-Cookie: "@ + cookie + "   (expires the bound cookie)"@
            &&& sent.log[4] == "            Clear-Site-Data: \"cookies\"   (ends the DBSC session)"@
        }),
{
    reveal_strlit("set-cookie");
    reveal_strlit("clear-site-data");
    assert("set-cookie"@.len() != "clear-site-data"@.len());
    reveal_strlit("=");
    reveal_strlit("; Path=/; Max-Age=0; Secure; HttpOnly; SameSite=Lax");
    reveal_strlit("=; Path=/; Max-Age=0; Secure; HttpOnly; SameSite=Lax");
    assert(logout::dropped_cookie(cookie_name) =~= cookie_name + "="@
        + "; Path=/; Max-Age=0; Secure; HttpOnly; SameSite=Lax"@);
    let sent = logout::logout_reply(cookie_name, revoked);
    assert(sent.headers.dom() =~= set!["set-cookie"@, "clear-site-data"@]);
}

/// A cookie that was dropped reads back as empty.
pub proof fn law_dropped_cookie_is_empty(name: Seq<char>)
    requires
        forall|j: int| 0 <= j < name.len() ==> #[trigger] name[j] != ';',
        name.len() > 0 ==> !text::is_white(name.first()),
    ensures
        cookies::value_in_line(logout::dropped_cookie(name), name) == Some(Seq::<char>::empty()),
{
    reveal_strlit("=");
    reveal_strlit("; Path=/; Max-Age=0; Secure; HttpOnly; SameSite=Lax");
    reveal_strlit("=; Path=/; Max-Age=0; Secure; HttpOnly; SameSite=Lax");
    let attributes = "; Path=/; Max-Age=0; Secure; HttpOnly; SameSite=Lax"@;
    lemma_cookie_read_back(name, Seq::empty(), attributes);
    assert(logout::dropped_cookie(name) =~= name + "="@ + Seq::<char>::empty() + attributes);
}

/// What a logout ends: a session whose cookie has the value that was presented, and none exactly
/// when no session has it or no cookie was presented. All the rest stays.
pub proof fn law_logout_ends_session_of_cookie(
    s: StateView,
    presented: Option<Seq<char>>,
    revoked: Option<Seq<char>>,
)
    requires
        logout::revocable(s, presented, revoked),
    ensures
        revoked is None <==> presented is None || forall|id: Seq<char>| #[trigger]
            s.sessions.contains_key(id) ==> s.sessions[id].cookie_value != presented->0,
        revoked matches Some(id) ==> {
            &&& s.sessions.contains_key(id)
            &&& Some(s.sessions[id].cookie_value) == presented
            &&& logout::logged_out(s, revoked).sessions == s.sessions.remove(id)
        },
        revoked is None ==> logout::logged_out(s, revoked).sessions == s.sessions,
        logout::logged_out(s, revoked).pending == s.pending,
        logout::logged_out(s, revoked).counter == s.counter,
        logout::logged_out(s, revoked).config == s.config,
{
    match revoked {
        Some(id) => {
            assert(logout::owns(s, id, presented));
        },
        None => {
            assert forall|id: Seq<char>| #[trigger]
                s.sessions.contains_key(id) && presented is Some implies s.sessions[id].cookie_value
                != presented->0 by {
                assert(!logout::owns(s, id, presented));
            }
        },
    }
}

/// A logout with the cookie of a session ends a session, and can end this one.
pub proof fn law_logout_finds_session(s: StateView, id: Seq<char>)
    requires
        s.sessions.contains_key(id),
    ensures
        logout::revocable(s, Some(s.sessions[id].cookie_value), Some(id)),
        !logout::revocable(s, Some(s.sessions[id].cookie_value), None),
{
    assert(logout::owns(s, id, Some(s.sessions[id].cookie_value)));
}

} // verus!
