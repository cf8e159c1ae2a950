//! The refresh: the browser proves again that it holds the device key, and gets a new cookie.

use std::time::SystemTime;

use axum::http::HeaderMap;
use vstd::prelude::*;

use crate::clock;
use crate::cookies;
use crate::es256;
use crate::headers;
use crate::jwt;
use crate::jwt::{Proof, ProofView};
use crate::log;
use crate::log::Log;
use crate::reply;
use crate::reply::{Body, BodyView, Reply, ReplyView};
use crate::session;
use crate::state;
use crate::state::{AppState, StateView};
use crate::store::{Binding, BindingView};
use crate::text;

verus! {

/// What a request to refresh presents: the session, its cookies, its proof as it came and as it
/// was parsed, and whether the key that is kept for the session accepts the signature.
#[verifier::ext_equal]
pub struct RenewalView {
    pub session_id: Seq<char>,
    pub cookies: Seq<Seq<char>>,
    pub jwt: Option<Seq<char>>,
    pub shown: Option<ProofView>,
    pub verified: bool,
}

/// A request to refresh, as plain values.
pub struct Renewal {
    pub session_id: String,
    pub cookies: Vec<String>,
    pub jwt: Option<String>,
    pub shown: Option<Proof>,
    pub verified: bool,
}

impl View for Renewal {
    type V = RenewalView;

    open spec fn view(&self) -> RenewalView {
        RenewalView {
            session_id: self.session_id@,
            cookies: text::texts(self.cookies@),
            jwt: text::opt_text(self.jwt),
            shown: jwt::opt_proof(self.shown),
            verified: self.verified,
        }
    }
}

impl RenewalView {
    /// The challenge that the proof echoes, or a question mark.
    pub open spec fn shown_jti(self) -> Seq<char> {
        match self.shown {
            Some(p) => p.shown_jti(),
            None => "?"@,
        }
    }
}

/// The session that a request names.
pub open spec fn named_session(headers: HeaderMap) -> Seq<char> {
    match headers::header_text_of(headers, "sec-secure-session-id"@) {
        Some(id) => id,
        None => "unknown"@,
    }
}

/// `shown` is signed by the key that is kept for the session `id`. A key that the proof brings
/// along does not count.
pub open spec fn signed_for(s: StateView, id: Seq<char>, shown: Option<ProofView>) -> bool {
    match shown {
        Some(p) => s.sessions.contains_key(id) && p.is_es256() && es256::signed(
            p.signing_input,
            p.signature,
            s.sessions[id].device_public_key,
        ),
        None => false,
    }
}

/// What a request presents to a server in the state `s`.
pub open spec fn renewal_of(s: StateView, headers: HeaderMap, body: Seq<char>) -> RenewalView {
    let presented = jwt::presented_jwt(
        headers::header_text_of(headers, "secure-session-response"@),
        body,
    );
    let shown = match presented {
        Some(text) => jwt::proof_in(text),
        None => None,
    };
    RenewalView {
        session_id: named_session(headers),
        cookies: cookies::request_cookies(headers),
        jwt: presented,
        shown,
        verified: signed_for(s, named_session(headers), shown),
    }
}

/// The session `id` is known at `now`: there is a binding for it, and it has not come to its end.
pub open spec fn known(s: StateView, id: Seq<char>, now: u64) -> bool {
    s.sessions.contains_key(id) && now <= s.sessions[id].expires_at
}

/// The request renews a session.
pub open spec fn renews(s: StateView, q: RenewalView, now: u64) -> bool {
    known(s, q.session_id, now) && q.jwt is Some
}

/// The challenge that the state issues next for a refresh.
pub open spec fn next_challenge(s: StateView) -> Seq<char> {
    state::nonce_text("refchal"@, s.counter)
}

/// The value of the bound cookie that the state mints next.
pub open spec fn next_cookie(s: StateView) -> Seq<char> {
    state::nonce_text("cookie"@, s.counter)
}

/// What is kept for a session once a challenge was issued for it.
pub open spec fn challenged(s: StateView, b: BindingView) -> BindingView {
    BindingView { challenge: next_challenge(s), ..b }
}

/// What is kept for a session once its cookie was renewed.
pub open spec fn renewed(s: StateView, b: BindingView) -> BindingView {
    BindingView {
        cookie_value: next_cookie(s),
        challenge: state::nonce_text("chal"@, state::after(s.counter)),
        ..b
    }
}

/// The state after a request to refresh at `now`.
pub open spec fn refreshed(s: StateView, q: RenewalView, now: u64) -> StateView {
    let id = q.session_id;
    if !known(s, id, now) {
        s
    } else if q.jwt is None {
        StateView {
            counter: state::after(s.counter),
            sessions: s.sessions.insert(id, challenged(s, s.sessions[id])),
            ..s
        }
    } else {
        StateView {
            counter: state::after(state::after(s.counter)),
            sessions: s.sessions.insert(id, renewed(s, s.sessions[id])),
            ..s
        }
    }
}

/// The value of the `Secure-Session-Challenge` header: the challenge, and the session it is for.
pub open spec fn challenge_value(challenge: Seq<char>, session_id: Seq<char>) -> Seq<char> {
    "\""@ + challenge + "\";id=\""@ + session_id + "\""@
}

/// The lines about a request for a session that is not known.
pub open spec fn unknown_lines(q: RenewalView) -> Seq<Seq<char>> {
    seq![
        log::banner(3, "REFRESH — CHALLENGE  (POST /dbsc/refresh)"@),
        "  REQUEST : POST /dbsc/refresh"@,
        "            Cookie: "@ + cookies::shown_cookies(q.cookies),
        "            Sec-Secure-Session-Id: "@ + q.session_id + "  (unknown to server)"@,
        "  RESPONSE: 404 Not Found   (tells Chrome to drop the stale session)"@,
        "            body: unknown session"@,
    ]
}

/// The lines about a request without a proof.
pub open spec fn challenge_lines(q: RenewalView, challenge: Seq<char>) -> Seq<Seq<char>> {
    seq![
        log::banner(3, "REFRESH — CHALLENGE  (POST /dbsc/refresh, no proof)"@),
        "  REQUEST : POST /dbsc/refresh"@,
        "            Cookie: "@ + cookies::shown_cookies(q.cookies),
        "            Sec-Secure-Session-Id: "@ + q.session_id + "   (no proof yet)"@,
        "  RESPONSE: 403 Forbidden"@,
        "            Secure-Session-Challenge: "@ + challenge_value(challenge, q.session_id),
    ]
}

/// The lines about a request with a proof.
pub open spec fn proof_lines(q: RenewalView) -> Seq<Seq<char>> {
    seq![
        log::banner(4, "REFRESH — PROOF  (POST /dbsc/refresh, signed JWT)"@),
        "  REQUEST : POST /dbsc/refresh"@,
        "            Cookie: "@ + cookies::shown_cookies(q.cookies),
        "            Sec-Secure-Session-Id: "@ + q.session_id,
        "            Secure-Session-Response (JWT): "@ + q.jwt->0,
        "            decoded -> jti="@ + q.shown_jti() + ", no jwk, verified vs STORED key="@
            + text::bool_text(q.verified),
    ]
}

/// The reply to a request to refresh at `now`.
pub open spec fn refresh_reply(s: StateView, q: RenewalView, now: u64) -> ReplyView {
    let id = q.session_id;
    if !known(s, id, now) {
        ReplyView {
            status: 404,
            headers: headers::no_fields(),
            body: BodyView::Text("unknown session"@),
            log: unknown_lines(q),
        }
    } else if q.jwt is None {
        ReplyView {
            status: 403,
            headers: reply::field(
                "secure-session-challenge"@,
                challenge_value(next_challenge(s), id),
            ),
            body: BodyView::Text("challenge issued"@),
            log: challenge_lines(q, next_challenge(s)),
        }
    } else {
        session::session_reply(
            s.config,
            id,
            next_cookie(s),
            proof_lines(q) + log::binding_lines("updated"@, id, renewed(s, s.sessions[id])),
        )
    }
}

/// A challenge for a session can stand in a header when its two parts can.
proof fn lemma_challenge_safe(challenge: Seq<char>, session_id: Seq<char>)
    requires
        headers::header_safe(challenge),
        headers::header_safe(session_id),
    ensures
        headers::header_safe(challenge_value(challenge, session_id)),
{
    reveal_strlit("\"");
    reveal_strlit("\";id=\"");
    assert(headers::header_safe("\""@));
    assert(headers::header_safe("\";id=\""@));
}

impl AppState {
    /// What a request to refresh presents.
    pub fn read_renewal(&self, headers: &HeaderMap, body: &str) -> (r: Renewal)
        ensures
            r@ == renewal_of(self@, *headers, body@),
    {
        proof {
            reveal_strlit("sec-secure-session-id");
        }
        let session_id = match headers::header_text(headers, "sec-secure-session-id") {
            Some(id) => id,
            None => "unknown".to_owned(),
        };
        let presented = jwt::jwt_from(headers, body);
        let shown = match &presented {
            Some(text) => jwt::read_proof(text.as_str()),
            None => None,
        };
        let verified = match (self.binding(session_id.as_str()), &shown) {
            (Some(b), Some(p)) => p.is_es256() && es256::verify_sig(
                p.signing_input.as_str(),
                p.signature.as_str(),
                &b.device_public_key,
            ),
            _ => false,
        };
        Renewal {
            session_id,
            cookies: cookies::cookie_lines(headers),
            jwt: presented,
            shown,
            verified,
        }
    }

    /// What is kept for the session `id`, when it is known at `now`.
    fn known_binding(&self, id: &str, now: u64) -> (r: Option<Binding>)
        ensures
            match r {
                Some(b) => known(self@, id@, now) && self@.sessions[id@] == b@,
                None => !known(self@, id@, now),
            },
    {
        match self.binding(id) {
            Some(b) => if now <= b.expires_at {
                Some(b)
            } else {
                None
            },
            None => None,
        }
    }

    /// Answers a request to refresh at `now` that is given as plain values: 404 for a session
    /// that is not known or has come to its end, 403 and a challenge for a request without a
    /// proof, and a new cookie for one with a proof. The proof is tried against the key that was
    /// kept at registration, and the outcome is logged.
    pub fn refresh_renewal(&mut self, q: &Renewal, now: u64) -> (r: Reply)
        requires
            old(self).wf(),
            renews(old(self)@, q@, now) ==> headers::header_safe(old(self)@.config.cookie_name),
        ensures
            final(self).wf(),
            final(self)@ == refreshed(old(self)@, q@, now),
            r@ == refresh_reply(old(self)@, q@, now),
    {
        let ghost s = self@;
        let session_id = q.session_id.as_str();
        let cookie_line = cookies::show_cookies(&q.cookies);
        let mut log = Log::new();

        // A session that the browser kept from an earlier run, or beyond its end, is not renewed:
        // it is to be dropped.
        let mut binding = match self.known_binding(session_id, now) {
            Some(binding) => binding,
            None => {
                log::flow_header(&mut log, 3, "REFRESH — CHALLENGE  (POST /dbsc/refresh)");
                log.line("  REQUEST : POST /dbsc/refresh".to_owned());
                log.line(text::cat2("            Cookie: ", cookie_line.as_str()));
                log.line(
                    text::cat3(
                        "            Sec-Secure-Session-Id: ",
                        session_id,
                        "  (unknown to server)",
                    ),
                );
                log.line(
                    "  RESPONSE: 404 Not Found   (tells Chrome to drop the stale session)".to_owned(),
                );
                log.line("            body: unknown session".to_owned());
                assert(log@ =~= unknown_lines(q@));
                return Reply::text(404, "unknown session", log);
            },
        };
        proof {
            self.lemma_ids_safe(session_id@);
        }

        let presented = match &q.jwt {
            Some(presented) => presented,
            None => {
                let challenge = self.mint("refchal");
                binding.challenge = challenge.clone();
                self.bind(session_id.to_owned(), binding);
                let value = text::cat5("\"", challenge.as_str(), "\";id=\"", session_id, "\"");
                log::flow_header(
                    &mut log,
                    3,
                    "REFRESH — CHALLENGE  (POST /dbsc/refresh, no proof)",
                );
                log.line("  REQUEST : POST /dbsc/refresh".to_owned());
                log.line(text::cat2("            Cookie: ", cookie_line.as_str()));
                log.line(
                    text::cat3(
                        "            Sec-Secure-Session-Id: ",
                        session_id,
                        "   (no proof yet)",
                    ),
                );
                log.line("  RESPONSE: 403 Forbidden".to_owned());
                log.line(text::cat2("            Secure-Session-Challenge: ", value.as_str()));
                assert(log@ =~= challenge_lines(q@, challenge@));
                proof {
                    reveal_strlit("refchal");
                    reveal_strlit("secure-session-challenge");
                    headers::lemma_decimal_safe(s.counter as nat);
                    assert(headers::header_safe("refchal"@));
                    lemma_challenge_safe(challenge@, session_id@);
                }
                let headers = reply::with_field("secure-session-challenge", value.as_str());
                return Reply { status: 403, headers, body: Body::Text("challenge issued"), log };
            },
        };

        log::flow_header(&mut log, 4, "REFRESH — PROOF  (POST /dbsc/refresh, signed JWT)");
        let jti = match &q.shown {
            Some(p) => p.shown_jti(),
            None => "?".to_owned(),
        };
        log.line("  REQUEST : POST /dbsc/refresh".to_owned());
        log.line(text::cat2("            Cookie: ", cookie_line.as_str()));
        log.line(text::cat2("            Sec-Secure-Session-Id: ", session_id));
        log.line(text::cat2("            Secure-Session-Response (JWT): ", presented.as_str()));
        log.line(
            text::cat4(
                "            decoded -> jti=",
                jti.as_str(),
                ", no jwk, verified vs STORED key=",
                text::bool_word(q.verified),
            ),
        );
        assert(log@ =~= proof_lines(q@));

        // Both the value of the cookie and the challenge change with every refresh.
        let cookie_value = self.mint("cookie");
        binding.cookie_value = cookie_value.clone();
        binding.challenge = self.mint("chal");
        log::print_binding(&mut log, "updated", session_id, &binding);
        self.bind(session_id.to_owned(), binding);
        proof {
            reveal_strlit("cookie");
            headers::lemma_decimal_safe(s.counter as nat);
            assert(headers::header_safe("cookie"@));
        }
        self.session_response(session_id, cookie_value.as_str(), log)
    }

    /// Answers a request to refresh at `now`. There is no answer, and nothing changes, when the
    /// request renews a session and the name of the bound cookie cannot stand in a header.
    pub fn refresh_at(&mut self, headers: &HeaderMap, body: &str, now: u64) -> (r: Option<Reply>)
        requires
            old(self).wf(),
        ensures
            final(self).wf(),
            match r {
                Some(reply) => {
                    let q = renewal_of(old(self)@, *headers, body@);
                    &&& final(self)@ == refreshed(old(self)@, q, now)
                    &&& reply@ == refresh_reply(old(self)@, q, now)
                },
                None => *final(self) == *old(self),
            },
            r is None <==> renews(old(self)@, renewal_of(old(self)@, *headers, body@), now)
                && !headers::header_safe(old(self)@.config.cookie_name),
    {
        let q = self.read_renewal(headers, body);
        let can_renew = headers::is_header_safe(self.cfg().cookie_name.as_str());
        if !can_renew && q.jwt.is_some() && self.known_binding(
            q.session_id.as_str(),
            now,
        ).is_some() {
            None
        } else {
            Some(self.refresh_renewal(&q, now))
        }
    }

    /// Answers a request to refresh, at the time that the clock shows.
    pub fn refresh(&mut self, headers: &HeaderMap, body: &str) -> (r: Option<Reply>)
        requires
            old(self).wf(),
        ensures
            final(self).wf(),
            exists|now: SystemTime|
                {
                    let secs = #[trigger] clock::unix_seconds(now);
                    let q = renewal_of(old(self)@, *headers, body@);
                    match r {
                        Some(reply) => {
                            &&& renews(old(self)@, q, secs) ==> headers::header_safe(
                                old(self)@.config.cookie_name,
                            )
                            &&& final(self)@ == refreshed(old(self)@, q, secs)
                            &&& reply@ == refresh_reply(old(self)@, q, secs)
                        },
                        None => {
                            &&& renews(old(self)@, q, secs)
                            &&& !headers::header_safe(old(self)@.config.cookie_name)
                            &&& *final(self) == *old(self)
                        },
                    }
                },
    {
        let now = clock::now_secs();
        self.refresh_at(headers, body, now)
    }
}

/// What is said of a renewal is said of its values.
pub proof fn law_renewal_is_what_it_holds(q: Renewal)
    ensures
        q@.session_id == q.session_id@,
        q@.cookies == text::texts(q.cookies@),
        q@.jwt == text::opt_text(q.jwt),
        q.shown matches Some(p) ==> q@.shown == Some(p@),
        q.shown is None ==> q@.shown is None,
        q@.verified == q.verified,
{
}

} // verus!
