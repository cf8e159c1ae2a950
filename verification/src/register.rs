//! The registration: the browser posts its signed proof, and a session is opened.

use std::time::SystemTime;

use axum::http::HeaderMap;
use vstd::prelude::*;

use crate::clock;
use crate::cookies;
use crate::es256;
use crate::es256::PubKeyView;
use crate::headers;
use crate::jwt;
use crate::jwt::{Proof, ProofView};
use crate::log;
use crate::log::Log;
use crate::reply::{BodyView, Reply, ReplyView};
use crate::session;
use crate::state;
use crate::state::{AppState, StateView, REG_CHALLENGE_TTL_SECS, SESSION_TTL_SECS};
use crate::store::{Binding, BindingView, PendingView};
use crate::text;

verus! {

/// Why a registration is refused.
pub enum Refusal {
    /// The request carries no proof.
    MissingProof,
    /// The proof is no JWT.
    Unparsable,
    /// The proof claims an algorithm other than ES256.
    WrongAlgorithm,
    /// The proof carries no device key.
    NoKey,
    /// No registration was offered to the login of the request, or it was answered before.
    NoPending,
    /// The registration was offered too long ago.
    Expired,
    /// The proof echoes another challenge than the one that was offered.
    Mismatch,
}

impl Refusal {
    /// The answer that goes with the refusal.
    pub open spec fn answer(self) -> Seq<char> {
        match self {
            Refusal::MissingProof => "missing Secure-Session-Response"@,
            Refusal::Unparsable => "could not parse DBSC JWT"@,
            Refusal::WrongAlgorithm => "unsupported JWT alg (need ES256)"@,
            Refusal::NoKey => "no jwk in JWT header"@,
            Refusal::NoPending => "no pending registration"@,
            Refusal::Expired => "registration challenge expired"@,
            Refusal::Mismatch => "challenge mismatch"@,
        }
    }
}

/// What a request to register presents: its cookies, its proof as it came and as it was parsed,
/// and whether the device key in the proof accepts its signature.
#[verifier::ext_equal]
pub struct AttemptView {
    pub cookies: Seq<Seq<char>>,
    pub jwt: Option<Seq<char>>,
    pub shown: Option<ProofView>,
    pub verified: bool,
}

/// A request to register, as plain values.
pub struct Attempt {
    pub cookies: Vec<String>,
    pub jwt: Option<String>,
    pub shown: Option<Proof>,
    pub verified: bool,
}

impl View for Attempt {
    type V = AttemptView;

    open spec fn view(&self) -> AttemptView {
        AttemptView {
            cookies: text::texts(self.cookies@),
            jwt: text::opt_text(self.jwt),
            shown: jwt::opt_proof(self.shown),
            verified: self.verified,
        }
    }
}

impl AttemptView {
    /// The login that the request belongs to.
    pub open spec fn login(self) -> Option<Seq<char>> {
        cookies::value_in_lines(self.cookies, "login_auth_id"@)
    }

    /// What is wrong with the proof itself, whatever was offered.
    pub open spec fn malformed(self) -> Option<Refusal> {
        if self.jwt is None {
            Some(Refusal::MissingProof)
        } else if self.shown is None {
            Some(Refusal::Unparsable)
        } else if !self.shown->0.is_es256() {
            Some(Refusal::WrongAlgorithm)
        } else if self.shown->0.key is None {
            Some(Refusal::NoKey)
        } else {
            None
        }
    }

    /// Why the request is refused at `now`, when `pending` is what was offered to its login.
    pub open spec fn refusal(self, pending: Option<PendingView>, now: u64) -> Option<Refusal> {
        if self.malformed() is Some {
            self.malformed()
        } else {
            match pending {
                None => Some(Refusal::NoPending),
                Some(p) => if now - p.created_at > REG_CHALLENGE_TTL_SECS {
                    Some(Refusal::Expired)
                } else if p.challenge != self.shown->0.shown_jti() {
                    Some(Refusal::Mismatch)
                } else {
                    None
                },
            }
        }
    }
}

/// What a request presents. The key in the proof is tried on the signature, if the proof claims
/// the right algorithm.
pub open spec fn attempt_of(headers: HeaderMap, body: Seq<char>) -> AttemptView {
    let presented = jwt::presented_jwt(
        headers::header_text_of(headers, "secure-session-response"@),
        body,
    );
    let shown = match presented {
        Some(text) => jwt::proof_in(text),
        None => None,
    };
    AttemptView {
        cookies: cookies::request_cookies(headers),
        jwt: presented,
        shown,
        verified: match shown {
            Some(p) => p.is_es256() && p.key is Some && es256::signed(
                p.signing_input,
                p.signature,
                p.key->0,
            ),
            None => false,
        },
    }
}

/// What was offered to `login`.
pub open spec fn pending_for(s: StateView, login: Option<Seq<char>>) -> Option<PendingView> {
    match login {
        Some(l) => if s.pending.contains_key(l) {
            Some(s.pending[l])
        } else {
            None
        },
        None => None,
    }
}

/// The state once what was offered to `login` is taken: an offer can be answered once.
pub open spec fn consumed(s: StateView, login: Option<Seq<char>>) -> StateView {
    match login {
        Some(l) => StateView { pending: s.pending.remove(l), ..s },
        None => s,
    }
}

/// The identifier that the state gives to the next session.
pub open spec fn next_session_id(s: StateView) -> Seq<char> {
    state::nonce_text("sess"@, s.counter)
}

/// The request opens a session.
pub open spec fn opens(s: StateView, a: AttemptView, now: u64) -> bool {
    a.refusal(pending_for(s, a.login()), now) is None
}

/// A session can be opened at `now`: its end is within Unix time in 64 bits, and the name of the
/// bound cookie can stand in a header.
pub open spec fn openable(s: StateView, now: u64) -> bool {
    now + SESSION_TTL_SECS <= u64::MAX && headers::header_safe(s.config.cookie_name)
}

/// What is kept for a new session of the device with the key `key`.
pub open spec fn new_binding(s: StateView, key: PubKeyView, now: u64) -> BindingView {
    BindingView {
        user_id: "demo-user"@,
        device_public_key: key,
        algorithm: "ES256"@,
        cookie_value: state::nonce_text("cookie"@, state::after(s.counter)),
        challenge: state::nonce_text("chal"@, state::after(state::after(s.counter))),
        created_at: now,
        expires_at: (now + SESSION_TTL_SECS) as u64,
    }
}

/// The state after a request to register.
pub open spec fn registered(s: StateView, a: AttemptView, now: u64) -> StateView {
    if a.malformed() is Some {
        s
    } else if a.refusal(pending_for(s, a.login()), now) is Some {
        consumed(s, a.login())
    } else {
        StateView {
            counter: state::after(state::after(state::after(s.counter))),
            sessions: s.sessions.insert(
                next_session_id(s),
                new_binding(s, a.shown->0.key->0, now),
            ),
            ..consumed(s, a.login())
        }
    }
}

/// The lines about a request with a proof that is in order.
pub open spec fn attempt_lines(a: AttemptView) -> Seq<Seq<char>> {
    seq![
        log::banner(2, "REGISTER  (POST /dbsc/register)"@),
        "  REQUEST : POST /dbsc/register"@,
        "            Cookie: "@ + cookies::shown_cookies(a.cookies),
        "            Secure-Session-Response (JWT): "@ + a.jwt->0,
        "            decoded -> jwk=<device public key>, jti="@ + a.shown->0.shown_jti()
            + ", ES256 verified="@ + text::bool_text(a.verified),
    ]
}

/// The lines about a refused request.
pub open spec fn refusal_lines(
    a: AttemptView,
    pending: Option<PendingView>,
    r: Refusal,
) -> Seq<Seq<char>> {
    let banner = seq![log::banner(2, "REGISTER  (POST /dbsc/register)"@)];
    match r {
        Refusal::MissingProof => banner + seq![
            "  REQUEST : (missing proof JWT)"@,
            "  RESPONSE: 400 missing Secure-Session-Response"@,
        ],
        Refusal::Unparsable => banner + seq!["  RESPONSE: 400 could not parse DBSC JWT"@],
        Refusal::WrongAlgorithm => banner + seq![
            "  RESPONSE: 400 unsupported JWT alg (need ES256)"@,
        ],
        Refusal::NoKey => banner + seq!["  RESPONSE: 400 no jwk in JWT header"@],
        Refusal::NoPending => attempt_lines(a).push(
            "  RESPONSE: 400 no pending registration for login_auth_id="@ + text::debug_text(
                a.login(),
            ) + " (challenge unknown)"@,
        ),
        Refusal::Expired => attempt_lines(a).push(
            "  RESPONSE: 400 registration challenge expired"@,
        ),
        Refusal::Mismatch => attempt_lines(a).push(
            "  RESPONSE: 400 challenge mismatch (jti="@ + a.shown->0.shown_jti() + " != issued "@
                + pending->0.challenge + ")"@,
        ),
    }
}

/// The lines about a request that opens a session.
pub open spec fn accepted_lines(s: StateView, a: AttemptView, now: u64) -> Seq<Seq<char>> {
    attempt_lines(a).push(
        "            challenge OK: jti matches the issued challenge ("@ + pending_for(
            s,
            a.login(),
        )->0.challenge + ")"@,
    ) + log::binding_lines(
        "created"@,
        next_session_id(s),
        new_binding(s, a.shown->0.key->0, now),
    )
}

/// The reply to a request to register.
pub open spec fn register_reply(s: StateView, a: AttemptView, now: u64) -> ReplyView {
    let pending = pending_for(s, a.login());
    match a.refusal(pending, now) {
        Some(r) => ReplyView {
            status: 400,
            headers: headers::no_fields(),
            body: BodyView::Text(r.answer()),
            log: refusal_lines(a, pending, r),
        },
        None => session::session_reply(
            s.config,
            next_session_id(s),
            new_binding(s, a.shown->0.key->0, now).cookie_value,
            accepted_lines(s, a, now),
        ),
    }
}

/// What a request to register presents.
pub fn read_attempt(headers: &HeaderMap, body: &str) -> (r: Attempt)
    ensures
        r@ == attempt_of(*headers, body@),
{
    let presented = jwt::jwt_from(headers, body);
    let shown = match &presented {
        Some(text) => jwt::read_proof(text.as_str()),
        None => None,
    };
    let verified = match &shown {
        Some(p) => if p.is_es256() {
            match &p.key {
                Some(key) => es256::verify_sig(
                    p.signing_input.as_str(),
                    p.signature.as_str(),
                    key,
                ),
                None => false,
            }
        } else {
            false
        },
        None => false,
    };
    Attempt { cookies: cookies::cookie_lines(headers), jwt: presented, shown, verified }
}

impl AppState {
    /// Whether a request opens a session.
    pub fn would_open(&self, attempt: &Attempt, now: u64) -> (r: bool)
        ensures
            r == opens(self@, attempt@, now),
    {
        if attempt.jwt.is_none() {
            return false;
        }
        match &attempt.shown {
            Some(shown) => if !shown.is_es256() || shown.key.is_none() {
                false
            } else {
                match cookies::find_cookie(&attempt.cookies, "login_auth_id") {
                    Some(login) => match self.offered_to(login.as_str()) {
                        Some(offered) => now.saturating_sub(offered.created_at)
                            <= REG_CHALLENGE_TTL_SECS && text::same_text(
                            offered.challenge.as_str(),
                            shown.shown_jti().as_str(),
                        ),
                        None => false,
                    },
                    None => false,
                }
            },
            None => false,
        }
    }

    /// Answers a request to register that is given as plain values. The JWT carries the device's
    /// public key; its signature is tried and the outcome logged; what decides is the challenge,
    /// which is the one that was offered to the login of the request, not too long ago, and not
    /// answered before.
    pub fn register_attempt(&mut self, attempt: &Attempt, now: u64) -> (r: Reply)
        requires
            old(self).wf(),
            opens(old(self)@, attempt@, now) ==> openable(old(self)@, now),
        ensures
            final(self).wf(),
            final(self)@ == registered(old(self)@, attempt@, now),
            r@ == register_reply(old(self)@, attempt@, now),
    {
        let ghost s = self@;
        let mut log = Log::new();
        log::flow_header(&mut log, 2, "REGISTER  (POST /dbsc/register)");
        let ghost banner = log@;
        assert(banner =~= seq![log::banner(2, "REGISTER  (POST /dbsc/register)"@)]);

        let presented = match &attempt.jwt {
            Some(presented) => presented,
            None => {
                log.line("  REQUEST : (missing proof JWT)".to_owned());
                log.line("  RESPONSE: 400 missing Secure-Session-Response".to_owned());
                assert(log@ =~= refusal_lines(
                    attempt@,
                    pending_for(s, attempt@.login()),
                    Refusal::MissingProof,
                ));
                return Reply::text(400, "missing Secure-Session-Response", log);
            },
        };
        let shown = match &attempt.shown {
            Some(shown) => shown,
            None => {
                log.line("  RESPONSE: 400 could not parse DBSC JWT".to_owned());
                assert(log@ =~= refusal_lines(
                    attempt@,
                    pending_for(s, attempt@.login()),
                    Refusal::Unparsable,
                ));
                return Reply::text(400, "could not parse DBSC JWT", log);
            },
        };
        if !shown.is_es256() {
            log.line("  RESPONSE: 400 unsupported JWT alg (need ES256)".to_owned());
            assert(log@ =~= refusal_lines(
                attempt@,
                pending_for(s, attempt@.login()),
                Refusal::WrongAlgorithm,
            ));
            return Reply::text(400, "unsupported JWT alg (need ES256)", log);
        }
        let key = match &shown.key {
            Some(key) => key,
            None => {
                log.line("  RESPONSE: 400 no jwk in JWT header".to_owned());
                assert(log@ =~= refusal_lines(
                    attempt@,
                    pending_for(s, attempt@.login()),
                    Refusal::NoKey,
                ));
                return Reply::text(400, "no jwk in JWT header", log);
            },
        };
        let jti = shown.shown_jti();
        log.line("  REQUEST : POST /dbsc/register".to_owned());
        let cookie_line = cookies::show_cookies(&attempt.cookies);
        log.line(text::cat2("            Cookie: ", cookie_line.as_str()));
        log.line(text::cat2("            Secure-Session-Response (JWT): ", presented.as_str()));
        log.line(
            text::cat4(
                "            decoded -> jwk=<device public key>, jti=",
                jti.as_str(),
                ", ES256 verified=",
                text::bool_word(attempt.verified),
            ),
        );
        assert(log@ =~= attempt_lines(attempt@));

        // The offer is taken out whatever comes of it, so that a challenge is good for one try.
        let login = cookies::find_cookie(&attempt.cookies, "login_auth_id");
        let pending = match &login {
            Some(l) => self.take_pending(l.as_str()),
            None => None,
        };
        assert(self@ == consumed(s, attempt@.login()));
        let offered = match pending {
            Some(offered) => offered,
            None => {
                let shown_login = text::debug(&login);
                log.line(
                    text::cat3(
                        "  RESPONSE: 400 no pending registration for login_auth_id=",
                        shown_login.as_str(),
                        " (challenge unknown)",
                    ),
                );
                assert(self@ =~= s);
                return Reply::text(400, "no pending registration", log);
            },
        };
        if now.saturating_sub(offered.created_at) > REG_CHALLENGE_TTL_SECS {
            log.line("  RESPONSE: 400 registration challenge expired".to_owned());
            return Reply::text(400, "registration challenge expired", log);
        }
        if !text::same_text(offered.challenge.as_str(), jti.as_str()) {
            log.line(
                text::cat5(
                    "  RESPONSE: 400 challenge mismatch (jti=",
                    jti.as_str(),
                    " != issued ",
                    offered.challenge.as_str(),
                    ")",
                ),
            );
            return Reply::text(400, "challenge mismatch", log);
        }
        log.line(
            text::cat3(
                "            challenge OK: jti matches the issued challenge (",
                offered.challenge.as_str(),
                ")",
            ),
        );

        let session_id = self.mint("sess");
        let cookie_value = self.mint("cookie");
        let binding = Binding {
            user_id: "demo-user".to_owned(),
            device_public_key: key.clone(),
            algorithm: "ES256".to_owned(),
            cookie_value: cookie_value.clone(),
            challenge: self.mint("chal"),
            created_at: now,
            expires_at: now + SESSION_TTL_SECS,
        };
        log::print_binding(&mut log, "created", session_id.as_str(), &binding);
        proof {
            reveal_strlit("sess");
            reveal_strlit("cookie");
            headers::lemma_decimal_safe(s.counter as nat);
            headers::lemma_decimal_safe(state::after(s.counter) as nat);
            assert(headers::header_safe("sess"@));
            assert(headers::header_safe("cookie"@));
        }
        self.bind(session_id.clone(), binding);
        self.session_response(session_id.as_str(), cookie_value.as_str(), log)
    }

    /// Answers a request to register at `now`. There is no answer, and nothing changes, when the
    /// request opens a session and none can be opened.
    pub fn register_at(&mut self, headers: &HeaderMap, body: &str, now: u64) -> (r: Option<Reply>)
        requires
            old(self).wf(),
        ensures
            final(self).wf(),
            match r {
                Some(reply) => {
                    &&& final(self)@ == registered(old(self)@, attempt_of(*headers, body@), now)
                    &&& reply@ == register_reply(old(self)@, attempt_of(*headers, body@), now)
                },
                None => *final(self) == *old(self),
            },
            r is None <==> opens(old(self)@, attempt_of(*headers, body@), now) && !openable(
                old(self)@,
                now,
            ),
    {
        let attempt = read_attempt(headers, body);
        let can_open = now <= u64::MAX - SESSION_TTL_SECS && headers::is_header_safe(
            self.cfg().cookie_name.as_str(),
        );
        if !can_open && self.would_open(&attempt, now) {
            None
        } else {
            Some(self.register_attempt(&attempt, now))
        }
    }

    /// Answers a request to register, at the time that the clock shows.
    pub fn register(&mut self, headers: &HeaderMap, body: &str) -> (r: Option<Reply>)
        requires
            old(self).wf(),
        ensures
            final(self).wf(),
            exists|now: SystemTime|
                {
                    let secs = #[trigger] clock::unix_seconds(now);
                    match r {
                        Some(reply) => {
                            &&& opens(old(self)@, attempt_of(*headers, body@), secs) ==> openable(
                                old(self)@,
                                secs,
                            )
                            &&& final(self)@ == registered(
                                old(self)@,
                                attempt_of(*headers, body@),
                                secs,
                            )
                            &&& reply@ == register_reply(
                                old(self)@,
                                attempt_of(*headers, body@),
                                secs,
                            )
                        },
                        None => {
                            &&& opens(old(self)@, attempt_of(*headers, body@), secs)
                            &&& !openable(old(self)@, secs)
                            &&& *final(self) == *old(self)
                        },
                    }
                },
    {
        let now = clock::now_secs();
        self.register_at(headers, body, now)
    }
}

/// What is said of an attempt is said of its values.
pub proof fn law_attempt_is_what_it_holds(a: Attempt)
    ensures
        a@.cookies == text::texts(a.cookies@),
        a@.jwt == text::opt_text(a.jwt),
        a.shown matches Some(p) ==> a@.shown == Some(p@),
        a.shown is None ==> a@.shown is None,
        a@.verified == a.verified,
{
}

} // verus!
