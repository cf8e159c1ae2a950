//! The invitation: a reply that makes the browser begin a registration.

use std::time::SystemTime;

use axum::http::{HeaderName, HeaderValue};
use vstd::prelude::*;

use crate::clock;
use crate::headers;
use crate::log;
use crate::log::Log;
use crate::reply;
use crate::reply::{Body, BodyView, Reply, ReplyView};
use crate::state;
use crate::state::{AppState, StateView};
use crate::store::{PendingRegistration, PendingView};
use crate::text;

verus! {

/// The page that follows the invitation.
pub const STARTED_HTML: &'static str = "<!doctype html><meta charset=\"utf-8\"><title>Session started</title>\
    <body style=\"font:15px/1.5 system-ui;max-width:720px;margin:40px auto;padding:0 16px\">\
    <h1>Session started</h1>\
    <p>Registration offered — Chrome now POSTs <code>/dbsc/register</code> automatically. \
    Watch the terminal.</p><p><a href=\"/\">&larr; back</a></p></body>";

/// The value of the `Secure-Session-Registration` header: the one algorithm on offer, where to
/// post the signed proof, the challenge to sign, and an authorization code.
pub open spec fn registration_value(challenge: Seq<char>) -> Seq<char> {
    "(ES256); path=\"/dbsc/register\"; challenge=\""@ + challenge
        + "\"; authorization=\"auth-code-123\""@
}

/// The `Set-Cookie` that stands in for a login.
pub open spec fn login_cookie(login: Seq<char>) -> Seq<char> {
    "login_auth_id="@ + login + "; Path=/; Max-Age=3600"@
}

/// The challenge that the state offers next.
pub open spec fn offered_challenge(s: StateView) -> Seq<char> {
    state::nonce_text("chal"@, s.counter)
}

/// The login that the state hands out next.
pub open spec fn offered_login(s: StateView) -> Seq<char> {
    state::nonce_text("login"@, state::after(s.counter))
}

/// The state after an invitation at `now`: the challenge is kept under the login.
pub open spec fn started(s: StateView, now: u64) -> StateView {
    StateView {
        counter: state::after(state::after(s.counter)),
        pending: s.pending.insert(
            offered_login(s),
            PendingView { challenge: offered_challenge(s), created_at: now },
        ),
        ..s
    }
}

/// The lines about an invitation.
pub open spec fn start_lines(challenge: Seq<char>, login: Seq<char>) -> Seq<Seq<char>> {
    seq![
        log::banner(1, "TRIGGER  (POST /start-form)"@),
        "  REQUEST : POST /start-form   (HTML form submit; no body)"@,
        "  RESPONSE: 200 OK"@,
        "            Secure-Session-Registration: "@ + registration_value(challenge),
        "            Set-Cookie: "@ + login_cookie(login),
        "  STORE [pending]  key(login_auth_id)="@ + login
            + " -> challenge stored for /register to check"@,
    ]
}

/// The invitation.
pub open spec fn start_reply(challenge: Seq<char>, login: Seq<char>) -> ReplyView {
    ReplyView {
        status: 200,
        headers: reply::two_fields(
            "secure-session-registration"@,
            registration_value(challenge),
            "set-cookie"@,
            login_cookie(login),
        ),
        body: BodyView::Html(STARTED_HTML@),
        log: start_lines(challenge, login),
    }
}

/// The text around the challenge is printable.
proof fn lemma_registration_printable(challenge: Seq<char>)
    requires
        headers::printable(challenge),
    ensures
        headers::printable(registration_value(challenge)),
{
    reveal_strlit("(ES256); path=\"/dbsc/register\"; challenge=\"");
    reveal_strlit("\"; authorization=\"auth-code-123\"");
    assert(headers::printable("(ES256); path=\"/dbsc/register\"; challenge=\""@));
    assert(headers::printable("\"; authorization=\"auth-code-123\""@));
}

/// The registration header can carry what a header can carry as a challenge.
proof fn lemma_registration_safe(challenge: Seq<char>)
    requires
        headers::header_safe(challenge),
    ensures
        headers::header_safe(registration_value(challenge)),
{
    reveal_strlit("(ES256); path=\"/dbsc/register\"; challenge=\"");
    reveal_strlit("\"; authorization=\"auth-code-123\"");
    assert(headers::header_safe("(ES256); path=\"/dbsc/register\"; challenge=\""@));
    assert(headers::header_safe("\"; authorization=\"auth-code-123\""@));
}

/// The `Secure-Session-Registration` header, which invites the browser to begin a registration.
/// The caller mints the challenge and keeps it, so that it can be verified later.
pub fn registration_header(challenge: &str) -> (r: (HeaderName, HeaderValue))
    requires
        headers::header_safe(challenge@),
    ensures
        headers::header_name_text(r.0) == "secure-session-registration"@,
        headers::header_value_bytes(r.1) == vstd::utf8::encode_utf8(
            registration_value(challenge@),
        ),
{
    let value = text::cat3(
        "(ES256); path=\"/dbsc/register\"; challenge=\"",
        challenge,
        "\"; authorization=\"auth-code-123\"",
    );
    proof {
        lemma_registration_safe(challenge@);
        reveal_strlit("secure-session-registration");
    }
    (headers::name_from_static("secure-session-registration"), reply::header_value(value.as_str()))
}

impl AppState {
    /// The invitation at `now`: a challenge and a login are minted, the challenge is kept under
    /// the login, and both go out with the page.
    pub fn start_form_at(&mut self, now: u64) -> (r: Reply)
        requires
            old(self).wf(),
        ensures
            final(self).wf(),
            final(self)@ == started(old(self)@, now),
            r@ == start_reply(offered_challenge(old(self)@), offered_login(old(self)@)),
    {
        let challenge = self.mint("chal");
        proof {
            reveal_strlit("chal");
            headers::lemma_decimal_printable(old(self)@.counter as nat);
            assert(headers::printable("chal"@));
            headers::lemma_printable_safe(challenge@);
            lemma_registration_printable(challenge@);
            headers::lemma_printable_shown(registration_value(challenge@));
        }
        let (reg_name, reg_value) = registration_header(challenge.as_str());
        let login = self.mint("login");
        let set_cookie = text::cat3("login_auth_id=", login.as_str(), "; Path=/; Max-Age=3600");

        let mut log = Log::new();
        log::flow_header(&mut log, 1, "TRIGGER  (POST /start-form)");
        log.line("  REQUEST : POST /start-form   (HTML form submit; no body)".to_owned());
        log.line("  RESPONSE: 200 OK".to_owned());
        let shown = match headers::value_to_str(&reg_value) {
            Some(shown) => shown,
            None => "?",
        };
        log.line(text::cat2("            Secure-Session-Registration: ", shown));
        log.line(text::cat2("            Set-Cookie: ", set_cookie.as_str()));
        log.line(
            text::cat3(
                "  STORE [pending]  key(login_auth_id)=",
                login.as_str(),
                " -> challenge stored for /register to check",
            ),
        );
        assert(log@ =~= start_lines(challenge@, login@));

        let mut headers = headers::headers_new();
        headers::headers_insert(&mut headers, reg_name, reg_value);
        proof {
            reveal_strlit("set-cookie");
            reveal_strlit("login");
            reveal_strlit("login_auth_id=");
            reveal_strlit("; Path=/; Max-Age=3600");
            headers::lemma_decimal_safe(state::after(old(self)@.counter) as nat);
            assert(headers::header_safe("login"@));
            assert(headers::header_safe("login_auth_id="@));
            assert(headers::header_safe("; Path=/; Max-Age=3600"@));
        }
        reply::add_field(&mut headers, "set-cookie", set_cookie.as_str());
        self.offer(login, PendingRegistration { challenge, created_at: now });
        Reply { status: 200, headers, body: Body::Html(STARTED_HTML), log }
    }

    /// The invitation, at the time that the clock shows.
    pub fn start_form(&mut self) -> (r: Reply)
        requires
            old(self).wf(),
        ensures
            final(self).wf(),
            exists|now: SystemTime| final(self)@ == started(old(self)@, clock::unix_seconds(now)),
            r@ == start_reply(offered_challenge(old(self)@), offered_login(old(self)@)),
    {
        let now = clock::now_secs();
        self.start_form_at(now)
    }
}

} // verus!
