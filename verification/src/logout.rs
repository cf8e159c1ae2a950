//! The end of a session.

use axum::http::HeaderMap;
use vstd::prelude::*;

use crate::cookies;
use crate::headers;
use crate::log;
use crate::log::Log;
use crate::reply;
use crate::reply::{Body, BodyView, Reply, ReplyView};
use crate::state::{AppState, StateView};
use crate::text;

verus! {

/// The page that follows a logout.
pub const LOGGED_OUT_HTML: &'static str = "<!doctype html><meta charset=\"utf-8\"><title>Logged out</title>\
    <body style=\"font:15px/1.5 system-ui;max-width:720px;margin:40px auto;padding:0 16px\">\
    <h1>Logged out</h1><p>DBSC session revoked (server binding deleted, bound cookie cleared).\
    </p><p><a href=\"/\">&larr; back</a></p></body>";

/// The session `id` has the presented value of the bound cookie.
pub open spec fn owns(s: StateView, id: Seq<char>, presented: Option<Seq<char>>) -> bool {
    s.sessions.contains_key(id) && presented == Some(s.sessions[id].cookie_value)
}

/// `revoked` is a session with the presented value of the bound cookie, if there is one.
pub open spec fn revocable(
    s: StateView,
    presented: Option<Seq<char>>,
    revoked: Option<Seq<char>>,
) -> bool {
    match revoked {
        Some(id) => owns(s, id, presented),
        None => forall|id: Seq<char>| !#[trigger] owns(s, id, presented),
    }
}

/// The state once the session `revoked` is forgotten.
pub open spec fn logged_out(s: StateView, revoked: Option<Seq<char>>) -> StateView {
    match revoked {
        Some(id) => StateView { sessions: s.sessions.remove(id), ..s },
        None => s,
    }
}

/// The `Set-Cookie` that makes the browser drop the bound cookie.
pub open spec fn dropped_cookie(name: Seq<char>) -> Seq<char> {
    name + "=; Path=/; Max-Age=0; Secure; HttpOnly; SameSite=Lax"@
}

/// The lines about a logout.
pub open spec fn logout_lines(cookie_name: Seq<char>, revoked: Option<Seq<char>>) -> Seq<
    Seq<char>,
> {
    seq![
        log::banner(7, "LOGOUT / REVOKE  (GET /logout)"@),
        match revoked {
            Some(id) => "  REVOKE  : deleted Binding for session_identifier="@ + id,
            None => "  REVOKE  : no matching session to delete (no/unknown bound cookie)"@,
        },
        "  RESPONSE: 200 OK"@,
        "            Set-Cookie: "@ + dropped_cookie(cookie_name)
            + "   (expires the bound cookie)"@,
        "            Clear-Site-Data: \"cookies\"   (ends the DBSC session)"@,
    ]
}

/// The reply to a logout.
pub open spec fn logout_reply(cookie_name: Seq<char>, revoked: Option<Seq<char>>) -> ReplyView {
    ReplyView {
        status: 200,
        headers: reply::two_fields(
            "set-cookie"@,
            dropped_cookie(cookie_name),
            "clear-site-data"@,
            "\"cookies\""@,
        ),
        body: BodyView::Html(LOGGED_OUT_HTML@),
        log: logout_lines(cookie_name, revoked),
    }
}

/// The text that drops a cookie can stand in a header when the name of the cookie can.
proof fn lemma_dropped_safe(name: Seq<char>)
    requires
        headers::header_safe(name),
    ensures
        headers::header_safe(dropped_cookie(name)),
{
    reveal_strlit("=; Path=/; Max-Age=0; Secure; HttpOnly; SameSite=Lax");
    assert(headers::header_safe("=; Path=/; Max-Age=0; Secure; HttpOnly; SameSite=Lax"@));
}

/// The reply to a logout that revoked `revoked`.
pub fn logout_response(cookie_name: &str, revoked: &Option<String>) -> (r: Reply)
    requires
        headers::header_safe(cookie_name@),
    ensures
        r@ == logout_reply(cookie_name@, text::opt_text(*revoked)),
{
    let mut log = Log::new();
    log::flow_header(&mut log, 7, "LOGOUT / REVOKE  (GET /logout)");
    match revoked {
        Some(id) => log.line(
            text::cat2("  REVOKE  : deleted Binding for session_identifier=", id.as_str()),
        ),
        None => log.line(
            "  REVOKE  : no matching session to delete (no/unknown bound cookie)".to_owned(),
        ),
    }
    let del = text::cat2(cookie_name, "=; Path=/; Max-Age=0; Secure; HttpOnly; SameSite=Lax");
    log.line("  RESPONSE: 200 OK".to_owned());
    log.line(
        text::cat3("            Set-Cookie: ", del.as_str(), "   (expires the bound cookie)"),
    );
    log.line("            Clear-Site-Data: \"cookies\"   (ends the DBSC session)".to_owned());
    assert(log@ =~= logout_lines(cookie_name@, text::opt_text(*revoked)));
    proof {
        lemma_dropped_safe(cookie_name@);
        reveal_strlit("set-cookie");
        reveal_strlit("clear-site-data");
        reveal_strlit("\"cookies\"");
    }
    let mut headers = reply::with_field("set-cookie", del.as_str());
    reply::add_field(&mut headers, "clear-site-data", "\"cookies\"");
    Reply { status: 200, headers, body: Body::Html(LOGGED_OUT_HTML), log }
}

impl AppState {
    /// Forgets a session with the presented value of the bound cookie, and tells which.
    pub fn revoke(&mut self, presented: &Option<String>) -> (r: Option<String>)
        requires
            old(self).wf(),
        ensures
            final(self).wf(),
            revocable(old(self)@, text::opt_text(*presented), text::opt_text(r)),
            final(self)@ == logged_out(old(self)@, text::opt_text(r)),
    {
        let found = match presented {
            Some(value) => self.session_by_cookie(value.as_str()),
            None => None,
        };
        match &found {
            Some(id) => self.unbind(id.as_str()),
            None => {},
        }
        found
    }

    /// Answers a logout: the session is found by the value of the bound cookie and forgotten, so
    /// that it cannot be refreshed, and the browser is told to drop the cookie and the session.
    pub fn logout(&mut self, headers: &HeaderMap) -> (r: Reply)
        requires
            old(self).wf(),
            headers::header_safe(old(self)@.config.cookie_name),
        ensures
            final(self).wf(),
            exists|revoked: Option<Seq<char>>|
                {
                    &&& #[trigger] revocable(
                        old(self)@,
                        cookies::value_in_lines(
                            cookies::request_cookies(*headers),
                            old(self)@.config.cookie_name,
                        ),
                        revoked,
                    )
                    &&& final(self)@ == logged_out(old(self)@, revoked)
                    &&& r@ == logout_reply(old(self)@.config.cookie_name, revoked)
                },
    {
        let presented = self.bound_cookie_value(headers);
        let revoked = self.revoke(&presented);
        logout_response(self.cfg().cookie_name.as_str(), &revoked)
    }
}

} // verus!
