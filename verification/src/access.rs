//! Requests of the application itself: whether the bound cookie came along.

use axum::http::HeaderMap;
use serde_json::Value;
use vstd::prelude::*;

use crate::cookies;
use crate::headers;
use crate::json;
use crate::json::Json;
use crate::log;
use crate::log::Log;
use crate::reply::{Body, BodyView, Reply, ReplyView};
use crate::state::AppState;
use crate::text;

verus! {

/// The lines about a request to the protected page.
pub open spec fn protected_lines(shown: Seq<char>, authenticated: bool) -> Seq<Seq<char>> {
    seq![
        log::banner(5, "PROTECTED  (GET /api/protected)"@),
        "  REQUEST : GET /api/protected  |  Cookie: "@ + shown,
        "  RESPONSE: authenticated="@ + text::bool_text(authenticated),
    ]
}

/// What a request to the protected page is told: whether it is authenticated, and its cookies.
pub open spec fn protected_json(shown: Seq<char>, authenticated: bool) -> Json {
    Json::Object(
        Map::<Seq<char>, Json>::empty().insert(
            "authenticated"@,
            Json::Bool(authenticated),
        ).insert("cookie_header"@, Json::Text(shown)),
    )
}

/// The reply to a request to the protected page with the cookies `lines`.
pub open spec fn protected_reply(lines: Seq<Seq<char>>, cookie_name: Seq<char>) -> ReplyView {
    let shown = cookies::shown_cookies(lines);
    let authenticated = cookies::value_in_lines(lines, cookie_name) is Some;
    ReplyView {
        status: 200,
        headers: headers::no_fields(),
        body: BodyView::Json(protected_json(shown, authenticated)),
        log: protected_lines(shown, authenticated),
    }
}

impl AppState {
    /// The value of the bound cookie on a request.
    pub fn bound_cookie_value(&self, headers: &HeaderMap) -> (r: Option<String>)
        ensures
            text::opt_text(r) == cookies::value_in_lines(
                cookies::request_cookies(*headers),
                self@.config.cookie_name,
            ),
    {
        cookies::cookie_value(headers, self.cfg().cookie_name.as_str())
    }

    /// Whether a request carries the bound cookie, in any of its `Cookie` headers.
    pub fn has_bound_cookie(&self, headers: &HeaderMap) -> (r: bool)
        ensures
            r == (cookies::value_in_lines(
                cookies::request_cookies(*headers),
                self@.config.cookie_name,
            ) is Some),
    {
        self.bound_cookie_value(headers).is_some()
    }

    /// Answers a request to the protected page: whether the bound cookie came along.
    pub fn protected(&self, headers: &HeaderMap) -> (r: Reply)
        ensures
            r@ == protected_reply(
                cookies::request_cookies(*headers),
                self@.config.cookie_name,
            ),
    {
        let shown = cookies::cookie_in(headers);
        let authenticated = self.has_bound_cookie(headers);
        let mut log = Log::new();
        log::flow_header(&mut log, 5, "PROTECTED  (GET /api/protected)");
        log.line(text::cat2("  REQUEST : GET /api/protected  |  Cookie: ", shown.as_str()));
        log.line(text::cat2("  RESPONSE: authenticated=", text::bool_word(authenticated)));
        assert(log@ =~= protected_lines(shown@, authenticated));
        proof {
            reveal_strlit("authenticated");
            reveal_strlit("cookie_header");
            assert("authenticated"@[0] != "cookie_header"@[0]);
        }
        let mut members: Vec<(String, Value)> = Vec::new();
        json::add_member(&mut members, "authenticated", json::from_bool(authenticated));
        json::add_member(&mut members, "cookie_header", json::from_text(shown.as_str()));
        Reply {
            status: 200,
            headers: headers::headers_new(),
            body: Body::Json(json::from_members(members)),
            log,
        }
    }
}

} // verus!
