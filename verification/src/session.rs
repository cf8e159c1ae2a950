//! The reply that opens or renews a session.

use serde_json::Value;
use vstd::prelude::*;

use crate::config::ConfigView;
use crate::headers;
use crate::json;
use crate::json::Json;
use crate::log::Log;
use crate::reply;
use crate::reply::{Body, BodyView, Reply, ReplyView};
use crate::state::{AppState, COOKIE_MAX_AGE_SECS};
use crate::text;

verus! {

/// What the browser is told about a session: under which identifier and where to renew it, for
/// which origin it holds, and which cookie is bound to the device.
pub open spec fn session_config(config: ConfigView, session_id: Seq<char>) -> Json {
    let scope = Map::<Seq<char>, Json>::empty().insert("origin"@, Json::Text(config.origin)).insert(
        "include_site"@,
        Json::Bool(false),
    );
    let credential = Map::<Seq<char>, Json>::empty().insert("type"@, Json::Text("cookie"@)).insert(
        "name"@,
        Json::Text(config.cookie_name),
    ).insert("attributes"@, Json::Text("Path=/; Secure; HttpOnly; SameSite=Lax"@));
    Json::Object(
        Map::<Seq<char>, Json>::empty().insert(
            "session_identifier"@,
            Json::Text(session_id),
        ).insert("refresh_url"@, Json::Text("/dbsc/refresh"@)).insert(
            "scope"@,
            Json::Object(scope),
        ).insert("credentials"@, Json::Array(seq![Json::Object(credential)])),
    )
}

/// The `Set-Cookie` that gives the browser the bound cookie.
pub open spec fn bound_cookie(name: Seq<char>, value: Seq<char>) -> Seq<char> {
    name + "="@ + value + "; Path=/; Max-Age="@ + text::decimal_text(COOKIE_MAX_AGE_SECS as nat)
        + "; Secure; HttpOnly; SameSite=Lax"@
}

/// A JSON tree as text for the log.
pub open spec fn shown_json(json: Json) -> Seq<char> {
    match json::json_printed(json) {
        Some(text) => text,
        None => Seq::empty(),
    }
}

/// The lines about a reply that opens or renews a session.
pub open spec fn session_lines(
    config: ConfigView,
    session_id: Seq<char>,
    cookie_value: Seq<char>,
) -> Seq<Seq<char>> {
    seq![
        "  RESPONSE: 200 OK"@,
        "            Set-Cookie: "@ + bound_cookie(config.cookie_name, cookie_value),
        "            body (session config): "@ + shown_json(session_config(config, session_id)),
    ]
}

/// The reply that opens or renews a session; `log` is what was logged before.
pub open spec fn session_reply(
    config: ConfigView,
    session_id: Seq<char>,
    cookie_value: Seq<char>,
    log: Seq<Seq<char>>,
) -> ReplyView {
    ReplyView {
        status: 200,
        headers: reply::field("set-cookie"@, bound_cookie(config.cookie_name, cookie_value)),
        body: BodyView::Json(session_config(config, session_id)),
        log: log + session_lines(config, session_id, cookie_value),
    }
}

/// The bound cookie can stand in a header when its name and its value can.
pub proof fn lemma_bound_cookie_safe(name: Seq<char>, value: Seq<char>)
    requires
        headers::header_safe(name),
        headers::header_safe(value),
    ensures
        headers::header_safe(bound_cookie(name, value)),
{
    reveal_strlit("=");
    reveal_strlit("; Path=/; Max-Age=");
    reveal_strlit("; Secure; HttpOnly; SameSite=Lax");
    headers::lemma_decimal_safe(COOKIE_MAX_AGE_SECS as nat);
    assert(headers::header_safe("="@));
    assert(headers::header_safe("; Path=/; Max-Age="@));
    assert(headers::header_safe("; Secure; HttpOnly; SameSite=Lax"@));
}

impl AppState {
    /// What the browser is told about a session.
    fn config_for(&self, session_id: &str) -> (r: Value)
        ensures
            json::json_view(r) == session_config(self@.config, session_id@),
    {
        proof {
            reveal_strlit("origin");
            reveal_strlit("include_site");
            reveal_strlit("type");
            reveal_strlit("name");
            reveal_strlit("attributes");
            assert("origin"@.len() != "include_site"@.len());
            assert("type"@[0] != "name"@[0]);
            assert("attributes"@.len() != "type"@.len());
            reveal_strlit("session_identifier");
            reveal_strlit("refresh_url");
            reveal_strlit("scope");
            reveal_strlit("credentials");
            assert("refresh_url"@[0] != "credentials"@[0]);
            assert("refresh_url"@.len() != "session_identifier"@.len());
            assert("scope"@.len() != "session_identifier"@.len());
            assert("scope"@.len() != "refresh_url"@.len());
        }
        let mut scope: Vec<(String, Value)> = Vec::new();
        json::add_member(&mut scope, "origin", json::from_text(self.cfg().origin.as_str()));
        json::add_member(&mut scope, "include_site", json::from_bool(false));
        let mut credential: Vec<(String, Value)> = Vec::new();
        json::add_member(&mut credential, "type", json::from_text("cookie"));
        json::add_member(&mut credential, "name", json::from_text(self.cfg().cookie_name.as_str()));
        json::add_member(
            &mut credential,
            "attributes",
            json::from_text("Path=/; Secure; HttpOnly; SameSite=Lax"),
        );
        let mut credentials: Vec<Value> = Vec::new();
        credentials.push(json::from_members(credential));
        assert(json::json_items(credentials@) =~= seq![json::json_view(credentials@[0])]);
        let mut config: Vec<(String, Value)> = Vec::new();
        json::add_member(&mut config, "session_identifier", json::from_text(session_id));
        json::add_member(&mut config, "refresh_url", json::from_text("/dbsc/refresh"));
        json::add_member(&mut config, "scope", json::from_members(scope));
        json::add_member(&mut config, "credentials", json::from_items(credentials));
        json::from_members(config)
    }

    /// The reply that opens or renews a session. The caller mints the cookie value and keeps it,
    /// and passes it on, so that what is sent is what is kept.
    pub fn session_response(&self, session_id: &str, cookie_value: &str, log: Log) -> (r: Reply)
        requires
            headers::header_safe(self@.config.cookie_name),
            headers::header_safe(cookie_value@),
        ensures
            r@ == session_reply(self@.config, session_id@, cookie_value@, log@),
    {
        let config = self.config_for(session_id);
        let max_age = text::decimal(COOKIE_MAX_AGE_SECS);
        let mut set_cookie = text::cat5(
            self.cfg().cookie_name.as_str(),
            "=",
            cookie_value,
            "; Path=/; Max-Age=",
            max_age.as_str(),
        );
        set_cookie.append("; Secure; HttpOnly; SameSite=Lax");
        let mut out = log;
        out.line("  RESPONSE: 200 OK".to_owned());
        out.line(text::cat2("            Set-Cookie: ", set_cookie.as_str()));
        let printed = match json::print(&config) {
            Some(printed) => printed,
            None => String::new(),
        };
        out.line(text::cat2("            body (session config): ", printed.as_str()));
        proof {
            lemma_bound_cookie_safe(self@.config.cookie_name, cookie_value@);
            reveal_strlit("set-cookie");
        }
        let headers = reply::with_field("set-cookie", set_cookie.as_str());
        assert(out@ =~= log@ + session_lines(self@.config, session_id@, cookie_value@));
        Reply { status: 200, headers, body: Body::Json(config), log: out }
    }
}

} // verus!
