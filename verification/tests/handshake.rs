use axum::http::{HeaderMap, HeaderValue};
use base64::engine::general_purpose::URL_SAFE_NO_PAD;
use base64::Engine;
use dbsc_hello::config::Config;
use dbsc_hello::es256::PubKey;
use dbsc_hello::log::Log;
use dbsc_hello::logout::logout_response;
use dbsc_hello::register::read_attempt;
use dbsc_hello::reply::{Body, Reply};
use dbsc_hello::state::AppState;
use dbsc_hello::store::{Binding, Sessions};
use p256::ecdsa::signature::Signer;
use p256::ecdsa::{Signature, SigningKey};

const NOW: u64 = 1_700_000_000;

fn server() -> AppState {
    AppState::new(Config::from_settings(None, None, None, None, None))
}

fn device(seed: u8) -> SigningKey {
    SigningKey::from_slice(&[seed; 32]).unwrap()
}

fn jwk(key: &SigningKey) -> String {
    let point = key.verifying_key().to_encoded_point(false);
    format!(
        "{{\"kty\":\"EC\",\"crv\":\"P-256\",\"x\":\"{}\",\"y\":\"{}\"}}",
        URL_SAFE_NO_PAD.encode(point.x().unwrap()),
        URL_SAFE_NO_PAD.encode(point.y().unwrap())
    )
}

fn signed(key: &SigningKey, header: &str, jti: &str) -> String {
    let input = format!(
        "{}.{}",
        URL_SAFE_NO_PAD.encode(header),
        URL_SAFE_NO_PAD.encode(format!("{{\"jti\":\"{jti}\"}}"))
    );
    let signature: Signature = key.sign(input.as_bytes());
    format!("{input}.{}", URL_SAFE_NO_PAD.encode(signature.to_bytes()))
}

fn registration_proof(key: &SigningKey, jti: &str) -> String {
    signed(key, &format!("{{\"alg\":\"ES256\",\"jwk\":{}}}", jwk(key)), jti)
}

fn refresh_proof(key: &SigningKey, jti: &str) -> String {
    signed(key, "{\"alg\":\"ES256\"}", jti)
}

fn request(cookies: &[&str], fields: &[(&'static str, &str)]) -> HeaderMap {
    let mut headers = HeaderMap::new();
    for line in cookies {
        headers.append("cookie", HeaderValue::from_str(line).unwrap());
    }
    for (name, value) in fields {
        headers.insert(*name, HeaderValue::from_str(value).unwrap());
    }
    headers
}

fn field<'a>(reply: &'a Reply, name: &str) -> &'a str {
    reply.headers.get(name).unwrap().to_str().unwrap()
}

fn text(reply: &Reply) -> &'static str {
    match reply.body {
        Body::Text(text) => text,
        _ => panic!("not plain text"),
    }
}

fn json(reply: &Reply) -> String {
    match &reply.body {
        Body::Json(value) => value.to_string(),
        _ => panic!("not JSON"),
    }
}

/// A server with the session `sess3` of the device with the key 7; its cookie is `cookie4`.
fn registered() -> AppState {
    let mut state = server();
    state.start_form_at(NOW);
    let headers = request(
        &["login_auth_id=login2"],
        &[("secure-session-response", &registration_proof(&device(7), "chal1"))],
    );
    let reply = state.register_at(&headers, "", NOW + 1).unwrap();
    assert_eq!(reply.status, 200);
    state
}

fn refresh(state: &mut AppState, session: &str, body: &str) -> Reply {
    let headers = request(&[], &[("sec-secure-session-id", session)]);
    state.refresh_at(&headers, body, NOW + 2).unwrap()
}

#[test]
fn the_invitation_carries_challenge_and_login() {
    let mut state = server();
    let reply = state.start_form_at(NOW);
    assert_eq!(reply.status, 200);
    assert_eq!(reply.headers.len(), 2);
    assert_eq!(
        field(&reply, "secure-session-registration"),
        "(ES256); path=\"/dbsc/register\"; challenge=\"chal1\"; authorization=\"auth-code-123\""
    );
    assert_eq!(field(&reply, "set-cookie"), "login_auth_id=login2; Path=/; Max-Age=3600");
    match reply.body {
        Body::Html(html) => {
            assert!(html.starts_with("<!doctype html><meta charset=\"utf-8\"><title>Session started"));
            assert!(html.contains("<h1>Session started</h1><p>Registration offered — Chrome now"));
            assert!(html.ends_with("Watch the terminal.</p><p><a href=\"/\">&larr; back</a></p></body>"));
        }
        _ => panic!("not HTML"),
    }
    assert_eq!(
        reply.log.lines,
        vec![
            "\n════════ FLOW 1: TRIGGER  (POST /start-form) ════════",
            "  REQUEST : POST /start-form   (HTML form submit; no body)",
            "  RESPONSE: 200 OK",
            "            Secure-Session-Registration: (ES256); path=\"/dbsc/register\"; \
             challenge=\"chal1\"; authorization=\"auth-code-123\"",
            "            Set-Cookie: login_auth_id=login2; Path=/; Max-Age=3600",
            "  STORE [pending]  key(login_auth_id)=login2 -> challenge stored for /register to check",
        ]
    );
}

#[test]
fn an_invited_device_is_registered() {
    let mut state = server();
    state.start_form_at(NOW);
    let jwt = registration_proof(&device(7), "chal1");
    let headers = request(&["a=b; login_auth_id=login2"], &[("secure-session-response", &jwt)]);
    let reply = state.register_at(&headers, "", NOW + 5).unwrap();
    assert_eq!(reply.status, 200);
    assert_eq!(reply.headers.len(), 1);
    assert_eq!(
        field(&reply, "set-cookie"),
        "__Host-auth_cookie=cookie4; Path=/; Max-Age=300; Secure; HttpOnly; SameSite=Lax"
    );
    let config = "{\"credentials\":[{\"attributes\":\"Path=/; Secure; HttpOnly; SameSite=Lax\",\
                  \"name\":\"__Host-auth_cookie\",\"type\":\"cookie\"}],\
                  \"refresh_url\":\"/dbsc/refresh\",\"scope\":{\"include_site\":false,\
                  \"origin\":\"https://localhost:3000\"},\"session_identifier\":\"sess3\"}";
    assert_eq!(json(&reply), config);
    assert_eq!(
        reply.log.lines,
        vec![
            "\n════════ FLOW 2: REGISTER  (POST /dbsc/register) ════════".to_string(),
            "  REQUEST : POST /dbsc/register".to_string(),
            "            Cookie: a=b; login_auth_id=login2".to_string(),
            format!("            Secure-Session-Response (JWT): {jwt}"),
            "            decoded -> jwk=<device public key>, jti=chal1, ES256 verified=true".to_string(),
            "            challenge OK: jti matches the issued challenge (chal1)".to_string(),
            "  STORE [created]  key(session_identifier)=sess3 -> Binding {".to_string(),
            "           user_id          = demo-user".to_string(),
            "           device_public_key= <EC P-256 x/y>   (verify every refresh against this)"
                .to_string(),
            "           algorithm        = ES256".to_string(),
            "           cookie_value     = cookie4   (rotates every refresh)".to_string(),
            "           challenge        = chal5   (next refresh must present as jti)".to_string(),
            "           created_at       = 1700000005   expires_at = 1702592005".to_string(),
            "         }".to_string(),
            "  RESPONSE: 200 OK".to_string(),
            "            Set-Cookie: __Host-auth_cookie=cookie4; Path=/; Max-Age=300; Secure; \
             HttpOnly; SameSite=Lax"
                .to_string(),
            format!("            body (session config): {config}"),
        ]
    );
}

#[test]
fn a_proof_in_the_body_registers_too() {
    let mut state = server();
    state.start_form_at(NOW);
    let body = format!(" {}\n", registration_proof(&device(7), "chal1"));
    let reply = state.register_at(&request(&["login_auth_id=login2"], &[]), &body, NOW).unwrap();
    assert_eq!(reply.status, 200);
}

#[test]
fn a_signature_that_fails_is_logged_and_the_session_opened() {
    let mut state = server();
    state.start_form_at(NOW);
    let header = format!("{{\"alg\":\"ES256\",\"jwk\":{}}}", jwk(&device(7)));
    let jwt = signed(&device(8), &header, "chal1");
    let reply = state.register_at(&request(&["login_auth_id=login2"], &[]), &jwt, NOW).unwrap();
    assert_eq!(reply.status, 200);
    assert_eq!(
        reply.log.lines[4],
        "            decoded -> jwk=<device public key>, jti=chal1, ES256 verified=false"
    );
}

#[test]
fn a_request_without_a_proof_is_refused() {
    let mut state = server();
    state.start_form_at(NOW);
    let headers = request(&["login_auth_id=login2"], &[]);
    let reply = state.register_at(&headers, "  ", NOW).unwrap();
    assert_eq!(reply.status, 400);
    assert!(reply.headers.is_empty());
    assert_eq!(text(&reply), "missing Secure-Session-Response");
    assert_eq!(
        reply.log.lines,
        vec![
            "\n════════ FLOW 2: REGISTER  (POST /dbsc/register) ════════",
            "  REQUEST : (missing proof JWT)",
            "  RESPONSE: 400 missing Secure-Session-Response",
        ]
    );
    let jwt = registration_proof(&device(7), "chal1");
    assert_eq!(state.register_at(&headers, &jwt, NOW).unwrap().status, 200);
}

#[test]
fn proofs_that_are_not_in_order_leave_the_offer_open() {
    let mut state = server();
    state.start_form_at(NOW);
    let headers = request(&["login_auth_id=login2"], &[]);

    let reply = state.register_at(&headers, "no jwt", NOW).unwrap();
    assert_eq!((reply.status, text(&reply)), (400, "could not parse DBSC JWT"));
    assert_eq!(reply.log.lines[1], "  RESPONSE: 400 could not parse DBSC JWT");

    let none = signed(&device(7), "{\"alg\":\"none\"}", "chal1");
    let reply = state.register_at(&headers, &none, NOW).unwrap();
    assert_eq!((reply.status, text(&reply)), (400, "unsupported JWT alg (need ES256)"));
    assert_eq!(reply.log.lines[1], "  RESPONSE: 400 unsupported JWT alg (need ES256)");

    let keyless = refresh_proof(&device(7), "chal1");
    let reply = state.register_at(&headers, &keyless, NOW).unwrap();
    assert_eq!((reply.status, text(&reply)), (400, "no jwk in JWT header"));
    assert_eq!(reply.log.lines[1], "  RESPONSE: 400 no jwk in JWT header");
    assert_eq!(reply.log.lines.len(), 2);

    let jwt = registration_proof(&device(7), "chal1");
    let reply = state.register_at(&headers, &jwt, NOW).unwrap();
    assert_eq!(reply.status, 200);
    assert!(json(&reply).contains("\"session_identifier\":\"sess3\""));
}

#[test]
fn a_registration_needs_an_offer_to_its_login() {
    let mut state = server();
    state.start_form_at(NOW);
    let jwt = registration_proof(&device(7), "chal1");
    let reply = state.register_at(&request(&[], &[]), &jwt, NOW).unwrap();
    assert_eq!((reply.status, text(&reply)), (400, "no pending registration"));
    assert_eq!(reply.log.lines[2], "            Cookie: (none)");
    assert_eq!(
        reply.log.lines[5],
        "  RESPONSE: 400 no pending registration for login_auth_id=None (challenge unknown)"
    );
    let reply = state.register_at(&request(&["login_auth_id=a\"b"], &[]), &jwt, NOW).unwrap();
    assert_eq!(
        reply.log.lines[5],
        "  RESPONSE: 400 no pending registration for login_auth_id=Some(\"a\\\"b\") \
         (challenge unknown)"
    );
}

#[test]
fn a_challenge_is_good_for_one_try() {
    let mut state = server();
    state.start_form_at(NOW);
    let headers = request(&["login_auth_id=login2"], &[]);
    let wrong = registration_proof(&device(7), "chal9");
    let reply = state.register_at(&headers, &wrong, NOW).unwrap();
    assert_eq!((reply.status, text(&reply)), (400, "challenge mismatch"));
    assert_eq!(
        reply.log.lines[5],
        "  RESPONSE: 400 challenge mismatch (jti=chal9 != issued chal1)"
    );
    let right = registration_proof(&device(7), "chal1");
    let reply = state.register_at(&headers, &right, NOW).unwrap();
    assert_eq!((reply.status, text(&reply)), (400, "no pending registration"));

    let mut state = registered();
    let reply = state.register_at(&headers, &right, NOW + 1).unwrap();
    assert_eq!((reply.status, text(&reply)), (400, "no pending registration"));
}

#[test]
fn a_late_proof_is_refused() {
    let headers = request(&["login_auth_id=login2"], &[]);
    let jwt = registration_proof(&device(7), "chal1");
    let mut state = server();
    state.start_form_at(NOW);
    assert_eq!(state.register_at(&headers, &jwt, NOW + 300).unwrap().status, 200);

    let mut state = server();
    state.start_form_at(NOW);
    let reply = state.register_at(&headers, &jwt, NOW + 301).unwrap();
    assert_eq!((reply.status, text(&reply)), (400, "registration challenge expired"));
    assert_eq!(reply.log.lines[5], "  RESPONSE: 400 registration challenge expired");
    let reply = state.register_at(&headers, &jwt, NOW).unwrap();
    assert_eq!(text(&reply), "no pending registration");

    let mut state = server();
    state.start_form_at(NOW);
    assert_eq!(state.register_at(&headers, &jwt, NOW - 1000).unwrap().status, 200);
}

#[test]
fn an_offer_stays_open_while_others_are_served() {
    let mut state = registered();
    state.start_form_at(NOW);
    state.start_form_at(NOW);
    refresh(&mut state, "sess3", "");
    state.logout(&request(&["__Host-auth_cookie=cookie4"], &[]));
    let jwt = registration_proof(&device(9), "chal8");
    let other = state.register_at(&request(&["login_auth_id=login9"], &[]), &jwt, NOW).unwrap();
    assert_eq!(other.status, 200);
    let jwt = registration_proof(&device(9), "chal6");
    let reply = state.register_at(&request(&["login_auth_id=login7"], &[]), &jwt, NOW).unwrap();
    assert_eq!(reply.status, 200);
    assert!(json(&reply).contains("\"session_identifier\":\"sess14\""));
}

#[test]
fn no_session_is_opened_that_has_no_end() {
    let mut state = server();
    let late = u64::MAX - 2_592_000;
    state.start_form_at(late);
    let headers = request(&["login_auth_id=login2"], &[]);
    let jwt = registration_proof(&device(7), "chal1");
    assert!(state.register_at(&headers, &jwt, late + 1).is_none());
    assert_eq!(state.register_at(&headers, "", late + 1).unwrap().status, 400);
    assert!(state.would_open(&read_attempt(&headers, &jwt), late));
    let reply = state.register_at(&headers, &jwt, late).unwrap();
    assert_eq!(reply.status, 200);
    assert!(reply.log.lines[12].ends_with("expires_at = 18446744073709551615"));
}

#[test]
fn a_cookie_name_that_no_header_takes_is_not_sent() {
    let name = Some("two\nlines".to_string());
    let mut state = AppState::new(Config::from_settings(None, None, None, None, name));
    state.start_form_at(NOW);
    let headers = request(&["login_auth_id=login2"], &[]);
    let jwt = registration_proof(&device(7), "chal1");
    assert!(state.register_at(&headers, &jwt, NOW).is_none());
    assert_eq!(state.register_at(&headers, "x", NOW).unwrap().status, 400);
    let headers = request(&[], &[("sec-secure-session-id", "sess3")]);
    assert_eq!(state.refresh_at(&headers, &jwt, NOW).unwrap().status, 404);
}

#[test]
fn the_clock_is_read_for_invitation_and_registration() {
    let mut state = server();
    state.start_form();
    let headers = request(&["login_auth_id=login2"], &[]);
    let jwt = registration_proof(&device(7), "chal1");
    let reply = state.register(&headers, &jwt).unwrap();
    assert_eq!(reply.status, 200);
    let mut state = server();
    state.start_form_at(0);
    let reply = state.register(&headers, &jwt).unwrap();
    assert_eq!(text(&reply), "registration challenge expired");
}

#[test]
fn a_refresh_without_a_proof_is_challenged() {
    let mut state = registered();
    let headers = request(&["__Host-auth_cookie=cookie4"], &[("sec-secure-session-id", "sess3")]);
    let reply = state.refresh_at(&headers, "", NOW + 2).unwrap();
    assert_eq!(reply.status, 403);
    assert_eq!(reply.headers.len(), 1);
    assert_eq!(field(&reply, "secure-session-challenge"), "\"refchal6\";id=\"sess3\"");
    assert_eq!(text(&reply), "challenge issued");
    assert_eq!(
        reply.log.lines,
        vec![
            "\n════════ FLOW 3: REFRESH — CHALLENGE  (POST /dbsc/refresh, no proof) ════════",
            "  REQUEST : POST /dbsc/refresh",
            "            Cookie: __Host-auth_cookie=cookie4",
            "            Sec-Secure-Session-Id: sess3   (no proof yet)",
            "  RESPONSE: 403 Forbidden",
            "            Secure-Session-Challenge: \"refchal6\";id=\"sess3\"",
        ]
    );
    let reply = refresh(&mut state, "sess3", " ");
    assert_eq!(field(&reply, "secure-session-challenge"), "\"refchal7\";id=\"sess3\"");
}

#[test]
fn a_refresh_with_a_proof_rotates_cookie_and_challenge() {
    let mut state = registered();
    refresh(&mut state, "sess3", "");
    let jwt = refresh_proof(&device(7), "refchal6");
    let headers = request(
        &[],
        &[("sec-secure-session-id", "sess3"), ("secure-session-response", &jwt)],
    );
    let reply = state.refresh_at(&headers, "", NOW + 2).unwrap();
    assert_eq!(reply.status, 200);
    assert_eq!(
        field(&reply, "set-cookie"),
        "__Host-auth_cookie=cookie7; Path=/; Max-Age=300; Secure; HttpOnly; SameSite=Lax"
    );
    assert!(json(&reply).contains("\"session_identifier\":\"sess3\""));
    assert_eq!(
        reply.log.lines[..14],
        vec![
            "\n════════ FLOW 4: REFRESH — PROOF  (POST /dbsc/refresh, signed JWT) ════════".to_string(),
            "  REQUEST : POST /dbsc/refresh".to_string(),
            "            Cookie: (none)".to_string(),
            "            Sec-Secure-Session-Id: sess3".to_string(),
            format!("            Secure-Session-Response (JWT): {jwt}"),
            "            decoded -> jti=refchal6, no jwk, verified vs STORED key=true".to_string(),
            "  STORE [updated]  key(session_identifier)=sess3 -> Binding {".to_string(),
            "           user_id          = demo-user".to_string(),
            "           device_public_key= <EC P-256 x/y>   (verify every refresh against this)"
                .to_string(),
            "           algorithm        = ES256".to_string(),
            "           cookie_value     = cookie7   (rotates every refresh)".to_string(),
            "           challenge        = chal8   (next refresh must present as jti)".to_string(),
            "           created_at       = 1700000001   expires_at = 1702592001".to_string(),
            "         }".to_string(),
        ][..]
    );
    assert_eq!(reply.log.lines.len(), 17);
}

#[test]
fn a_refresh_is_tried_against_the_enrolled_key() {
    let mut state = registered();
    let line = |reply: &Reply| reply.log.lines[5].clone();
    let not = "            decoded -> jti=c, no jwk, verified vs STORED key=false";
    let yes = "            decoded -> jti=c, no jwk, verified vs STORED key=true";
    assert_eq!(line(&refresh(&mut state, "sess3", &refresh_proof(&device(7), "c"))), yes);
    assert_eq!(line(&refresh(&mut state, "sess3", &refresh_proof(&device(8), "c"))), not);
    // A key of its own in the proof does not help another device, nor hurt the enrolled one.
    assert_eq!(line(&refresh(&mut state, "sess3", &registration_proof(&device(8), "c"))), not);
    assert_eq!(line(&refresh(&mut state, "sess3", &registration_proof(&device(7), "c"))), yes);
    let header = format!("{{\"alg\":\"ES256\",\"jwk\":{}}}", jwk(&device(8)));
    assert_eq!(line(&refresh(&mut state, "sess3", &signed(&device(7), &header, "c"))), yes);
    // Another algorithm never counts as verified.
    assert_eq!(line(&refresh(&mut state, "sess3", &signed(&device(7), "{\"alg\":\"none\"}", "c"))), not);
    assert_eq!(
        line(&refresh(&mut state, "sess3", "no jwt")),
        "            decoded -> jti=?, no jwk, verified vs STORED key=false"
    );
}

#[test]
fn an_unknown_session_is_dropped() {
    let mut state = registered();
    let jwt = refresh_proof(&device(7), "c");
    for session in ["sess9", "sess33", "unknown"] {
        let reply = refresh(&mut state, session, &jwt);
        assert_eq!(reply.status, 404);
        assert!(reply.headers.is_empty());
        assert_eq!(text(&reply), "unknown session");
    }
    let reply = state.refresh_at(&request(&["a=1"], &[]), "", NOW + 2).unwrap();
    assert_eq!(reply.status, 404);
    assert_eq!(
        reply.log.lines,
        vec![
            "\n════════ FLOW 3: REFRESH — CHALLENGE  (POST /dbsc/refresh) ════════",
            "  REQUEST : POST /dbsc/refresh",
            "            Cookie: a=1",
            "            Sec-Secure-Session-Id: unknown  (unknown to server)",
            "  RESPONSE: 404 Not Found   (tells Chrome to drop the stale session)",
            "            body: unknown session",
        ]
    );
    // A server that was restarted knows no session.
    assert_eq!(refresh(&mut server(), "sess3", &jwt).status, 404);
}

#[test]
fn a_session_past_its_end_is_dropped() {
    let end = NOW + 1 + 2_592_000;
    let headers = request(&[], &[("sec-secure-session-id", "sess3")]);
    let jwt = refresh_proof(&device(7), "c");

    let mut state = registered();
    assert_eq!(state.refresh_at(&headers, "", end).unwrap().status, 403);
    assert_eq!(state.refresh_at(&headers, &jwt, end).unwrap().status, 200);
    for body in ["", jwt.as_str()] {
        let reply = state.refresh_at(&headers, body, end + 1).unwrap();
        assert_eq!((reply.status, text(&reply)), (404, "unknown session"));
        assert!(reply.headers.is_empty());
        assert_eq!(
            reply.log.lines[3],
            "            Sec-Secure-Session-Id: sess3  (unknown to server)"
        );
    }
    // The refusals minted nothing: the renewal above had the numbers 7 and 8.
    let reply = state.refresh_at(&headers, "", end).unwrap();
    assert_eq!(field(&reply, "secure-session-challenge"), "\"refchal9\";id=\"sess3\"");
}

#[test]
fn the_clock_is_read_for_a_refresh() {
    let headers = request(&[], &[("sec-secure-session-id", "sess3")]);
    let jwt = registration_proof(&device(7), "chal1");
    let login = request(&["login_auth_id=login2"], &[]);

    let mut state = server();
    state.start_form();
    assert_eq!(state.register(&login, &jwt).unwrap().status, 200);
    assert_eq!(state.refresh(&headers, "").unwrap().status, 403);

    let mut state = server();
    state.start_form_at(0);
    assert_eq!(state.register_at(&login, &jwt, 0).unwrap().status, 200);
    assert_eq!(state.refresh(&headers, "").unwrap().status, 404);
}

#[test]
fn a_logout_ends_the_session_of_the_cookie() {
    let mut state = registered();
    let headers = request(&["x=1", "y=2; __Host-auth_cookie=cookie4"], &[]);
    let reply = state.logout(&headers);
    assert_eq!(reply.status, 200);
    assert_eq!(reply.headers.len(), 2);
    assert_eq!(
        field(&reply, "set-cookie"),
        "__Host-auth_cookie=; Path=/; Max-Age=0; Secure; HttpOnly; SameSite=Lax"
    );
    assert_eq!(field(&reply, "clear-site-data"), "\"cookies\"");
    match reply.body {
        Body::Html(html) => {
            assert!(html.contains("<h1>Logged out</h1><p>DBSC session revoked (server binding deleted"));
            assert!(html.ends_with("bound cookie cleared).</p><p><a href=\"/\">&larr; back</a></p></body>"));
        }
        _ => panic!("not HTML"),
    }
    assert_eq!(
        reply.log.lines,
        vec![
            "\n════════ FLOW 7: LOGOUT / REVOKE  (GET /logout) ════════",
            "  REVOKE  : deleted Binding for session_identifier=sess3",
            "  RESPONSE: 200 OK",
            "            Set-Cookie: __Host-auth_cookie=; Path=/; Max-Age=0; Secure; HttpOnly; \
             SameSite=Lax   (expires the bound cookie)",
            "            Clear-Site-Data: \"cookies\"   (ends the DBSC session)",
        ]
    );
    assert_eq!(refresh(&mut state, "sess3", "").status, 404);
    let nothing = "  REVOKE  : no matching session to delete (no/unknown bound cookie)";
    assert_eq!(state.logout(&headers).log.lines[1], nothing);
}

#[test]
fn a_logout_spares_the_other_sessions() {
    let mut state = registered();
    state.start_form_at(NOW);
    let jwt = registration_proof(&device(9), "chal6");
    let reply = state.register_at(&request(&["login_auth_id=login7"], &[]), &jwt, NOW).unwrap();
    assert!(field(&reply, "set-cookie").starts_with("__Host-auth_cookie=cookie9;"));
    let nothing = "  REVOKE  : no matching session to delete (no/unknown bound cookie)";
    assert_eq!(state.logout(&request(&[], &[])).log.lines[1], nothing);
    assert_eq!(state.logout(&request(&["__Host-auth_cookie=cookie1"], &[])).log.lines[1], nothing);
    assert_eq!(state.revoke(&Some("cookie9".to_string())), Some("sess8".to_string()));
    assert_eq!(state.revoke(&Some("cookie9".to_string())), None);
    assert_eq!(state.revoke(&None), None);
    assert_eq!(refresh(&mut state, "sess8", "").status, 404);
    assert_eq!(refresh(&mut state, "sess3", "").status, 403);
}

#[test]
fn a_cookie_that_was_rotated_away_ends_nothing() {
    let mut state = registered();
    refresh(&mut state, "sess3", &refresh_proof(&device(7), "c"));
    assert_eq!(state.revoke(&Some("cookie4".to_string())), None);
    assert_eq!(state.revoke(&Some("cookie6".to_string())), Some("sess3".to_string()));
}

#[test]
fn the_bound_cookie_authenticates_after_the_registration() {
    let mut state = registered();
    let headers = request(&["login_auth_id=login2", "z=1; __Host-auth_cookie=cookie4"], &[]);
    assert!(json(&state.protected(&headers)).contains("\"authenticated\":true"));
    let login = request(&["login_auth_id=login2"], &[]);
    assert!(json(&state.protected(&login)).contains("\"authenticated\":false"));
    state.logout(&headers);
}

#[test]
fn a_logout_reply_names_what_was_revoked() {
    let reply = logout_response("c", &Some("sess12".to_string()));
    assert_eq!(reply.log.lines[1], "  REVOKE  : deleted Binding for session_identifier=sess12");
    assert_eq!(
        field(&reply, "set-cookie"),
        "c=; Path=/; Max-Age=0; Secure; HttpOnly; SameSite=Lax"
    );
}

#[test]
fn a_session_reply_follows_the_configuration() {
    let state = AppState::new(Config::from_settings(
        Some("https://example.com".to_string()),
        None,
        None,
        None,
        Some("auth".to_string()),
    ));
    let mut log = Log::new();
    log.line("before".to_string());
    let reply = state.session_response("sess\"1", "v", log);
    assert_eq!(reply.log.lines[0], "before");
    assert_eq!(
        field(&reply, "set-cookie"),
        "auth=v; Path=/; Max-Age=300; Secure; HttpOnly; SameSite=Lax"
    );
    assert_eq!(
        json(&reply),
        "{\"credentials\":[{\"attributes\":\"Path=/; Secure; HttpOnly; SameSite=Lax\",\
         \"name\":\"auth\",\"type\":\"cookie\"}],\"refresh_url\":\"/dbsc/refresh\",\
         \"scope\":{\"include_site\":false,\"origin\":\"https://example.com\"},\
         \"session_identifier\":\"sess\\\"1\"}"
    );
}

#[test]
fn sessions_are_kept_by_identifier_and_found_by_cookie() {
    let binding = |cookie: &str| Binding {
        user_id: "u".to_string(),
        device_public_key: PubKey { x: "x".to_string(), y: "y".to_string() },
        algorithm: "ES256".to_string(),
        cookie_value: cookie.to_string(),
        challenge: "c".to_string(),
        created_at: 1,
        expires_at: 2,
    };
    let mut sessions = Sessions::new();
    assert!(sessions.get("a").is_none());
    sessions.insert("a".to_string(), binding("1"));
    sessions.insert("b".to_string(), binding("2"));
    sessions.insert("a".to_string(), binding("3"));
    assert_eq!(sessions.get("a").unwrap().cookie_value, "3");
    assert_eq!(sessions.find_by_cookie("1"), None);
    assert_eq!(sessions.find_by_cookie("2"), Some("b".to_string()));
    sessions.remove("b");
    sessions.remove("none");
    assert!(sessions.get("b").is_none());
    assert_eq!(sessions.find_by_cookie("2"), None);
    assert_eq!(sessions.find_by_cookie("3"), Some("a".to_string()));
}
