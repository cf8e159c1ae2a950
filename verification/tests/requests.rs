use std::time::{Duration, SystemTime, UNIX_EPOCH};

use axum::http::{HeaderMap, HeaderName, HeaderValue};
use dbsc_hello::clock::{now_secs, secs_at};
use dbsc_hello::config::Config;
use dbsc_hello::cookies::{cookie_in, cookie_lines, cookie_value, find_cookie, find_in_line};
use dbsc_hello::headers::{header_text, header_texts, is_header_safe};
use dbsc_hello::page;
use dbsc_hello::reply::Body;
use dbsc_hello::start::registration_header;
use dbsc_hello::state::{nonce, AppState};

fn with_cookies(lines: &[&str]) -> HeaderMap {
    let mut headers = HeaderMap::new();
    for line in lines {
        headers.append("cookie", HeaderValue::from_str(line).unwrap());
    }
    headers
}

fn server() -> AppState {
    AppState::new(Config::from_settings(None, None, None, None, None))
}

#[test]
fn every_cookie_header_is_shown() {
    assert_eq!(cookie_in(&HeaderMap::new()), "(none)");
    assert_eq!(cookie_in(&with_cookies(&[""])), "(none)");
    assert_eq!(cookie_in(&with_cookies(&["a=1"])), "a=1");
    assert_eq!(cookie_in(&with_cookies(&["a=1; b=2", "c=3"])), "a=1; b=2; c=3");
}

#[test]
fn cookie_lines_leave_out_what_is_no_text() {
    let mut headers = with_cookies(&["a=1"]);
    headers.append("cookie", HeaderValue::from_bytes(b"b=\xff").unwrap());
    headers.append("Cookie", HeaderValue::from_static("c=3"));
    assert_eq!(cookie_lines(&headers), vec!["a=1", "c=3"]);
    assert_eq!(cookie_in(&headers), "a=1; c=3");
    assert_eq!(cookie_value(&headers, "b"), None);
    assert_eq!(cookie_value(&headers, "c"), Some("3".to_string()));
}

#[test]
fn a_cookie_in_a_second_header_is_found() {
    let headers = with_cookies(&["login_auth_id=login2", "x=y; __Host-auth_cookie=cookie4"]);
    assert_eq!(cookie_value(&headers, "__Host-auth_cookie"), Some("cookie4".to_string()));
    assert_eq!(cookie_value(&headers, "login_auth_id"), Some("login2".to_string()));
    assert_eq!(cookie_value(&headers, "auth_cookie"), None);
}

#[test]
fn the_first_cookie_of_a_name_counts() {
    let lines = vec!["a=1; a=2".to_string(), "a=3".to_string()];
    assert_eq!(find_cookie(&lines, "a"), Some("1".to_string()));
    assert_eq!(find_in_line(" b=1 ;\ta=2 ; ", "a"), Some("2".to_string()));
    assert_eq!(find_in_line("a=", "a"), Some(String::new()));
    assert_eq!(find_in_line("a", "a"), None);
    assert_eq!(find_in_line("A=1", "a"), None);
    assert_eq!(find_in_line("a=b=c", "a"), Some("b=c".to_string()));
}

#[test]
fn a_cookie_behind_others_is_read_back() {
    let line = "theme=dark; lang=de; __Host-auth_cookie=cookie19";
    assert_eq!(find_in_line(line, "__Host-auth_cookie"), Some("cookie19".to_string()));
    assert_eq!(find_in_line(line, "theme"), Some("dark".to_string()));
}

#[test]
fn header_text_is_the_first_value_if_it_is_text() {
    let mut headers = HeaderMap::new();
    assert_eq!(header_text(&headers, "sec-secure-session-id"), None);
    headers.append("Sec-Secure-Session-Id", HeaderValue::from_static("sess3"));
    headers.append("sec-secure-session-id", HeaderValue::from_static("sess9"));
    assert_eq!(header_text(&headers, "sec-secure-session-id"), Some("sess3".to_string()));
    assert_eq!(header_texts(&headers, "sec-secure-session-id"), vec!["sess3", "sess9"]);
    assert_eq!(header_texts(&headers, "cookie"), Vec::<String>::new());

    let mut odd = HeaderMap::new();
    odd.append("x-odd", HeaderValue::from_str("é").unwrap());
    odd.append("x-odd", HeaderValue::from_static("ok"));
    assert_eq!(header_text(&odd, "x-odd"), None);
    assert_eq!(header_texts(&odd, "x-odd"), vec!["ok"]);
}

#[test]
fn visible_bytes_are_read_as_text() {
    for b in 0..=255u8 {
        let mut headers = HeaderMap::new();
        if let Ok(value) = HeaderValue::from_bytes(&[b'a', b]) {
            let expected = value.to_str().ok().map(str::to_string);
            headers.insert("x-byte", value);
            assert_eq!(header_text(&headers, "x-byte"), expected);
        }
    }
}

#[test]
fn header_safe_is_what_a_header_takes() {
    for code in 0..0x3000_u32 {
        if let Some(c) = char::from_u32(code) {
            let text = format!("a{c}");
            assert_eq!(is_header_safe(&text), HeaderValue::from_str(&text).is_ok());
        }
    }
    assert!(is_header_safe("__Host-auth_cookie"));
    assert!(!is_header_safe("two\nlines"));
}

#[test]
fn registration_header_has_the_wire_format() {
    let (name, value) = registration_header("chal1");
    assert_eq!(name, HeaderName::from_static("secure-session-registration"));
    assert_eq!(
        value.to_str().unwrap(),
        "(ES256); path=\"/dbsc/register\"; challenge=\"chal1\"; authorization=\"auth-code-123\""
    );
}

#[test]
fn identifiers_count_up_and_start_again() {
    let mut counter: u64 = 1;
    assert_eq!(nonce(&mut counter, "chal"), "chal1");
    assert_eq!(nonce(&mut counter, "sess"), "sess2");
    assert_eq!(counter, 3);
    counter = u64::MAX;
    assert_eq!(nonce(&mut counter, "cookie"), "cookie18446744073709551615");
    assert_eq!(counter, 0);
    assert_eq!(nonce(&mut counter, "cookie"), "cookie0");
}

#[test]
fn settings_have_local_defaults() {
    let config = Config::from_settings(None, None, None, None, None);
    assert_eq!(config.origin, "https://localhost:3000");
    assert_eq!(config.bind, "127.0.0.1:3000");
    assert_eq!(config.tls_cert, "localhost+2.pem");
    assert_eq!(config.tls_key, "localhost+2-key.pem");
    assert_eq!(config.cookie_name, "__Host-auth_cookie");

    let config = Config::from_settings(
        Some("https://example.com".to_string()),
        Some("[::]:8443".to_string()),
        Some("cert.pem".to_string()),
        Some("key.pem".to_string()),
        Some(String::new()),
    );
    assert_eq!(config.origin, "https://example.com");
    assert_eq!(config.bind, "[::]:8443");
    assert_eq!(config.tls_cert, "cert.pem");
    assert_eq!(config.tls_key, "key.pem");
    assert_eq!(config.cookie_name, "");
    let state = AppState::new(config);
    assert_eq!(state.cfg().bind, "[::]:8443");
}

#[test]
fn time_is_in_whole_seconds() {
    assert_eq!(secs_at(&UNIX_EPOCH), 0);
    assert_eq!(secs_at(&(UNIX_EPOCH + Duration::from_millis(5_999))), 5);
    assert_eq!(secs_at(&(UNIX_EPOCH - Duration::from_secs(5))), 0);
    let before = SystemTime::now().duration_since(UNIX_EPOCH).unwrap().as_secs();
    let shown = now_secs();
    let after = SystemTime::now().duration_since(UNIX_EPOCH).unwrap().as_secs();
    assert!(before <= shown && shown <= after);
}

#[test]
fn protected_tells_whether_the_bound_cookie_came_along() {
    let state = server();
    let reply = state.protected(&HeaderMap::new());
    assert_eq!(reply.status, 200);
    assert!(reply.headers.is_empty());
    match reply.body {
        Body::Json(value) => assert_eq!(
            value.to_string(),
            "{\"authenticated\":false,\"cookie_header\":\"(none)\"}"
        ),
        _ => panic!("not JSON"),
    }
    assert_eq!(
        reply.log.lines,
        vec![
            "\n════════ FLOW 5: PROTECTED  (GET /api/protected) ════════",
            "  REQUEST : GET /api/protected  |  Cookie: (none)",
            "  RESPONSE: authenticated=false",
        ]
    );

    let headers = with_cookies(&["a=1", "__Host-auth_cookie=any"]);
    assert!(state.has_bound_cookie(&headers));
    assert_eq!(state.bound_cookie_value(&headers), Some("any".to_string()));
    let reply = state.protected(&headers);
    match reply.body {
        Body::Json(value) => assert_eq!(
            value.to_string(),
            "{\"authenticated\":true,\"cookie_header\":\"a=1; __Host-auth_cookie=any\"}"
        ),
        _ => panic!("not JSON"),
    }
    assert_eq!(reply.log.lines[2], "  RESPONSE: authenticated=true");
}

#[test]
fn the_page_has_its_three_controls() {
    let html = page::index();
    assert!(html.starts_with("<!doctype html>\n<html>\n"));
    assert!(html.ends_with("</script>\n</body>\n</html>\n"));
    assert!(html.contains("<form method=\"POST\" action=\"/start-form\""));
    assert!(html.contains("fetch('/api/protected')"));
    assert!(html.contains("<a href=\"/logout\">"));
}
