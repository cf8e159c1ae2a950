use axum::http::{HeaderMap, HeaderValue};
use base64::engine::general_purpose::URL_SAFE_NO_PAD;
use base64::Engine;
use dbsc_hello::base64url::decode;
use dbsc_hello::es256::{sec1_bytes, verify_sig, PubKey};
use dbsc_hello::json::string_at;
use dbsc_hello::jwt::{
    choose_jwt, decode_jwt, jwt_from, jwt_parts, proof_from, pubkey_from_jwk, read_proof,
};
use p256::ecdsa::signature::Signer;
use p256::ecdsa::{Signature, SigningKey};
use serde_json::Value;

fn json(text: &str) -> Value {
    serde_json::from_str(text).unwrap()
}

fn device(seed: u8) -> SigningKey {
    SigningKey::from_slice(&[seed; 32]).unwrap()
}

fn public(key: &SigningKey) -> PubKey {
    let point = key.verifying_key().to_encoded_point(false);
    PubKey {
        x: URL_SAFE_NO_PAD.encode(point.x().unwrap()),
        y: URL_SAFE_NO_PAD.encode(point.y().unwrap()),
    }
}

fn sign(key: &SigningKey, message: &str) -> String {
    let signature: Signature = key.sign(message.as_bytes());
    URL_SAFE_NO_PAD.encode(signature.to_bytes())
}

fn compact(header: &str, claims: &str, signature: &str) -> String {
    format!("{}.{}.{signature}", URL_SAFE_NO_PAD.encode(header), URL_SAFE_NO_PAD.encode(claims))
}

#[test]
fn base64url_is_decoded() {
    assert_eq!(decode(""), Some(vec![]));
    assert_eq!(decode("AQ"), Some(vec![1]));
    assert_eq!(decode("AQI"), Some(vec![1, 2]));
    assert_eq!(decode("AQID"), Some(vec![1, 2, 3]));
    assert_eq!(decode("-_8"), Some(vec![251, 255]));
    for bytes in [vec![0u8; 5], vec![255; 7], (0..=255u8).collect::<Vec<u8>>()] {
        assert_eq!(decode(&URL_SAFE_NO_PAD.encode(&bytes)), Some(bytes));
    }
}

#[test]
fn other_text_is_no_base64url() {
    for text in ["A", "AQ==", "+/8", "AQ ", "A.", "AR", "AQJ", "é"] {
        assert_eq!(decode(text), None, "{text}");
    }
}

#[test]
fn coordinates_of_a_key_are_rebuilt() {
    let jwk = json(
        "{\"jwk\":{\"kty\":\"EC\",\"crv\":\"P-256\",\
         \"x\":\"DA_3CaScQDr_kHODhKDgBxd8293dH3XRPmJcRNd-oNU\",\
         \"y\":\"V5XJ0ZRAZQA0t3SR5ZkA80nvjNUdt_90AvoekPXQtgc\"}}",
    );
    let key = pubkey_from_jwk(&jwk).unwrap();
    let x = decode(&key.x).unwrap();
    let y = decode(&key.y).unwrap();
    let hex = |bytes: &Vec<u8>| bytes.iter().map(|b| format!("{b:02x}")).collect::<String>();
    assert_eq!(hex(&x), "0c0ff709a49c403aff90738384a0e007177cdbdddd1f75d13e625c44d77ea0d5");
    assert_eq!(hex(&y), "5795c9d19440650034b77491e59900f349ef8cd51db7ff7402fa1e90f5d0b607");
    let sec1 = sec1_bytes(&x, &y);
    assert_eq!(sec1.len(), 65);
    assert_eq!(sec1[0], 4);
    assert_eq!(sec1[1..33], x[..]);
    assert_eq!(sec1[33..], y[..]);
}

#[test]
fn a_key_needs_both_coordinates_as_text() {
    assert!(pubkey_from_jwk(&json("{}")).is_none());
    assert!(pubkey_from_jwk(&json("[]")).is_none());
    assert!(pubkey_from_jwk(&json("{\"jwk\":{}}")).is_none());
    assert!(pubkey_from_jwk(&json("{\"jwk\":{\"x\":\"a\"}}")).is_none());
    assert!(pubkey_from_jwk(&json("{\"jwk\":{\"x\":\"a\",\"y\":1}}")).is_none());
    let key = pubkey_from_jwk(&json("{\"jwk\":{\"x\":\"a\",\"y\":\"b\"}}")).unwrap();
    assert_eq!((key.x.as_str(), key.y.as_str()), ("a", "b"));
}

#[test]
fn members_are_read_as_text() {
    let value = json("{\"alg\":\"ES256\",\"n\":1,\"alg2\":null}");
    assert_eq!(string_at(&value, "alg"), Some("ES256".to_string()));
    assert_eq!(string_at(&value, "n"), None);
    assert_eq!(string_at(&value, "alg2"), None);
    assert_eq!(string_at(&value, "none"), None);
    assert_eq!(string_at(&json("\"alg\""), "alg"), None);
}

#[test]
fn signatures_of_the_key_are_accepted() {
    let key = device(7);
    let message = "header.payload";
    assert!(verify_sig(message, &sign(&key, message), &public(&key)));
    assert!(verify_sig("", &sign(&key, ""), &public(&key)));
}

#[test]
fn other_signatures_are_not_accepted() {
    let key = device(7);
    let other = device(8);
    let message = "header.payload";
    let signature = sign(&key, message);
    assert!(!verify_sig("header.payloae", &signature, &public(&key)));
    assert!(!verify_sig(message, &signature, &public(&other)));
    assert!(!verify_sig(message, &sign(&other, message), &public(&key)));
    assert!(!verify_sig(message, "", &public(&key)));
    assert!(!verify_sig(message, "?", &public(&key)));
    assert!(!verify_sig(message, &URL_SAFE_NO_PAD.encode([1u8; 63]), &public(&key)));
    assert!(!verify_sig(message, &URL_SAFE_NO_PAD.encode([0u8; 64]), &public(&key)));
    assert!(!verify_sig(message, &URL_SAFE_NO_PAD.encode([255u8; 64]), &public(&key)));
    assert!(!verify_sig(message, &URL_SAFE_NO_PAD.encode([1u8; 64]), &public(&key)));
    let der: Signature = key.sign(message.as_bytes());
    assert!(!verify_sig(message, &URL_SAFE_NO_PAD.encode(der.to_der()), &public(&key)));
}

#[test]
fn keys_off_the_curve_accept_nothing() {
    let key = device(7);
    let good = public(&key);
    let message = "m";
    let signature = sign(&key, message);
    let swapped = PubKey { x: good.y.clone(), y: good.x.clone() };
    assert!(!verify_sig(message, &signature, &swapped));
    let short = PubKey { x: URL_SAFE_NO_PAD.encode([1u8; 31]), y: good.y.clone() };
    assert!(!verify_sig(message, &signature, &short));
    let large = PubKey { x: URL_SAFE_NO_PAD.encode([255u8; 32]), y: good.y.clone() };
    assert!(!verify_sig(message, &signature, &large));
    let garbled = PubKey { x: "!".to_string(), y: good.y.clone() };
    assert!(!verify_sig(message, &signature, &garbled));
    let garbled = PubKey { x: good.x.clone(), y: "=".to_string() };
    assert!(!verify_sig(message, &signature, &garbled));
}

#[test]
fn the_proof_comes_from_the_header_or_the_body() {
    assert_eq!(choose_jwt(None, ""), None);
    assert_eq!(choose_jwt(None, " \n"), None);
    assert_eq!(choose_jwt(None, " a.b.c\n"), Some("a.b.c".to_string()));
    assert_eq!(choose_jwt(Some("  ".to_string()), "body"), Some("body".to_string()));
    assert_eq!(choose_jwt(Some(" head ".to_string()), "body"), Some("head".to_string()));

    let mut headers = HeaderMap::new();
    assert_eq!(jwt_from(&headers, "body"), Some("body".to_string()));
    headers.insert("Secure-Session-Response", HeaderValue::from_static("head"));
    assert_eq!(jwt_from(&headers, "body"), Some("head".to_string()));
    headers.insert("secure-session-response", HeaderValue::from_bytes(b"h\xe9").unwrap());
    assert_eq!(jwt_from(&headers, "body"), Some("body".to_string()));
    assert_eq!(jwt_from(&headers, ""), None);
}

#[test]
fn a_jwt_has_three_parts() {
    assert_eq!(jwt_parts("a.b"), None);
    assert_eq!(jwt_parts("a.b.c.d"), None);
    assert_eq!(jwt_parts(""), None);
    assert_eq!(
        jwt_parts("a..c"),
        Some(("a".to_string(), String::new(), "c".to_string()))
    );
}

#[test]
fn a_compact_jwt_is_taken_apart() {
    let header = "{\"alg\":\"ES256\",\"typ\":\"dbsc+jwt\"}";
    let claims = "{\"jti\":\"chal1\"}";
    let jwt = compact(header, claims, "sig");
    let (h, c, signing_input, signature) = decode_jwt(&jwt).unwrap();
    assert_eq!(h, json(header));
    assert_eq!(c, json(claims));
    assert_eq!(signature, "sig");
    assert_eq!(format!("{signing_input}.{signature}"), jwt);
    assert_eq!(
        signing_input,
        "eyJhbGciOiJFUzI1NiIsInR5cCI6ImRic2Mrand0In0.eyJqdGkiOiJjaGFsMSJ9"
    );
}

#[test]
fn what_is_no_jwt_is_not_taken_apart() {
    let object = URL_SAFE_NO_PAD.encode("{}");
    assert!(decode_jwt("").is_none());
    assert!(decode_jwt(&format!("{object}.{object}")).is_none());
    assert!(decode_jwt(&format!("{object}.{object}.s.t")).is_none());
    assert!(decode_jwt(&format!("{object}=.{object}.s")).is_none());
    assert!(decode_jwt(&format!("{object}.!.s")).is_none());
    assert!(decode_jwt(&format!("{}.{object}.s", URL_SAFE_NO_PAD.encode("{"))).is_none());
    assert!(decode_jwt(&format!("{object}.{}.s", URL_SAFE_NO_PAD.encode(""))).is_none());
    assert!(decode_jwt(&format!("{object}.{object}.")).is_some());
}

#[test]
fn a_proof_says_what_its_jwt_says() {
    let jwt = compact(
        "{\"alg\":\"ES256\",\"jwk\":{\"x\":\"a\",\"y\":\"b\"}}",
        "{\"jti\":\"chal1\"}",
        "sig",
    );
    let shown = read_proof(&jwt).unwrap();
    assert!(shown.is_es256());
    assert_eq!(shown.shown_jti(), "chal1");
    assert_eq!(shown.key.unwrap().y, "b");
    assert_eq!(shown.signature, "sig");

    let shown = read_proof(&compact("{\"alg\":\"none\"}", "{\"jti\":5}", "")).unwrap();
    assert!(!shown.is_es256());
    assert_eq!(shown.shown_jti(), "?");
    assert!(shown.key.is_none());
    assert!(read_proof("no jwt").is_none());

    let shown = proof_from(&json("[]"), &json("{}"), "in".to_string(), "sig".to_string());
    assert!(shown.alg.is_none());
    assert_eq!(shown.signing_input, "in");
}
