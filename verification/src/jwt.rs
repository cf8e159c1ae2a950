//! The proof that a browser sends: a compact JWS, its header and claims in JSON.

use axum::http::HeaderMap;
use serde_json::Value;
use vstd::prelude::*;

use crate::base64url;
use crate::es256::{PubKey, PubKeyView};
use crate::headers;
use crate::json;
use crate::json::Json;
use crate::text;

verus! {

/// What a proof says: the algorithm and the device key of its header, the challenge that its
/// claims echo, the text that its signature covers, and the signature in base64url.
pub struct Proof {
    pub alg: Option<String>,
    pub key: Option<PubKey>,
    pub jti: Option<String>,
    pub signing_input: String,
    pub signature: String,
}

/// What a proof holds.
pub struct ProofView {
    pub alg: Option<Seq<char>>,
    pub key: Option<PubKeyView>,
    pub jti: Option<Seq<char>>,
    pub signing_input: Seq<char>,
    pub signature: Seq<char>,
}

/// What an optional key holds.
pub open spec fn opt_key(key: Option<PubKey>) -> Option<PubKeyView> {
    match key {
        Some(k) => Some(k@),
        None => None,
    }
}

impl View for Proof {
    type V = ProofView;

    open spec fn view(&self) -> ProofView {
        ProofView {
            alg: text::opt_text(self.alg),
            key: opt_key(self.key),
            jti: text::opt_text(self.jti),
            signing_input: self.signing_input@,
            signature: self.signature@,
        }
    }
}

/// What an optional proof holds.
pub open spec fn opt_proof(shown: Option<Proof>) -> Option<ProofView> {
    match shown {
        Some(p) => Some(p@),
        None => None,
    }
}

impl ProofView {
    /// The proof claims the one algorithm that is accepted.
    pub open spec fn is_es256(self) -> bool {
        self.alg == Some("ES256"@)
    }

    /// The challenge that the proof echoes, or a question mark.
    pub open spec fn shown_jti(self) -> Seq<char> {
        match self.jti {
            Some(jti) => jti,
            None => "?"@,
        }
    }
}

/// The proof that a request presents: in a header if there is text in it, else in the body.
pub open spec fn presented_jwt(header: Option<Seq<char>>, body: Seq<char>) -> Option<Seq<char>> {
    if header is Some && text::trim_text(header->0).len() > 0 {
        Some(text::trim_text(header->0))
    } else if text::trim_text(body).len() > 0 {
        Some(text::trim_text(body))
    } else {
        None
    }
}

/// The JSON that one part of a JWT spells in base64url.
pub open spec fn json_in_part(part: Seq<char>) -> Option<Json> {
    match base64url::unbase64url(part) {
        Some(bytes) => json::json_document(bytes),
        None => None,
    }
}

/// The header, the claims, the signing input and the signature of a JWT.
pub open spec fn decoded_jwt(jwt: Seq<char>) -> Option<(Json, Json, Seq<char>, Seq<char>)> {
    let parts = text::split_text(jwt, '.');
    if parts.len() != 3 {
        None
    } else {
        match (json_in_part(parts[0]), json_in_part(parts[1])) {
            (Some(header), Some(claims)) => Some(
                (header, claims, parts[0] + "."@ + parts[1], parts[2]),
            ),
            _ => None,
        }
    }
}

/// The device key in the `jwk` of a JWT header.
pub open spec fn key_in_header(header: Json) -> Option<PubKeyView> {
    match json::json_member(header, "jwk"@) {
        Some(jwk) => match (json::json_string_at(jwk, "x"@), json::json_string_at(jwk, "y"@)) {
            (Some(x), Some(y)) => Some(PubKeyView { x, y }),
            _ => None,
        },
        None => None,
    }
}

/// What a JWT with this header and these claims says.
pub open spec fn proof_of_parts(
    header: Json,
    claims: Json,
    signing_input: Seq<char>,
    signature: Seq<char>,
) -> ProofView {
    ProofView {
        alg: json::json_string_at(header, "alg"@),
        key: key_in_header(header),
        jti: json::json_string_at(claims, "jti"@),
        signing_input,
        signature,
    }
}

/// What a JWT says, when it can be parsed.
pub open spec fn proof_in(jwt: Seq<char>) -> Option<ProofView> {
    match decoded_jwt(jwt) {
        Some((header, claims, signing_input, signature)) => Some(
            proof_of_parts(header, claims, signing_input, signature),
        ),
        None => None,
    }
}

/// The proof in the text of a `Secure-Session-Response` header, or else in the body.
pub fn choose_jwt(header: Option<String>, body: &str) -> (r: Option<String>)
    ensures
        text::opt_text(r) == presented_jwt(text::opt_text(header), body@),
{
    match header {
        Some(value) => {
            let v = text::trim(value.as_str());
            if !v.as_str().is_empty() {
                return Some(v);
            }
        },
        None => {},
    }
    let b = text::trim(body);
    if b.as_str().is_empty() {
        None
    } else {
        Some(b)
    }
}

/// The proof that a request presents, in its `Secure-Session-Response` header or its body.
pub fn jwt_from(headers: &HeaderMap, body: &str) -> (r: Option<String>)
    ensures
        text::opt_text(r) == presented_jwt(
            headers::header_text_of(*headers, "secure-session-response"@),
            body@,
        ),
{
    proof {
        reveal_strlit("secure-session-response");
    }
    choose_jwt(headers::header_text(headers, "secure-session-response"), body)
}

/// The three parts of a compact JWT.
pub fn jwt_parts(jwt: &str) -> (r: Option<(String, String, String)>)
    ensures
        match r {
            Some((a, b, c)) => text::split_text(jwt@, '.') == seq![a@, b@, c@],
            None => text::split_text(jwt@, '.').len() != 3,
        },
{
    let parts = text::split(jwt, '.');
    let ghost all = text::texts(parts@);
    if parts.len() != 3 {
        return None;
    }
    let a = parts[0].clone();
    let b = parts[1].clone();
    let c = parts[2].clone();
    assert(all =~= seq![a@, b@, c@]);
    Some((a, b, c))
}

/// The JSON that one part of a JWT spells in base64url.
fn decode_part(part: &str) -> (r: Option<Value>)
    ensures
        match r {
            Some(value) => json_in_part(part@) == Some(json::json_view(value)),
            None => json_in_part(part@) is None,
        },
{
    match base64url::decode(part) {
        Some(bytes) => json::parse(&bytes),
        None => None,
    }
}

/// Splits a compact JWT into header, claims, signing input and signature. The signing input is
/// `header.payload`, exactly what the signature covers.
pub fn decode_jwt(jwt: &str) -> (r: Option<(Value, Value, String, String)>)
    ensures
        match r {
            Some((header, claims, signing_input, signature)) => decoded_jwt(jwt@) == Some(
                (
                    json::json_view(header),
                    json::json_view(claims),
                    signing_input@,
                    signature@,
                ),
            ),
            None => decoded_jwt(jwt@) is None,
        },
{
    let (first, second, third) = match jwt_parts(jwt) {
        Some(parts) => parts,
        None => {
            return None;
        },
    };
    let header = match decode_part(first.as_str()) {
        Some(header) => header,
        None => {
            return None;
        },
    };
    let claims = match decode_part(second.as_str()) {
        Some(claims) => claims,
        None => {
            return None;
        },
    };
    let signing_input = text::cat3(first.as_str(), ".", second.as_str());
    Some((header, claims, signing_input, third))
}

/// The EC P-256 public key in the `jwk` of a JWT header.
pub fn pubkey_from_jwk(jwt_header: &Value) -> (r: Option<PubKey>)
    ensures
        opt_key(r) == key_in_header(json::json_view(*jwt_header)),
{
    let jwk = match json::member(jwt_header, "jwk") {
        Some(jwk) => jwk,
        None => {
            return None;
        },
    };
    match (json::string_at(jwk, "x"), json::string_at(jwk, "y")) {
        (Some(x), Some(y)) => Some(PubKey { x, y }),
        _ => None,
    }
}

/// What a JWT with this header and these claims says.
pub fn proof_from(
    header: &Value,
    claims: &Value,
    signing_input: String,
    signature: String,
) -> (r: Proof)
    ensures
        r@ == proof_of_parts(
            json::json_view(*header),
            json::json_view(*claims),
            signing_input@,
            signature@,
        ),
{
    Proof {
        alg: json::string_at(header, "alg"),
        key: pubkey_from_jwk(header),
        jti: json::string_at(claims, "jti"),
        signing_input,
        signature,
    }
}

/// What a JWT says, when it can be parsed.
pub fn read_proof(jwt: &str) -> (r: Option<Proof>)
    ensures
        opt_proof(r) == proof_in(jwt@),
{
    match decode_jwt(jwt) {
        Some((header, claims, signing_input, signature)) => Some(
            proof_from(&header, &claims, signing_input, signature),
        ),
        None => None,
    }
}

impl Proof {
    /// Whether the proof claims ES256, the one algorithm that is accepted.
    pub fn is_es256(&self) -> (r: bool)
        ensures
            r == self@.is_es256(),
    {
        match &self.alg {
            Some(alg) => text::same_text(alg.as_str(), "ES256"),
            None => false,
        }
    }

    /// The challenge that the proof echoes, or a question mark.
    pub fn shown_jti(&self) -> (r: String)
        ensures
            r@ == self@.shown_jti(),
    {
        match &self.jti {
            Some(jti) => jti.clone(),
            None => "?".to_owned(),
        }
    }
}

/// The signature of a JWT covers everything before it: the JWT is the signing input, a dot and
/// the signature, and nothing else.
pub proof fn law_signing_input_is_the_rest(jwt: Seq<char>)
    requires
        decoded_jwt(jwt) is Some,
    ensures
        ({
            let (_, _, input, signature) = decoded_jwt(jwt).unwrap();
            jwt == input + "."@ + signature
        }),
{
    reveal_strlit(".");
    let parts = text::split_text(jwt, '.');
    let dot = seq!['.'];
    assert("."@ =~= dot);
    text::lemma_split_join(jwt, '.');
    let two = parts.drop_last();
    assert(two.drop_last() =~= seq![parts[0]]);
    assert(text::join_text(two.drop_last(), dot) == parts[0]);
    assert(text::join_text(two, dot) == parts[0] + dot + parts[1]);
    assert(text::join_text(parts, dot) == text::join_text(two, dot) + dot + parts[2]);
}

/// A proof that is taken from a request is not empty, and there is no white space around it.
pub proof fn law_presented_is_trimmed(header: Option<Seq<char>>, body: Seq<char>)
    requires
        presented_jwt(header, body) is Some,
    ensures
        presented_jwt(header, body)->0.len() > 0,
        !text::is_white(presented_jwt(header, body)->0.first()),
        !text::is_white(presented_jwt(header, body)->0.last()),
{
    if header is Some {
        text::lemma_trimmed(header->0);
    }
    text::lemma_trimmed(body);
}

/// A JWT that was put together from a header, claims and a signature is taken apart again into
/// them: the two JSON documents in base64url, a dot between them, and a dot before the signature.
pub proof fn law_compact_form_read_back(header: Seq<u8>, claims: Seq<u8>, signature: Seq<char>)
    requires
        json::json_document(header) is Some,
        json::json_document(claims) is Some,
        forall|i: int| 0 <= i < signature.len() ==> #[trigger] signature[i] != '.',
    ensures
        ({
            let input = base64url::base64url(header) + "."@ + base64url::base64url(claims);
            decoded_jwt(input + "."@ + signature) == Some(
                (
                    json::json_document(header)->0,
                    json::json_document(claims)->0,
                    input,
                    signature,
                ),
            )
        }),
{
    reveal_strlit(".");
    let first = base64url::base64url(header);
    let second = base64url::base64url(claims);
    let input = first + "."@ + second;
    let jwt = input + "."@ + signature;
    base64url::law_alphabet(header);
    base64url::law_alphabet(claims);
    base64url::law_decode_encode(header);
    base64url::law_decode_encode(claims);
    assert forall|i: int| 0 <= i < first.len() implies first[i] != '.' by {
        assert(base64url::in_alphabet(first[i]));
    }
    assert forall|i: int| 0 <= i < second.len() implies second[i] != '.' by {
        assert(base64url::in_alphabet(second[i]));
    }
    text::lemma_split_single(first, '.');
    assert(input =~= first.push('.') + second);
    text::lemma_split_append(first, second, '.');
    assert(jwt =~= input.push('.') + signature);
    text::lemma_split_append(input, signature, '.');
    let parts = text::split_text(jwt, '.');
    assert(parts =~= seq![first, second, signature]);
}

/// It does not matter whether the proof comes in the header or in the body, and a header with
/// text in it comes first.
pub proof fn law_header_or_body(t: Seq<char>, body: Seq<char>)
    requires
        text::trim_text(t).len() > 0,
    ensures
        presented_jwt(Some(t), body) == presented_jwt(None, t),
        presented_jwt(Some(t), body) == Some(text::trim_text(t)),
{
}

/// A JWT is what has this form and nothing else: a JSON document in base64url, a dot, another one,
/// a dot, and a signature without dots. What it is taken apart into are these parts.
pub proof fn law_jwt_is_its_parts(
    jwt: Seq<char>,
    header: Json,
    claims: Json,
    input: Seq<char>,
    signature: Seq<char>,
)
    ensures
        decoded_jwt(jwt) == Some((header, claims, input, signature)) <==> {
            &&& jwt == input + "."@ + signature
            &&& forall|i: int| 0 <= i < signature.len() ==> #[trigger] signature[i] != '.'
            &&& exists|h: Seq<u8>, c: Seq<u8>|
                {
                    &&& json::json_document(h) == Some(header)
                    &&& json::json_document(c) == Some(claims)
                    &&& input == #[trigger] base64url::base64url(h) + "."@
                        + #[trigger] base64url::base64url(c)
                }
        },
{
    if decoded_jwt(jwt) == Some((header, claims, input, signature)) {
        law_signing_input_is_the_rest(jwt);
        text::law_split_cuts_at_separators(jwt, '.');
        let parts = text::split_text(jwt, '.');
        assert forall|i: int| 0 <= i < signature.len() implies #[trigger] signature[i] != '.' by {
            assert(parts[2][i] != '.');
        }
        let h = base64url::unbase64url(parts[0])->0;
        let c = base64url::unbase64url(parts[1])->0;
        base64url::law_encode_decode(parts[0]);
        base64url::law_encode_decode(parts[1]);
        assert(input == base64url::base64url(h) + "."@ + base64url::base64url(c));
    }
    if jwt == input + "."@ + signature && (forall|i: int|
        0 <= i < signature.len() ==> #[trigger] signature[i] != '.') && (exists|
        h: Seq<u8>,
        c: Seq<u8>,
    |
        {
            &&& json::json_document(h) == Some(header)
            &&& json::json_document(c) == Some(claims)
            &&& input == #[trigger] base64url::base64url(h) + "."@
                + #[trigger] base64url::base64url(c)
        }) {
        let (h, c) = choose|h: Seq<u8>, c: Seq<u8>|
            {
                &&& json::json_document(h) == Some(header)
                &&& json::json_document(c) == Some(claims)
                &&& input == #[trigger] base64url::base64url(h) + "."@
                    + #[trigger] base64url::base64url(c)
            };
        law_compact_form_read_back(h, c, signature);
    }
}

/// What a JWT says is read from its members: the algorithm from `alg` and the device key from `x`
/// and `y` in `jwk`, all in the header, and the challenge from `jti` in the claims. A member that
/// is missing or no string counts as not there.
pub proof fn law_proof_reads_members(
    jwt: Seq<char>,
    header: Map<Seq<char>, Json>,
    claims: Map<Seq<char>, Json>,
    input: Seq<char>,
    signature: Seq<char>,
    t: Seq<char>,
    key: PubKeyView,
)
    requires
        decoded_jwt(jwt) == Some((Json::Object(header), Json::Object(claims), input, signature)),
    ensures
        proof_in(jwt) is Some,
        ({
            let shown = proof_in(jwt)->0;
            &&& shown.signing_input == input
            &&& shown.signature == signature
            &&& shown.alg == Some(t) <==> header.contains_key("alg"@) && header["alg"@]
                == Json::Text(t)
            &&& shown.jti == Some(t) <==> claims.contains_key("jti"@) && claims["jti"@]
                == Json::Text(t)
            &&& shown.key == Some(key) <==> {
                &&& header.contains_key("jwk"@)
                &&& header["jwk"@] matches Json::Object(jwk) && {
                    &&& jwk.contains_key("x"@) && jwk["x"@] == Json::Text(key.x)
                    &&& jwk.contains_key("y"@) && jwk["y"@] == Json::Text(key.y)
                }
            }
        }),
{
}

/// A JWT whose header or claims are no JSON object has nothing to say there, and what is no JWT
/// says nothing at all.
pub proof fn law_no_object_no_members(
    jwt: Seq<char>,
    header: Json,
    claims: Json,
    input: Seq<char>,
    signature: Seq<char>,
)
    ensures
        proof_in(jwt) is Some <==> decoded_jwt(jwt) is Some,
        decoded_jwt(jwt) == Some((header, claims, input, signature)) ==> {
            &&& header !is Object ==> proof_in(jwt)->0.alg is None && proof_in(jwt)->0.key is None
            &&& claims !is Object ==> proof_in(jwt)->0.jti is None
        },
{
}

/// There is no proof exactly when header and body have nothing but white space; else it is the
/// text of the header, or of the body where the header has none, without the white space around.
pub proof fn law_proof_is_the_first_text(header: Option<Seq<char>>, body: Seq<char>)
    ensures
        ({
            let in_header = header is Some && exists|i: int|
                0 <= i < header->0.len() && !text::is_white(#[trigger] header->0[i]);
            let in_body = exists|i: int| 0 <= i < body.len() && !text::is_white(#[trigger] body[i]);
            presented_jwt(header, body) == (if in_header {
                Some(text::trim_text(header->0))
            } else if in_body {
                Some(text::trim_text(body))
            } else {
                None
            })
        }),
{
    if header is Some {
        lemma_text_left(header->0);
    }
    lemma_text_left(body);
}

/// Trimming leaves something exactly when there is more than white space.
proof fn lemma_text_left(t: Seq<char>)
    ensures
        text::trim_text(t).len() > 0 <==> exists|i: int|
            0 <= i < t.len() && !text::is_white(#[trigger] t[i]),
{
    let (from, to) = text::law_trim_takes_white_ends(t);
    if from < to {
        assert(!text::is_white(t[from]));
    }
}

/// A proof counts as ES256 exactly when it says so, and a question mark stands for a challenge
/// that it does not echo.
pub proof fn law_claims_of_a_proof(p: ProofView)
    ensures
        p.is_es256() <==> p.alg == Some("ES256"@),
        p.jti matches Some(jti) ==> p.shown_jti() == jti,
        p.jti is None ==> p.shown_jti() == "?"@,
{
}

/// What is said of a proof is said of its values.
pub proof fn law_proof_is_what_it_holds(p: Proof)
    ensures
        p@.alg == text::opt_text(p.alg),
        p.key matches Some(key) ==> p@.key == Some(PubKeyView { x: key.x@, y: key.y@ }),
        p.key is None ==> p@.key is None,
        p@.jti == text::opt_text(p.jti),
        p@.signing_input == p.signing_input@,
        p@.signature == p.signature@,
{
}

} // verus!
