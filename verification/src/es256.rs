//! ES256 signatures: ECDSA over the curve P-256 with SHA-256, in the raw form that a JWS carries.

use p256::ecdsa::signature::Verifier;
use p256::ecdsa::{Signature, VerifyingKey};
use vstd::prelude::*;

use crate::base64url;

verus! {

/// An EC P-256 public key, its two coordinates in base64url, as the `jwk` of a device's JWT
/// carries them.
pub struct PubKey {
    pub x: String,
    pub y: String,
}

/// What a public key holds.
pub struct PubKeyView {
    pub x: Seq<char>,
    pub y: Seq<char>,
}

impl View for PubKey {
    type V = PubKeyView;

    open spec fn view(&self) -> PubKeyView {
        PubKeyView { x: self.x@, y: self.y@ }
    }
}

impl Clone for PubKey {
    fn clone(&self) -> (r: Self)
        ensures
            r == *self,
    {
        PubKey { x: self.x.clone(), y: self.y.clone() }
    }
}

/// The modulus of the field of P-256.
pub open spec fn field_modulus() -> int {
    0xffffffff00000001000000000000000000000000ffffffffffffffffffffffffint
}

/// The order of the base point of P-256.
pub open spec fn group_order() -> int {
    0xffffffff00000000ffffffffffffffffbce6faada7179e84f3b9cac2fc632551int
}

/// The constant term of the curve equation of P-256.
pub open spec fn curve_b() -> int {
    0x5ac635d8aa3a93e7b3ebbd55769886bc651d06b0cc53b0f63bce3c3e27d2604bint
}

/// The number that `bytes` spell, most significant byte first.
pub open spec fn big_endian(bytes: Seq<u8>) -> int
    decreases bytes.len(),
{
    if bytes.len() == 0 {
        0
    } else {
        big_endian(bytes.drop_last()) * 256 + bytes.last()
    }
}

/// The uncompressed SEC1 form of a point: a tag, then the two coordinates.
pub open spec fn sec1_point(x: Seq<u8>, y: Seq<u8>) -> Seq<u8> {
    seq![4u8] + x + y
}

/// `sec1` is the uncompressed form of a point: a tag and two coordinates.
pub open spec fn is_uncompressed(sec1: Seq<u8>) -> bool {
    sec1.len() == 65 && sec1[0] == 4
}

/// `x` and `y` are the coordinates of a point of P-256.
pub open spec fn on_curve(x: int, y: int) -> bool {
    &&& x < field_modulus()
    &&& y < field_modulus()
    &&& (y * y - (x * x * x - 3 * x + curve_b())) % field_modulus() == 0
}

/// `bytes` are the two halves of a signature, each of them from 1 up to the group order.
pub open spec fn raw_signature(bytes: Seq<u8>) -> bool {
    &&& bytes.len() == 64
    &&& 0 < big_endian(bytes.take(32)) < group_order()
    &&& 0 < big_endian(bytes.skip(32)) < group_order()
}

/// The key with the SEC1 form `sec1` accepts `signature` on `message`.
pub uninterp spec fn ecdsa_accepts(sec1: Seq<u8>, message: Seq<u8>, signature: Seq<u8>) -> bool;

/// `VerifyingKey::from_sec1_bytes` on an uncompressed form: it gives a key exactly when the
/// coordinates are those of a point of the curve.
#[verifier::external_body]
pub(crate) fn is_sec1_key(sec1: &Vec<u8>) -> (r: bool)
    requires
        is_uncompressed(sec1@),
    ensures
        r == on_curve(
            big_endian(sec1@.subrange(1, 33)),
            big_endian(sec1@.subrange(33, 65)),
        ),
{
    VerifyingKey::from_sec1_bytes(sec1).is_ok()
}

/// `Signature::from_slice`: it gives a signature exactly when there are 64 bytes and each half
/// is in range.
#[verifier::external_body]
pub(crate) fn is_raw_signature(bytes: &Vec<u8>) -> (r: bool)
    ensures
        r == raw_signature(bytes@),
{
    Signature::from_slice(bytes).is_ok()
}

/// `VerifyingKey::verify`: whether the key accepts the signature on the message. The forms of
/// key and signature are such as have been parsed before, so that parsing does not fail.
#[verifier::external_body]
pub(crate) fn accepts(sec1: &Vec<u8>, message: &[u8], signature: &Vec<u8>) -> (r: bool)
    requires
        is_uncompressed(sec1@),
        on_curve(big_endian(sec1@.subrange(1, 33)), big_endian(sec1@.subrange(33, 65))),
        raw_signature(signature@),
    ensures
        r == ecdsa_accepts(sec1@, message@, signature@),
{
    let key = VerifyingKey::from_sec1_bytes(sec1).unwrap();
    let signature = Signature::from_slice(signature).unwrap();
    key.verify(message, &signature).is_ok()
}

/// The signature that `sig_b64` spells is one by the key `key` on the characters of
/// `signing_input`.
pub open spec fn signed(signing_input: Seq<char>, sig_b64: Seq<char>, key: PubKeyView) -> bool {
    match (
        base64url::unbase64url(key.x),
        base64url::unbase64url(key.y),
        base64url::unbase64url(sig_b64),
    ) {
        (Some(x), Some(y), Some(signature)) => {
            &&& x.len() == 32
            &&& y.len() == 32
            &&& on_curve(big_endian(x), big_endian(y))
            &&& raw_signature(signature)
            &&& ecdsa_accepts(
                sec1_point(x, y),
                vstd::utf8::encode_utf8(signing_input),
                signature,
            )
        },
        _ => false,
    }
}

/// The uncompressed SEC1 form of the point with the coordinates `x` and `y`.
pub fn sec1_bytes(x: &Vec<u8>, y: &Vec<u8>) -> (r: Vec<u8>)
    ensures
        r@ == sec1_point(x@, y@),
{
    let mut sec1: Vec<u8> = Vec::new();
    sec1.push(4);
    assert(sec1@ =~= seq![4u8]);
    sec1.extend_from_slice(x.as_slice());
    sec1.extend_from_slice(y.as_slice());
    assert(sec1@ =~= sec1_point(x@, y@));
    sec1
}

/// Verifies an ES256 signature, in base64url, over the bytes of `signing_input`.
pub fn verify_sig(signing_input: &str, sig_b64: &str, key: &PubKey) -> (r: bool)
    ensures
        r == signed(signing_input@, sig_b64@, key@),
{
    let (x, y) = match (
        base64url::decode(key.x.as_str()),
        base64url::decode(key.y.as_str()),
    ) {
        (Some(x), Some(y)) => (x, y),
        _ => {
            return false;
        },
    };
    if x.len() != 32 || y.len() != 32 {
        return false;
    }
    let sec1 = sec1_bytes(&x, &y);
    assert(sec1@.subrange(1, 33) =~= x@);
    assert(sec1@.subrange(33, 65) =~= y@);
    if !is_sec1_key(&sec1) {
        return false;
    }
    let signature = match base64url::decode(sig_b64) {
        Some(signature) => signature,
        None => {
            return false;
        },
    };
    if !is_raw_signature(&signature) {
        return false;
    }
    accepts(&sec1, signing_input.as_bytes(), &signature)
}

/// A signature counts exactly when the key has two coordinates of 32 bytes that lie on the curve,
/// the signature is in range, and the point, as a tag and the two coordinates, accepts it on the
/// bytes of the text. All three come in base64url.
pub proof fn law_signed_by_the_point(
    signing_input: Seq<char>,
    signature: Seq<u8>,
    x: Seq<u8>,
    y: Seq<u8>,
)
    ensures
        signed(
            signing_input,
            base64url::base64url(signature),
            PubKeyView { x: base64url::base64url(x), y: base64url::base64url(y) },
        ) <==> {
            &&& x.len() == 32
            &&& y.len() == 32
            &&& on_curve(big_endian(x), big_endian(y))
            &&& raw_signature(signature)
            &&& ecdsa_accepts(seq![4u8] + x + y, vstd::utf8::encode_utf8(signing_input), signature)
        },
{
    base64url::law_decode_encode(signature);
    base64url::law_decode_encode(x);
    base64url::law_decode_encode(y);
}

/// What is not base64url is no signature and no coordinate.
pub proof fn law_signed_needs_base64url(
    signing_input: Seq<char>,
    signature: Seq<char>,
    key: PubKeyView,
)
    requires
        signed(signing_input, signature, key),
    ensures
        exists|s: Seq<u8>| base64url::base64url(s) == signature,
        exists|x: Seq<u8>| base64url::base64url(x) == key.x,
        exists|y: Seq<u8>| base64url::base64url(y) == key.y,
{
}

} // verus!
