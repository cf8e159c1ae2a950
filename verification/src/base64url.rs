//! Base64 with the URL-safe alphabet and without padding.

use base64::engine::general_purpose::URL_SAFE_NO_PAD;
use base64::Engine;
use vstd::prelude::*;

verus! {

/// The character for six bits.
pub open spec fn symbol(v: int) -> char {
    if v < 26 {
        (65 + v) as char
    } else if v < 52 {
        (97 + v - 26) as char
    } else if v < 62 {
        (48 + v - 52) as char
    } else if v == 62 {
        '-'
    } else {
        '_'
    }
}

/// `bytes` in base64url: four characters for three bytes, and two or three characters for the
/// one or two bytes that are left at the end.
pub open spec fn base64url(bytes: Seq<u8>) -> Seq<char>
    decreases bytes.len(),
{
    if bytes.len() == 0 {
        Seq::empty()
    } else if bytes.len() == 1 {
        seq![symbol(bytes[0] as int / 4), symbol(bytes[0] as int % 4 * 16)]
    } else if bytes.len() == 2 {
        seq![
            symbol(bytes[0] as int / 4),
            symbol(bytes[0] as int % 4 * 16 + bytes[1] as int / 16),
            symbol(bytes[1] as int % 16 * 4),
        ]
    } else {
        seq![
            symbol(bytes[0] as int / 4),
            symbol(bytes[0] as int % 4 * 16 + bytes[1] as int / 16),
            symbol(bytes[1] as int % 16 * 4 + bytes[2] as int / 64),
            symbol(bytes[2] as int % 64),
        ] + base64url(bytes.skip(3))
    }
}

/// The bytes of which `text` is the base64url form, if it is one.
pub open spec fn unbase64url(text: Seq<char>) -> Option<Seq<u8>> {
    if exists|bytes: Seq<u8>| base64url(bytes) == text {
        Some(choose|bytes: Seq<u8>| base64url(bytes) == text)
    } else {
        None
    }
}

/// `Engine::decode` of `URL_SAFE_NO_PAD`: the bytes of which the text is the base64url form. An
/// error when it is the form of none: a character outside the alphabet (padding is none of it),
/// a single character left over, or a last character with bits that no byte accounts for.
#[verifier::external_body]
pub(crate) fn engine_decode(text: &str) -> (r: Option<Vec<u8>>)
    ensures
        match r {
            Some(bytes) => base64url(bytes@) == text@,
            None => forall|bytes: Seq<u8>| base64url(bytes) != text@,
        },
{
    URL_SAFE_NO_PAD.decode(text).ok()
}

/// The six bits can be told from the character.
proof fn lemma_symbol_injective(v: int, w: int)
    requires
        0 <= v < 64,
        0 <= w < 64,
        symbol(v) == symbol(w),
    ensures
        v == w,
{
}

/// How many characters a form has.
proof fn lemma_length(bytes: Seq<u8>)
    ensures
        base64url(bytes).len() == bytes.len() + (bytes.len() + 2) / 3,
    decreases bytes.len(),
{
    if bytes.len() > 2 {
        lemma_length(bytes.skip(3));
    }
}

/// Different bytes have different base64url forms: what is decoded is what was encoded.
pub proof fn lemma_base64url_injective(a: Seq<u8>, b: Seq<u8>)
    requires
        base64url(a) == base64url(b),
    ensures
        a == b,
    decreases a.len(),
{
    lemma_length(a);
    lemma_length(b);
    assert(a.len() == b.len());
    let s = base64url(a);
    if a.len() > 0 {
        assert(s[0] == symbol(a[0] as int / 4));
        assert(s[0] == symbol(b[0] as int / 4));
        lemma_symbol_injective(a[0] as int / 4, b[0] as int / 4);
    }
    if a.len() == 1 {
        lemma_symbol_injective(a[0] as int % 4 * 16, b[0] as int % 4 * 16);
    }
    if a.len() >= 2 {
        assert(s[1] == symbol(a[0] as int % 4 * 16 + a[1] as int / 16));
        assert(s[1] == symbol(b[0] as int % 4 * 16 + b[1] as int / 16));
        lemma_symbol_injective(
            a[0] as int % 4 * 16 + a[1] as int / 16,
            b[0] as int % 4 * 16 + b[1] as int / 16,
        );
    }
    if a.len() == 2 {
        lemma_symbol_injective(a[1] as int % 16 * 4, b[1] as int % 16 * 4);
    }
    if a.len() >= 3 {
        assert(s[2] == symbol(a[1] as int % 16 * 4 + a[2] as int / 64));
        assert(s[2] == symbol(b[1] as int % 16 * 4 + b[2] as int / 64));
        assert(s[3] == symbol(a[2] as int % 64));
        assert(s[3] == symbol(b[2] as int % 64));
        lemma_symbol_injective(
            a[1] as int % 16 * 4 + a[2] as int / 64,
            b[1] as int % 16 * 4 + b[2] as int / 64,
        );
        lemma_symbol_injective(a[2] as int % 64, b[2] as int % 64);
        assert(base64url(a.skip(3)) =~= s.skip(4));
        assert(base64url(b.skip(3)) =~= s.skip(4));
        lemma_base64url_injective(a.skip(3), b.skip(3));
        assert forall|i: int| 0 <= i < a.len() implies a[i] == b[i] by {
            if i >= 3 {
                assert(a.skip(3)[i - 3] == b.skip(3)[i - 3]);
            }
        }
    }
    assert(a =~= b);
}

/// The bytes of which `text` is the base64url form, if it is one.
pub fn decode(text: &str) -> (r: Option<Vec<u8>>)
    ensures
        match r {
            Some(bytes) => unbase64url(text@) == Some(bytes@),
            None => unbase64url(text@) is None,
        },
{
    let r = engine_decode(text);
    proof {
        if r is Some {
            assert(base64url(r.unwrap()@) == text@);
            lemma_base64url_injective(r.unwrap()@, unbase64url(text@).unwrap());
        }
    }
    r
}

/// Decoding gives back what was encoded.
pub proof fn law_decode_encode(bytes: Seq<u8>)
    ensures
        unbase64url(base64url(bytes)) == Some(bytes),
{
    let text = base64url(bytes);
    assert(exists|b: Seq<u8>| base64url(b) == text);
    lemma_base64url_injective(unbase64url(text).unwrap(), bytes);
}

/// Of what can be decoded, the form is unique: encoding gives back the text.
pub proof fn law_encode_decode(text: Seq<char>)
    requires
        unbase64url(text) is Some,
    ensures
        base64url(unbase64url(text).unwrap()) == text,
{
}

/// A character of the alphabet: a letter, a digit, a hyphen or an underscore.
pub open spec fn in_alphabet(c: char) -> bool {
    'A' <= c <= 'Z' || 'a' <= c <= 'z' || '0' <= c <= '9' || c == '-' || c == '_'
}

/// Base64url text has no characters outside the alphabet: no padding, and no dot.
pub proof fn law_alphabet(bytes: Seq<u8>)
    ensures
        forall|i: int|
            0 <= i < base64url(bytes).len() ==> in_alphabet(#[trigger] base64url(bytes)[i]),
    decreases bytes.len(),
{
    if bytes.len() > 2 {
        law_alphabet(bytes.skip(3));
        let text = base64url(bytes);
        let rest = base64url(bytes.skip(3));
        assert forall|i: int| 0 <= i < text.len() implies in_alphabet(#[trigger] text[i]) by {
            if i >= 4 {
                assert(text[i] == rest[i - 4]);
            }
        }
    }
}

/// The value of six bits is the place of its character in the alphabet.
pub proof fn law_alphabet_in_order(v: int)
    requires
        0 <= v < 64,
    ensures
        symbol(v)
            == "ABCDEFGHIJKLMNOPQRSTUVWXYZabcdefghijklmnopqrstuvwxyz0123456789-_"@[v],
{
    reveal_strlit("ABCDEFGHIJKLMNOPQRSTUVWXYZabcdefghijklmnopqrstuvwxyz0123456789-_");
}

/// Bytes are encoded in groups of three, one group after the other.
pub proof fn law_encoded_in_groups(first: Seq<u8>, rest: Seq<u8>)
    requires
        first.len() % 3 == 0,
    ensures
        base64url(first + rest) == base64url(first) + base64url(rest),
    decreases first.len(),
{
    if first.len() == 0 {
        assert(first + rest =~= rest);
        assert(base64url(first) + base64url(rest) =~= base64url(rest));
    } else {
        law_encoded_in_groups(first.skip(3), rest);
        assert((first + rest).skip(3) =~= first.skip(3) + rest);
        assert(base64url(first + rest) =~= base64url(first) + base64url(rest));
    }
}

/// A group of three bytes spells, in digits to the base 64, the number that it spells to the base
/// 256; a shorter group at the end is filled up with zero bits.
pub proof fn law_group_spells_number(a: u8, b: u8, c: u8)
    ensures
        exists|p: int, q: int, r: int, t: int|
            {
                &&& 0 <= p < 64 && 0 <= q < 64 && 0 <= r < 64 && 0 <= t < 64
                &&& base64url(seq![a, b, c])
                    == #[trigger] seq![symbol(p), symbol(q), symbol(r), symbol(t)]
                &&& ((p * 64 + q) * 64 + r) * 64 + t == (a * 256 + b) * 256 + c
            },
        exists|p: int, q: int, r: int|
            {
                &&& 0 <= p < 64 && 0 <= q < 64 && 0 <= r < 64
                &&& base64url(seq![a, b]) == #[trigger] seq![symbol(p), symbol(q), symbol(r)]
                &&& (p * 64 + q) * 64 + r == (a * 256 + b) * 4
            },
        exists|p: int, q: int|
            {
                &&& 0 <= p < 64 && 0 <= q < 64
                &&& base64url(seq![a]) == #[trigger] seq![symbol(p), symbol(q)]
                &&& p * 64 + q == a * 16
            },
        base64url(Seq::empty()).len() == 0,
{
    let p = a as int / 4;
    let q = a as int % 4 * 16 + b as int / 16;
    let r = b as int % 16 * 4 + c as int / 64;
    let t = c as int % 64;
    let three = seq![a, b, c];
    assert(three.skip(3) =~= Seq::empty());
    assert(base64url(three.skip(3)) =~= Seq::<char>::empty());
    assert(base64url(three) =~= seq![symbol(p), symbol(q), symbol(r), symbol(t)]);
    assert(((p * 64 + q) * 64 + r) * 64 + t == (a * 256 + b) * 256 + c);
    let two_r = b as int % 16 * 4;
    assert(base64url(seq![a, b]) =~= seq![symbol(p), symbol(q), symbol(two_r)]);
    assert((p * 64 + q) * 64 + two_r == (a * 256 + b) * 4);
    let one_q = a as int % 4 * 16;
    assert(base64url(seq![a]) =~= seq![symbol(p), symbol(one_q)]);
    assert(p * 64 + one_q == a * 16);
}

} // verus!
