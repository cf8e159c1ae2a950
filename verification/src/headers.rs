//! Header fields of requests and replies, in the maps of the `http` types that `axum` hands out.

use axum::http::{HeaderMap, HeaderName, HeaderValue};
use vstd::prelude::*;

use crate::text;

verus! {

/// `axum::http::HeaderMap`.
#[verifier::external_type_specification]
#[verifier::external_body]
#[verifier::reject_recursive_types(T)]
pub struct ExHeaderMap<T>(HeaderMap<T>);

/// `axum::http::HeaderName`.
#[verifier::external_type_specification]
#[verifier::external_body]
pub struct ExHeaderName(HeaderName);

/// `axum::http::HeaderValue`.
#[verifier::external_type_specification]
#[verifier::external_body]
pub struct ExHeaderValue(HeaderValue);

/// The fields of a header map: under each name (in lower case) its values, in the order in
/// which they are handed out.
pub uninterp spec fn header_fields(headers: HeaderMap) -> Map<Seq<char>, Seq<Seq<u8>>>;

/// The characters of a header name.
pub uninterp spec fn header_name_text(name: HeaderName) -> Seq<char>;

/// The bytes of a header value.
pub uninterp spec fn header_value_bytes(value: HeaderValue) -> Seq<u8>;

/// The header names in use here: 1 to 64 lower-case letters and hyphens.
pub open spec fn plain_name(name: Seq<char>) -> bool {
    &&& 1 <= name.len() <= 64
    &&& forall|i: int| 0 <= i < name.len() ==> 'a' <= #[trigger] name[i] <= 'z' || name[i] == '-'
}

/// A byte that shows as a character: printable ASCII, or a tab.
pub open spec fn visible_byte(b: u8) -> bool {
    32 <= b < 127 || b == 9
}

/// Bytes that can be read as text.
pub open spec fn visible(bytes: Seq<u8>) -> bool {
    forall|i: int| 0 <= i < bytes.len() ==> visible_byte(#[trigger] bytes[i])
}

/// The text of bytes that are all ASCII.
pub open spec fn ascii_text(bytes: Seq<u8>) -> Seq<char> {
    Seq::new(bytes.len(), |i: int| bytes[i] as char)
}

/// A character that a header value can carry: no ASCII control character but the tab.
pub open spec fn safe_char(c: char) -> bool {
    (' ' <= c && c != '\u{7f}') || c == '\t'
}

/// Text that a header value can carry.
pub open spec fn header_safe(text: Seq<char>) -> bool {
    forall|i: int| 0 <= i < text.len() ==> safe_char(#[trigger] text[i])
}

/// The values under `name`.
pub open spec fn values_of(headers: HeaderMap, name: Seq<char>) -> Seq<Seq<u8>> {
    if header_fields(headers).contains_key(name) {
        header_fields(headers)[name]
    } else {
        Seq::empty()
    }
}

/// No fields at all.
pub open spec fn no_fields() -> Map<Seq<char>, Seq<Seq<u8>>> {
    Map::empty()
}

/// `HeaderName::from_static`: the name with exactly these characters. It panics on what is not
/// a header name in lower case.
#[verifier::external_body]
pub(crate) fn name_from_static(name: &'static str) -> (r: HeaderName)
    requires
        plain_name(name@),
    ensures
        header_name_text(r) == name@,
{
    HeaderName::from_static(name)
}

/// `HeaderValue::from_str`: the UTF-8 bytes of the text as a value; an error exactly when the
/// text holds an ASCII control character other than the tab.
#[verifier::external_body]
pub(crate) fn value_from_str(text: &str) -> (r: Option<HeaderValue>)
    ensures
        match r {
            Some(value) => header_safe(text@) && header_value_bytes(value)
                == vstd::utf8::encode_utf8(text@),
            None => !header_safe(text@),
        },
{
    HeaderValue::from_str(text).ok()
}

/// `HeaderValue::to_str`: the bytes as text; an error exactly when one of them is no printable
/// ASCII character and no tab.
#[verifier::external_body]
pub(crate) fn value_to_str<'a>(value: &'a HeaderValue) -> (r: Option<&'a str>)
    ensures
        match r {
            Some(text) => visible(header_value_bytes(*value)) && text@ == ascii_text(
                header_value_bytes(*value),
            ),
            None => !visible(header_value_bytes(*value)),
        },
{
    value.to_str().ok()
}

/// `HeaderMap::new`: a map without fields.
#[verifier::external_body]
pub(crate) fn headers_new() -> (r: HeaderMap)
    ensures
        header_fields(r) == no_fields(),
{
    HeaderMap::new()
}

/// `HeaderMap::insert`: `value` becomes the one value under `name`; the other fields stay. It
/// panics when the map would outgrow its limit of some ten thousand fields, hence the bound.
#[verifier::external_body]
pub(crate) fn headers_insert(headers: &mut HeaderMap, name: HeaderName, value: HeaderValue)
    requires
        header_fields(*old(headers)).dom().finite(),
        header_fields(*old(headers)).dom().len() < 1000,
    ensures
        header_fields(*final(headers)) == header_fields(*old(headers)).insert(
            header_name_text(name),
            seq![header_value_bytes(value)],
        ),
{
    headers.insert(name, value);
}

/// `HeaderMap::get`: the first value under `name`, if there is one.
#[verifier::external_body]
pub(crate) fn headers_get<'a>(headers: &'a HeaderMap, name: &str) -> (r: Option<&'a HeaderValue>)
    requires
        plain_name(name@),
    ensures
        match r {
            Some(value) => values_of(*headers, name@).len() > 0 && header_value_bytes(*value)
                == values_of(*headers, name@)[0],
            None => values_of(*headers, name@).len() == 0,
        },
{
    headers.get(name)
}

/// `HeaderMap::get_all`: all the values under `name`, in order.
#[verifier::external_body]
pub(crate) fn headers_get_all<'a>(headers: &'a HeaderMap, name: &str) -> (r: Vec<&'a HeaderValue>)
    requires
        plain_name(name@),
    ensures
        r@.len() == values_of(*headers, name@).len(),
        forall|i: int|
            0 <= i < r@.len() ==> header_value_bytes(*#[trigger] r@[i]) == values_of(
                *headers,
                name@,
            )[i],
{
    headers.get_all(name).iter().collect()
}

/// The first value under `name`, when it can be read as text.
pub open spec fn header_text_of(headers: HeaderMap, name: Seq<char>) -> Option<Seq<char>> {
    let values = values_of(headers, name);
    if values.len() > 0 && visible(values[0]) {
        Some(ascii_text(values[0]))
    } else {
        None
    }
}

/// The values that can be read as text, in order; the others are left out.
pub open spec fn readable(values: Seq<Seq<u8>>) -> Seq<Seq<char>>
    decreases values.len(),
{
    if values.len() == 0 {
        Seq::empty()
    } else if visible(values.last()) {
        readable(values.drop_last()).push(ascii_text(values.last()))
    } else {
        readable(values.drop_last())
    }
}

/// The first value under `name`, when it can be read as text.
pub fn header_text(headers: &HeaderMap, name: &str) -> (r: Option<String>)
    requires
        plain_name(name@),
    ensures
        text::opt_text(r) == header_text_of(*headers, name@),
{
    match headers_get(headers, name) {
        Some(value) => match value_to_str(value) {
            Some(text) => Some(text.to_owned()),
            None => None,
        },
        None => None,
    }
}

/// All the values under `name` that can be read as text, in order.
pub fn header_texts(headers: &HeaderMap, name: &str) -> (r: Vec<String>)
    requires
        plain_name(name@),
    ensures
        text::texts(r@) == readable(values_of(*headers, name@)),
{
    let values = headers_get_all(headers, name);
    let ghost all = values_of(*headers, name@);
    let mut r: Vec<String> = Vec::new();
    let mut i: usize = 0;
    assert(text::texts(r@) =~= readable(all.take(0)));
    while i < values.len()
        invariant
            i <= values@.len() == all.len(),
            forall|j: int|
                0 <= j < values@.len() ==> header_value_bytes(*#[trigger] values@[j]) == all[j],
            text::texts(r@) == readable(all.take(i as int)),
        decreases values.len() - i,
    {
        proof {
            assert(all.take(i + 1).drop_last() =~= all.take(i as int));
            assert(all.take(i + 1).last() == header_value_bytes(*values@[i as int]));
        }
        match value_to_str(values[i]) {
            Some(text) => {
                let line = text.to_owned();
                proof {
                    text::lemma_texts_push(r@, line);
                }
                r.push(line);
            },
            None => {},
        }
        i = i + 1;
    }
    assert(all.take(i as int) =~= all);
    r
}

/// Whether a header value can carry `text`.
pub fn is_header_safe(text: &str) -> (r: bool)
    ensures
        r == header_safe(text@),
{
    let v = text::chars_of(text);
    let mut i: usize = 0;
    while i < v.len()
        invariant
            v@ == text@,
            i <= v@.len(),
            forall|j: int| 0 <= j < i ==> safe_char(#[trigger] v@[j]),
        decreases v.len() - i,
    {
        let c = v[i];
        if !((' ' <= c && c != '\u{7f}') || c == '\t') {
            assert(!safe_char(text@[i as int]));
            return false;
        }
        i = i + 1;
    }
    true
}

/// A numeral is safe.
pub proof fn lemma_decimal_safe(n: nat)
    ensures
        header_safe(text::decimal_text(n)),
    decreases n,
{
    if n >= 10 {
        lemma_decimal_safe(n / 10);
    }
}

/// Text of printable ASCII characters.
pub open spec fn printable(text: Seq<char>) -> bool {
    forall|i: int| 0 <= i < text.len() ==> ' ' <= #[trigger] text[i] <= '~'
}

/// Printable text is safe.
pub proof fn lemma_printable_safe(text: Seq<char>)
    requires
        printable(text),
    ensures
        header_safe(text),
{
}

/// A numeral is printable.
pub proof fn lemma_decimal_printable(n: nat)
    ensures
        printable(text::decimal_text(n)),
    decreases n,
{
    if n >= 10 {
        lemma_decimal_printable(n / 10);
    }
}

/// Printable text can be read back from the bytes of a header value.
pub proof fn lemma_printable_shown(text: Seq<char>)
    requires
        printable(text),
    ensures
        visible(vstd::utf8::encode_utf8(text)),
        ascii_text(vstd::utf8::encode_utf8(text)) == text,
{
    vstd::utf8::is_ascii_chars_encode_utf8(text);
    assert(ascii_text(vstd::utf8::encode_utf8(text)) =~= text);
}

/// A header is read as text exactly when it is there and its first value has only printable ASCII
/// characters and tabs; the text has a character for each byte, with the code of the byte.
pub proof fn law_first_value_is_read(headers: HeaderMap, name: Seq<char>)
    ensures
        ({
            let fields = header_fields(headers);
            let bytes = fields[name][0];
            &&& header_text_of(headers, name) is Some <==> {
                &&& fields.contains_key(name)
                &&& fields[name].len() > 0
                &&& forall|i: int|
                    0 <= i < bytes.len() ==> 32 <= #[trigger] bytes[i] <= 126 || bytes[i] == 9
            }
            &&& header_text_of(headers, name) matches Some(t) ==> {
                &&& t.len() == bytes.len()
                &&& forall|i: int| 0 <= i < t.len() ==> #[trigger] t[i] as int == bytes[i] as int
            }
        }),
{
    let fields = header_fields(headers);
    if fields.contains_key(name) && fields[name].len() > 0 {
        let bytes = fields[name][0];
        if visible(bytes) {
            assert forall|i: int| 0 <= i < bytes.len() implies 32 <= #[trigger] bytes[i] <= 126
                || bytes[i] == 9 by {
                assert(visible_byte(bytes[i]));
            }
        } else {
            let i = choose|i: int| 0 <= i < bytes.len() && !visible_byte(#[trigger] bytes[i]);
            assert(!(32 <= bytes[i] <= 126 || bytes[i] == 9));
        }
    }
}

/// Each value of a header counts by itself: it adds its text to those before it, or nothing when
/// it has a byte that is no printable ASCII character and no tab.
pub proof fn law_values_read_one_by_one(values: Seq<Seq<u8>>, last: Seq<u8>)
    ensures
        readable(Seq::empty()).len() == 0,
        (forall|i: int| 0 <= i < last.len() ==> 32 <= #[trigger] last[i] <= 126 || last[i] == 9)
            ==> {
            &&& readable(values.push(last)).len() == readable(values).len() + 1
            &&& readable(values.push(last)).drop_last() == readable(values)
            &&& readable(values.push(last)).last().len() == last.len()
            &&& forall|i: int|
                0 <= i < last.len() ==> #[trigger] readable(values.push(last)).last()[i] as int
                    == last[i] as int
        },
        !(forall|i: int| 0 <= i < last.len() ==> 32 <= #[trigger] last[i] <= 126 || last[i] == 9)
            ==> readable(values.push(last)) == readable(values),
{
    let all = values.push(last);
    assert(all.drop_last() =~= values);
    assert(all.last() == last);
    if forall|i: int| 0 <= i < last.len() ==> 32 <= #[trigger] last[i] <= 126 || last[i] == 9 {
        assert(visible(last));
        assert(readable(all) == readable(values).push(ascii_text(last)));
        assert(readable(all).drop_last() =~= readable(values));
    } else {
        let i = choose|i: int|
            0 <= i < last.len() && !(32 <= #[trigger] last[i] <= 126 || last[i] == 9);
        assert(!visible_byte(last[i]));
        assert(!visible(last));
    }
}

/// A header carries exactly the texts without ASCII control characters, the tab aside.
pub proof fn law_control_characters_unsafe(text: Seq<char>)
    ensures
        header_safe(text) <==> forall|i: int|
            0 <= i < text.len() ==> {
                let code = #[trigger] text[i] as int;
                code == 9 || (code >= 32 && code != 127)
            },
{
    if header_safe(text) {
        assert forall|i: int| 0 <= i < text.len() implies {
            let code = #[trigger] text[i] as int;
            code == 9 || (code >= 32 && code != 127)
        } by {
            assert(safe_char(text[i]));
        }
    } else {
        let i = choose|i: int| 0 <= i < text.len() && !safe_char(#[trigger] text[i]);
        let code = text[i] as int;
        assert(!(code == 9 || (code >= 32 && code != 127)));
    }
}

} // verus!
