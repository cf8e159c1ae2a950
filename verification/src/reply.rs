//! What the server answers.

use axum::http::{HeaderMap, HeaderValue};
use serde_json::Value;
use vstd::prelude::*;

use crate::headers;
use crate::json;
use crate::json::Json;
use crate::log::Log;

verus! {

/// The body of a reply, by the kind of its content.
pub enum Body {
    Text(&'static str),
    Html(&'static str),
    Json(Value),
}

/// A reply: status, headers, body, and the lines to print about the request and it.
pub struct Reply {
    pub status: u16,
    pub headers: HeaderMap,
    pub body: Body,
    pub log: Log,
}

/// What a body holds.
#[verifier::ext_equal]
pub enum BodyView {
    Text(Seq<char>),
    Html(Seq<char>),
    Json(Json),
}

/// What a reply holds.
#[verifier::ext_equal]
pub struct ReplyView {
    pub status: u16,
    pub headers: Map<Seq<char>, Seq<Seq<u8>>>,
    pub body: BodyView,
    pub log: Seq<Seq<char>>,
}

impl View for Body {
    type V = BodyView;

    open spec fn view(&self) -> BodyView {
        match *self {
            Body::Text(t) => BodyView::Text(t@),
            Body::Html(t) => BodyView::Html(t@),
            Body::Json(v) => BodyView::Json(json::json_view(v)),
        }
    }
}

impl View for Reply {
    type V = ReplyView;

    open spec fn view(&self) -> ReplyView {
        ReplyView {
            status: self.status,
            headers: headers::header_fields(self.headers),
            body: self.body@,
            log: self.log@,
        }
    }
}

/// The one field `name`, with the value `text`.
pub open spec fn field(name: Seq<char>, text: Seq<char>) -> Map<Seq<char>, Seq<Seq<u8>>> {
    headers::no_fields().insert(name, seq![vstd::utf8::encode_utf8(text)])
}

/// The two fields `name1` and `name2`, with the values `text1` and `text2`.
pub open spec fn two_fields(
    name1: Seq<char>,
    text1: Seq<char>,
    name2: Seq<char>,
    text2: Seq<char>,
) -> Map<Seq<char>, Seq<Seq<u8>>> {
    field(name1, text1).insert(name2, seq![vstd::utf8::encode_utf8(text2)])
}

/// `text` as a header value.
pub(crate) fn header_value(text: &str) -> (r: HeaderValue)
    requires
        headers::header_safe(text@),
    ensures
        headers::header_value_bytes(r) == vstd::utf8::encode_utf8(text@),
{
    headers::value_from_str(text).unwrap()
}

/// A header map with the one field `name`.
pub(crate) fn with_field(name: &'static str, text: &str) -> (r: HeaderMap)
    requires
        headers::plain_name(name@),
        headers::header_safe(text@),
    ensures
        headers::header_fields(r) == field(name@, text@),
{
    let mut r = headers::headers_new();
    headers::headers_insert(&mut r, headers::name_from_static(name), header_value(text));
    r
}

/// Adds the field `name` to a header map with one field.
pub(crate) fn add_field(r: &mut HeaderMap, name: &'static str, text: &str)
    requires
        headers::header_fields(*old(r)).dom().finite(),
        headers::header_fields(*old(r)).dom().len() <= 1,
        headers::plain_name(name@),
        headers::header_safe(text@),
    ensures
        headers::header_fields(*final(r)) == headers::header_fields(*old(r)).insert(
            name@,
            seq![vstd::utf8::encode_utf8(text@)],
        ),
{
    headers::headers_insert(r, headers::name_from_static(name), header_value(text));
}

impl Reply {
    /// A reply of plain text.
    pub fn text(status: u16, text: &'static str, log: Log) -> (r: Reply)
        ensures
            r@ == (ReplyView {
                status,
                headers: headers::no_fields(),
                body: BodyView::Text(text@),
                log: log@,
            }),
    {
        Reply { status, headers: headers::headers_new(), body: Body::Text(text), log }
    }
}

/// What is said of a reply is said of what the caller gets: its status, its fields, its body and
/// its lines.
pub proof fn law_reply_is_what_it_says(r: Reply)
    ensures
        r@.status == r.status,
        r@.headers == headers::header_fields(r.headers),
        r@.log.len() == r.log.lines@.len(),
        forall|i: int| 0 <= i < r.log.lines@.len() ==> #[trigger] r@.log[i] == r.log.lines@[i]@,
        r.body matches Body::Text(t) ==> r@.body == BodyView::Text(t@),
        r.body matches Body::Html(t) ==> r@.body == BodyView::Html(t@),
        r.body matches Body::Json(v) ==> r@.body == BodyView::Json(json::json_view(v)),
{
}

} // verus!
