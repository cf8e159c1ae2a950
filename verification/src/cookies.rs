//! The cookies of a request.

use axum::http::HeaderMap;
use vstd::prelude::*;

use crate::headers;
use crate::text;

verus! {

/// The texts of the `Cookie` headers of a request, in order. A request can carry several.
pub open spec fn request_cookies(headers: HeaderMap) -> Seq<Seq<char>> {
    headers::readable(headers::values_of(headers, "cookie"@))
}

/// All `Cookie` headers in one text, for the log.
pub open spec fn shown_cookies(lines: Seq<Seq<char>>) -> Seq<char> {
    let joined = text::join_text(lines, "; "@);
    if joined.len() == 0 {
        "(none)"@
    } else {
        joined
    }
}

/// The value of the first of `pieces` that reads `name=value`, white space around it aside.
pub open spec fn value_in_pieces(pieces: Seq<Seq<char>>, name: Seq<char>) -> Option<Seq<char>>
    decreases pieces.len(),
{
    if pieces.len() == 0 {
        None
    } else {
        let piece = text::trim_text(pieces.first());
        let prefix = name + "="@;
        if prefix.is_prefix_of(piece) {
            Some(piece.skip(prefix.len() as int))
        } else {
            value_in_pieces(pieces.drop_first(), name)
        }
    }
}

/// The value of the cookie `name` in one `Cookie` header, whose cookies are parted by semicolons.
pub open spec fn value_in_line(line: Seq<char>, name: Seq<char>) -> Option<Seq<char>> {
    value_in_pieces(text::split_text(line, ';'), name)
}

/// The value of the cookie `name` in the first of `lines` that has it.
pub open spec fn value_in_lines(lines: Seq<Seq<char>>, name: Seq<char>) -> Option<Seq<char>>
    decreases lines.len(),
{
    if lines.len() == 0 {
        None
    } else {
        match value_in_line(lines.first(), name) {
            Some(value) => Some(value),
            None => value_in_lines(lines.drop_first(), name),
        }
    }
}

/// The texts of all the `Cookie` headers of a request, in order.
pub fn cookie_lines(headers: &HeaderMap) -> (r: Vec<String>)
    ensures
        text::texts(r@) == request_cookies(*headers),
{
    proof {
        reveal_strlit("cookie");
    }
    headers::header_texts(headers, "cookie")
}

/// `lines` in one text, for the log.
pub fn show_cookies(lines: &Vec<String>) -> (r: String)
    ensures
        r@ == shown_cookies(text::texts(lines@)),
{
    let joined = text::join(lines, "; ");
    if joined.as_str().is_empty() {
        "(none)".to_owned()
    } else {
        joined
    }
}

/// All `Cookie` headers of a request in one text: every one of them, not the first only.
pub fn cookie_in(headers: &HeaderMap) -> (r: String)
    ensures
        r@ == shown_cookies(request_cookies(*headers)),
{
    show_cookies(&cookie_lines(headers))
}

/// The value of the cookie `name` in one `Cookie` header.
pub fn find_in_line(line: &str, name: &str) -> (r: Option<String>)
    ensures
        text::opt_text(r) == value_in_line(line@, name@),
{
    let pieces = text::split(line, ';');
    let prefix = text::cat2(name, "=");
    let ghost all = text::texts(pieces@);
    let mut i: usize = 0;
    assert(all.skip(0) =~= all);
    while i < pieces.len()
        invariant
            all == text::texts(pieces@),
            all == text::split_text(line@, ';'),
            i <= pieces@.len(),
            prefix@ == name@ + "="@,
            value_in_pieces(all, name@) == value_in_pieces(all.skip(i as int), name@),
        decreases pieces.len() - i,
    {
        let piece = text::trim(pieces[i].as_str());
        assert(all.skip(i as int).first() == pieces@[i as int]@);
        assert(all.skip(i as int).drop_first() =~= all.skip(i + 1));
        match text::strip_prefix(piece.as_str(), prefix.as_str()) {
            Some(value) => {
                assert(prefix@ =~= piece@.subrange(0, prefix@.len() as int));
                assert(piece@.skip(prefix@.len() as int) =~= value@);
                return Some(value);
            },
            None => {},
        }
        i = i + 1;
    }
    None
}

/// The value of the cookie `name` in `lines`, the first one that there is.
pub fn find_cookie(lines: &Vec<String>, name: &str) -> (r: Option<String>)
    ensures
        text::opt_text(r) == value_in_lines(text::texts(lines@), name@),
{
    let ghost all = text::texts(lines@);
    let mut i: usize = 0;
    assert(all.skip(0) =~= all);
    while i < lines.len()
        invariant
            all == text::texts(lines@),
            i <= lines@.len(),
            value_in_lines(all, name@) == value_in_lines(all.skip(i as int), name@),
        decreases lines.len() - i,
    {
        assert(all.skip(i as int).first() == lines@[i as int]@);
        assert(all.skip(i as int).drop_first() =~= all.skip(i + 1));
        let found = find_in_line(lines[i].as_str(), name);
        if found.is_some() {
            return found;
        }
        i = i + 1;
    }
    None
}

/// The value of the cookie `name` on a request, across all its `Cookie` headers.
pub fn cookie_value(headers: &HeaderMap, name: &str) -> (r: Option<String>)
    ensures
        text::opt_text(r) == value_in_lines(request_cookies(*headers), name@),
{
    find_cookie(&cookie_lines(headers), name)
}

/// The pieces of a `Cookie` header that holds `pairs`, parted by a semicolon and a space.
proof fn lemma_pieces(pairs: Seq<Seq<char>>)
    requires
        pairs.len() > 0,
        forall|i: int, j: int|
            0 <= i < pairs.len() && 0 <= j < pairs[i].len() ==> #[trigger] pairs[i][j] != ';',
    ensures
        ({
            let pieces = text::split_text(text::join_text(pairs, "; "@), ';');
            &&& pieces.len() == pairs.len()
            &&& forall|i: int|
                0 <= i < pairs.len() ==> text::trim_text(#[trigger] pieces[i]) == text::trim_text(
                    pairs[i],
                )
        }),
    decreases pairs.len(),
{
    reveal_strlit("; ");
    let line = text::join_text(pairs, "; "@);
    let pieces = text::split_text(line, ';');
    if pairs.len() == 1 {
        assert forall|j: int| 0 <= j < line.len() implies line[j] != ';' by {
            assert(pairs[0][j] != ';');
        }
        text::lemma_split_single(line, ';');
    } else {
        let front = pairs.drop_last();
        assert forall|i: int, j: int|
            0 <= i < front.len() && 0 <= j < front[i].len() implies #[trigger] front[i][j]
            != ';' by {
            assert(pairs[i][j] != ';');
        }
        lemma_pieces(front);
        let before = text::join_text(front, "; "@);
        let last = seq![' '] + pairs.last();
        assert forall|j: int| 0 <= j < last.len() implies last[j] != ';' by {
            if j > 0 {
                assert(pairs[pairs.len() - 1][j - 1] != ';');
            }
        }
        assert(line =~= before.push(';') + last);
        text::lemma_split_append(before, last, ';');
        text::lemma_trim_space(pairs.last());
        assert forall|i: int| 0 <= i < pairs.len() implies text::trim_text(#[trigger] pieces[i])
            == text::trim_text(pairs[i]) by {
            if i < front.len() {
                assert(pieces[i] == text::split_text(before, ';')[i]);
                assert(pairs[i] == front[i]);
            }
        }
    }
}

/// Only what is left of a piece once it is trimmed counts.
proof fn lemma_pieces_alike(a: Seq<Seq<char>>, b: Seq<Seq<char>>, name: Seq<char>)
    requires
        a.len() == b.len(),
        forall|i: int|
            0 <= i < a.len() ==> text::trim_text(#[trigger] a[i]) == text::trim_text(b[i]),
    ensures
        value_in_pieces(a, name) == value_in_pieces(b, name),
    decreases a.len(),
{
    if a.len() > 0 {
        assert(text::trim_text(a[0]) == text::trim_text(b[0]));
        assert forall|i: int| 0 <= i < a.drop_first().len() implies text::trim_text(
            #[trigger] a.drop_first()[i],
        ) == text::trim_text(b.drop_first()[i]) by {
            assert(text::trim_text(a[i + 1]) == text::trim_text(b[i + 1]));
        }
        lemma_pieces_alike(a.drop_first(), b.drop_first(), name);
    }
}

/// A `Cookie` header that holds `pairs` gives the value of the first of them that has the name.
pub proof fn law_header_gives_first_pair(pairs: Seq<Seq<char>>, name: Seq<char>)
    requires
        pairs.len() > 0,
        forall|i: int, j: int|
            0 <= i < pairs.len() && 0 <= j < pairs[i].len() ==> #[trigger] pairs[i][j] != ';',
    ensures
        value_in_line(text::join_text(pairs, "; "@), name) == value_in_pieces(pairs, name),
{
    lemma_pieces(pairs);
    lemma_pieces_alike(text::split_text(text::join_text(pairs, "; "@), ';'), pairs, name);
}

/// A cookie that was set to a value is read back with that value from a `Cookie` header that
/// holds it, after other cookies or not. Its name and its value hold no semicolon, and there is
/// no white space around the pair.
pub proof fn law_cookie_read_back(others: Seq<Seq<char>>, name: Seq<char>, value: Seq<char>)
    requires
        forall|i: int, j: int|
            0 <= i < others.len() && 0 <= j < others[i].len() ==> #[trigger] others[i][j] != ';',
        forall|j: int| 0 <= j < name.len() ==> #[trigger] name[j] != ';',
        forall|j: int| 0 <= j < value.len() ==> #[trigger] value[j] != ';',
        name.len() > 0 ==> !text::is_white(name.first()),
        value.len() > 0 ==> !text::is_white(value.last()),
        value_in_pieces(others, name) is None,
    ensures
        value_in_line(text::join_text(others.push(name + "="@ + value), "; "@), name) == Some(
            value,
        ),
{
    reveal_strlit("=");
    let pair = name + "="@ + value;
    let pairs = others.push(pair);
    assert forall|i: int, j: int|
        0 <= i < pairs.len() && 0 <= j < pairs[i].len() implies #[trigger] pairs[i][j] != ';' by {
        if i < others.len() {
            assert(others[i][j] != ';');
        } else if j < name.len() {
            assert(pair[j] == name[j]);
        } else if j > name.len() {
            assert(pair[j] == value[j - name.len() - 1]);
        }
    }
    law_header_gives_first_pair(pairs, name);
    assert(pair.first() == (if name.len() > 0 {
        name.first()
    } else {
        '='
    }));
    assert(pair.last() == (if value.len() > 0 {
        value.last()
    } else {
        '='
    }));
    text::lemma_trim_same(pair);
    lemma_after_others(others, pair, name);
    let prefix = name + "="@;
    assert(prefix =~= pair.subrange(0, prefix.len() as int));
    assert(pair.skip(prefix.len() as int) =~= value);
    let last = seq![pair];
    assert(last.first() == pair);
}

/// A piece counts when none before it has the name.
proof fn lemma_after_others(others: Seq<Seq<char>>, piece: Seq<char>, name: Seq<char>)
    requires
        value_in_pieces(others, name) is None,
    ensures
        value_in_pieces(others.push(piece), name) == value_in_pieces(seq![piece], name),
    decreases others.len(),
{
    let all = others.push(piece);
    if others.len() == 0 {
        assert(all =~= seq![piece]);
    } else {
        assert(all.drop_first() =~= others.drop_first().push(piece));
        lemma_after_others(others.drop_first(), piece, name);
    }
}

/// Every `Cookie` header counts: what the first ones do not have is found in the later ones.
pub proof fn law_every_header_counts(
    first: Seq<Seq<char>>,
    later: Seq<Seq<char>>,
    name: Seq<char>,
)
    ensures
        value_in_lines(first + later, name) == (match value_in_lines(first, name) {
            Some(value) => Some(value),
            None => value_in_lines(later, name),
        }),
    decreases first.len(),
{
    if first.len() == 0 {
        assert(first + later =~= later);
    } else {
        assert((first + later).drop_first() =~= first.drop_first() + later);
        law_every_header_counts(first.drop_first(), later, name);
    }
}

/// The first piece that has the name decides, and none decides when none has it.
proof fn lemma_first_piece(pieces: Seq<Seq<char>>, name: Seq<char>) -> (found: int)
    ensures
        ({
            let prefix = name + "="@;
            match value_in_pieces(pieces, name) {
                Some(value) => {
                    &&& 0 <= found < pieces.len()
                    &&& text::trim_text(pieces[found]) == prefix + value
                    &&& forall|l: int|
                        0 <= l < found ==> !prefix.is_prefix_of(
                            text::trim_text(#[trigger] pieces[l]),
                        )
                },
                None => forall|l: int|
                    0 <= l < pieces.len() ==> !prefix.is_prefix_of(
                        text::trim_text(#[trigger] pieces[l]),
                    ),
            }
        }),
    decreases pieces.len(),
{
    let prefix = name + "="@;
    if pieces.len() == 0 {
        0
    } else {
        let piece = text::trim_text(pieces.first());
        if prefix.is_prefix_of(piece) {
            assert(piece =~= prefix + piece.skip(prefix.len() as int));
            0
        } else {
            let rest = pieces.drop_first();
            let found = lemma_first_piece(rest, name);
            assert forall|l: int|
                0 <= l < pieces.len() && (value_in_pieces(pieces, name) is None || l < found
                    + 1) implies !prefix.is_prefix_of(
                text::trim_text(#[trigger] pieces[l]),
            ) by {
                if l > 0 {
                    assert(pieces[l] == rest[l - 1]);
                }
            }
            found + 1
        }
    }
}

/// The value of a cookie is what stands behind `name=` in the first piece between semicolons that
/// starts so, white space around the piece aside; there is none exactly when no piece starts so.
pub proof fn law_value_stands_behind_name(line: Seq<char>, name: Seq<char>)
    ensures
        ({
            let prefix = name + "="@;
            let pieces = text::split_text(line, ';');
            match value_in_line(line, name) {
                Some(value) => exists|j: int|
                    {
                        &&& 0 <= j < pieces.len()
                        &&& text::trim_text(#[trigger] pieces[j]) == prefix + value
                        &&& forall|l: int|
                            0 <= l < j ==> !prefix.is_prefix_of(
                                text::trim_text(#[trigger] pieces[l]),
                            )
                    },
                None => forall|l: int|
                    0 <= l < pieces.len() ==> !prefix.is_prefix_of(
                        text::trim_text(#[trigger] pieces[l]),
                    ),
            }
        }),
{
    let found = lemma_first_piece(text::split_text(line, ';'), name);
    if value_in_line(line, name) is Some {
        assert(text::trim_text(text::split_text(line, ';')[found]) == name + "="@
            + value_in_line(line, name)->0);
    }
}

/// A request with one `Cookie` header has the cookies of that header, and one without has none.
pub proof fn law_one_header_or_none(line: Seq<char>, name: Seq<char>)
    ensures
        value_in_lines(Seq::empty(), name) is None,
        value_in_lines(seq![line], name) == value_in_line(line, name),
{
    let lines = seq![line];
    assert(lines.first() == line);
    assert(lines.drop_first() =~= Seq::empty());
}

/// The cookies of a request are read from all the values of its `Cookie` field.
pub proof fn law_cookies_come_from_cookie_field(headers: HeaderMap)
    ensures
        !headers::header_fields(headers).contains_key("cookie"@) ==> request_cookies(headers).len()
            == 0,
        headers::header_fields(headers).contains_key("cookie"@) ==> request_cookies(headers)
            == headers::readable(headers::header_fields(headers)["cookie"@]),
{
}

/// What is shown of the cookies is all of them, with a semicolon and a space between headers; a
/// word stands for no cookies at all, and what is shown is never empty.
pub proof fn law_all_cookies_shown(lines: Seq<Seq<char>>, last: Seq<char>)
    ensures
        shown_cookies(Seq::empty()) == "(none)"@,
        last.len() > 0 ==> shown_cookies(seq![last]) == last,
        last.len() == 0 ==> shown_cookies(seq![last]) == "(none)"@,
        lines.len() > 0 ==> shown_cookies(lines.push(last)) == text::join_text(lines, "; "@) + "; "@
            + last,
        shown_cookies(lines).len() > 0,
{
    reveal_strlit("; ");
    reveal_strlit("(none)");
    text::law_join_grows(lines, last, "; "@);
}

} // verus!
