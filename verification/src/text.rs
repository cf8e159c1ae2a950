//! Text as sequences of characters: decimal numerals, trimming, splitting and joining.

use vstd::prelude::*;

verus! {

/// `String::push`: one more character at the end, everything before it unchanged.
pub assume_specification[ String::push ](s: &mut String, ch: char)
    ensures
        final(s)@ == old(s)@.push(ch),
;

/// The decimal digit `d`.
pub open spec fn digit(d: nat) -> char {
    (48 + d) as char
}

/// The decimal numeral of `n`, without leading zeros.
pub open spec fn decimal_text(n: nat) -> Seq<char>
    decreases n,
{
    if n < 10 {
        seq![digit(n)]
    } else {
        decimal_text(n / 10).push(digit(n % 10))
    }
}

/// What each of the strings of `v` holds.
pub open spec fn texts(v: Seq<String>) -> Seq<Seq<char>> {
    Seq::new(v.len(), |i: int| v[i]@)
}

/// What an optional string holds.
pub open spec fn opt_text(s: Option<String>) -> Option<Seq<char>> {
    match s {
        Some(t) => Some(t@),
        None => None,
    }
}

/// The characters with the Unicode property `White_Space`.
pub open spec fn is_white(c: char) -> bool {
    ||| '\u{9}' <= c <= '\u{d}'
    ||| c == '\u{20}'
    ||| c == '\u{85}'
    ||| c == '\u{a0}'
    ||| c == '\u{1680}'
    ||| '\u{2000}' <= c <= '\u{200a}'
    ||| c == '\u{2028}'
    ||| c == '\u{2029}'
    ||| c == '\u{202f}'
    ||| c == '\u{205f}'
    ||| c == '\u{3000}'
}

/// `s` without the white space that it starts with.
pub open spec fn trim_start_text(s: Seq<char>) -> Seq<char>
    decreases s.len(),
{
    if s.len() > 0 && is_white(s.first()) {
        trim_start_text(s.drop_first())
    } else {
        s
    }
}

/// `s` without the white space that it ends with.
pub open spec fn trim_end_text(s: Seq<char>) -> Seq<char>
    decreases s.len(),
{
    if s.len() > 0 && is_white(s.last()) {
        trim_end_text(s.drop_last())
    } else {
        s
    }
}

/// `s` without the white space at its two ends.
pub open spec fn trim_text(s: Seq<char>) -> Seq<char> {
    trim_end_text(trim_start_text(s))
}

/// The pieces of `s` between the occurrences of `sep`: one more than there are occurrences.
pub open spec fn split_text(s: Seq<char>, sep: char) -> Seq<Seq<char>>
    decreases s.len(),
{
    if s.len() == 0 {
        seq![s]
    } else {
        let pieces = split_text(s.drop_last(), sep);
        if s.last() == sep {
            pieces.push(Seq::empty())
        } else {
            pieces.drop_last().push(pieces.last().push(s.last()))
        }
    }
}

/// `parts` one after the other, with `sep` between neighbours.
pub open spec fn join_text(parts: Seq<Seq<char>>, sep: Seq<char>) -> Seq<char>
    decreases parts.len(),
{
    if parts.len() == 0 {
        Seq::empty()
    } else if parts.len() == 1 {
        parts[0]
    } else {
        join_text(parts.drop_last(), sep) + sep + parts.last()
    }
}

/// A character as it stands between double quotes.
pub open spec fn escaped(c: char) -> Seq<char> {
    if c == '"' {
        seq!['\\', '"']
    } else if c == '\\' {
        seq!['\\', '\\']
    } else if c == '\t' {
        seq!['\\', 't']
    } else {
        seq![c]
    }
}

/// Visible text as it stands between double quotes.
pub open spec fn escaped_text(s: Seq<char>) -> Seq<char>
    decreases s.len(),
{
    if s.len() == 0 {
        Seq::empty()
    } else {
        escaped_text(s.drop_last()) + escaped(s.last())
    }
}

/// An optional text, as it is shown to a programmer. The text is visible, as that of a header is.
pub open spec fn debug_text(s: Option<Seq<char>>) -> Seq<char> {
    match s {
        Some(t) => "Some(\""@ + escaped_text(t) + "\")"@,
        None => "None"@,
    }
}

/// A truth value in a word.
pub open spec fn bool_text(b: bool) -> Seq<char> {
    if b {
        "true"@
    } else {
        "false"@
    }
}

/// One more string is one more text.
pub proof fn lemma_texts_push(v: Seq<String>, s: String)
    ensures
        texts(v.push(s)) == texts(v).push(s@),
{
    assert(texts(v.push(s)) =~= texts(v).push(s@));
}

/// The numeral of `n` in decimal.
pub fn decimal(n: u64) -> (s: String)
    ensures
        s@ == decimal_text(n as nat),
    decreases n,
{
    let d: u8 = (n % 10) as u8;
    let c: char = (48 + d) as char;
    let mut s = if n < 10 {
        String::new()
    } else {
        decimal(n / 10)
    };
    s.push(c);
    proof {
        if n < 10 {
            assert(s@ =~= seq![digit(n as nat)]);
        }
    }
    s
}

/// The characters of `s`, to be looked at by position.
pub fn chars_of(s: &str) -> (v: Vec<char>)
    ensures
        v@ == s@,
{
    let mut v: Vec<char> = Vec::new();
    for c in it: s.chars()
        invariant
            it.seq() == s@,
            v@ == s@.take(it.index() as int),
    {
        v.push(c);
        assert(s@.take(it.index() + 1) =~= s@.take(it.index() as int).push(c));
    }
    assert(s@.take(s@.len() as int) =~= s@);
    v
}

/// The string of the characters of `v` from `from` up to `to`.
pub fn string_of(v: &Vec<char>, from: usize, to: usize) -> (s: String)
    requires
        from <= to <= v@.len(),
    ensures
        s@ == v@.subrange(from as int, to as int),
{
    let mut s = String::new();
    let mut i: usize = from;
    assert(v@.subrange(from as int, from as int) =~= Seq::empty());
    while i < to
        invariant
            from <= i <= to <= v@.len(),
            s@ == v@.subrange(from as int, i as int),
        decreases to - i,
    {
        s.push(v[i]);
        i = i + 1;
        assert(v@.subrange(from as int, i as int) =~= v@.subrange(from as int, i - 1).push(
            v@[i - 1],
        ));
    }
    s
}

/// Whether `c` is white space.
pub fn is_white_space(c: char) -> (r: bool)
    ensures
        r == is_white(c),
{
    ('\u{9}' <= c && c <= '\u{d}') || c == '\u{20}' || c == '\u{85}' || c == '\u{a0}' || c
        == '\u{1680}' || ('\u{2000}' <= c && c <= '\u{200a}') || c == '\u{2028}' || c
        == '\u{2029}' || c == '\u{202f}' || c == '\u{205f}' || c == '\u{3000}'
}

/// `s` without the white space at its two ends.
pub fn trim(s: &str) -> (r: String)
    ensures
        r@ == trim_text(s@),
{
    let v = chars_of(s);
    let mut from: usize = 0;
    assert(v@.skip(0) =~= v@);
    while from < v.len() && is_white_space(v[from])
        invariant
            from <= v@.len(),
            trim_start_text(v@) == trim_start_text(v@.skip(from as int)),
        decreases v.len() - from,
    {
        assert(v@.skip(from as int).drop_first() =~= v@.skip(from + 1));
        from = from + 1;
    }
    let ghost rest = v@.skip(from as int);
    assert(trim_start_text(v@) == rest);
    let mut to: usize = v.len();
    assert(v@.subrange(from as int, to as int) =~= rest);
    while to > from && is_white_space(v[to - 1])
        invariant
            from <= to <= v@.len(),
            trim_end_text(rest) == trim_end_text(v@.subrange(from as int, to as int)),
        decreases to,
    {
        assert(v@.subrange(from as int, to as int).drop_last() =~= v@.subrange(
            from as int,
            to - 1,
        ));
        to = to - 1;
    }
    string_of(&v, from, to)
}

/// The pieces of `s` between the occurrences of `sep`.
pub fn split(s: &str, sep: char) -> (pieces: Vec<String>)
    ensures
        texts(pieces@) == split_text(s@, sep),
{
    let mut done: Vec<String> = Vec::new();
    let mut piece = String::new();
    assert(s@.take(0) =~= Seq::empty());
    assert(texts(done@).push(piece@) =~= seq![s@.take(0)]);
    for c in it: s.chars()
        invariant
            it.seq() == s@,
            texts(done@).push(piece@) == split_text(s@.take(it.index() as int), sep),
    {
        let ghost before = texts(done@).push(piece@);
        proof {
            let now = s@.take(it.index() + 1);
            assert(now.drop_last() =~= s@.take(it.index() as int));
            assert(now.last() == c);
            assert(before.drop_last() =~= texts(done@));
        }
        if c == sep {
            proof {
                lemma_texts_push(done@, piece);
            }
            done.push(piece);
            piece = String::new();
        } else {
            piece.push(c);
        }
    }
    assert(s@.take(s@.len() as int) =~= s@);
    proof {
        lemma_texts_push(done@, piece);
    }
    done.push(piece);
    done
}

/// What follows `prefix` in `s`, when `s` starts with `prefix`.
pub fn strip_prefix(s: &str, prefix: &str) -> (r: Option<String>)
    ensures
        match r {
            Some(rest) => s@ == prefix@ + rest@,
            None => !prefix@.is_prefix_of(s@),
        },
{
    let v = chars_of(s);
    let p = chars_of(prefix);
    if p.len() > v.len() {
        return None;
    }
    let mut i: usize = 0;
    while i < p.len()
        invariant
            v@ == s@,
            p@ == prefix@,
            i <= p@.len() <= v@.len(),
            v@.take(i as int) == p@.take(i as int),
        decreases p.len() - i,
    {
        if v[i] != p[i] {
            assert(v@[i as int] != p@[i as int]);
            return None;
        }
        assert(v@.take(i + 1) =~= v@.take(i as int).push(v@[i as int]));
        assert(p@.take(i + 1) =~= p@.take(i as int).push(p@[i as int]));
        i = i + 1;
    }
    let rest = string_of(&v, p.len(), v.len());
    assert(p@.take(i as int) =~= p@);
    assert(s@ =~= prefix@ + rest@);
    Some(rest)
}

/// `parts` one after the other, with `sep` between neighbours.
pub fn join(parts: &Vec<String>, sep: &str) -> (r: String)
    ensures
        r@ == join_text(texts(parts@), sep@),
{
    let mut r = String::new();
    let mut i: usize = 0;
    assert(texts(parts@).take(0) =~= Seq::empty());
    while i < parts.len()
        invariant
            i <= parts@.len(),
            r@ == join_text(texts(parts@).take(i as int), sep@),
        decreases parts.len() - i,
    {
        proof {
            let now = texts(parts@).take(i + 1);
            assert(now.drop_last() =~= texts(parts@).take(i as int));
            assert(now.last() == parts@[i as int]@);
        }
        if i > 0 {
            r.append(sep);
        }
        let ghost so_far = r@;
        r.append(parts[i].as_str());
        proof {
            if i == 0 {
                assert(so_far =~= Seq::empty());
                assert(r@ =~= parts@[0]@);
            }
        }
        i = i + 1;
    }
    assert(texts(parts@).take(i as int) =~= texts(parts@));
    r
}

/// The two texts, one after the other.
pub fn cat2(a: &str, b: &str) -> (r: String)
    ensures
        r@ == a@ + b@,
{
    let mut r = a.to_owned();
    r.append(b);
    r
}

/// The three texts, one after the other.
pub fn cat3(a: &str, b: &str, c: &str) -> (r: String)
    ensures
        r@ == a@ + b@ + c@,
{
    let mut r = a.to_owned();
    r.append(b);
    r.append(c);
    r
}

/// The four texts, one after the other.
pub fn cat4(a: &str, b: &str, c: &str, d: &str) -> (r: String)
    ensures
        r@ == a@ + b@ + c@ + d@,
{
    let mut r = cat3(a, b, c);
    r.append(d);
    r
}

/// The five texts, one after the other.
pub fn cat5(a: &str, b: &str, c: &str, d: &str, e: &str) -> (r: String)
    ensures
        r@ == a@ + b@ + c@ + d@ + e@,
{
    let mut r = cat3(a, b, c);
    r.append(d);
    r.append(e);
    r
}

/// Whether the two texts are the same.
pub fn same_text(a: &str, b: &str) -> (r: bool)
    ensures
        r == (a@ == b@),
{
    a.to_owned() == b.to_owned()
}

/// Visible text as it stands between double quotes.
fn escape(s: &str) -> (r: String)
    ensures
        r@ == escaped_text(s@),
{
    let mut r = String::new();
    assert(s@.take(0) =~= Seq::empty());
    for c in it: s.chars()
        invariant
            it.seq() == s@,
            r@ == escaped_text(s@.take(it.index() as int)),
    {
        let ghost before = r@;
        proof {
            let now = s@.take(it.index() + 1);
            assert(now.drop_last() =~= s@.take(it.index() as int));
            assert(now.last() == c);
        }
        if c == '"' || c == '\\' {
            r.push('\\');
            r.push(c);
        } else if c == '\t' {
            r.push('\\');
            r.push('t');
        } else {
            r.push(c);
        }
        assert(r@ =~= before + escaped(c));
    }
    assert(s@.take(s@.len() as int) =~= s@);
    r
}

/// An optional text, as it is shown to a programmer.
pub fn debug(s: &Option<String>) -> (r: String)
    ensures
        r@ == debug_text(opt_text(*s)),
{
    match s {
        Some(t) => cat3("Some(\"", escape(t.as_str()).as_str(), "\")"),
        None => "None".to_owned(),
    }
}

/// A truth value in a word.
pub fn bool_word(b: bool) -> (r: &'static str)
    ensures
        r@ == bool_text(b),
{
    if b {
        "true"
    } else {
        "false"
    }
}

/// Different numbers have different numerals.
pub proof fn lemma_decimal_injective(m: nat, n: nat)
    requires
        decimal_text(m) == decimal_text(n),
    ensures
        m == n,
    decreases m,
{
    let s = decimal_text(m);
    lemma_decimal_not_empty(m / 10);
    lemma_decimal_not_empty(n / 10);
    if m >= 10 && n >= 10 {
        assert(s.drop_last() =~= decimal_text(m / 10));
        assert(s.drop_last() =~= decimal_text(n / 10));
        assert(s.last() == digit(m % 10) && s.last() == digit(n % 10));
        lemma_decimal_injective(m / 10, n / 10);
    } else {
        assert(s.len() == 1);
        assert(s[0] == digit(m) && s[0] == digit(n));
    }
}

/// A numeral has a digit.
pub proof fn lemma_decimal_not_empty(n: nat)
    ensures
        decimal_text(n).len() > 0,
    decreases n,
{
    if n >= 10 {
        lemma_decimal_not_empty(n / 10);
    }
}

/// There is always a piece, and the pieces of a text, joined by the separator, are the text.
pub proof fn lemma_split_join(s: Seq<char>, sep: char)
    ensures
        split_text(s, sep).len() > 0,
        join_text(split_text(s, sep), seq![sep]) == s,
    decreases s.len(),
{
    let pieces = split_text(s, sep);
    if s.len() == 0 {
        assert(pieces =~= seq![s]);
    } else {
        let before = split_text(s.drop_last(), sep);
        lemma_split_join(s.drop_last(), sep);
        if s.last() == sep {
            assert(pieces.drop_last() =~= before);
            assert(join_text(pieces, seq![sep]) =~= s);
        } else {
            assert(pieces.drop_last() =~= before.drop_last());
            assert(join_text(pieces, seq![sep]) =~= join_text(before, seq![sep]).push(s.last()));
            assert(s.drop_last().push(s.last()) =~= s);
        }
    }
}

/// A text without the separator is its only piece.
pub proof fn lemma_split_single(s: Seq<char>, sep: char)
    requires
        forall|i: int| 0 <= i < s.len() ==> s[i] != sep,
    ensures
        split_text(s, sep) == seq![s],
    decreases s.len(),
{
    if s.len() > 0 {
        lemma_split_single(s.drop_last(), sep);
        let before = seq![s.drop_last()];
        assert(before.drop_last() =~= Seq::empty());
        assert(s.drop_last().push(s.last()) =~= s);
        assert(split_text(s, sep) =~= seq![s]);
    }
}

/// A text without white space at its ends is not changed by trimming.
pub proof fn lemma_trim_same(s: Seq<char>)
    requires
        s.len() > 0,
        !is_white(s.first()),
        !is_white(s.last()),
    ensures
        trim_text(s) == s,
{
}

/// After a separator comes a piece of its own.
pub proof fn lemma_split_append(a: Seq<char>, b: Seq<char>, sep: char)
    requires
        forall|i: int| 0 <= i < b.len() ==> b[i] != sep,
    ensures
        split_text(a.push(sep) + b, sep) == split_text(a, sep).push(b),
    decreases b.len(),
{
    let s = a.push(sep) + b;
    if b.len() == 0 {
        assert(s =~= a.push(sep));
        assert(s.drop_last() =~= a);
        assert(b =~= Seq::empty());
    } else {
        assert(s.drop_last() =~= a.push(sep) + b.drop_last());
        lemma_split_append(a, b.drop_last(), sep);
        let before = split_text(a, sep).push(b.drop_last());
        assert(before.drop_last() =~= split_text(a, sep));
        assert(b.drop_last().push(b.last()) =~= b);
    }
}

/// A space in front is trimmed away.
pub proof fn lemma_trim_space(s: Seq<char>)
    ensures
        trim_text(seq![' '] + s) == trim_text(s),
{
    assert((seq![' '] + s).drop_first() =~= s);
}

/// What is left of a text once it is trimmed has no white space at its ends.
pub proof fn lemma_trimmed(s: Seq<char>)
    ensures
        trim_text(s).len() > 0 ==> !is_white(trim_text(s).first()) && !is_white(
            trim_text(s).last(),
        ),
{
    lemma_start_trimmed(s);
    lemma_end_trimmed(trim_start_text(s));
}

/// What is left of a text once its start is trimmed does not start with white space.
proof fn lemma_start_trimmed(s: Seq<char>)
    ensures
        trim_start_text(s).len() > 0 ==> !is_white(trim_start_text(s).first()),
    decreases s.len(),
{
    if s.len() > 0 && is_white(s.first()) {
        lemma_start_trimmed(s.drop_first());
    }
}

/// What is left of a text once its end is trimmed starts as it did, and does not end in white
/// space.
proof fn lemma_end_trimmed(s: Seq<char>)
    ensures
        trim_end_text(s).len() > 0 ==> !is_white(trim_end_text(s).last()) && trim_end_text(
            s,
        ).first() == s.first(),
    decreases s.len(),
{
    if s.len() > 0 && is_white(s.last()) {
        lemma_end_trimmed(s.drop_last());
    }
}

/// The number that a row of decimal digits spells.
pub open spec fn numeral_value(s: Seq<char>) -> int
    decreases s.len(),
{
    if s.len() == 0 {
        0
    } else {
        numeral_value(s.drop_last()) * 10 + (s.last() as int - 48)
    }
}

/// A numeral is made of digits, does not start with a needless zero, and spells its number.
pub proof fn law_numeral_spells_number(n: nat)
    ensures
        decimal_text(n).len() > 0,
        forall|i: int|
            0 <= i < decimal_text(n).len() ==> '0' <= #[trigger] decimal_text(n)[i] <= '9',
        decimal_text(n).first() == '0' ==> decimal_text(n).len() == 1,
        numeral_value(decimal_text(n)) == n,
    decreases n,
{
    let t = decimal_text(n);
    if n >= 10 {
        let front = decimal_text(n / 10);
        law_numeral_spells_number(n / 10);
        assert(t.drop_last() =~= front);
        assert(t.last() == digit(n % 10));
        assert(t.first() == front.first());
        if front.first() == '0' {
            assert(front.drop_last() =~= Seq::empty());
            assert(numeral_value(front.drop_last()) == 0);
            assert(front.last() == front.first());
        }
        assert forall|i: int| 0 <= i < t.len() implies '0' <= #[trigger] t[i] <= '9' by {
            if i < front.len() {
                assert(t[i] == front[i]);
            }
        }
    } else {
        assert(t.drop_last() =~= Seq::empty());
        assert(numeral_value(t.drop_last()) == 0);
        assert(t.last() == digit(n));
    }
}

/// Splitting cuts at every separator and nowhere else: no piece holds one, and the pieces with
/// the separator between them are the text again.
pub proof fn law_split_cuts_at_separators(s: Seq<char>, sep: char)
    ensures
        split_text(s, sep).len() > 0,
        forall|i: int, j: int|
            0 <= i < split_text(s, sep).len() && 0 <= j < split_text(s, sep)[i].len()
                ==> #[trigger] split_text(s, sep)[i][j] != sep,
        join_text(split_text(s, sep), seq![sep]) == s,
    decreases s.len(),
{
    lemma_split_join(s, sep);
    if s.len() > 0 {
        law_split_cuts_at_separators(s.drop_last(), sep);
        lemma_split_join(s.drop_last(), sep);
        let pieces = split_text(s, sep);
        let before = split_text(s.drop_last(), sep);
        assert forall|i: int, j: int|
            0 <= i < pieces.len() && 0 <= j < pieces[i].len() implies #[trigger] pieces[i][j]
            != sep by {
            if i < before.len() && j < before[i].len() {
                assert(before[i][j] != sep);
            }
        }
    }
}

/// Pieces without the separator, put together with it, are what splitting gives.
pub proof fn law_split_inverts_join(pieces: Seq<Seq<char>>, sep: char)
    requires
        pieces.len() > 0,
        forall|i: int, j: int|
            0 <= i < pieces.len() && 0 <= j < pieces[i].len() ==> #[trigger] pieces[i][j] != sep,
    ensures
        split_text(join_text(pieces, seq![sep]), sep) == pieces,
    decreases pieces.len(),
{
    let whole = join_text(pieces, seq![sep]);
    if pieces.len() == 1 {
        assert forall|j: int| 0 <= j < whole.len() implies whole[j] != sep by {
            assert(pieces[0][j] != sep);
        }
        lemma_split_single(whole, sep);
        assert(pieces =~= seq![whole]);
    } else {
        let front = pieces.drop_last();
        assert forall|i: int, j: int|
            0 <= i < front.len() && 0 <= j < front[i].len() implies #[trigger] front[i][j]
            != sep by {
            assert(pieces[i][j] != sep);
        }
        law_split_inverts_join(front, sep);
        let last = pieces.last();
        assert forall|j: int| 0 <= j < last.len() implies last[j] != sep by {
            assert(pieces[pieces.len() - 1][j] != sep);
        }
        assert(whole =~= join_text(front, seq![sep]).push(sep) + last);
        lemma_split_append(join_text(front, seq![sep]), last, sep);
        assert(front.push(last) =~= pieces);
    }
}

/// Joining puts the separator between neighbours: nothing is made of nothing, one part stands as
/// it is, and each further part comes behind a separator.
pub proof fn law_join_grows(parts: Seq<Seq<char>>, last: Seq<char>, sep: Seq<char>)
    ensures
        join_text(Seq::empty(), sep).len() == 0,
        join_text(seq![last], sep) == last,
        parts.len() > 0 ==> join_text(parts.push(last), sep) == join_text(parts, sep) + sep + last,
{
    assert(parts.push(last).drop_last() =~= parts);
}

/// Trimming takes white space from the two ends, all of it, and nothing else.
pub proof fn law_trim_takes_white_ends(s: Seq<char>) -> (ends: (int, int))
    ensures
        0 <= ends.0 <= ends.1 <= s.len(),
        trim_text(s) == s.subrange(ends.0, ends.1),
        forall|i: int| 0 <= i < ends.0 ==> is_white(#[trigger] s[i]),
        forall|i: int| ends.1 <= i < s.len() ==> is_white(#[trigger] s[i]),
        ends.0 < ends.1 ==> !is_white(s[ends.0]) && !is_white(s[ends.1 - 1]),
{
    let from = lemma_start_cut(s);
    let rest = trim_start_text(s);
    let to = lemma_end_cut(rest);
    assert(trim_text(s) =~= s.subrange(from, from + to));
    assert forall|i: int| from + to <= i < s.len() implies is_white(#[trigger] s[i]) by {
        assert(rest[i - from] == s[i]);
    }
    if to > 0 {
        assert(rest[0] == s[from]);
        assert(rest[to - 1] == s[from + to - 1]);
    }
    (from, from + to)
}

/// Where the text begins once its start is trimmed.
proof fn lemma_start_cut(s: Seq<char>) -> (from: int)
    ensures
        0 <= from <= s.len(),
        trim_start_text(s) == s.skip(from),
        forall|i: int| 0 <= i < from ==> is_white(#[trigger] s[i]),
        from < s.len() ==> !is_white(s[from]),
    decreases s.len(),
{
    if s.len() > 0 && is_white(s.first()) {
        let rest = s.drop_first();
        let from = lemma_start_cut(rest);
        assert(rest.skip(from) =~= s.skip(from + 1));
        assert forall|i: int| 0 <= i < from + 1 implies is_white(#[trigger] s[i]) by {
            if i > 0 {
                assert(is_white(rest[i - 1]));
            }
        }
        from + 1
    } else {
        assert(s.skip(0) =~= s);
        0
    }
}

/// Where the text stops once its end is trimmed.
proof fn lemma_end_cut(s: Seq<char>) -> (to: int)
    ensures
        0 <= to <= s.len(),
        trim_end_text(s) == s.take(to),
        forall|i: int| to <= i < s.len() ==> is_white(#[trigger] s[i]),
        to > 0 ==> !is_white(s[to - 1]),
    decreases s.len(),
{
    if s.len() > 0 && is_white(s.last()) {
        let rest = s.drop_last();
        let to = lemma_end_cut(rest);
        assert(rest.take(to) =~= s.take(to));
        assert forall|i: int| to <= i < s.len() implies is_white(#[trigger] s[i]) by {
            if i < rest.len() {
                assert(is_white(rest[i]));
            }
        }
        to
    } else {
        assert(s.take(s.len() as int) =~= s);
        s.len() as int
    }
}

/// Text between quotes is escaped character by character: a quote and a backslash get a backslash
/// in front, a tab is written as a letter, and every other character stands for itself.
pub proof fn law_escaped_by_character(s: Seq<char>, c: char)
    ensures
        debug_text(None) == "None"@,
        debug_text(Some(Seq::empty())) == "Some(\""@ + "\")"@,
        exists|shown: Seq<char>, one: Seq<char>|
            {
                &&& debug_text(Some(s)) == #[trigger] ("Some(\""@ + shown + "\")"@)
                &&& debug_text(Some(s.push(c))) == "Some(\""@ + #[trigger] (shown + one)
                    + "\")"@
                &&& c == '"' ==> one == seq!['\\', '"']
                &&& c == '\\' ==> one == seq!['\\', '\\']
                &&& c == '\t' ==> one == seq!['\\', 't']
                &&& c != '"' && c != '\\' && c != '\t' ==> one == seq![c]
            },
{
    let shown = escaped_text(s);
    let one = escaped(c);
    assert(s.push(c).drop_last() =~= s);
    assert(escaped_text(Seq::empty()) =~= Seq::empty());
    assert("Some(\""@ + Seq::empty() + "\")"@ =~= "Some(\""@ + "\")"@);
    assert(debug_text(Some(s)) == "Some(\""@ + shown + "\")"@);
    assert(debug_text(Some(s.push(c))) == "Some(\""@ + (shown + one) + "\")"@);
}

/// What strings hold is told string by string, and of an optional one when it is there.
pub proof fn law_texts_of_strings(v: Seq<String>, s: String)
    ensures
        texts(v).len() == v.len(),
        forall|i: int| 0 <= i < v.len() ==> #[trigger] texts(v)[i] == v[i]@,
        opt_text(Some(s)) == Some(s@),
        opt_text(None) is None,
{
}

/// The words for truth values are different, and are the usual ones.
pub proof fn law_truth_words()
    ensures
        bool_text(true) == "true"@,
        bool_text(false) == "false"@,
{
}

} // verus!
