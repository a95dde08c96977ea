//! Plain-text handling shared by the whole crate: trimming, splitting,
//! comparing and lower-casing, all stated over sequences of characters.

use vstd::prelude::*;

verus! {

/// Appends one character to the end of the string.
pub assume_specification[ String::push ](s: &mut String, c: char)
    ensures
        final(s)@ == old(s)@.push(c),
;

/// The characters with the Unicode `White_Space` property.
pub open spec fn is_white(c: char) -> bool {
    ||| '\u{9}' <= c <= '\u{d}'
    ||| c == ' '
    ||| c == '\u{85}'
    ||| c == '\u{a0}'
    ||| c == '\u{1680}'
    ||| '\u{2000}' <= c <= '\u{200a}'
    ||| c == '\u{2028}'
    ||| c == '\u{2029}'
    ||| c == '\u{202f}'
    ||| c == '\u{205f}'
    ||| c == '\u{3000}'
}

/// `s` without its leading white space.
pub open spec fn trim_start_of(s: Seq<char>) -> Seq<char>
    decreases s.len(),
{
    if s.len() > 0 && is_white(s.first()) {
        trim_start_of(s.drop_first())
    } else {
        s
    }
}

/// `s` without its trailing white space.
pub open spec fn trim_end_of(s: Seq<char>) -> Seq<char>
    decreases s.len(),
{
    if s.len() > 0 && is_white(s.last()) {
        trim_end_of(s.drop_last())
    } else {
        s
    }
}

/// `s` without leading and trailing white space.
pub open spec fn trim_of(s: Seq<char>) -> Seq<char> {
    trim_end_of(trim_start_of(s))
}

/// The pieces of `s` between the separators. There is always at least one
/// piece, and `n` separators make `n + 1` pieces, empty ones included.
pub open spec fn split_of(s: Seq<char>, sep: char) -> Seq<Seq<char>>
    decreases s.len(),
{
    if s.len() == 0 {
        seq![Seq::empty()]
    } else {
        let before = split_of(s.drop_last(), sep);
        if s.last() == sep {
            before.push(Seq::empty())
        } else {
            before.update(before.len() - 1, before.last().push(s.last()))
        }
    }
}

/// ASCII letters in lower case; every other character as it is.
pub open spec fn lower_char(c: char) -> char {
    if 'A' <= c <= 'Z' {
        (c as u32 + 32) as char
    } else {
        c
    }
}

/// `s` with its ASCII letters in lower case.
pub open spec fn lower_of(s: Seq<char>) -> Seq<char> {
    s.map_values(|c: char| lower_char(c))
}

/// The characters of a string.
pub fn to_chars(s: &str) -> (r: Vec<char>)
    ensures
        r@ == s@,
{
    let mut r: Vec<char> = Vec::new();
    for c in iter: s.chars()
        invariant
            iter.seq() == s@,
            r@ == s@.take(iter.index() as int),
    {
        r.push(c);
    }
    r
}

/// The string made of the characters `from..to` of `chars`.
pub fn from_chars(chars: &Vec<char>, from: usize, to: usize) -> (r: String)
    requires
        from <= to <= chars@.len(),
    ensures
        r@ == chars@.subrange(from as int, to as int),
{
    let mut r = String::new();
    let mut i: usize = from;
    while i < to
        invariant
            from <= i <= to <= chars@.len(),
            r@ == chars@.subrange(from as int, i as int),
        decreases to - i,
    {
        r.push(chars[i]);
        i = i + 1;
    }
    r
}

pub fn is_whitespace(c: char) -> (r: bool)
    ensures
        r == is_white(c),
{
    ('\u{9}' <= c && c <= '\u{d}') || c == ' ' || c == '\u{85}' || c == '\u{a0}' || c == '\u{1680}'
        || ('\u{2000}' <= c && c <= '\u{200a}') || c == '\u{2028}' || c == '\u{2029}'
        || c == '\u{202f}' || c == '\u{205f}' || c == '\u{3000}'
}

/// The string without leading and trailing white space.
pub fn trim(s: &str) -> (r: String)
    ensures
        r@ == trim_of(s@),
{
    let chars = to_chars(s);
    let n: usize = chars.len();
    let mut i: usize = 0;
    proof {
        assert(s@.subrange(0, n as int) =~= s@);
    }
    while i < n && is_whitespace(chars[i])
        invariant
            i <= n,
            n == chars@.len(),
            chars@ == s@,
            trim_start_of(s@) == trim_start_of(s@.subrange(i as int, n as int)),
        decreases n - i,
    {
        assert(s@.subrange(i as int, n as int).drop_first() =~= s@.subrange(i + 1, n as int));
        i = i + 1;
    }
    assert(trim_start_of(s@) == s@.subrange(i as int, n as int));
    let mut j: usize = n;
    while i < j && is_whitespace(chars[j - 1])
        invariant
            i <= j <= n,
            n == chars@.len(),
            chars@ == s@,
            trim_of(s@) == trim_end_of(s@.subrange(i as int, j as int)),
        decreases j,
    {
        assert(s@.subrange(i as int, j as int).drop_last() =~= s@.subrange(i as int, j - 1));
        j = j - 1;
    }
    from_chars(&chars, i, j)
}

/// The pieces of a string between the separators.
pub fn split(s: &str, sep: char) -> (r: Vec<String>)
    ensures
        r.deep_view() == split_of(s@, sep),
{
    let chars = to_chars(s);
    let n: usize = chars.len();
    let mut pieces: Vec<String> = Vec::new();
    let mut start: usize = 0;
    let mut i: usize = 0;
    proof {
        assert(s@.take(0) =~= Seq::empty());
        assert(split_of(s@.take(0), sep) =~= pieces.deep_view().push(s@.subrange(0, 0)));
    }
    while i < n
        invariant
            start <= i <= n,
            n == chars@.len(),
            chars@ == s@,
            split_of(s@.take(i as int), sep) == pieces.deep_view().push(
                s@.subrange(start as int, i as int),
            ),
        decreases n - i,
    {
        let ghost before = pieces.deep_view();
        let ghost piece = s@.subrange(start as int, i as int);
        proof {
            assert(s@.take(i + 1).drop_last() =~= s@.take(i as int));
            assert(s@.take(i + 1).last() == s@[i as int]);
        }
        if chars[i] == sep {
            pieces.push(from_chars(&chars, start, i));
            start = i + 1;
            assert(pieces.deep_view() =~= before.push(piece));
            assert(s@.subrange(start as int, i + 1) =~= Seq::empty());
        } else {
            assert(s@.subrange(start as int, i + 1) =~= piece.push(s@[i as int]));
            assert(before.push(piece).update(before.len() as int, piece.push(s@[i as int]))
                =~= before.push(piece.push(s@[i as int])));
        }
        i = i + 1;
    }
    pieces.push(from_chars(&chars, start, n));
    assert(s@.take(n as int) =~= s@);
    pieces
}

/// A copy of an optional string.
pub fn copy_opt(s: &Option<String>) -> (r: Option<String>)
    ensures
        r.deep_view() == s.deep_view(),
{
    match s {
        Some(t) => Some(t.clone()),
        None => None,
    }
}

/// Whether two strings hold the same characters.
pub fn same(a: &str, b: &str) -> (r: bool)
    ensures
        r == (a@ == b@),
{
    a.to_owned() == b.to_owned()
}

/// Whether one of the pieces of `s` between the separators is `wanted`, white
/// space around it aside.
pub open spec fn holds_piece(s: Seq<char>, sep: char, wanted: Seq<char>) -> bool {
    exists|i: int|
        0 <= i < split_of(s, sep).len() && trim_of(#[trigger] split_of(s, sep)[i]) == wanted
}

/// Whether one of the pieces of `s` between the separators is `wanted`, white
/// space around it aside.
pub fn has_piece(s: &str, sep: char, wanted: &str) -> (r: bool)
    ensures
        r == holds_piece(s@, sep, wanted@),
{
    let parts = split(s, sep);
    let ghost pieces = split_of(s@, sep);
    let mut i: usize = 0;
    while i < parts.len()
        invariant
            i <= parts@.len(),
            pieces == split_of(s@, sep),
            parts.deep_view() == pieces,
            forall|k: int| 0 <= k < i ==> trim_of(#[trigger] pieces[k]) != wanted@,
        decreases parts@.len() - i,
    {
        let piece = trim(parts[i].as_str());
        assert(pieces[i as int] == parts[i as int]@);
        if same(piece.as_str(), wanted) {
            return true;
        }
        i = i + 1;
    }
    false
}

/// Whether `s` begins with `prefix`.
pub fn starts_with(s: &str, prefix: &str) -> (r: bool)
    ensures
        r == prefix@.is_prefix_of(s@),
{
    let a = to_chars(s);
    let p = to_chars(prefix);
    if a.len() < p.len() {
        return false;
    }
    let mut i: usize = 0;
    while i < p.len()
        invariant
            i <= p@.len() <= a@.len(),
            a@ == s@,
            p@ == prefix@,
            forall|k: int| 0 <= k < i ==> a@[k] == p@[k],
        decreases p@.len() - i,
    {
        if a[i] != p[i] {
            assert(s@.subrange(0, prefix@.len() as int)[i as int] != prefix@[i as int]);
            return false;
        }
        i = i + 1;
    }
    assert(s@.subrange(0, prefix@.len() as int) =~= prefix@);
    true
}

/// Whether `s` ends with `suffix`.
pub fn ends_with(s: &str, suffix: &str) -> (r: bool)
    ensures
        r == suffix@.is_suffix_of(s@),
{
    let a = to_chars(s);
    let p = to_chars(suffix);
    if a.len() < p.len() {
        return false;
    }
    let n: usize = a.len();
    let off: usize = n - p.len();
    let mut i: usize = 0;
    while i < p.len()
        invariant
            i <= p@.len() <= a@.len(),
            n == a@.len(),
            off == n - p@.len(),
            a@ == s@,
            p@ == suffix@,
            forall|k: int| 0 <= k < i ==> a@[off + k] == p@[k],
        decreases p@.len() - i,
    {
        if a[off + i] != p[i] {
            assert(s@.subrange(off as int, s@.len() as int)[i as int] != suffix@[i as int]);
            return false;
        }
        i = i + 1;
    }
    assert(s@.subrange(off as int, s@.len() as int) =~= suffix@);
    true
}

/// What follows `prefix` in `s`.
pub open spec fn after_prefix(s: Seq<char>, prefix: Seq<char>) -> Option<Seq<char>> {
    if prefix.is_prefix_of(s) {
        Some(s.skip(prefix.len() as int))
    } else {
        None
    }
}

/// What follows `prefix` in `s`, if `s` begins with it.
pub fn strip_prefix(s: &str, prefix: &str) -> (r: Option<String>)
    ensures
        r.deep_view() == after_prefix(s@, prefix@),
{
    if starts_with(s, prefix) {
        let chars = to_chars(s);
        let p = to_chars(prefix);
        let rest = from_chars(&chars, p.len(), chars.len());
        assert(rest@ =~= s@.skip(prefix@.len() as int));
        Some(rest)
    } else {
        None
    }
}

/// The string with its ASCII letters in lower case.
pub fn to_lower(s: &str) -> (r: String)
    ensures
        r@ == lower_of(s@),
{
    let chars = to_chars(s);
    let mut r = String::new();
    let mut i: usize = 0;
    while i < chars.len()
        invariant
            i <= chars@.len(),
            chars@ == s@,
            r@ == lower_of(s@.take(i as int)),
        decreases chars@.len() - i,
    {
        let c = chars[i];
        assert(lower_of(s@.take(i + 1)) =~= lower_of(s@.take(i as int)).push(lower_char(c)));
        if 'A' <= c && c <= 'Z' {
            r.push(((c as u8) + 32) as char);
        } else {
            r.push(c);
        }
        i = i + 1;
    }
    assert(s@.take(s@.len() as int) =~= s@);
    r
}

/// Splitting text that has no separator in it gives the text back.
pub proof fn lemma_split_without_separator(s: Seq<char>, sep: char)
    requires
        !s.contains(sep),
    ensures
        split_of(s, sep) == seq![s],
    decreases s.len(),
{
    if s.len() > 0 {
        let front = s.drop_last();
        assert(!front.contains(sep)) by {
            if front.contains(sep) {
                let i = choose|i: int| 0 <= i < front.len() && front[i] == sep;
                assert(s[i] == sep);
            }
        }
        lemma_split_without_separator(front, sep);
        assert(s.last() != sep) by {
            assert(s[s.len() - 1] == s.last());
        }
        assert(front.push(s.last()) =~= s);
        assert(split_of(s, sep) =~= seq![s]);
    } else {
        assert(s =~= Seq::empty());
    }
}

/// Text joined by a separator splits into the pieces of the two parts.
pub proof fn lemma_split_joined(a: Seq<char>, sep: char, b: Seq<char>)
    ensures
        split_of(a.push(sep) + b, sep) == split_of(a, sep) + split_of(b, sep),
    decreases b.len(),
{
    lemma_split_not_empty(b, sep);
    let whole = a.push(sep) + b;
    if b.len() == 0 {
        assert(whole =~= a.push(sep));
        assert(whole.drop_last() =~= a);
        assert(split_of(whole, sep) =~= split_of(a, sep) + split_of(b, sep));
    } else {
        let front = b.drop_last();
        lemma_split_joined(a, sep, front);
        lemma_split_not_empty(front, sep);
        assert(whole.drop_last() =~= a.push(sep) + front);
        assert(whole.last() == b.last());
        assert(split_of(whole, sep) =~= split_of(a, sep) + split_of(b, sep));
    }
}

/// Splitting gives at least one piece.
pub proof fn lemma_split_not_empty(s: Seq<char>, sep: char)
    ensures
        split_of(s, sep).len() >= 1,
    decreases s.len(),
{
    if s.len() > 0 {
        lemma_split_not_empty(s.drop_last(), sep);
    }
}

/// No piece holds the separator.
pub proof fn lemma_split_pieces(s: Seq<char>, sep: char, i: int)
    requires
        0 <= i < split_of(s, sep).len(),
    ensures
        !split_of(s, sep)[i].contains(sep),
    decreases s.len(),
{
    if s.len() > 0 {
        let front = s.drop_last();
        let before = split_of(front, sep);
        lemma_split_not_empty(front, sep);
        if i < before.len() {
            lemma_split_pieces(front, sep, i);
        }
        if s.last() != sep && i == before.len() - 1 {
            let piece = split_of(s, sep)[i];
            if piece.contains(sep) {
                let k = choose|k: int| 0 <= k < piece.len() && piece[k] == sep;
                assert(before[i].contains(sep)) by {
                    assert(before[i][k] == sep);
                }
            }
        }
    }
}

/// Text that neither begins nor ends with white space stays as it is when
/// trimmed.
pub proof fn lemma_trim_unchanged(s: Seq<char>)
    requires
        s.len() > 0 ==> !is_white(s.first()) && !is_white(s.last()),
    ensures
        trim_of(s) == s,
{
}

/// A list holds what one of two lists holds that it was joined from.
pub proof fn lemma_holds_joined(a: Seq<char>, sep: char, b: Seq<char>, wanted: Seq<char>)
    ensures
        holds_piece(a.push(sep) + b, sep, wanted) == (holds_piece(a, sep, wanted) || holds_piece(
            b,
            sep,
            wanted,
        )),
{
    lemma_split_joined(a, sep, b);
    let pa = split_of(a, sep);
    let pb = split_of(b, sep);
    let whole = split_of(a.push(sep) + b, sep);
    if holds_piece(a, sep, wanted) {
        let i = choose|i: int| 0 <= i < pa.len() && trim_of(#[trigger] pa[i]) == wanted;
        assert(whole[i] == pa[i]);
    }
    if holds_piece(b, sep, wanted) {
        let i = choose|i: int| 0 <= i < pb.len() && trim_of(#[trigger] pb[i]) == wanted;
        assert(whole[pa.len() + i] == pb[i]);
    }
    if holds_piece(a.push(sep) + b, sep, wanted) {
        let i = choose|i: int| 0 <= i < whole.len() && trim_of(#[trigger] whole[i]) == wanted;
        if i < pa.len() {
            assert(whole[i] == pa[i]);
        } else {
            assert(whole[i] == pb[i - pa.len()]);
        }
    }
}

/// A text without separators holds itself alone, white space around it aside.
pub proof fn lemma_holds_alone(s: Seq<char>, sep: char, wanted: Seq<char>)
    requires
        !s.contains(sep),
    ensures
        holds_piece(s, sep, wanted) == (trim_of(s) == wanted),
{
    lemma_split_without_separator(s, sep);
    assert(split_of(s, sep)[0] == s);
}

/// One space in front of a text goes when it is trimmed.
pub proof fn lemma_trim_after_space(s: Seq<char>)
    requires
        s.len() > 0 ==> !is_white(s.first()) && !is_white(s.last()),
    ensures
        trim_of(seq![' '] + s) == s,
{
    let spaced = seq![' '] + s;
    assert(spaced.first() == ' ');
    assert(spaced.drop_first() =~= s);
    lemma_trim_unchanged(s);
}

} // verus!
