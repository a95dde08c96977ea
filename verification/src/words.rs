//! What is done to texts and numbers, stated of the results themselves.

use crate::clock::{epoch_to_iso, is_utc_second, iso_text, iso_to_epoch, opt_epoch_to_iso, writable};
use crate::number::{
    all_digits, decimal, digits_value, i64_text, integer_text_reads_back, is_digit,
    lemma_decimal_reads_back, parse_i64, parse_unsigned, u64_text,
};
use crate::reply::{disposition, percent_byte, percent_encoded, Refusal};
use crate::text::{
    ends_with, has_piece, is_white, lemma_split_not_empty, lemma_split_pieces, lower_of, split, split_of,
    starts_with, strip_prefix, to_lower, trim, trim_end_of, trim_of, trim_start_of,
};
use crate::token::{
    base64_char, hex_char, hex_of, is_uuid, password_hash, sextet, sha256_of, to_hex, token_from_bytes,
    token_of,
};
use crate::upload::{disk_refusal, stored_name_of, ChunkStep, DiskFault, Upload};
use vstd::prelude::*;
use vstd::utf8::encode_utf8;

verus! {

proof fn lemma_trim_start(s: Seq<char>) -> (i: int)
    ensures
        0 <= i <= s.len(),
        trim_start_of(s) == s.skip(i),
        forall|k: int| 0 <= k < i ==> is_white(#[trigger] s[k]),
        i < s.len() ==> !is_white(s[i]),
    decreases s.len(),
{
    if s.len() > 0 && is_white(s.first()) {
        let rest = s.drop_first();
        let j = lemma_trim_start(rest);
        assert(rest.skip(j) =~= s.skip(j + 1));
        assert forall|k: int| 0 <= k < j + 1 implies is_white(#[trigger] s[k]) by {
            if k > 0 {
                assert(rest[k - 1] == s[k]);
            }
        }
        j + 1
    } else {
        assert(s.skip(0) =~= s);
        0
    }
}

proof fn lemma_trim_end(s: Seq<char>) -> (j: int)
    ensures
        0 <= j <= s.len(),
        trim_end_of(s) == s.take(j),
        forall|k: int| j <= k < s.len() ==> is_white(#[trigger] s[k]),
        j > 0 ==> !is_white(s[j - 1]),
    decreases s.len(),
{
    if s.len() > 0 && is_white(s.last()) {
        let rest = s.drop_last();
        let j = lemma_trim_end(rest);
        assert(rest.take(j) =~= s.take(j));
        assert forall|k: int| j <= k < s.len() implies is_white(#[trigger] s[k]) by {
            if k < rest.len() {
                assert(rest[k] == s[k]);
            }
        }
        j
    } else {
        assert(s.take(s.len() as int) =~= s);
        s.len() as int
    }
}

/// A trimmed text is what is left without the white space at both ends, and with
/// everything between them.
pub proof fn trimming_takes_the_white_ends(s: &str, r: String)
    requires
        call_ensures(trim, (s,), r),
    ensures
        exists|i: int, j: int|
            0 <= i <= j <= s@.len() && r@ == #[trigger] s@.subrange(i, j) && (forall|k: int|
                (0 <= k < i || j <= k < s@.len()) ==> is_white(#[trigger] s@[k])),
        r@.len() > 0 ==> !is_white(r@.first()) && !is_white(r@.last()),
{
    let i = lemma_trim_start(s@);
    let rest = s@.skip(i);
    let j = lemma_trim_end(rest);
    assert(r@ =~= s@.subrange(i, i + j));
    assert forall|k: int| (0 <= k < i || i + j <= k < s@.len()) implies is_white(
        #[trigger] s@[k],
    ) by {
        if k >= i {
            assert(rest[k - i] == s@[k]);
        }
    }
}

/// Pieces with a separator between each two.
pub open spec fn put_together(pieces: Seq<Seq<char>>, sep: char) -> Seq<char>
    decreases pieces.len(),
{
    if pieces.len() == 0 {
        Seq::empty()
    } else if pieces.len() == 1 {
        pieces[0]
    } else {
        put_together(pieces.drop_last(), sep).push(sep) + pieces.last()
    }
}

proof fn lemma_put_together(s: Seq<char>, sep: char)
    ensures
        put_together(split_of(s, sep), sep) == s,
    decreases s.len(),
{
    if s.len() == 0 {
        assert(s =~= Seq::empty());
        assert(split_of(s, sep)[0] == Seq::<char>::empty());
    } else {
        let front = s.drop_last();
        let before = split_of(front, sep);
        let all = split_of(s, sep);
        lemma_put_together(front, sep);
        lemma_split_not_empty(front, sep);
        if s.last() == sep {
            assert(all.drop_last() =~= before);
            assert(put_together(all, sep) =~= front.push(sep));
            assert(front.push(sep) =~= s);
        } else {
            assert(all.drop_last() =~= before.drop_last());
            assert(all.last() == before.last().push(s.last()));
            if before.len() > 1 {
                assert(put_together(all, sep) =~= put_together(before, sep).push(s.last()));
            } else {
                assert(put_together(all, sep) =~= front.push(s.last()));
            }
            assert(front.push(s.last()) =~= s);
        }
    }
}

/// A text that was split comes together again with the separator between its
/// pieces, and no piece holds the separator.
pub proof fn pieces_come_together_again(s: &str, sep: char, r: Vec<String>)
    requires
        call_ensures(split, (s, sep), r),
    ensures
        r@.len() > 0,
        put_together(r.deep_view(), sep) == s@,
        forall|i: int| 0 <= i < r@.len() ==> !(#[trigger] r@[i])@.contains(sep),
{
    lemma_put_together(s@, sep);
    lemma_split_not_empty(s@, sep);
    assert(r.deep_view().len() == r@.len());
    assert forall|i: int| 0 <= i < r@.len() implies !(#[trigger] r@[i])@.contains(sep) by {
        lemma_split_pieces(s@, sep, i);
        assert(r.deep_view()[i] == r@[i]@);
    }
}

/// A list holds a word exactly where one of the pieces between its separators is
/// that word, white space around it aside.
pub proof fn lists_hold_their_pieces(s: &str, sep: char, wanted: &str, r: bool)
    requires
        call_ensures(has_piece, (s, sep, wanted), r),
    ensures
        r <==> exists|i: int|
            0 <= i < split_of(s@, sep).len() && trim_of(#[trigger] split_of(s@, sep)[i]) == wanted@,
{
}

/// A text in lower case has the same characters but for `A` to `Z`, which are
/// `a` to `z`.
pub proof fn lower_case_keeps_the_rest(s: &str, r: String)
    requires
        call_ensures(to_lower, (s,), r),
    ensures
        r@.len() == s@.len(),
        forall|i: int|
            0 <= i < s@.len() && 'A' <= s@[i] <= 'Z' ==> #[trigger] r@[i] as int == s@[i] as int + 32,
        forall|i: int|
            0 <= i < s@.len() && !('A' <= s@[i] <= 'Z') ==> #[trigger] r@[i] == s@[i],
{
    assert forall|i: int| 0 <= i < s@.len() && 'A' <= s@[i] <= 'Z' implies #[trigger] r@[i] as int
        == s@[i] as int + 32 by {
        assert(r@[i] == lower_of(s@)[i]);
    }
}

/// A text begins with another where something follows that other, and ends with it
/// where something stands before it.
pub proof fn beginnings_and_ends_are_told(
    s: &str,
    part: &str,
    begins: bool,
    ends: bool,
    rest: Option<String>,
    other: Seq<char>,
)
    requires
        call_ensures(starts_with, (s, part), begins),
        call_ensures(ends_with, (s, part), ends),
        call_ensures(strip_prefix, (s, part), rest),
    ensures
        s@ == part@ + other ==> begins && rest is Some && rest->0@ == other,
        s@ == other + part@ ==> ends,
        rest is Some <==> begins,
        rest is Some ==> s@ == part@ + rest->0@,
        ends ==> s@.len() >= part@.len() && s@.skip(s@.len() - part@.len()) == part@,
{
    assert(rest.deep_view() is Some == rest is Some);
    if s@ == part@ + other {
        assert(part@ =~= s@.subrange(0, part@.len() as int));
        assert(s@.skip(part@.len() as int) =~= other);
    }
    if s@ == other + part@ {
        assert(part@ =~= s@.subrange(s@.len() - part@.len(), s@.len() as int));
    }
    if rest is Some {
        assert(s@ =~= part@ + rest->0@) by {
            assert(s@.subrange(0, part@.len() as int) == part@);
        }
    }
    if ends {
        assert(s@.skip(s@.len() - part@.len()) =~= part@);
    }
}

proof fn lemma_digits_push(s: Seq<char>, c: char)
    requires
        all_digits(s),
        is_digit(c),
    ensures
        all_digits(s.push(c)),
        digits_value(s.push(c)) == 10 * digits_value(s) + (c as int - '0' as int),
{
    assert(s.push(c).drop_last() =~= s);
}

/// A digit behind a number counts one, and what stood before it counts ten times as
/// much; a digit alone is its own value. Anything but a digit behind a number makes
/// it none, and so does nothing at all.
pub proof fn digits_count_by_their_place(
    s: &str,
    longer: &str,
    c: char,
    max: u64,
    r: Option<u64>,
    more: Option<u64>,
)
    requires
        call_ensures(parse_unsigned, (s, max), r),
        call_ensures(parse_unsigned, (longer, max), more),
        longer@ == s@.push(c),
    ensures
        s@.len() == 0 ==> r is None,
        s@.len() == 0 && '0' <= c <= '9' && c as int - 48 <= max ==> more is Some && more->0
            == c as int - 48,
        r is Some && '0' <= c <= '9' && 10 * r->0 + (c as int - 48) <= max ==> more is Some
            && more->0 == 10 * r->0 + (c as int - 48),
        r is Some && '0' <= c <= '9' && 10 * r->0 + (c as int - 48) > max ==> more is None,
        s@.len() > 0 && !('0' <= c <= '9') ==> more is None,
{
    let t = longer@;
    if s@.len() == 0 {
        let none = Seq::<char>::empty();
        assert(s@ =~= none);
        assert(digits_value(none) == 0);
        if is_digit(c) {
            lemma_digits_push(none, c);
            assert(t =~= none.push(c));
        }
    } else {
        assert(t[0] == s@[0]);
        let from: int = if s@[0] == '+' {
            1
        } else {
            0
        };
        let body = s@.skip(from);
        assert(s@.skip(0) =~= s@);
        assert(t.skip(0) =~= t);
        assert(t.skip(from) =~= body.push(c));
        if is_digit(c) {
            if all_digits(body) {
                lemma_digits_push(body, c);
            }
        } else {
            assert(t.skip(from)[body.len() as int] == c);
        }
    }
}

/// What is no number does not become one by more characters behind it, but for a
/// lone plus; what begins with anything but a digit or a plus is none.
pub proof fn only_digits_make_numbers(
    s: &str,
    longer: &str,
    c: char,
    max: u64,
    r: Option<u64>,
    more: Option<u64>,
)
    requires
        call_ensures(parse_unsigned, (s, max), r),
        call_ensures(parse_unsigned, (longer, max), more),
        longer@ == s@.push(c),
        s@.len() > 0,
    ensures
        r is None && !(s@.len() == 1 && s@[0] == '+') ==> more is None,
        !('0' <= s@[0] <= '9') && s@[0] != '+' ==> r is None,
        s@.len() == 1 && s@[0] == '+' ==> r is None && (more is Some <==> '0' <= c <= '9' && c as int
            - 48 <= max) && (more is Some ==> more->0 == c as int - 48),
{
    let t = longer@;
    let from: int = if s@[0] == '+' {
        1
    } else {
        0
    };
    let body = s@.skip(from);
    assert(t[0] == s@[0]);
    assert(s@.skip(0) =~= s@);
    assert(t.skip(0) =~= t);
    assert(t.skip(from) =~= body.push(c));
    if all_digits(body) && is_digit(c) {
        lemma_digits_push(body, c);
        lemma_value_not_negative(body);
        if body.len() == 0 {
            assert(body =~= Seq::empty());
            assert(digits_value(body) == 0);
        }
    }
    if !all_digits(body) {
        let k = choose|k: int| 0 <= k < body.len() && !is_digit(#[trigger] body[k]);
        assert(t.skip(from)[k] == body[k]);
    }
    if !is_digit(c) {
        assert(t.skip(from)[body.len() as int] == c);
    }
    if !('0' <= s@[0] <= '9') && s@[0] != '+' {
        assert(body[0] == s@[0]);
    }
}

/// A signed number without a minus is read as an unsigned one; behind a minus
/// stands the number that is taken away, without a sign of its own.
pub proof fn signs_count(
    s: &str,
    rest: &str,
    r: Option<i64>,
    whole: Option<u64>,
    behind: Option<u64>,
)
    requires
        s@.len() > 0,
        rest@ == s@.skip(1),
        call_ensures(parse_i64, (s,), r),
        call_ensures(parse_unsigned, (s, 9223372036854775807), whole),
        call_ensures(parse_unsigned, (rest, 9223372036854775808), behind),
    ensures
        s@[0] != '-' ==> (r is Some <==> whole is Some) && (r is Some ==> r->0 == whole->0),
        s@[0] == '-' && (rest@.len() == 0 || rest@[0] == '+') ==> r is None,
        s@[0] == '-' && rest@.len() > 0 && rest@[0] != '+' ==> (r is Some <==> behind is Some) && (r
            is Some ==> r->0 == -(behind->0 as int)),
{
    if s@[0] == '-' {
        if all_digits(rest@) {
            lemma_value_not_negative(rest@);
        }
        if rest@.len() > 0 && rest@[0] == '+' {
            assert(!is_digit(rest@[0]));
        }
    } else {
        let from: int = if s@[0] == '+' {
            1
        } else {
            0
        };
        assert(s@.skip(0) =~= s@);
        if all_digits(s@.skip(from)) {
            lemma_value_not_negative(s@.skip(from));
        }
    }
}

proof fn lemma_value_not_negative(s: Seq<char>)
    requires
        all_digits(s),
    ensures
        digits_value(s) >= 0,
    decreases s.len(),
{
    if s.len() > 0 {
        assert(all_digits(s.drop_last())) by {
            assert forall|i: int| 0 <= i < s.drop_last().len() implies is_digit(
                #[trigger] s.drop_last()[i],
            ) by {
                assert(s[i] == s.drop_last()[i]);
            }
        }
        assert(is_digit(s[s.len() - 1]));
        lemma_value_not_negative(s.drop_last());
    }
}

proof fn lemma_no_leading_zero(n: int)
    requires
        n >= 1,
    ensures
        decimal(n).len() > 0,
        decimal(n)[0] != '0',
    decreases n,
{
    if n >= 10 {
        lemma_no_leading_zero(n / 10);
        assert(decimal(n)[0] == decimal(n / 10)[0]);
    }
}

/// A number that was written is read again as the same, and is written without
/// zeros in front.
pub proof fn numbers_are_read_again(
    n: i64,
    text: String,
    again: &str,
    r: Option<i64>,
    m: u64,
    plain: String,
    back: &str,
    q: Option<u64>,
)
    requires
        call_ensures(i64_text, (n,), text),
        again@ == text@,
        call_ensures(parse_i64, (again,), r),
        call_ensures(u64_text, (m,), plain),
        back@ == plain@,
        call_ensures(parse_unsigned, (back, u64::MAX), q),
    ensures
        r == Some(n),
        q == Some(m),
        m > 0 ==> plain@[0] != '0',
        m == 0 ==> plain@ == seq!['0'],
{
    integer_text_reads_back(n);
    lemma_decimal_reads_back(m as int);
    assert(is_digit(plain@[0]));
    if m > 0 {
        lemma_no_leading_zero(m as int);
    }
}

/// The value of a hexadecimal digit.
pub open spec fn hex_digit_value(c: char) -> int {
    if '0' <= c <= '9' {
        c as int - 48
    } else if 'a' <= c <= 'f' {
        c as int - 87
    } else {
        c as int - 55
    }
}

/// In hexadecimal every byte has two digits, the higher half first.
pub proof fn hexadecimal_reads_back(bytes: Vec<u8>, r: String)
    requires
        call_ensures(to_hex, (&bytes,), r),
    ensures
        r@.len() == 2 * bytes@.len(),
        forall|i: int|
            0 <= i < bytes@.len() ==> #[trigger] bytes@[i] as int == 16 * hex_digit_value(r@[2 * i])
                + hex_digit_value(r@[2 * i + 1]),
        forall|i: int|
            0 <= i < r@.len() ==> '0' <= #[trigger] r@[i] <= '9' || 'a' <= r@[i] <= 'f',
{
    assert forall|i: int| 0 <= i < bytes@.len() implies #[trigger] bytes@[i] as int == 16
        * hex_digit_value(r@[2 * i]) + hex_digit_value(r@[2 * i + 1]) by {
        let b = bytes@[i] as int;
        assert((2 * i) / 2 == i && (2 * i) % 2 == 0);
        assert((2 * i + 1) / 2 == i && (2 * i + 1) % 2 == 1);
        assert(r@[2 * i] == hex_char(b / 16));
        assert(r@[2 * i + 1] == hex_char(b % 16));
    }
    assert forall|i: int| 0 <= i < r@.len() implies '0' <= #[trigger] r@[i] <= '9' || 'a' <= r@[i]
        <= 'f' by {
        assert(0 <= i / 2 < bytes@.len());
    }
}

/// What is stored of a password is the digest of the password, a bar and the token
/// of the link, two hexadecimal digits for every byte.
pub proof fn passwords_are_hashed_with_their_token(password: &str, token: &str, r: String)
    requires
        call_ensures(password_hash, (password, token), r),
    ensures
        ({
            let digest = sha256_of(encode_utf8(password@) + seq!['|' as u8] + encode_utf8(token@));
            &&& r@.len() == 2 * digest.len()
            &&& forall|i: int|
                0 <= i < digest.len() ==> #[trigger] digest[i] as int == 16 * hex_digit_value(
                    r@[2 * i],
                ) + hex_digit_value(r@[2 * i + 1])
        }),
{
    let digest = sha256_of(encode_utf8(password@) + seq!['|' as u8] + encode_utf8(token@));
    assert('|' as u8 == 0x7cu8);
    assert(r@ == hex_of(digest));
    assert forall|i: int| 0 <= i < digest.len() implies #[trigger] digest[i] as int == 16
        * hex_digit_value(r@[2 * i]) + hex_digit_value(r@[2 * i + 1]) by {
        let b = digest[i] as int;
        assert((2 * i) / 2 == i && (2 * i) % 2 == 0);
        assert((2 * i + 1) / 2 == i && (2 * i + 1) % 2 == 1);
        assert(r@[2 * i] == hex_char(b / 16));
        assert(r@[2 * i + 1] == hex_char(b % 16));
    }
}

/// The value of a character of a token.
pub open spec fn token_digit_value(c: char) -> int {
    if 'A' <= c <= 'Z' {
        c as int - 65
    } else if 'a' <= c <= 'z' {
        c as int - 71
    } else if '0' <= c <= '9' {
        c as int + 4
    } else if c == '-' {
        62
    } else {
        63
    }
}

/// Of every four characters of a token three bytes can be read back, so that every
/// bit of the bytes that it was made of is in it.
pub proof fn tokens_read_back(bytes: [u8; 18], r: String)
    requires
        call_ensures(token_from_bytes, (&bytes,), r),
    ensures
        r@.len() == 24,
        forall|g: int|
            0 <= g < 6 ==> {
                let t = r@;
                65536 * (#[trigger] bytes@[3 * g]) + 256 * bytes@[3 * g + 1] + bytes@[3 * g + 2]
                    == 262144 * token_digit_value(t[4 * g]) + 4096 * token_digit_value(
                    t[4 * g + 1],
                ) + 64 * token_digit_value(t[4 * g + 2]) + token_digit_value(t[4 * g + 3])
            },
{
    let b = bytes@;
    assert(r@ == token_of(b));
    assert forall|g: int| 0 <= g < 6 implies {
        let t = r@;
        65536 * (#[trigger] bytes@[3 * g]) + 256 * bytes@[3 * g + 1] + bytes@[3 * g + 2] == 262144
            * token_digit_value(t[4 * g]) + 4096 * token_digit_value(t[4 * g + 1]) + 64
            * token_digit_value(t[4 * g + 2]) + token_digit_value(t[4 * g + 3])
    } by {
        let i = 4 * g;
        assert(i / 4 == g && (i + 1) / 4 == g && (i + 2) / 4 == g && (i + 3) / 4 == g);
        assert(i % 4 == 0 && (i + 1) % 4 == 1 && (i + 2) % 4 == 2 && (i + 3) % 4 == 3);
        lemma_token_digit(sextet(b, i));
        lemma_token_digit(sextet(b, i + 1));
        lemma_token_digit(sextet(b, i + 2));
        lemma_token_digit(sextet(b, i + 3));
    }
}

proof fn lemma_token_digit(v: int)
    requires
        0 <= v < 64,
    ensures
        token_digit_value(base64_char(v)) == v,
{
}

/// Percent-encoding goes byte by byte: ASCII letters, digits and `-`, `.`, `_`, `~`
/// stay, and of every other byte the two hexadecimal digits can be read back.
pub proof fn escapes_read_back(a: Seq<u8>, b: Seq<u8>, byte: u8)
    ensures
        percent_encoded(a + b) == percent_encoded(a) + percent_encoded(b),
        ({
            let c = byte as char;
            let e = percent_encoded(seq![byte]);
            let stays = byte < 128 && ('A' <= c <= 'Z' || 'a' <= c <= 'z' || '0' <= c <= '9' || c
                == '-' || c == '.' || c == '_' || c == '~');
            &&& stays ==> e == seq![c]
            &&& !stays ==> e.len() == 3 && e[0] == '%' && byte == 16 * hex_digit_value(e[1])
                + hex_digit_value(e[2]) && !('a' <= e[1] <= 'f') && !('a' <= e[2] <= 'f')
        }),
    decreases b.len(),
{
    let one = seq![byte];
    assert(one.drop_last() =~= Seq::empty());
    assert(percent_encoded(Seq::empty()) =~= Seq::<char>::empty());
    assert(percent_encoded(one) =~= percent_byte(byte));
    if b.len() == 0 {
        assert(a + b =~= a);
        assert(percent_encoded(b) =~= Seq::<char>::empty());
        assert(percent_encoded(a) + percent_encoded(b) =~= percent_encoded(a));
    } else {
        escapes_read_back(a, b.drop_last(), byte);
        assert((a + b).drop_last() =~= a + b.drop_last());
        assert((a + b).last() == b.last());
        assert(percent_encoded(a + b) =~= percent_encoded(a) + percent_encoded(b));
    }
}

/// A `Content-Disposition` says whether the file is shown or saved and gives its
/// name in UTF-8, percent-encoded.
pub proof fn dispositions_tell_the_name(kind: &str, name: &str, r: String)
    requires
        call_ensures(disposition, (kind, name), r),
    ensures
        r@ == kind@ + "; filename*=UTF-8''"@ + percent_encoded(encode_utf8(name@)),
{
}

/// A time between the year 0 and the year 9999 that was written is read again as
/// the same second; no time stays none.
pub proof fn times_are_read_again(
    ts: i64,
    text: String,
    again: &str,
    r: Option<i64>,
    kept: Option<String>,
    none: Option<String>,
    current: String,
    given: String,
)
    requires
        writable(ts),
        call_ensures(epoch_to_iso, (ts,), text),
        again@ == text@,
        call_ensures(iso_to_epoch, (again,), r),
        call_ensures(opt_epoch_to_iso, (Some(ts),), kept),
        call_ensures(opt_epoch_to_iso, (None::<i64>,), none),
        call_ensures(iso_text, (ts, current), given),
    ensures
        r == Some(ts),
        is_utc_second(text@),
        kept is Some && kept->0@ == text@,
        none is None,
        given@ == text@,
{
    assert(kept.deep_view() is Some == kept is Some);
    assert(none.deep_view() is Some == none is Some);
}

/// A time without a calendar date is told as the current moment, and one before the
/// year 0 as nothing.
pub proof fn other_times_are_told(ts: i64, current: String, r: String)
    requires
        call_ensures(iso_text, (ts, current), r),
        !writable(ts),
    ensures
        ts < -377705116800 || ts > 253402300799 ==> r@ == current@,
        -377705116800 <= ts < -62167219200 ==> r@.len() == 0,
{
}

/// Whether a chunk is dealt with as it fits, where a new file would have this name:
/// it is kept in memory as long as the file has at most 262144 bytes; with the
/// chunk that makes it larger, everything that came before is written to a file
/// among the uploads, and from then on every chunk is.
pub open spec fn goes_where_it_fits(
    before: Upload,
    after: Upload,
    chunk: Seq<u8>,
    name: Seq<char>,
    r: ChunkStep,
) -> bool {
    &&& after.total == before.total + chunk.len()
    &&& before.path is Some ==> {
        &&& r is Append
        &&& after.path is Some && after.path->0@ == before.path->0@
        &&& after.buffered@ == before.buffered@
    }
    &&& before.path is None && before.total + chunk.len() <= 262144 ==> {
        &&& r is Keep
        &&& after.path is None
        &&& after.buffered@ == before.buffered@ + chunk
    }
    &&& before.path is None && before.total + chunk.len() > 262144 ==> {
        &&& r is Open
        &&& r->name@ == name
        &&& r->first@ == before.buffered@
        &&& after.path is Some && after.path->0@ == "uploads/"@ + name
        &&& after.buffered@.len() == 0
    }
}

/// A chunk goes where it fits, under the name that was given, and its bytes are
/// counted.
pub proof fn chunks_go_where_they_fit(u: &mut Upload, chunk: &[u8], name: String, r: ChunkStep)
    requires
        call_ensures(Upload::receive, (u, chunk, name), r),
    ensures
        goes_where_it_fits(*old(u), *final(u), chunk@, name@, r),
{
    assert(old(u).path.deep_view() is Some == old(u).path is Some);
    assert(final(u).path.deep_view() is Some == final(u).path is Some);
}

/// A chunk of a file that the client named goes where it fits, under a fresh
/// identifier with the extension of that name.
pub proof fn named_chunks_go_where_they_fit(
    u: &mut Upload,
    chunk: &[u8],
    file_name: Option<&str>,
    r: ChunkStep,
)
    requires
        call_ensures(Upload::receive_chunk, (u, chunk, file_name), r),
    ensures
        exists|id: Seq<char>|
            is_uuid(id) && goes_where_it_fits(
                *old(u),
                *final(u),
                chunk@,
                #[trigger] stored_name_of(id, file_name.deep_view()),
                r,
            ),
{
    let id = choose|id: Seq<char>|
        is_uuid(id) && (final(u).deep_view(), r.deep_view()) == old(u).deep_view().receive(
            chunk@,
            #[trigger] stored_name_of(id, file_name.deep_view()),
        );
    assert(old(u).path.deep_view() is Some == old(u).path is Some);
    assert(final(u).path.deep_view() is Some == final(u).path is Some);
    assert(goes_where_it_fits(
        *old(u),
        *final(u),
        chunk@,
        stored_name_of(id, file_name.deep_view()),
        r,
    ));
}

/// What went wrong on disk is told, and that it is the server's fault.
pub proof fn disk_faults_are_told(fault: DiskFault, r: Refusal)
    requires
        call_ensures(disk_refusal, (fault,), r),
    ensures
        r.status == 500,
        fault == DiskFault::Open ==> r.error@ == "open failed"@,
        fault == DiskFault::Write ==> r.error@ == "write failed"@,
{
}

} // verus!
