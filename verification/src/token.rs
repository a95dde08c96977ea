//! Share tokens, item identifiers and password hashes.

use base64::engine::general_purpose::URL_SAFE_NO_PAD;
use base64::Engine;
use rand::RngCore;
use sha2::{Digest, Sha256};
use uuid::Uuid;
use vstd::prelude::*;
use vstd::utf8::encode_utf8;

verus! {

/// How many random bytes a share token is made of.
pub const TOKEN_BYTES: usize = 18;

/// The URL-safe base64 alphabet.
pub open spec fn base64_char(v: int) -> char {
    if v < 26 {
        ('A' as int + v) as char
    } else if v < 52 {
        ('a' as int + v - 26) as char
    } else if v < 62 {
        ('0' as int + v - 52) as char
    } else if v == 62 {
        '-'
    } else {
        '_'
    }
}

/// The `i`th group of six bits.
pub open spec fn sextet(bytes: Seq<u8>, i: int) -> int {
    let g = 3 * (i / 4);
    if i % 4 == 0 {
        bytes[g] as int / 4
    } else if i % 4 == 1 {
        bytes[g] as int % 4 * 16 + bytes[g + 1] as int / 16
    } else if i % 4 == 2 {
        bytes[g + 1] as int % 16 * 4 + bytes[g + 2] as int / 64
    } else {
        bytes[g + 2] as int % 64
    }
}

/// The token that stands for 18 bytes.
pub open spec fn token_of(bytes: Seq<u8>) -> Seq<char> {
    Seq::new(24, |i: int| base64_char(sextet(bytes, i)))
}

/// What a token that this crate made looks like.
pub open spec fn is_token(t: Seq<char>) -> bool {
    exists|bytes: Seq<u8>| bytes.len() == TOKEN_BYTES && t == #[trigger] token_of(bytes)
}

/// The characters of a token.
pub open spec fn is_url_safe(c: char) -> bool {
    'A' <= c <= 'Z' || 'a' <= c <= 'z' || '0' <= c <= '9' || c == '-' || c == '_'
}

/// Calls `base64`'s `URL_SAFE_NO_PAD.encode` on 18 bytes: 24 characters, one
/// for each group of six bits.
#[verifier::external_body]
fn base64_url(bytes: &[u8; 18]) -> (r: String)
    ensures
        r@ == token_of(bytes@),
{
    URL_SAFE_NO_PAD.encode(bytes)
}

/// Calls `rand::thread_rng().fill_bytes`. Nothing is said of the bytes.
#[verifier::external_body]
fn random_bytes() -> (r: [u8; 18])
{
    let mut bytes = [0u8; 18];
    rand::thread_rng().fill_bytes(&mut bytes);
    bytes
}

/// The SHA-256 digest of some bytes, as `sha2::Sha256` computes it.
pub uninterp spec fn sha256_of(data: Seq<u8>) -> Seq<u8>;

/// Calls `sha2::Sha256::digest`.
#[verifier::external_body]
fn sha256(data: &Vec<u8>) -> (r: Vec<u8>)
    ensures
        r@ == sha256_of(data@),
        r@.len() == 32,
{
    Sha256::digest(data).to_vec()
}

pub open spec fn is_lower_hex(c: char) -> bool {
    '0' <= c <= '9' || 'a' <= c <= 'f'
}

/// The text of a random UUID: 32 lower-case hexadecimal digits in five groups.
pub open spec fn is_uuid(s: Seq<char>) -> bool {
    &&& s.len() == 36
    &&& forall|i: int|
        0 <= i < 36 ==> if i == 8 || i == 13 || i == 18 || i == 23 {
            #[trigger] s[i] == '-'
        } else {
            is_lower_hex(s[i])
        }
    &&& s[14] == '4'
    &&& s[19] == '8' || s[19] == '9' || s[19] == 'a' || s[19] == 'b'
}

/// Calls `uuid::Uuid::new_v4` and writes it in its hyphenated lower-case form.
/// Beyond that form nothing is said of it.
#[verifier::external_body]
fn random_uuid() -> (r: String)
    ensures
        is_uuid(r@),
{
    Uuid::new_v4().to_string()
}

/// One hexadecimal digit in lower case.
pub open spec fn hex_char(v: int) -> char {
    if v < 10 {
        ('0' as int + v) as char
    } else {
        ('a' as int + v - 10) as char
    }
}

/// The bytes in lower-case hexadecimal, two digits each.
pub open spec fn hex_of(bytes: Seq<u8>) -> Seq<char> {
    Seq::new(
        2 * bytes.len(),
        |i: int|
            if i % 2 == 0 {
                hex_char(bytes[i / 2] as int / 16)
            } else {
                hex_char(bytes[i / 2] as int % 16)
            },
    )
}

/// What is stored of a share's password: the digest of the password, a `|` and
/// the token, in hexadecimal.
pub open spec fn password_hash_of(password: Seq<char>, token: Seq<char>) -> Seq<char> {
    hex_of(sha256_of(encode_utf8(password) + seq![0x7cu8] + encode_utf8(token)))
}

fn hex_digit(v: u8) -> (r: char)
    requires
        v < 16,
    ensures
        r == hex_char(v as int),
{
    if v < 10 {
        (48 + v) as char
    } else {
        (87 + v) as char
    }
}

/// The bytes in lower-case hexadecimal.
pub fn to_hex(bytes: &Vec<u8>) -> (r: String)
    ensures
        r@ == hex_of(bytes@),
{
    let mut r = String::new();
    let mut i: usize = 0;
    while i < bytes.len()
        invariant
            i <= bytes@.len(),
            r@ == hex_of(bytes@.take(i as int)),
        decreases bytes@.len() - i,
    {
        let b = bytes[i];
        r.push(hex_digit(b / 16));
        r.push(hex_digit(b % 16));
        assert(r@ =~= hex_of(bytes@.take(i + 1)));
        i = i + 1;
    }
    assert(bytes@.take(bytes@.len() as int) =~= bytes@);
    r
}

/// The token that stands for 18 bytes.
pub fn token_from_bytes(bytes: &[u8; 18]) -> (r: String)
    ensures
        r@ == token_of(bytes@),
{
    base64_url(bytes)
}

/// A fresh random share token.
pub fn new_token() -> (r: String)
    ensures
        is_token(r@),
{
    let bytes = random_bytes();
    token_from_bytes(&bytes)
}

/// A fresh random identifier.
pub fn new_id() -> (r: String)
    ensures
        is_uuid(r@),
{
    random_uuid()
}

/// What is stored of the password of the share with this token.
pub fn password_hash(password: &str, token: &str) -> (r: String)
    ensures
        r@ == password_hash_of(password@, token@),
{
    let mut data: Vec<u8> = Vec::new();
    data.extend_from_slice(password.as_bytes());
    data.push(0x7c);
    data.extend_from_slice(token.as_bytes());
    assert(data@ =~= encode_utf8(password@) + seq![0x7cu8] + encode_utf8(token@));
    let digest = sha256(&data);
    to_hex(&digest)
}

/// A token is 24 characters long, all of them letters, digits, `-` or `_`.
pub proof fn tokens_are_url_safe(t: Seq<char>)
    requires
        is_token(t),
    ensures
        t.len() == 24,
        forall|i: int| 0 <= i < 24 ==> is_url_safe(#[trigger] t[i]),
{
    let bytes = choose|bytes: Seq<u8>| bytes.len() == TOKEN_BYTES && t == #[trigger] token_of(bytes);
    assert forall|i: int| 0 <= i < 24 implies is_url_safe(#[trigger] t[i]) by {
        assert(0 <= sextet(bytes, i) < 64);
    }
}

/// Which of the 64 values a character of the alphabet stands for.
spec fn base64_value(c: char) -> int {
    if 'A' <= c <= 'Z' {
        c as int - 'A' as int
    } else if 'a' <= c <= 'z' {
        c as int - 'a' as int + 26
    } else if '0' <= c <= '9' {
        c as int - '0' as int + 52
    } else if c == '-' {
        62
    } else {
        63
    }
}

proof fn lemma_base64_value(v: int)
    requires
        0 <= v < 64,
    ensures
        base64_value(base64_char(v)) == v,
{
}

/// Different bytes make different tokens.
pub proof fn tokens_keep_bytes_apart(a: Seq<u8>, b: Seq<u8>)
    requires
        a.len() == TOKEN_BYTES,
        b.len() == TOKEN_BYTES,
        token_of(a) == token_of(b),
    ensures
        a == b,
{
    assert forall|i: int| 0 <= i < 24 implies #[trigger] sextet(a, i) == sextet(b, i) by {
        assert(token_of(a)[i] == base64_char(sextet(a, i)));
        assert(token_of(b)[i] == base64_char(sextet(b, i)));
        lemma_base64_value(sextet(a, i));
        lemma_base64_value(sextet(b, i));
    }
    assert forall|k: int| 0 <= k < 18 implies a[k] == b[k] by {
        let i = 4 * (k / 3);
        assert(i / 4 == k / 3 && (i + 1) / 4 == k / 3 && (i + 2) / 4 == k / 3 && (i + 3) / 4 == k
            / 3);
        assert(sextet(a, i) == sextet(b, i));
        assert(sextet(a, i + 1) == sextet(b, i + 1));
        assert(sextet(a, i + 2) == sextet(b, i + 2));
        assert(sextet(a, i + 3) == sextet(b, i + 3));
    }
    assert(a =~= b);
}

/// A stored password hash consists of lower-case hexadecimal digits.
pub proof fn hashes_are_hexadecimal(password: Seq<char>, token: Seq<char>)
    ensures
        forall|i: int|
            0 <= i < password_hash_of(password, token).len() ==> is_lower_hex(
                #[trigger] password_hash_of(password, token)[i],
            ),
{
}

} // verus!
