//! What request handlers answer: refusals and response headers.

use vstd::prelude::*;
use vstd::utf8::{encode_utf8, is_ascii_chars_encode_utf8};

verus! {

/// An error answer: an HTTP status and the text of its `error` field.
#[derive(Debug)]
pub struct Refusal {
    pub status: u16,
    pub error: String,
}

impl DeepView for Refusal {
    type V = (u16, Seq<char>);

    open spec fn deep_view(&self) -> (u16, Seq<char>) {
        (self.status, self.error@)
    }
}

/// An error answer.
pub fn refuse(status: u16, error: &str) -> (r: Refusal)
    ensures
        r.deep_view() == (status, error@),
{
    Refusal { status, error: error.to_owned() }
}

/// The response headers that the server sets.
#[derive(Clone, Copy, Debug, PartialEq, Eq, Structural)]
pub enum HeaderName {
    CacheControl,
    ContentDisposition,
    ContentEncoding,
    ContentLength,
    ContentType,
    ETag,
    Vary,
}

/// A response header.
#[derive(Debug)]
pub struct Header {
    pub name: HeaderName,
    pub value: String,
}

impl DeepView for Header {
    type V = (HeaderName, Seq<char>);

    open spec fn deep_view(&self) -> (HeaderName, Seq<char>) {
        (self.name, self.value@)
    }
}

/// A response header.
pub fn header(name: HeaderName, value: &str) -> (r: Header)
    ensures
        r.deep_view() == (name, value@),
{
    Header { name, value: value.to_owned() }
}

/// Whether bytes may stand in a header: no control characters but the tab, and
/// no DEL.
pub open spec fn is_header_text(bytes: Seq<u8>) -> bool {
    forall|i: int|
        0 <= i < bytes.len() ==> {
            ||| #[trigger] bytes[i] >= 32 && bytes[i] != 127
            ||| bytes[i] == 9
        }
}

/// Calls `axum::http::HeaderValue::from_str`, which accepts a text when each of
/// its bytes may stand in a header.
#[verifier::external_body]
pub(crate) fn is_header_value(s: &str) -> (r: bool)
    ensures
        r == is_header_text(encode_utf8(s@)),
{
    axum::http::HeaderValue::from_str(s).is_ok()
}

/// The bytes that percent-encoding leaves alone.
pub open spec fn is_unreserved(b: u8) -> bool {
    ||| 0x30 <= b <= 0x39
    ||| 0x41 <= b <= 0x5a
    ||| 0x61 <= b <= 0x7a
    ||| b == 0x2d
    ||| b == 0x2e
    ||| b == 0x5f
    ||| b == 0x7e
}

/// One hexadecimal digit in upper case.
pub open spec fn upper_hex_char(v: int) -> char {
    if v < 10 {
        ('0' as int + v) as char
    } else {
        ('A' as int + v - 10) as char
    }
}

/// One byte, percent-encoded.
pub open spec fn percent_byte(b: u8) -> Seq<char> {
    if is_unreserved(b) {
        seq![b as char]
    } else {
        seq!['%', upper_hex_char(b as int / 16), upper_hex_char(b as int % 16)]
    }
}

/// Bytes, percent-encoded.
pub open spec fn percent_encoded(bytes: Seq<u8>) -> Seq<char>
    decreases bytes.len(),
{
    if bytes.len() == 0 {
        Seq::empty()
    } else {
        percent_encoded(bytes.drop_last()) + percent_byte(bytes.last())
    }
}

/// Calls `urlencoding::encode`: every byte of the text but ASCII letters,
/// digits and `-`, `.`, `_`, `~` becomes `%` and two upper-case hexadecimal
/// digits.
#[verifier::external_body]
fn percent_encode(s: &str) -> (r: String)
    ensures
        r@ == percent_encoded(encode_utf8(s@)),
{
    urlencoding::encode(s).into_owned()
}

/// The value of a `Content-Disposition` header.
pub open spec fn disposition_of(kind: Seq<char>, file_name: Seq<char>) -> Seq<char> {
    kind + "; filename*=UTF-8''"@ + percent_encoded(encode_utf8(file_name))
}

/// The value of a `Content-Disposition` header.
pub fn disposition(kind: &str, file_name: &str) -> (r: String)
    ensures
        r@ == disposition_of(kind@, file_name@),
{
    let mut r = kind.to_owned();
    r.append("; filename*=UTF-8''");
    r.append(percent_encode(file_name).as_str());
    r
}

proof fn lemma_percent_encoded_plain(bytes: Seq<u8>)
    ensures
        forall|i: int|
            0 <= i < percent_encoded(bytes).len() ==> ' ' < #[trigger] percent_encoded(bytes)[i]
                < '\u{7f}',
    decreases bytes.len(),
{
    if bytes.len() > 0 {
        let front = percent_encoded(bytes.drop_last());
        let last = percent_byte(bytes.last());
        lemma_percent_encoded_plain(bytes.drop_last());
        assert forall|i: int| 0 <= i < percent_encoded(bytes).len() implies ' '
            < #[trigger] percent_encoded(bytes)[i] < '\u{7f}' by {
            if i < front.len() {
                assert(percent_encoded(bytes)[i] == front[i]);
            } else {
                assert(percent_encoded(bytes)[i] == last[i - front.len()]);
            }
        }
    }
}

/// Whatever a file is called, its `Content-Disposition` can stand in a header.
pub proof fn dispositions_are_header_texts(kind: Seq<char>, file_name: Seq<char>)
    requires
        kind == "inline"@ || kind == "attachment"@,
    ensures
        is_header_text(encode_utf8(disposition_of(kind, file_name))),
{
    let value = disposition_of(kind, file_name);
    let encoded = percent_encoded(encode_utf8(file_name));
    let middle = "; filename*=UTF-8''"@;
    reveal_strlit("inline");
    reveal_strlit("attachment");
    reveal_strlit("; filename*=UTF-8''");
    lemma_percent_encoded_plain(encode_utf8(file_name));
    assert forall|i: int| 0 <= i < value.len() implies ' ' <= #[trigger] value[i] < '\u{7f}' by {
        if i < kind.len() {
            assert(value[i] == kind[i]);
        } else if i < kind.len() + middle.len() {
            assert(value[i] == middle[i - kind.len()]);
        } else {
            assert(value[i] == encoded[i - kind.len() - middle.len()]);
        }
    }
    is_ascii_chars_encode_utf8(value);
    assert forall|i: int| 0 <= i < encode_utf8(value).len() implies {
        ||| #[trigger] encode_utf8(value)[i] >= 32 && encode_utf8(value)[i] != 127
        ||| encode_utf8(value)[i] == 9
    } by {
        assert(value[i] as u8 == encode_utf8(value)[i]);
    }
}

} // verus!
