//! Unix timestamps, the current one and their RFC 3339 text.

use time::format_description::well_known::Rfc3339;
use time::OffsetDateTime;
use vstd::prelude::*;

verus! {

/// 1 January of the year -9999, the first instant that has a calendar date.
pub const FIRST_TIMESTAMP: i64 = -377705116800;

/// The last second of the year 9999, the last that has a calendar date.
pub const LAST_TIMESTAMP: i64 = 253402300799;

/// 1 January of the year 0. RFC 3339 has no text for earlier instants.
pub const FIRST_WRITABLE: i64 = -62167219200;

/// The timestamps that have a calendar date.
pub open spec fn has_date(ts: i64) -> bool {
    FIRST_TIMESTAMP <= ts <= LAST_TIMESTAMP
}

/// The timestamps that RFC 3339 can write.
pub open spec fn writable(ts: i64) -> bool {
    FIRST_WRITABLE <= ts <= LAST_TIMESTAMP
}

/// The form `YYYY-MM-DDThh:mm:ssZ`: a whole second in UTC.
pub open spec fn is_utc_second(text: Seq<char>) -> bool {
    &&& text.len() == 20
    &&& text[4] == '-' && text[7] == '-'
    &&& text[10] == 'T'
    &&& text[13] == ':' && text[16] == ':'
    &&& text[19] == 'Z'
    &&& forall|i: int|
        0 <= i < 19 && i != 4 && i != 7 && i != 10 && i != 13 && i != 16 ==> '0'
            <= #[trigger] text[i] <= '9'
}

/// What the text of the current moment can be: empty, or an instant in UTC, with
/// or without a fraction of the second, between the year 0 and the year 9999.
pub open spec fn is_moment_text(text: Seq<char>) -> bool {
    ||| text.len() == 0
    ||| {
        &&& text.len() >= 20
        &&& text[4] == '-' && text[7] == '-'
        &&& text[10] == 'T'
        &&& text[13] == ':' && text[16] == ':'
        &&& text.last() == 'Z'
        &&& rfc3339_instant(text) matches Some(t)
        &&& writable(t)
    }
}

/// What `OffsetDateTime::format` with `Rfc3339` writes for the UTC instant of
/// a timestamp that has a calendar date.
pub uninterp spec fn rfc3339_text(ts: i64) -> Seq<char>;

/// The timestamp of the instant that `OffsetDateTime::parse` with `Rfc3339`
/// reads from a text.
pub uninterp spec fn rfc3339_instant(text: Seq<char>) -> Option<i64>;

/// Calls `time::OffsetDateTime::now_utc`. Nothing is said of the result but
/// that it has a calendar date, as every value of that type has.
#[verifier::external_body]
fn utc_seconds() -> (r: i64)
    ensures
        has_date(r),
{
    OffsetDateTime::now_utc().unix_timestamp()
}

/// Calls `time::OffsetDateTime::now_utc` and `format` with `Rfc3339`. The text
/// is that of the moment of the call. Whatever the moment, it is in UTC, with or
/// without a fraction of the second, and `parse` with `Rfc3339` reads it; it is
/// empty where the clock shows a time before the year 0, since `format` refuses
/// that.
#[verifier::external_body]
fn utc_now_text() -> (r: String)
    ensures
        is_moment_text(r@),
{
    OffsetDateTime::now_utc().format(&Rfc3339).unwrap_or_default()
}

/// Calls `time::OffsetDateTime::from_unix_timestamp` and `format` with
/// `Rfc3339`. A timestamp without a calendar date gives `None`; one before the
/// year 0 gives the empty text, since `format` refuses it. Any other gives a text
/// in the form `YYYY-MM-DDThh:mm:ssZ`, without a fraction and in UTC, which
/// `parse` with `Rfc3339` reads as the same timestamp.
#[verifier::external_body]
fn format_timestamp(ts: i64) -> (r: Option<String>)
    ensures
        r is Some <==> has_date(ts),
        r matches Some(s) ==> s@ == rfc3339_text(ts),
        r matches Some(s) ==> (!writable(ts) ==> s@.len() == 0),
        r matches Some(s) ==> (writable(ts) ==> is_utc_second(s@) && rfc3339_instant(s@) == Some(
            ts,
        )),
{
    match OffsetDateTime::from_unix_timestamp(ts) {
        Ok(t) => Some(t.format(&Rfc3339).unwrap_or_default()),
        Err(_) => None,
    }
}

/// Calls `time::OffsetDateTime::parse` with `Rfc3339` and takes the timestamp
/// of what was read.
#[verifier::external_body]
fn parse_timestamp(text: &str) -> (r: Option<i64>)
    ensures
        r == rfc3339_instant(text@),
{
    match OffsetDateTime::parse(text, &Rfc3339) {
        Ok(t) => Some(t.unix_timestamp()),
        Err(_) => None,
    }
}

/// The current Unix timestamp.
pub fn now_unix() -> (r: i64)
    ensures
        has_date(r),
{
    utc_seconds()
}

/// The instant that an RFC 3339 text names.
pub fn iso_to_epoch(text: &str) -> (r: Option<i64>)
    ensures
        r == rfc3339_instant(text@),
{
    parse_timestamp(text)
}

/// Whether `text` is what `epoch_to_iso` may give for a timestamp. The text of
/// a timestamp that RFC 3339 can write names the same instant; that of one
/// without a calendar date is the text of some moment.
pub open spec fn is_iso_text(ts: i64, text: Seq<char>) -> bool {
    &&& has_date(ts) ==> text == rfc3339_text(ts)
    &&& has_date(ts) && !writable(ts) ==> text.len() == 0
    &&& writable(ts) ==> is_utc_second(text) && rfc3339_instant(text) == Some(ts)
    &&& !has_date(ts) ==> is_moment_text(text)
}

/// The RFC 3339 text of a timestamp; `current`, the text of the current moment,
/// where the timestamp has no calendar date.
pub fn iso_text(ts: i64, current: String) -> (r: String)
    ensures
        r@ == (if has_date(ts) {
            rfc3339_text(ts)
        } else {
            current@
        }),
        has_date(ts) || is_moment_text(current@) ==> is_iso_text(ts, r@),
{
    match format_timestamp(ts) {
        Some(s) => s,
        None => current,
    }
}

/// The RFC 3339 text of a timestamp. Where the timestamp has no calendar date,
/// the text is that of the current moment.
pub fn epoch_to_iso(ts: i64) -> (r: String)
    ensures
        is_iso_text(ts, r@),
{
    iso_text(ts, utc_now_text())
}

/// Whether `text` is what `epoch_to_iso` may give for an optional timestamp.
pub open spec fn iso_of(ts: Option<i64>, text: Option<Seq<char>>) -> bool {
    match (ts, text) {
        (None, None) => true,
        (Some(t), Some(s)) => is_iso_text(t, s),
        _ => false,
    }
}

/// The RFC 3339 text of an optional timestamp.
pub fn opt_epoch_to_iso(ts: Option<i64>) -> (r: Option<String>)
    ensures
        iso_of(ts, r.deep_view()),
{
    match ts {
        Some(t) => Some(epoch_to_iso(t)),
        None => None,
    }
}

/// The text of a timestamp between the year 0 and the year 9999 names the same
/// instant, is in UTC and has no fraction: 20 characters, the last of them `Z`.
pub proof fn timestamps_read_back(ts: i64, text: Seq<char>)
    requires
        writable(ts),
        is_iso_text(ts, text),
    ensures
        rfc3339_instant(text) == Some(ts),
        text.len() == 20,
        text[19] == 'Z',
        is_utc_second(text),
{
}

} // verus!
