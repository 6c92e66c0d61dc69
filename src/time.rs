//! Timestamps as plain values, their RFC 3339 text, and token expiry.

use vstd::prelude::*;

verus! {

/// An instant in UTC: whole seconds since the Unix epoch and the nanoseconds
/// past that second.
#[derive(Clone, Copy, Debug, PartialEq, Eq, Structural)]
pub struct Timestamp {
    pub secs: i64,
    pub nanos: u32,
}

/// The RFC 3339 text that chrono writes for an instant, or `None` where
/// chrono cannot represent the instant.
pub uninterp spec fn rfc3339_of(secs: i64, nanos: u32) -> Option<Seq<char>>;

/// An instant well inside chrono's range (years -262143 to 262142), with a
/// nanosecond count below one second.
pub open spec fn rfc3339_writable(t: Timestamp) -> bool {
    -8_000_000_000_000 <= t.secs <= 8_000_000_000_000 && t.nanos < 1_000_000_000
}

/// The text of an optional string.
pub open spec fn opt_text(o: Option<String>) -> Option<Seq<char>> {
    match o {
        Some(s) => Some(s@),
        None => None,
    }
}

/// The instant, in seconds and nanoseconds, that chrono reads from RFC 3339
/// text, or `None` where it refuses the text.
pub uninterp spec fn rfc3339_value(s: Seq<char>) -> Option<(i64, u32)>;

/// Milliseconds since the epoch of an instant.
pub open spec fn millis_of(t: Timestamp) -> int {
    t.secs * 1000 + t.nanos / 1_000_000
}

/// Relies on chrono's `DateTime::from_timestamp` (to build the instant) and
/// `DateTime::to_rfc3339` (to write it); `None` where chrono cannot
/// represent the instant. `from_timestamp` fails only for a day count
/// outside its date range or a nanosecond count of two seconds or more (one
/// second or more outside a leap second), so a writable instant succeeds.
#[verifier::external_body]
pub(crate) fn rfc3339_text(t: Timestamp) -> (r: Option<String>)
    ensures
        opt_text(r) == rfc3339_of(t.secs, t.nanos),
        rfc3339_writable(t) ==> r is Some,
{
    match chrono::DateTime::from_timestamp(t.secs, t.nanos) {
        Some(d) => Some(d.to_rfc3339()),
        None => None,
    }
}

/// Relies on chrono's `DateTime::parse_from_rfc3339`, with the instant
/// taken in UTC; the error is chrono's message.
#[verifier::external_body]
pub(crate) fn parse_rfc3339(s: &str) -> (r: Result<Timestamp, String>)
    ensures
        r is Ok <==> rfc3339_value(s@) is Some,
        r matches Ok(t) ==> rfc3339_value(s@) == Some((t.secs, t.nanos)),
{
    match chrono::DateTime::parse_from_rfc3339(s) {
        Ok(d) => {
            let u = d.to_utc();
            Ok(Timestamp { secs: u.timestamp(), nanos: u.timestamp_subsec_nanos() })
        },
        Err(e) => Err(e.to_string()),
    }
}

/// Relies on chrono's `Utc::now`: the current instant, of which nothing is
/// known in advance.
#[verifier::external_body]
pub(crate) fn current_time() -> (r: Timestamp) {
    let now = chrono::Utc::now();
    Timestamp { secs: now.timestamp(), nanos: now.timestamp_subsec_nanos() }
}

/// The current instant.
pub fn now() -> (r: Timestamp) {
    current_time()
}

/// Writes an instant as RFC 3339 text; `None` where it cannot be written.
pub fn to_rfc3339(t: Timestamp) -> (r: Option<String>)
    ensures
        opt_text(r) == rfc3339_of(t.secs, t.nanos),
        rfc3339_writable(t) ==> r is Some,
{
    rfc3339_text(t)
}

/// Reads an instant from RFC 3339 text; the error carries the reason.
pub fn from_rfc3339(s: &str) -> (r: Result<Timestamp, String>)
    ensures
        r is Ok <==> rfc3339_value(s@) is Some,
        r matches Ok(t) ==> rfc3339_value(s@) == Some((t.secs, t.nanos)),
{
    parse_rfc3339(s)
}

/// An expiry given in milliseconds has passed at `now` when `now` is at or
/// after it.
pub fn is_expired_at(now: Timestamp, expires_at_millis: usize) -> (r: bool)
    ensures
        r == (millis_of(now) >= expires_at_millis),
{
    let ms: i128 = (now.secs as i128) * 1000 + ((now.nanos / 1_000_000) as i128);
    ms >= expires_at_millis as i128
}

/// Whether an expiry given in milliseconds has passed at the current
/// instant.
pub fn check_expiry_time(expires_at: usize) -> (r: bool) {
    is_expired_at(current_time(), expires_at)
}

} // verus!
