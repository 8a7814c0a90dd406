//! Instants in time, as seconds and nanoseconds since the Unix epoch.

use vstd::prelude::*;

verus! {

/// Calls `chrono::Utc::now`. The answer is the system clock's, so nothing is
/// stated of it.
#[verifier::external_body]
pub(crate) fn now_instant() -> (r: (i64, u32)) {
    let now = chrono::Utc::now();
    (now.timestamp(), now.timestamp_subsec_nanos())
}

/// A character RFC 3339 text as `chrono` writes it is made of: digits, the
/// signs, `T`, `:` and `.`.
pub open spec fn rfc3339_char(c: char) -> bool {
    ('0' <= c && c <= '9') || c == '+' || c == '-' || c == 'T' || c == ':' || c == '.'
}

/// Calls `chrono::Utc::now` and `DateTime::to_rfc3339`. Which instant it is
/// depends on the clock; whatever it is, chrono writes it as digits, signs,
/// `T`, `:` and `.` (`write_rfc3339`: the year, possibly signed, then
/// `-MM-DDThh:mm:ss`, an optional `.` and fraction digits, and `+00:00`).
#[verifier::external_body]
pub(crate) fn now_rfc3339() -> (r: String)
    ensures
        forall|i: int| 0 <= i < r@.len() ==> rfc3339_char(#[trigger] r@[i]),
{
    chrono::Utc::now().to_rfc3339()
}

/// Name for what `DateTime::parse_from_rfc3339` gives, taken to UTC as
/// seconds and nanoseconds since the epoch.
pub uninterp spec fn rfc3339_instant(s: Seq<char>) -> Option<(i64, u32)>;

/// Calls `DateTime::parse_from_rfc3339` and reads the instant in UTC; the
/// result is named `rfc3339_instant`.
#[verifier::external_body]
pub(crate) fn parse_rfc3339(s: &str) -> (r: Option<(i64, u32)>)
    ensures
        r == rfc3339_instant(s@),
{
    chrono::DateTime::parse_from_rfc3339(s).ok().map(
        |d| {
            let u = d.with_timezone(&chrono::Utc);
            (u.timestamp(), u.timestamp_subsec_nanos())
        },
    )
}

} // verus!
