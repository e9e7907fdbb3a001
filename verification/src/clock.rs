//! Points in time.

use chrono::{TimeZone, Utc};
use vstd::prelude::*;

verus! {

/// A point in time: seconds since the Unix epoch, and nanoseconds on top.
#[derive(Debug, Clone, Copy, PartialEq, Eq, Structural)]
pub struct Moment {
    pub seconds: i64,
    pub nanos: u32,
}

/// `Utc::now` of the `chrono` crate: the current time. It differs from call to
/// call, so nothing is claimed of it but that the nanoseconds are below a
/// second.
#[verifier::external_body]
pub(crate) fn now() -> (r: Moment)
    ensures
        r.nanos < 1_000_000_000,
{
    let t = Utc::now();
    Moment { seconds: t.timestamp(), nanos: t.timestamp_subsec_nanos() }
}

/// A point in time as RFC 3339 text, in UTC; none where the date is out of
/// range.
pub uninterp spec fn rfc3339_text(seconds: i64) -> Option<Seq<char>>;

/// `Utc.timestamp_opt` of the `chrono` crate, and what its `to_rfc3339` shows of
/// the date. The text is only named. Every date of the years 0 to 9999 is in
/// range.
#[verifier::external_body]
pub(crate) fn rfc3339(seconds: i64) -> (r: Option<String>)
    ensures
        r is Some <==> rfc3339_text(seconds) is Some,
        r is Some ==> r->0@ == rfc3339_text(seconds)->0,
        -62_167_219_200 <= seconds <= 253_402_300_799 ==> r is Some,
{
    Utc.timestamp_opt(seconds, 0).single().map(|t| t.to_rfc3339())
}

} // verus!
