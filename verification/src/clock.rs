//! The wall clock and the textual form of time stamps.

use vstd::prelude::*;

verus! {

/// The RFC 3339 text of the instant `secs` seconds and `nanos` nanoseconds
/// after the epoch, in UTC, as chrono writes it; `None` where chrono has no
/// such instant.
pub uninterp spec fn rfc3339_text(secs: i64, nanos: u32) -> Option<Seq<char>>;

/// Whether `secs` is the number of whole seconds of an instant that chrono
/// has.
pub open spec fn is_instant(secs: i64) -> bool {
    exists|nanos: u32| #[trigger] rfc3339_text(secs, nanos) is Some
}

/// Reads the clock with `chrono::Utc::now` and returns the reading as
/// seconds since the epoch and nanoseconds within the second. Of a clock
/// reading only this is claimed: that it is not before the epoch, as `now`
/// does not return for a clock that is, and that it is an instant which
/// chrono can build again from the two numbers, and so can write.
#[verifier::external_body]
pub(crate) fn utc_now() -> (r: (i64, u32))
    ensures
        r.0 >= 0,
        rfc3339_text(r.0, r.1) is Some,
{
    let t = chrono::Utc::now();
    (t.timestamp(), t.timestamp_subsec_nanos())
}

/// Builds the instant with `chrono::DateTime::from_timestamp` and writes it
/// with `to_rfc3339`. The contract only names the result, which depends on
/// the two numbers alone.
#[verifier::external_body]
pub(crate) fn rfc3339(secs: i64, nanos: u32) -> (r: Option<String>)
    ensures
        match r {
            Some(s) => rfc3339_text(secs, nanos) == Some(s@),
            None => rfc3339_text(secs, nanos) is None,
        },
{
    match chrono::DateTime::from_timestamp(secs, nanos) {
        Some(t) => Some(t.to_rfc3339()),
        None => None,
    }
}

/// The current time as RFC 3339 text.
pub fn now_rfc3339() -> (r: String)
    ensures
        exists|secs: i64, nanos: u32| #[trigger] rfc3339_text(secs, nanos) == Some(r@),
{
    let (secs, nanos) = utc_now();
    match rfc3339(secs, nanos) {
        Some(s) => {
            assert(rfc3339_text(secs, nanos) == Some(s@));
            s
        },
        None => vstd::pervasive::unreached(),
    }
}

} // verus!
