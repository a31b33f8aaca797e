//! Trusted timestamp conversions: RFC 3339 text to Unix seconds and back.
use vstd::prelude::*;

verus! {

/// What `chrono::DateTime::parse_from_rfc3339` yields, reduced to Unix
/// seconds: a function of the text alone; `None` where the text is not a
/// valid RFC 3339 date-time.
pub uninterp spec fn rfc3339_secs(s: Seq<char>) -> Option<int>;

/// Earliest Unix second an RFC 3339 date-time can denote (year 0000,
/// shifted by the widest permitted offset), rounded down.
pub const RFC3339_MIN_SECS: i64 = -62_200_000_000;

/// Latest Unix second an RFC 3339 date-time can denote (year 9999, shifted
/// by the widest permitted offset), rounded up.
pub const RFC3339_MAX_SECS: i64 = 253_500_000_000;

/// Relies on `chrono::DateTime::parse_from_rfc3339` and `timestamp`: the
/// parse depends on the text alone, and a parsed date-time carries a
/// four-digit year and an offset within a day, so its Unix seconds lie
/// between `RFC3339_MIN_SECS` and `RFC3339_MAX_SECS`.
#[verifier::external_body]
pub(crate) fn parse_rfc3339(s: &str) -> (r: Option<i64>)
    ensures
        match r {
            Some(t) => rfc3339_secs(s@) == Some(t as int) && RFC3339_MIN_SECS <= t
                <= RFC3339_MAX_SECS,
            None => rfc3339_secs(s@) is None,
        },
{
    match chrono::DateTime::parse_from_rfc3339(s) {
        Ok(dt) => Some(dt.timestamp()),
        Err(_) => None,
    }
}

/// What `chrono::DateTime::<Utc>::to_rfc3339` yields for a whole Unix
/// second: a function of the seconds alone.
pub uninterp spec fn rfc3339_of(secs: int) -> Seq<char>;

/// Latest Unix second this library ever formats; far inside the range
/// `chrono::DateTime::from_timestamp` accepts.
pub const FORMAT_MAX_SECS: i64 = 8_000_000_000_000;

/// Relies on `chrono::DateTime::from_timestamp` and `to_rfc3339`: within
/// the stated range every second converts to a date-time, and the rendered
/// text depends on the seconds alone.
#[verifier::external_body]
pub(crate) fn format_rfc3339(secs: i64) -> (r: String)
    requires
        RFC3339_MIN_SECS <= secs <= FORMAT_MAX_SECS,
    ensures
        r@ == rfc3339_of(secs as int),
{
    match chrono::DateTime::<chrono::Utc>::from_timestamp(secs, 0) {
        Some(dt) => dt.to_rfc3339(),
        None => String::new(),
    }
}

} // verus!
