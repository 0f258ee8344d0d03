use vstd::prelude::*;
use crate::calendar::{days_from_civil, valid_date};

verus! {

/// The earliest Unix second that a `jiff::Timestamp` can hold.
pub const MIN_UNIX_SECOND: i64 = -377705023201;

/// The latest Unix second that a `jiff::Timestamp` can hold.
pub const MAX_UNIX_SECOND: i64 = 253402207200;

/// Whether `unix_second` lies in the range of instants that jiff represents.
pub open spec fn in_jiff_range(unix_second: int) -> bool {
    MIN_UNIX_SECOND <= unix_second <= MAX_UNIX_SECOND
}

/// Seconds elapsed since midnight UTC at the instant `unix_second` (a civil
/// day has 86400 seconds; jiff counts no leap seconds).
pub open spec fn second_of_day(unix_second: int) -> int {
    unix_second % 86400
}

/// Hour, minute and second on a UTC wall clock at `unix_second`.
pub open spec fn utc_hms(unix_second: int) -> (int, int, int) {
    let d: int = second_of_day(unix_second);
    (d / 3600, (d % 3600) / 60, d % 60)
}

/// The UTC calendar date (year, month, day) that jiff assigns to the
/// instant `unix_second`.
pub uninterp spec fn utc_calendar_date(unix_second: int) -> (int, int, int);

/// Calls `jiff::Timestamp::from_second`, puts the instant in
/// `jiff::tz::TimeZone::UTC` with `Timestamp::to_zoned`, and reads
/// `Zoned::hour`, `Zoned::minute` and `Zoned::second`.
/// Claimed: jiff refuses exactly the seconds outside its range, and since a
/// jiff timestamp counts seconds from the Unix epoch without leap seconds and
/// UTC has offset zero, the fields are the Euclidean split of the second of
/// the day.
#[verifier::external_body]
pub(crate) fn utc_time_of_day(unix_second: i64) -> (r: Option<(i8, i8, i8)>)
    ensures
        r is Some <==> in_jiff_range(unix_second as int),
        r matches Some(t) ==> t.0 as int == utc_hms(unix_second as int).0
            && t.1 as int == utc_hms(unix_second as int).1
            && t.2 as int == utc_hms(unix_second as int).2,
{
    match jiff::Timestamp::from_second(unix_second) {
        Ok(ts) => {
            let zoned = ts.to_zoned(jiff::tz::TimeZone::UTC);
            Some((zoned.hour(), zoned.minute(), zoned.second()))
        },
        Err(_) => None,
    }
}

/// Calls `jiff::Timestamp::from_second`, puts the instant in
/// `jiff::tz::TimeZone::UTC`, and reads `Zoned::year`, `Zoned::month` and
/// `Zoned::day`.
/// Claimed: jiff refuses exactly the seconds outside its range; the date is
/// the one named by `utc_calendar_date`, with the ranges that jiff's
/// documentation guarantees for each field; it is a valid date of the
/// Gregorian calendar (jiff's `civil::Date`) whose count of days from
/// 1970-01-01 is the number of whole days, rounded down, in `unix_second`,
/// since UTC has offset zero and jiff counts 86400 seconds to a day.
#[verifier::external_body]
pub(crate) fn utc_date(unix_second: i64) -> (r: Option<(i16, i8, i8)>)
    ensures
        r is Some <==> in_jiff_range(unix_second as int),
        r matches Some(d) ==> (d.0 as int, d.1 as int, d.2 as int)
            == utc_calendar_date(unix_second as int),
        r matches Some(d) ==> -9999 <= d.0 <= 9999 && 1 <= d.1 <= 12 && 1 <= d.2 <= 31,
        r matches Some(d) ==> valid_date((d.0 as int, d.1 as int, d.2 as int)),
        r matches Some(d) ==> days_from_civil((d.0 as int, d.1 as int, d.2 as int))
            == unix_second as int / 86400,
{
    match jiff::Timestamp::from_second(unix_second) {
        Ok(ts) => {
            let zoned = ts.to_zoned(jiff::tz::TimeZone::UTC);
            Some((zoned.year(), zoned.month(), zoned.day()))
        },
        Err(_) => None,
    }
}

/// Calls `jiff::Zoned::checked_sub` with `jiff::Span::new().hours(hours)` on
/// the UTC zoned datetime of `unix_second`, and reads back the instant with
/// `Zoned::timestamp` and `Timestamp::as_second`.
/// Claimed: a span made only of hours is subtracted as an absolute amount of
/// time (3600 seconds per hour), and the call fails exactly when the start or
/// the result lies outside jiff's range. `hours` is kept within the bounds
/// past which `Span::hours` panics.
#[verifier::external_body]
pub(crate) fn utc_minus_hours(unix_second: i64, hours: i64) -> (r: Option<i64>)
    requires
        -175_307_616 <= hours <= 175_307_616,
    ensures
        r is Some <==> (in_jiff_range(unix_second as int) && in_jiff_range(
            unix_second - 3600 * hours,
        )),
        r matches Some(t) ==> t == unix_second - 3600 * hours,
{
    match jiff::Timestamp::from_second(unix_second) {
        Ok(ts) => match ts.to_zoned(jiff::tz::TimeZone::UTC).checked_sub(
            jiff::Span::new().hours(hours),
        ) {
            Ok(zoned) => Some(zoned.timestamp().as_second()),
            Err(_) => None,
        },
        Err(_) => None,
    }
}

/// Calls `jiff::Zoned::checked_add` with `jiff::Span::new().seconds(seconds)`
/// on the UTC zoned datetime of `unix_second`, and reads back the instant
/// with `Zoned::timestamp` and `Timestamp::as_second`.
/// Claimed: a span of seconds is added as an absolute amount of time, and the
/// call fails exactly when the start or the result lies outside jiff's range.
/// `seconds` is kept within the bounds past which `Span::seconds` panics.
#[verifier::external_body]
pub(crate) fn utc_plus_seconds(unix_second: i64, seconds: i64) -> (r: Option<i64>)
    requires
        -631_107_417_600 <= seconds <= 631_107_417_600,
    ensures
        r is Some <==> (in_jiff_range(unix_second as int) && in_jiff_range(
            unix_second + seconds,
        )),
        r matches Some(t) ==> t == unix_second + seconds,
{
    match jiff::Timestamp::from_second(unix_second) {
        Ok(ts) => match ts.to_zoned(jiff::tz::TimeZone::UTC).checked_add(
            jiff::Span::new().seconds(seconds),
        ) {
            Ok(zoned) => Some(zoned.timestamp().as_second()),
            Err(_) => None,
        },
        Err(_) => None,
    }
}

} // verus!
