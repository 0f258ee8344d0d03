use vstd::prelude::*;
use crate::calendar::{days_from_civil, lemma_calendar_advances_one_day, next_day, valid_date};
use crate::face::{clock_face, face_of};
use crate::civil::{
    in_jiff_range, utc_calendar_date, utc_date, utc_hms, utc_minus_hours, utc_plus_seconds,
    utc_time_of_day, MAX_UNIX_SECOND, MIN_UNIX_SECOND,
};

verus! {

/// How many hours the displayed wall clock runs behind UTC.
pub const UTC_OFFSET_HOURS: i64 = 5;

/// The wall clock: the instant it shows, kept as a Unix second, whose UTC
/// reading is the time displayed after the fixed shift of `UTC_OFFSET_HOURS`.
pub struct LocalClock {
    unix_second: i64,
}

impl View for LocalClock {
    type V = int;

    /// The Unix second whose UTC reading the clock shows.
    closed spec fn view(&self) -> int {
        self.unix_second as int
    }
}

impl LocalClock {
    #[verifier::type_invariant]
    spec fn in_range(self) -> bool {
        in_jiff_range(self.unix_second as int)
    }

    /// A clock that holds an instant jiff can represent.
    pub open spec fn wf(self) -> bool {
        in_jiff_range(self@)
    }

    /// The clock set from an SNTP answer of `ntp_seconds` Unix seconds, read
    /// as a signed count: the instant shifted back by `UTC_OFFSET_HOURS` hours.
    pub fn from_ntp(ntp_seconds: u64) -> (r: LocalClock)
        requires
            in_jiff_range(ntp_seconds as i64 as int),
            in_jiff_range(ntp_seconds as i64 - 3600 * UTC_OFFSET_HOURS),
        ensures
            r@ == ntp_seconds as i64 - 3600 * UTC_OFFSET_HOURS,
            r.wf(),
    {
        let start: i64 = ntp_seconds as i64;
        let shifted = utc_minus_hours(start, UTC_OFFSET_HOURS);
        LocalClock { unix_second: shifted.unwrap() }
    }

    /// Whether an SNTP answer of `ntp_seconds` can set the clock: the answer
    /// and the instant `UTC_OFFSET_HOURS` hours before it lie in jiff's range.
    pub fn accepts_ntp(ntp_seconds: u64) -> (r: bool)
        ensures
            r == (in_jiff_range(ntp_seconds as i64 as int) && in_jiff_range(
                ntp_seconds as i64 - 3600 * UTC_OFFSET_HOURS,
            )),
    {
        let start: i64 = ntp_seconds as i64;
        MIN_UNIX_SECOND <= start && start <= MAX_UNIX_SECOND && MIN_UNIX_SECOND + 3600
            * UTC_OFFSET_HOURS <= start
    }

    /// Advances the clock by one second.
    pub fn tick(&mut self)
        requires
            old(self)@ < MAX_UNIX_SECOND,
        ensures
            final(self)@ == old(self)@ + 1,
            final(self).wf(),
    {
        proof {
            use_type_invariant(&*self);
        }
        let next = utc_plus_seconds(self.unix_second, 1);
        self.unix_second = next.unwrap();
    }

    /// Hour, minute and second that the clock shows.
    pub fn time_of_day(&self) -> (r: (u8, u8, u8))
        ensures
            r.0 as int == utc_hms(self@).0,
            r.1 as int == utc_hms(self@).1,
            r.2 as int == utc_hms(self@).2,
            r.0 < 24 && r.1 < 60 && r.2 < 60,
    {
        proof {
            use_type_invariant(self);
        }
        let t = utc_time_of_day(self.unix_second).unwrap();
        (t.0 as u8, t.1 as u8, t.2 as u8)
    }

    /// Year, month and day that the clock shows.
    pub fn date(&self) -> (r: (i16, i8, i8))
        ensures
            (r.0 as int, r.1 as int, r.2 as int) == utc_calendar_date(self@),
            1 <= r.1 <= 12 && 1 <= r.2 <= 31,
            valid_date((r.0 as int, r.1 as int, r.2 as int)),
            days_from_civil((r.0 as int, r.1 as int, r.2 as int)) == self@ / 86400,
    {
        proof {
            use_type_invariant(self);
        }
        utc_date(self.unix_second).unwrap()
    }

    /// The face "HH:MM:SS" that the clock shows.
    pub fn face(&self) -> (r: [char; 8])
        ensures
            r@ == face_of(utc_hms(self@).0, utc_hms(self@).1, utc_hms(self@).2),
    {
        let (hour, minute, second) = self.time_of_day();
        clock_face(hour, minute, second)
    }
}

/// The reading one second after a wall-clock reading `t` (hour, minute,
/// second): the seconds count up, carrying into minutes, hours and a new day.
pub open spec fn next_second(t: (int, int, int)) -> (int, int, int) {
    if t.2 < 59 {
        (t.0, t.1, t.2 + 1)
    } else if t.1 < 59 {
        (t.0, t.1 + 1, 0)
    } else if t.0 < 23 {
        (t.0 + 1, 0, 0)
    } else {
        (0, 0, 0)
    }
}

/// The reading `t` (hour, minute, second) moved back by `hours` whole hours
/// on a 24-hour dial.
pub open spec fn shift_back_hours(t: (int, int, int), hours: int) -> (int, int, int) {
    ((t.0 - hours) % 24, t.1, t.2)
}

/// One tick moves the displayed time forward by exactly one second, with
/// carries into the minute, the hour and the next day.
pub proof fn lemma_tick_shows_next_second(unix_second: int)
    ensures
        utc_hms(unix_second + 1) == next_second(utc_hms(unix_second)),
{
    let d: int = unix_second % 86400;
    assert((unix_second + 1) % 86400 == if d == 86399 { 0 } else { d + 1 }) by (nonlinear_arith)
        requires
            d == unix_second % 86400,
    ;
    if d < 86399 {
        assert((d + 1) / 3600 == d / 3600 || (d % 3600 == 3599 && (d + 1) / 3600 == d / 3600 + 1))
            by (nonlinear_arith)
            requires
                0 <= d < 86399,
        ;
    }
}

/// A clock set from an SNTP answer shows the UTC time of that answer moved
/// back by `UTC_OFFSET_HOURS` hours, with minutes and seconds unchanged.
pub proof fn lemma_from_ntp_shows_offset_time(ntp_seconds: int)
    ensures
        utc_hms(ntp_seconds - 3600 * UTC_OFFSET_HOURS) == shift_back_hours(
            utc_hms(ntp_seconds),
            UTC_OFFSET_HOURS as int,
        ),
{
    let d: int = ntp_seconds % 86400;
    let e: int = (ntp_seconds - 18000) % 86400;
    assert(e == if d >= 18000 { d - 18000 } else { d + 68400 }) by (nonlinear_arith)
        requires
            d == ntp_seconds % 86400,
            e == (ntp_seconds - 18000) % 86400,
    ;
    let h: int = d / 3600;
    let r: int = d % 3600;
    assert(d == 3600 * h + r && 0 <= r < 3600 && 0 <= h < 24) by (nonlinear_arith)
        requires
            h == d / 3600,
            r == d % 3600,
            0 <= d < 86400,
    ;
    if d >= 18000 {
        assert(e / 3600 == h - 5 && e % 3600 == r) by (nonlinear_arith)
            requires
                e == 3600 * (h - 5) + r,
                0 <= r < 3600,
        ;
    } else {
        assert(e / 3600 == h + 19 && e % 3600 == r) by (nonlinear_arith)
            requires
                e == 3600 * (h + 19) + r,
                0 <= r < 3600,
        ;
    }
}

/// The date the clock shows turns over exactly once a day: the dates shown
/// at an instant and 86400 seconds later are consecutive calendar days, and
/// the instant 0 shows 1970-01-01.
pub proof fn lemma_date_turns_over_each_day(
    unix_second: int,
    date: (int, int, int),
    day_later: (int, int, int),
)
    requires
        valid_date(date),
        days_from_civil(date) == unix_second / 86400,
        valid_date(day_later),
        days_from_civil(day_later) == (unix_second + 86400) / 86400,
    ensures
        day_later == next_day(date),
        days_from_civil((1970, 1, 1)) == 0int / 86400,
{
    assert((unix_second + 86400) / 86400 == unix_second / 86400 + 1);
    lemma_calendar_advances_one_day(date, day_later);
}

} // verus!
