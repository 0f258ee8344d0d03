use vstd::prelude::*;

verus! {

/// Whether `year` is a leap year of the proleptic Gregorian calendar.
pub open spec fn is_leap_year(year: int) -> bool {
    (year % 4 == 0 && year % 100 != 0) || year % 400 == 0
}

/// Number of days in month `month` (1 to 12) of `year`.
pub open spec fn days_in_month(year: int, month: int) -> int {
    if month == 2 {
        if is_leap_year(year) {
            29
        } else {
            28
        }
    } else if month == 4 || month == 6 || month == 9 || month == 11 {
        30
    } else {
        31
    }
}

/// Whether `date` (year, month, day) names a day of the Gregorian calendar.
pub open spec fn valid_date(date: (int, int, int)) -> bool {
    1 <= date.1 <= 12 && 1 <= date.2 <= days_in_month(date.0, date.1)
}

/// The calendar day after `date`.
pub open spec fn next_day(date: (int, int, int)) -> (int, int, int) {
    if date.2 < days_in_month(date.0, date.1) {
        (date.0, date.1, date.2 + 1)
    } else if date.1 < 12 {
        (date.0, date.1 + 1, 1)
    } else {
        (date.0 + 1, 1, 1)
    }
}

/// The year counted from March: January and February belong to the year
/// before.
pub open spec fn march_year(date: (int, int, int)) -> int {
    if date.1 <= 2 {
        date.0 - 1
    } else {
        date.0
    }
}

/// Months counted from March (0) to February (11).
pub open spec fn march_month(month: int) -> int {
    if month > 2 {
        month - 3
    } else {
        month + 9
    }
}

/// Days from March 1 to the first day of the March-based month `mp`.
pub open spec fn month_start(mp: int) -> int {
    (153 * mp + 2) / 5
}

/// Days from the start of a 400-year cycle to March 1 of its year `yoe`.
pub open spec fn year_start(yoe: int) -> int {
    yoe * 365 + yoe / 4 - yoe / 100
}

/// Days from March 1 of the March-based year to `date`.
pub open spec fn day_of_march_year(date: (int, int, int)) -> int {
    month_start(march_month(date.1)) + date.2 - 1
}

/// The number of days from 1970-01-01 to `date` (negative before it).
pub open spec fn days_from_civil(date: (int, int, int)) -> int {
    let y = march_year(date);
    (y / 400) * 146097 + year_start(y % 400) + day_of_march_year(date) - 719468
}

proof fn lemma_year_step(yoe: int)
    requires
        0 <= yoe < 399,
    ensures
        year_start(yoe + 1) - year_start(yoe) == if is_leap_year(yoe + 1) {
            366int
        } else {
            365int
        },
{
    assert((yoe + 1) / 4 - yoe / 4 == if (yoe + 1) % 4 == 0 { 1int } else { 0int })
        by (nonlinear_arith)
        requires
            0 <= yoe,
    ;
    assert((yoe + 1) / 100 - yoe / 100 == if (yoe + 1) % 100 == 0 { 1int } else { 0int })
        by (nonlinear_arith)
        requires
            0 <= yoe,
    ;
    assert((yoe + 1) % 400 == yoe + 1);
}

proof fn lemma_cycle_parts(y: int)
    ensures
        y == (y / 400) * 400 + y % 400,
        0 <= y % 400 < 400,
        (y + 1) % 400 == if y % 400 == 399 { 0 } else { y % 400 + 1 },
        (y + 1) / 400 == if y % 400 == 399 { y / 400 + 1 } else { y / 400 },
        is_leap_year(y + 1) == is_leap_year(y % 400 + 1),
{
    let q = y / 400;
    let r = y % 400;
    assert(y == q * 400 + r && 0 <= r < 400) by (nonlinear_arith)
        requires
            q == y / 400,
            r == y % 400,
    ;
    if r == 399 {
        assert((y + 1) % 400 == 0 && (y + 1) / 400 == q + 1) by (nonlinear_arith)
            requires
                y == q * 400 + 399,
        ;
    } else {
        assert((y + 1) % 400 == r + 1 && (y + 1) / 400 == q) by (nonlinear_arith)
            requires
                y == q * 400 + r,
                0 <= r < 399,
        ;
    }
    assert((y + 1) % 4 == (r + 1) % 4 && (y + 1) % 100 == (r + 1) % 100 && (y + 1) % 400 == (r
        + 1) % 400) by (nonlinear_arith)
        requires
            y == q * 400 + r,
    ;
}

/// The day after a valid date is a valid date, and it comes exactly one day
/// later in the count of days from 1970-01-01.
pub proof fn lemma_next_day_is_one_day_later(date: (int, int, int))
    requires
        valid_date(date),
    ensures
        valid_date(next_day(date)),
        days_from_civil(next_day(date)) == days_from_civil(date) + 1,
{
    let n = next_day(date);
    let y = march_year(date);
    lemma_cycle_parts(y);
    if date.2 < days_in_month(date.0, date.1) {
    } else if date.1 == 2 {
        // February 28 or 29 to March 1: the March-based year moves on.
        assert(march_year(n) == y + 1);
        assert(day_of_march_year(date) == 336 + days_in_month(date.0, 2));
        assert(day_of_march_year(n) == 0);
        assert(date.0 == y + 1);
        if y % 400 == 399 {
            assert(year_start(399) == 145731);
        } else {
            lemma_year_step(y % 400);
        }
    } else if date.1 < 12 {
        let m = date.1;
        assert(month_start(0) == 0 && month_start(1) == 31 && month_start(2) == 61 && month_start(
            3,
        ) == 92 && month_start(4) == 122 && month_start(5) == 153 && month_start(6) == 184
            && month_start(7) == 214 && month_start(8) == 245 && month_start(9) == 275
            && month_start(10) == 306 && month_start(11) == 337);
    } else {
        assert(month_start(9) == 275 && month_start(10) == 306);
    }
}

proof fn lemma_year_start_grows(a: int, b: int)
    requires
        0 <= a < b <= 399,
    ensures
        year_start(b) >= year_start(a + 1),
        year_start(b) >= year_start(a) + 365,
    decreases b - a,
{
    lemma_year_step(a);
    if b > a + 1 {
        lemma_year_start_grows(a + 1, b);
    }
}

proof fn lemma_month_table()
    ensures
        month_start(0) == 0 && month_start(1) == 31 && month_start(2) == 61 && month_start(3)
            == 92 && month_start(4) == 122 && month_start(5) == 153 && month_start(6) == 184
            && month_start(7) == 214 && month_start(8) == 245 && month_start(9) == 275
            && month_start(10) == 306 && month_start(11) == 337,
{
}

/// The day within its March-based year of a valid date, and the bounds that
/// pin it inside that year.
proof fn lemma_day_in_year_bounds(date: (int, int, int))
    requires
        valid_date(date),
    ensures
        0 <= day_of_march_year(date),
        march_year(date) % 400 < 399 ==> day_of_march_year(date) < year_start(
            march_year(date) % 400 + 1,
        ) - year_start(march_year(date) % 400),
        march_year(date) % 400 == 399 ==> day_of_march_year(date) < 366,
        0 <= year_start(march_year(date) % 400) + day_of_march_year(date) < 146097,
{
    let y = march_year(date);
    lemma_cycle_parts(y);
    lemma_month_table();
    assert(day_of_march_year(date) <= 336 + if date.1 == 2 {
        days_in_month(date.0, 2)
    } else {
        0
    });
    if date.1 == 2 {
        assert(date.0 == y + 1);
    }
    if y % 400 < 399 {
        lemma_year_step(y % 400);
        if y % 400 + 1 < 399 {
            lemma_year_start_grows(y % 400 + 1, 399);
        }
        assert(year_start(399) == 145731);
        if y % 400 > 0 {
            lemma_year_start_grows(0, y % 400);
        }
    } else {
        assert(year_start(399) == 145731);
    }
}

/// Different valid dates have different day counts: the count of days from
/// 1970-01-01 names at most one date.
pub proof fn lemma_day_count_names_one_date(d1: (int, int, int), d2: (int, int, int))
    requires
        valid_date(d1),
        valid_date(d2),
        days_from_civil(d1) == days_from_civil(d2),
    ensures
        d1 == d2,
{
    let y1 = march_year(d1);
    let y2 = march_year(d2);
    lemma_cycle_parts(y1);
    lemma_cycle_parts(y2);
    lemma_day_in_year_bounds(d1);
    lemma_day_in_year_bounds(d2);
    let e1 = y1 / 400;
    let e2 = y2 / 400;
    let r1 = year_start(y1 % 400) + day_of_march_year(d1);
    let r2 = year_start(y2 % 400) + day_of_march_year(d2);
    assert(e1 == e2 && r1 == r2) by (nonlinear_arith)
        requires
            e1 * 146097 + r1 == e2 * 146097 + r2,
            0 <= r1 < 146097,
            0 <= r2 < 146097,
    ;
    let a = y1 % 400;
    let b = y2 % 400;
    if a < b {
        lemma_year_start_grows(a, b);
        lemma_year_step(a);
    } else if b < a {
        lemma_year_start_grows(b, a);
        lemma_year_step(b);
    }
    assert(a == b);
    assert(y1 == y2);
    let p = day_of_march_year(d1);
    assert(p == day_of_march_year(d2));
    lemma_month_table();
    let mp1 = march_month(d1.1);
    let mp2 = march_month(d2.1);
    assert(mp1 == mp2);
}

/// The days of the calendar follow one another: 1970-01-01 is day 0, and the
/// date whose count is one more than that of a valid date is the next
/// calendar day (months of 31, 30, 31, 30, 31, 31, 30, 31, 30, 31, 31 days
/// from March, and February of 28 days or 29 in a leap year).
pub proof fn lemma_calendar_advances_one_day(date: (int, int, int), later: (int, int, int))
    requires
        valid_date(date),
        valid_date(later),
        days_from_civil(later) == days_from_civil(date) + 1,
    ensures
        later == next_day(date),
        days_from_civil((1970, 1, 1)) == 0,
{
    lemma_next_day_is_one_day_later(date);
    lemma_day_count_names_one_date(later, next_day(date));
    assert(1969int / 400 == 4 && 1969int % 400 == 369);
    assert(year_start(369) == 134774);
    assert(month_start(10) == 306);
}

} // verus!
