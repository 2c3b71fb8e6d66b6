//! The Gregorian calendar, stated mathematically.
//!
//! Day numbers count from `2000-01-01` (day zero); second counts likewise
//! start at `2000-01-01 00:00:00`.

use vstd::prelude::*;

verus! {

/// Number of seconds between the first and last moments of the century.
pub open spec fn century_secs() -> int { 3_155_759_999 }

/// Gregorian leap year rule.
pub open spec fn is_leap(y: int) -> bool {
    y % 4 == 0 && (y % 100 != 0 || y % 400 == 0)
}

/// Number of days in a year.
pub open spec fn year_len(y: int) -> int {
    if is_leap(y) { 366 } else { 365 }
}

/// Number of days in month `m` (`1..=12`) of year `y`.
pub open spec fn month_len(y: int, m: int) -> int {
    if m == 2 {
        if is_leap(y) { 29 } else { 28 }
    } else if m == 4 || m == 6 || m == 9 || m == 11 {
        30
    } else {
        31
    }
}

/// Days in the months of a non-leap year preceding month `m` (`1..=12`).
pub open spec fn naive_days_before_month(m: int) -> int {
    if m <= 1 { 0 }
    else if m == 2 { 31 }
    else if m == 3 { 59 }
    else if m == 4 { 90 }
    else if m == 5 { 120 }
    else if m == 6 { 151 }
    else if m == 7 { 181 }
    else if m == 8 { 212 }
    else if m == 9 { 243 }
    else if m == 10 { 273 }
    else if m == 11 { 304 }
    else { 334 }
}

/// Days of year `y` preceding the first of month `m` (`1..=12`).
pub open spec fn days_before_month(y: int, m: int) -> int {
    if 2 < m && is_leap(y) { naive_days_before_month(m) + 1 } else { naive_days_before_month(m) }
}

/// Leap days strictly before January 1 of year `y`, counted from year one.
pub open spec fn leaps_before(y: int) -> int {
    (y - 1) / 4 - (y - 1) / 100 + (y - 1) / 400
}

/// Days from `2000-01-01` to January 1 of year `y` (negative before 2000).
pub open spec fn days_before_year(y: int) -> int {
    365 * (y - 2000) + leaps_before(y) - leaps_before(2000)
}

/// Day number of `y-m-d`, where `m` is in `1..=12` and `d` may run past
/// (or fall short of) the month's bounds.
pub open spec fn day_number(y: int, m: int, d: int) -> int {
    days_before_year(y) + days_before_month(y, m) + d - 1
}

/// Day number of `y-m-d`, where months past twelve carry into later years
/// and a month of zero means December of the year before.
pub open spec fn linear_day(y: int, m: int, d: int) -> int {
    day_number(y + (m - 1) / 12, (m - 1) % 12 + 1, d)
}

/// Seconds since `2000-01-01 00:00:00` of a (possibly unbalanced) moment.
pub open spec fn moment_secs(y: int, m: int, d: int, hh: int, mm: int, ss: int) -> int {
    linear_day(y, m, d) * 86400 + hh * 3600 + mm * 60 + ss
}

/// A calendar moment within the century, written out as parts.
pub open spec fn valid_moment(y: int, m: int, d: int, hh: int, mm: int, ss: int) -> bool {
    &&& 2000 <= y <= 2099
    &&& 1 <= m <= 12
    &&& 1 <= d <= month_len(y, m)
    &&& 0 <= hh < 24
    &&& 0 <= mm < 60
    &&& 0 <= ss < 60
}

/// Going from one year to the next adds that year's length.
pub proof fn lemma_days_before_next_year(y: int)
    ensures
        days_before_year(y + 1) == days_before_year(y) + year_len(y),
{
}

} // verus!

verus! {

/// Within this century every fourth year leaps, starting with 2000.
pub proof fn lemma_century_days_before_year(y: int)
    requires
        0 <= y <= 100,
    ensures
        days_before_year(2000 + y) == 365 * y + (y + 3) / 4,
        y < 100 ==> (is_leap(2000 + y) <==> y % 4 == 0),
{
}

/// Consecutive months abut.
pub proof fn lemma_month_bounds(y: int, m: int)
    requires
        1 <= m <= 12,
    ensures
        m < 12 ==> days_before_month(y, m) + month_len(y, m) == days_before_month(y, m + 1),
        m == 12 ==> days_before_month(y, m) + month_len(y, m) == year_len(y),
        days_before_month(y, 1) == 0,
        28 <= month_len(y, m) <= 31,
        0 <= days_before_month(y, m),
{
}

/// The day of the year, counted from zero, lies within the year.
pub proof fn lemma_day_of_year_bounds(y: int, m: int, d: int)
    requires
        1 <= m <= 12,
        1 <= d <= month_len(y, m),
    ensures
        0 <= days_before_month(y, m) + d - 1 < year_len(y),
{
    lemma_month_bounds(y, m);
    if m < 12 {
        lemma_month_bounds(y, m + 1);
        lemma_month_tail(y, m + 1);
    }
}

/// The months after `m` leave room for its days.
proof fn lemma_month_tail(y: int, m: int)
    requires
        1 <= m <= 12,
    ensures
        days_before_month(y, m) + month_len(y, m) <= year_len(y),
    decreases 12 - m,
{
    lemma_month_bounds(y, m);
    if m < 12 {
        lemma_month_tail(y, m + 1);
    }
}

/// Dates are ordered as their day numbers are.
pub proof fn lemma_day_number_order(y1: int, m1: int, d1: int, y2: int, m2: int, d2: int)
    requires
        1 <= m1 <= 12,
        1 <= d1 <= month_len(y1, m1),
        1 <= m2 <= 12,
        1 <= d2 <= month_len(y2, m2),
        y1 < y2 || (y1 == y2 && m1 < m2) || (y1 == y2 && m1 == m2 && d1 < d2),
    ensures
        day_number(y1, m1, d1) < day_number(y2, m2, d2),
{
    lemma_day_of_year_bounds(y1, m1, d1);
    lemma_day_of_year_bounds(y2, m2, d2);
    if y1 < y2 {
        lemma_days_before_year_mono(y1, y2);
    } else if m1 < m2 {
        lemma_days_before_month_mono(y1, m1, m2);
    }
}

/// Years start later and later.
pub proof fn lemma_days_before_year_mono(y1: int, y2: int)
    requires
        y1 < y2,
    ensures
        days_before_year(y1) + year_len(y1) <= days_before_year(y2),
    decreases y2 - y1,
{
    lemma_days_before_next_year(y1);
    if y1 + 1 < y2 {
        lemma_days_before_year_mono(y1 + 1, y2);
        lemma_days_before_next_year(y1 + 1);
    }
}

/// Months start later and later.
pub proof fn lemma_days_before_month_mono(y: int, m1: int, m2: int)
    requires
        1 <= m1 < m2 <= 12,
    ensures
        days_before_month(y, m1) + month_len(y, m1) <= days_before_month(y, m2),
    decreases m2 - m1,
{
    lemma_month_bounds(y, m1);
    if m1 + 1 < m2 {
        lemma_days_before_month_mono(y, m1 + 1, m2);
        lemma_month_bounds(y, m1 + 1);
    }
}

/// Seconds since the start of the century of a moment given by parts.
pub open spec fn valid_secs(y: int, m: int, d: int, hh: int, mm: int, ss: int) -> int {
    day_number(y, m, d) * 86400 + hh * 3600 + mm * 60 + ss
}

/// Two moments written out as valid parts are equal when their second counts
/// are.
pub proof fn lemma_valid_secs_injective(
    y1: int, m1: int, d1: int, hh1: int, mm1: int, ss1: int,
    y2: int, m2: int, d2: int, hh2: int, mm2: int, ss2: int,
)
    requires
        valid_moment(y1, m1, d1, hh1, mm1, ss1),
        valid_moment(y2, m2, d2, hh2, mm2, ss2),
        valid_secs(y1, m1, d1, hh1, mm1, ss1) == valid_secs(y2, m2, d2, hh2, mm2, ss2),
    ensures
        y1 == y2 && m1 == m2 && d1 == d2 && hh1 == hh2 && mm1 == mm2 && ss1 == ss2,
{
    let n1 = day_number(y1, m1, d1);
    let n2 = day_number(y2, m2, d2);
    let t1 = hh1 * 3600 + mm1 * 60 + ss1;
    let t2 = hh2 * 3600 + mm2 * 60 + ss2;
    assert(n1 == n2) by {
        if n1 < n2 {
            assert(n1 * 86400 + 86400 <= n2 * 86400);
        } else if n2 < n1 {
            assert(n2 * 86400 + 86400 <= n1 * 86400);
        }
    }
    if y1 != y2 || m1 != m2 || d1 != d2 {
        if y1 < y2 || (y1 == y2 && m1 < m2) || (y1 == y2 && m1 == m2 && d1 < d2) {
            lemma_day_number_order(y1, m1, d1, y2, m2, d2);
        } else {
            lemma_day_number_order(y2, m2, d2, y1, m1, d1);
        }
    }
}

/// Valid moments lie within the century.
pub proof fn lemma_valid_secs_range(y: int, m: int, d: int, hh: int, mm: int, ss: int)
    requires
        valid_moment(y, m, d, hh, mm, ss),
    ensures
        0 <= valid_secs(y, m, d, hh, mm, ss) <= century_secs(),
        0 <= day_number(y, m, d) < 36525,
{
    lemma_day_of_year_bounds(y, m, d);
    lemma_century_days_before_year(y - 2000);
    lemma_century_days_before_year(y - 2000 + 1);
    lemma_days_before_next_year(y);
    let n = day_number(y, m, d);
    assert(0 <= n < 36525);
    assert(0 <= n * 86400 <= 36524 * 86400);
}

} // verus!

verus! {

/// Saturate a second count to the century: counts before it become `-1`,
/// counts after it become one past its last second.
pub open spec fn clamp_secs(s: int) -> int {
    if s < 0 { -1 } else if s > century_secs() { century_secs() + 1 } else { s }
}

/// A month of zero is December of the year before.
pub proof fn lemma_linear_day_month_zero(y: int, d: int)
    ensures
        linear_day(y, 0, d) == linear_day(y - 1, 12, d),
{
}

/// Months past twelve carry into years.
pub proof fn lemma_linear_day_carry_months(y: int, m: int, d: int)
    requires
        m > 12,
    ensures
        1 <= m - 12 * ((m - 1) / 12) <= 12,
        linear_day(y, m, d) == linear_day(y + (m - 1) / 12, m - 12 * ((m - 1) / 12), d),
{
}

/// For a month in range, the linear day is the plain day number.
pub proof fn lemma_linear_day_balanced(y: int, m: int, d: int)
    requires
        1 <= m <= 12,
    ensures
        linear_day(y, m, d) == day_number(y, m, d),
{
}

/// Day zero of a month is the last day of the month before.
pub proof fn lemma_day_number_zero_day(y: int, m: int)
    requires
        1 <= m <= 12,
    ensures
        m == 1 ==> day_number(y, m, 0) == day_number(y - 1, 12, 31),
        m > 1 ==> day_number(y, m, 0) == day_number(y, m - 1, month_len(y, m - 1)),
{
    lemma_days_before_next_year(y - 1);
    if m > 1 {
        lemma_month_bounds(y, m - 1);
    }
}

/// Days past the end of a month run into the next month.
pub proof fn lemma_day_number_overflow(y: int, m: int, d: int)
    requires
        1 <= m <= 12,
    ensures
        day_number(y, m, d) == linear_day(y, m + 1, d - month_len(y, m)),
{
    lemma_month_bounds(y, m);
    lemma_days_before_next_year(y);
}

/// Far enough before 2000, even a few hundred months and days cannot reach
/// it.
pub proof fn lemma_linear_day_early(y: int, m: int, d: int)
    requires
        y <= 1900,
        0 <= m <= 300,
        0 <= d <= 500,
    ensures
        linear_day(y, m, d) < -20000,
{
    let yy = y + (m - 1) / 12;
    let mm = (m - 1) % 12 + 1;
    assert(yy <= 1925);
    lemma_month_bounds(yy, mm);
    lemma_month_tail(yy, mm);
    if yy < 1925 {
        lemma_days_before_year_mono(yy, 1925);
    }
}

/// From 2200 on, everything lies past the century.
pub proof fn lemma_linear_day_late(y: int, m: int, d: int)
    requires
        y >= 2200,
        0 <= m,
        0 <= d,
    ensures
        linear_day(y, m, d) > 40000,
{
    let yy = y + (m - 1) / 12;
    let mm = (m - 1) % 12 + 1;
    assert(yy >= 2199);
    lemma_month_bounds(yy, mm);
    if 2199 < yy {
        lemma_days_before_year_mono(2199, yy);
    }
}

/// Balanced dates before 2000 lie before the century, and those after 2099
/// lie after it.
pub proof fn lemma_day_number_outside(y: int, m: int, d: int)
    requires
        1 <= m <= 12,
        1 <= d <= month_len(y, m),
    ensures
        y < 2000 ==> day_number(y, m, d) < 0,
        y > 2099 ==> day_number(y, m, d) >= 36525,
{
    lemma_day_of_year_bounds(y, m, d);
    if y < 2000 {
        lemma_days_before_year_mono(y, 2000);
    }
    if y > 2099 {
        lemma_century_days_before_year(100);
        if 2100 < y {
            lemma_days_before_year_mono(2100, y);
        }
    }
}

} // verus!
