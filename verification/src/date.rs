//! The `Utc2k` date/time type.

use vstd::prelude::*;
use crate::calendar::{
    century_secs, day_number, days_before_month, days_before_year, is_leap, lemma_century_days_before_year,
    naive_days_before_month,
    lemma_day_of_year_bounds, lemma_month_bounds, lemma_valid_secs_injective, lemma_valid_secs_range,
    month_len, valid_moment, valid_secs, year_len,
};
use crate::{Abacus, Month, Utc2kError, Weekday};
use crate::calendar::moment_secs;
use crate::{DAY_IN_SECONDS, HOUR_IN_SECONDS, MINUTE_IN_SECONDS};

verus! {

/// A UTC date/time within `2000-01-01 00:00:00..=2099-12-31 23:59:59`.
///
/// The year is held as an offset from 2000.
#[derive(Debug, Clone, Copy, PartialEq, Eq, Structural, Hash, Ord)]
pub struct Utc2k {
    pub(crate) y: u8,
    pub(crate) m: u8,
    pub(crate) d: u8,
    pub(crate) hh: u8,
    pub(crate) mm: u8,
    pub(crate) ss: u8,
}

impl Utc2k {
    /// The parts always form a real calendar moment of this century.
    #[verifier::type_invariant]
    pub(crate) open spec fn inv(self) -> bool {
        self.wf()
    }

    /// The parts form a real calendar moment of this century.
    pub open(crate) spec fn wf(self) -> bool {
        valid_moment(2000 + self.y, self.m as int, self.d as int, self.hh as int, self.mm as int, self.ss as int)
    }

    /// Seconds since `2000-01-01 00:00:00`.
    pub open(crate) spec fn secs(self) -> int {
        valid_secs(2000 + self.y, self.m as int, self.d as int, self.hh as int, self.mm as int, self.ss as int)
    }

    /// This is the moment `s` seconds into the century, saturated to the
    /// century's first or last moment when `s` lies outside of it.
    pub open(crate) spec fn saturates(self, s: int) -> bool {
        if s < 0 { self == Utc2k::first() }
        else if s > century_secs() { self == Utc2k::last() }
        else { self.secs() == s }
    }

    /// The full year, e.g. `2024`.
    pub open(crate) spec fn year_spec(self) -> int { 2000 + self.y }

    /// The month, `1..=12`.
    pub open(crate) spec fn month_spec(self) -> int { self.m as int }

    /// The day of the month, counted from one.
    pub open(crate) spec fn day_spec(self) -> int { self.d as int }

    /// The hour, `0..24`.
    pub open(crate) spec fn hour_spec(self) -> int { self.hh as int }

    /// The minute, `0..60`.
    pub open(crate) spec fn minute_spec(self) -> int { self.mm as int }

    /// The second, `0..60`.
    pub open(crate) spec fn second_spec(self) -> int { self.ss as int }

    /// The day number of this moment's date, counted from `2000-01-01`.
    pub open(crate) spec fn day_number_spec(self) -> int {
        day_number(self.year_spec(), self.month_spec(), self.day_spec())
    }

    /// The moment with these parts, the year an offset from 2000.
    pub open(crate) spec fn from_parts_spec(y: u8, m: u8, d: u8, hh: u8, mm: u8, ss: u8) -> Self {
        Utc2k { y, m, d, hh, mm, ss }
    }

    /// The earliest moment: `2000-01-01 00:00:00`.
    pub open(crate) spec fn first() -> Self {
        Utc2k { y: 0, m: 1, d: 1, hh: 0, mm: 0, ss: 0 }
    }

    /// The latest moment: `2099-12-31 23:59:59`.
    pub open(crate) spec fn last() -> Self {
        Utc2k { y: 99, m: 12, d: 31, hh: 23, mm: 59, ss: 59 }
    }

    /// The unix timestamp of [`Utc2k::min`].
    pub const MIN_UNIXTIME: u32 = 946_684_800;

    /// The unix timestamp of [`Utc2k::max`].
    pub const MAX_UNIXTIME: u32 = 4_102_444_799;
}

/// Hours, minutes, and seconds of a second count within one day.
///
/// The divisions by 3600 and 60 are done by multiplying and shifting, which
/// is exact for counts this small.
pub(crate) fn time_seconds(src: u32) -> (r: (u8, u8, u8))
    requires
        src < 86400,
    ensures
        r.0 < 24 && r.1 < 60 && r.2 < 60,
        r.0 * 3600 + r.1 * 60 + r.2 == src,
{
    let mut src = src;
    let hh: u8 =
        if src >= HOUR_IN_SECONDS {
            assert(src < 86400 ==> ((src * 0x91A3u32) as u32) >> 27u32 == src / 3600) by (bit_vector);
            let hh = ((src * 0x91A3) >> 27) as u8;
            src = src - hh as u32 * HOUR_IN_SECONDS;
            hh
        }
        else { 0 };

    if src >= MINUTE_IN_SECONDS {
        assert(src < 3600 ==> ((src * 0x889u32) as u32) >> 17u32 == src / 60) by (bit_vector);
        let mm = ((src * 0x889) >> 17) as u8;
        src = src - mm as u32 * MINUTE_IN_SECONDS;
        (hh, mm, src as u8)
    }
    else {
        (hh, 0, src as u8)
    }
}

/// Days from March 1 of year zero to March 1 of year `y`, counting a leap
/// day every fourth year less the fifteen days the Gregorian calendar had
/// dropped by 1900; this holds from 1900-03-01 to 2100-02-28.
pub open spec fn march_days(y: int) -> int {
    365 * y + y / 4 - 15
}

/// Days of a March-based year before month `m`, where `m` runs from 3
/// (March) to 14 (the February after).
pub open spec fn march_month_days(m: int) -> int {
    (153 * m - 457) / 5
}

/// The March-based year of day `zp`, counted from March 1 of year zero, and
/// the day within that year, counted from one.
pub(crate) proof fn lemma_march_year(zp: int)
    requires
        730426 <= zp <= 766950,
    ensures
        1999 <= (100 * zp + 1475) / 36525 <= 2099,
        1 <= zp - march_days((100 * zp + 1475) / 36525) <= 366,
        zp - march_days((100 * zp + 1475) / 36525) == 366 ==> (100 * zp + 1475) / 36525 % 4 == 3,
{
    let w = 100 * zp + 1475;
    let y = w / 36525;
    let q = y / 4;
    let r = y % 4;
    assert(y == 4 * q + r && 0 <= r < 4);
    assert(36525 * y <= w < 36525 * y + 36525);
    assert(100 * (zp - march_days(y)) == (w - 36525 * y) + 25 + 25 * r);
}

/// The month (March-based) and day of day `a` of a March-based year.
pub(crate) proof fn lemma_march_day(a: int)
    requires
        1 <= a <= 366,
    ensures
        3 <= (5 * a + 456) / 153 <= 14,
        1 <= a - march_month_days((5 * a + 456) / 153),
        (5 * a + 456) / 153 <= 12 ==>
            march_month_days((5 * a + 456) / 153) == naive_days_before_month((5 * a + 456) / 153) - 59
            && a - march_month_days((5 * a + 456) / 153) <= month_len(2001, (5 * a + 456) / 153),
        (5 * a + 456) / 153 == 13 ==> march_month_days(13) == 306 && a - 306 <= 31,
        (5 * a + 456) / 153 == 14 ==> march_month_days(14) == 337 && a - 337 <= 29 && (a - 337 == 29 ==> a == 366),
{
    let m = (5 * a + 456) / 153;
    assert(153 * m <= 5 * a + 456 < 153 * m + 153);
    if m == 3 { assert(march_month_days(3) == 0); }
    else if m == 4 { assert(march_month_days(4) == 31); }
    else if m == 5 { assert(march_month_days(5) == 61); }
    else if m == 6 { assert(march_month_days(6) == 92); }
    else if m == 7 { assert(march_month_days(7) == 122); }
    else if m == 8 { assert(march_month_days(8) == 153); }
    else if m == 9 { assert(march_month_days(9) == 184); }
    else if m == 10 { assert(march_month_days(10) == 214); }
    else if m == 11 { assert(march_month_days(11) == 245); }
    else if m == 12 { assert(march_month_days(12) == 275); }
    else if m == 13 { assert(march_month_days(13) == 306); }
    else { assert(march_month_days(14) == 337); }
}

/// The calendar date of a March-based year and day: March to December of
/// that year, or January and February of the next.
pub(crate) proof fn lemma_march_date(y: int, a: int)
    requires
        1999 <= y <= 2099,
        1 <= a <= 366,
        a == 366 ==> y % 4 == 3,
        march_days(y) + a >= 730486 - 60,
        march_days(y) + a <= 766950,
    ensures
        ({
            let m = (5 * a + 456) / 153;
            let d = a - march_month_days(m);
            let (cy, cm) = if m > 12 { (y + 1, m - 12) } else { (y, m) };
            &&& valid_moment(cy, cm, d, 0, 0, 0)
            &&& day_number(cy, cm, d) == march_days(y) + a - 730426
        }),
{
    lemma_march_day(a);
    let m = (5 * a + 456) / 153;
    let d = a - march_month_days(m);
    if m > 12 {
        assert(2000 <= y + 1 <= 2100);
        lemma_century_days_before_year(y + 1 - 2000);
        assert((y - 1996) / 4 + 499 == y / 4);
    } else {
        assert(2000 <= y);
        lemma_century_days_before_year(y - 2000);
        assert((y - 1997) / 4 + (if is_leap(y) { 1int } else { 0int }) + 499 == y / 4);
    }
}

/// Year (offset from 2000), month, and day of a day number counted from the
/// unix epoch, for days of this century.
///
/// The date is worked out from March 1 of year zero, so that the leap day
/// comes last in the year.
pub(crate) fn date_seconds(z: u32) -> (r: (u8, u8, u8))
    requires
        10957 <= z <= 10957 + 36524,
    ensures
        valid_moment(2000 + r.0, r.1 as int, r.2 as int, 0, 0, 0),
        day_number(2000 + r.0, r.1 as int, r.2 as int) == z - 10957,
{
    let z = z + crate::JULIAN_OFFSET;
    let h: u32 = 100 * z - 25;
    let mut a: u32 = h / crate::YEAR_IN_DAYS_P4;
    assert(a == 19 || a == 20);
    assert(a == 19 || a == 20 ==> a - (a >> 2u32) == 15) by (bit_vector);
    a = a - (a >> 2);
    let year: u32 = (100 * a + h) / crate::YEAR_IN_DAYS_P2;
    proof { lemma_march_year(z as int); }
    assert(year >> 2u32 == year / 4) by (bit_vector);
    a = a + z - 365 * year - (year >> 2);
    let month: u32 = (5 * a + 456) / 153;
    let day: u8 = (a - (153 * month - 457) / 5) as u8;
    proof {
        lemma_march_day(a as int);
        lemma_march_date(year as int, a as int);
    }
    if month > 12 {
        ((year - 1999) as u8, month as u8 - 12, day)
    }
    else {
        ((year - 2000) as u8, month as u8, day)
    }
}

impl Utc2k {
    /// The individual parts, from year down to second.
    pub fn parts(self) -> (r: (u16, u8, u8, u8, u8, u8))
        ensures
            r.0 == self.year_spec(),
            r.1 == self.month_spec(),
            r.2 == self.day_spec(),
            r.3 == self.hour_spec(),
            r.4 == self.minute_spec(),
            r.5 == self.second_spec(),
    {
        (self.year(), self.m, self.d, self.hh, self.mm, self.ss)
    }

    /// The year, month, and day.
    pub fn ymd(self) -> (r: (u16, u8, u8))
        ensures
            r.0 == self.year_spec(),
            r.1 == self.month_spec(),
            r.2 == self.day_spec(),
    {
        (self.year(), self.m, self.d)
    }

    /// The hour, minute, and second.
    pub fn hms(self) -> (r: (u8, u8, u8))
        ensures
            r.0 == self.hour_spec(),
            r.1 == self.minute_spec(),
            r.2 == self.second_spec(),
    {
        (self.hh, self.mm, self.ss)
    }

    /// The year, e.g. `2024`.
    pub fn year(self) -> (r: u16)
        ensures
            r == self.year_spec(),
            2000 <= r <= 2099,
    {
        proof { use_type_invariant(&self); }
        self.y as u16 + 2000
    }

    /// The month, `1..=12`.
    pub fn month(self) -> (r: u8)
        ensures
            r == self.month_spec(),
            1 <= r <= 12,
    {
        proof { use_type_invariant(&self); }
        self.m
    }

    /// The day of the month, counted from one.
    pub fn day(self) -> (r: u8)
        ensures
            r == self.day_spec(),
            1 <= r <= 31,
    {
        proof { use_type_invariant(&self); }
        self.d
    }

    /// The hour, `0..24`.
    pub fn hour(self) -> (r: u8)
        ensures
            r == self.hour_spec(),
            r < 24,
    {
        proof { use_type_invariant(&self); }
        self.hh
    }

    /// The minute, `0..60`.
    pub fn minute(self) -> (r: u8)
        ensures
            r == self.minute_spec(),
            r < 60,
    {
        proof { use_type_invariant(&self); }
        self.mm
    }

    /// The second, `0..60`.
    pub fn second(self) -> (r: u8)
        ensures
            r == self.second_spec(),
            r < 60,
    {
        proof { use_type_invariant(&self); }
        self.ss
    }

    /// The moment represented by balanced [`Abacus`] parts, saturated to the
    /// century.
    pub fn from_abacus(src: Abacus) -> (r: Self)
        requires
            src.balanced(),
        ensures
            r.saturates(src.secs()),
    {
        let (y, m, d, hh, mm, ss) = src.parts();
        Utc2k { y, m, d, hh, mm, ss }
    }

    /// A moment from parts, which need not be balanced: thirteen months, for
    /// example, become one year and one month. Moments before 2000 or after
    /// 2099 saturate to the century.
    pub fn new(y: u16, m: u8, d: u8, hh: u8, mm: u8, ss: u8) -> (r: Self)
        ensures
            r.saturates(moment_secs(y as int, m as int, d as int, hh as int, mm as int, ss as int)),
    {
        let a = Abacus::new(y, m, d, hh, mm, ss);
        let r = Self::from_abacus(a);
        proof { r.lemma_saturates_clamp(a.secs(), moment_secs(y as int, m as int, d as int, hh as int, mm as int, ss as int)); }
        r
    }

    /// Saturation only depends on the clamped second count.
    pub proof fn lemma_saturates_clamp(self, s1: int, s2: int)
        requires
            crate::calendar::clamp_secs(s1) == crate::calendar::clamp_secs(s2),
        ensures
            self.saturates(s1) == self.saturates(s2),
    {
    }

    /// The moment `offset` seconds later, saturating at [`Utc2k::max`].
    pub(crate) fn plus_seconds(self, offset: u32) -> (r: Self)
        ensures
            r.saturates(self.secs() + offset),
    {
        let start = Abacus::from_utc2k(self);
        let sum = start.plus_seconds(offset);
        let r = Self::from_abacus(sum);
        proof { r.lemma_saturates_clamp(sum.secs(), self.secs() + offset); }
        r
    }

    /// Two moments with the same second count are the same moment.
    pub proof fn lemma_secs_injective(a: Utc2k, b: Utc2k)
        requires
            a.wf(),
            b.wf(),
            a.secs() == b.secs(),
        ensures
            a == b,
    {
        lemma_valid_secs_injective(
            2000 + a.y, a.m as int, a.d as int, a.hh as int, a.mm as int, a.ss as int,
            2000 + b.y, b.m as int, b.d as int, b.hh as int, b.mm as int, b.ss as int,
        );
    }

    /// The moment `s` seconds into the century, saturated to its first or
    /// last moment.
    pub open(crate) spec fn at_secs(s: int) -> Self {
        choose|x: Utc2k| x.wf() && x.saturates(s)
    }

    /// Only one moment saturates a given second count.
    pub proof fn lemma_saturates_unique(a: Utc2k, b: Utc2k, s: int)
        requires
            a.wf(),
            b.wf(),
            a.saturates(s),
            b.saturates(s),
        ensures
            a == b,
    {
        if 0 <= s <= century_secs() {
            lemma_valid_secs_injective(
                2000 + a.y, a.m as int, a.d as int, a.hh as int, a.mm as int, a.ss as int,
                2000 + b.y, b.m as int, b.d as int, b.hh as int, b.mm as int, b.ss as int,
            );
        }
    }

    /// A valid moment saturating `s` is the moment at `s`.
    pub proof fn lemma_at_secs(r: Utc2k, s: int)
        requires
            r.wf(),
            r.saturates(s),
        ensures
            Utc2k::at_secs(s) == r,
    {
        let c = Utc2k::at_secs(s);
        Self::lemma_saturates_unique(c, r, s);
    }

    /// The moment `offset` seconds earlier, saturating at [`Utc2k::min`].
    pub(crate) fn minus_seconds(self, offset: u32) -> (r: Self)
        ensures
            r.saturates(self.secs() - offset),
    {
        proof {
            use_type_invariant(&self);
            lemma_valid_secs_range(2000 + self.y, self.m as int, self.d as int, self.hh as int, self.mm as int, self.ss as int);
        }
        // Seconds since the first of the month: subtracting no more than
        // these leaves the month alone.
        let mut easy: u32 =
            (self.d - 1) as u32 * DAY_IN_SECONDS +
            self.hh as u32 * HOUR_IN_SECONDS +
            self.mm as u32 * MINUTE_IN_SECONDS +
            self.ss as u32;

        if offset <= easy {
            easy = easy - offset;
            let d: u8 = (easy / DAY_IN_SECONDS) as u8 + 1;
            let (hh, mm, ss) = time_seconds(easy % DAY_IN_SECONDS);
            let r = Utc2k { y: self.y, m: self.m, d, hh, mm, ss };
            proof { lemma_valid_secs_range(2000 + r.y, r.m as int, r.d as int, r.hh as int, r.mm as int, r.ss as int); }
            r
        }
        // Otherwise go by way of the unix timestamp.
        else {
            let t = self.unixtime();
            let r = Self::from_unixtime(if offset <= t { t - offset } else { 0 });
            r
        }
    }

    /// The moment `secs` seconds later, or `None` (rather than saturating)
    /// if that leaves the century.
    pub fn checked_add(self, secs: u32) -> (r: Option<Self>)
        ensures
            r is Some <==> self.secs() + secs <= century_secs(),
            r matches Some(x) ==> x.secs() == self.secs() + secs,
    {
        let t = self.unixtime();
        if secs <= Self::MAX_UNIXTIME - t {
            let r = Self::from_unixtime(t + secs);
            proof { r.lemma_secs_of_saturated(t + secs - Self::MIN_UNIXTIME); }
            Some(r)
        }
        else { None }
    }

    /// The moment `secs` seconds earlier, or `None` (rather than saturating)
    /// if that leaves the century.
    pub fn checked_sub(self, secs: u32) -> (r: Option<Self>)
        ensures
            r is Some <==> self.secs() >= secs,
            r matches Some(x) ==> x.secs() == self.secs() - secs,
    {
        let t = self.unixtime();
        if secs <= t - Self::MIN_UNIXTIME {
            let r = Self::from_unixtime(t - secs);
            proof { r.lemma_secs_of_saturated(t - secs - Self::MIN_UNIXTIME); }
            Some(r)
        }
        else { None }
    }

    /// The moment of a unix timestamp, or an error (rather than saturating)
    /// if it falls outside the century.
    pub fn checked_from_unixtime(src: u32) -> (r: Result<Self, Utc2kError>)
        ensures
            src < Self::MIN_UNIXTIME <==> r == Err::<Utc2k, Utc2kError>(Utc2kError::Underflow),
            src > Self::MAX_UNIXTIME <==> r == Err::<Utc2k, Utc2kError>(Utc2kError::Overflow),
            Self::MIN_UNIXTIME <= src <= Self::MAX_UNIXTIME <==> r is Ok,
            r matches Ok(x) ==> x.secs() == src - Self::MIN_UNIXTIME,
    {
        if src < Self::MIN_UNIXTIME { Err(Utc2kError::Underflow) }
        else if src > Self::MAX_UNIXTIME { Err(Utc2kError::Overflow) }
        else {
            let r = Self::from_unixtime(src);
            proof { r.lemma_secs_of_saturated(src - Self::MIN_UNIXTIME); }
            Ok(r)
        }
    }

    /// Saturating a count within the century gives that very count.
    proof fn lemma_secs_of_saturated(self, s: int)
        requires
            0 <= s <= century_secs(),
            self.saturates(s),
        ensures
            self.secs() == s,
    {
    }

    /// The number of seconds between two moments, in either order.
    pub fn abs_diff(self, other: Self) -> (r: u32)
        ensures
            r == if self.secs() >= other.secs() { self.secs() - other.secs() } else { other.secs() - self.secs() },
    {
        let a = self.unixtime();
        let b = other.unixtime();
        if a >= b { a - b } else { b - a }
    }

    /// Compare the dates of two moments, ignoring their times.
    pub fn cmp_date(self, other: Self) -> (r: core::cmp::Ordering)
        ensures
            r == core::cmp::Ordering::Equal <==> (self.year_spec() == other.year_spec() && self.month_spec() == other.month_spec() && self.day_spec() == other.day_spec()),
            r == core::cmp::Ordering::Less <==> self.day_number_spec() < other.day_number_spec(),
            r == core::cmp::Ordering::Greater <==> self.day_number_spec() > other.day_number_spec(),
    {
        proof {
            use_type_invariant(&self);
            use_type_invariant(&other);
            Self::lemma_date_order(self, other);
            Self::lemma_date_order(other, self);
        }
        if self.y == other.y {
            if self.m == other.m {
                if self.d == other.d { core::cmp::Ordering::Equal }
                else if self.d < other.d { core::cmp::Ordering::Less }
                else { core::cmp::Ordering::Greater }
            }
            else if self.m < other.m { core::cmp::Ordering::Less }
            else { core::cmp::Ordering::Greater }
        }
        else if self.y < other.y { core::cmp::Ordering::Less }
        else { core::cmp::Ordering::Greater }
    }

    /// Dates compare as their day numbers do.
    proof fn lemma_date_order(a: Self, b: Self)
        requires
            a.wf(),
            b.wf(),
        ensures
            (a.y < b.y || (a.y == b.y && a.m < b.m) || (a.y == b.y && a.m == b.m && a.d < b.d))
                ==> a.day_number_spec() < b.day_number_spec(),
    {
        if a.y < b.y || (a.y == b.y && a.m < b.m) || (a.y == b.y && a.m == b.m && a.d < b.d) {
            crate::calendar::lemma_day_number_order(2000 + a.y, a.m as int, a.d as int, 2000 + b.y, b.m as int, b.d as int);
        }
    }

    /// Compare the times of two moments, ignoring their dates.
    pub fn cmp_time(self, other: Self) -> (r: core::cmp::Ordering)
        ensures
            r == core::cmp::Ordering::Equal <==> (self.hour_spec() == other.hour_spec() && self.minute_spec() == other.minute_spec() && self.second_spec() == other.second_spec()),
            r == core::cmp::Ordering::Less <==> self.time_secs_spec() < other.time_secs_spec(),
            r == core::cmp::Ordering::Greater <==> self.time_secs_spec() > other.time_secs_spec(),
    {
        proof {
            use_type_invariant(&self);
            use_type_invariant(&other);
        }
        if self.hh == other.hh {
            if self.mm == other.mm {
                if self.ss == other.ss { core::cmp::Ordering::Equal }
                else if self.ss < other.ss { core::cmp::Ordering::Less }
                else { core::cmp::Ordering::Greater }
            }
            else if self.mm < other.mm { core::cmp::Ordering::Less }
            else { core::cmp::Ordering::Greater }
        }
        else if self.hh < other.hh { core::cmp::Ordering::Less }
        else { core::cmp::Ordering::Greater }
    }

    /// Seconds since midnight.
    pub open(crate) spec fn time_secs_spec(self) -> int {
        self.hour_spec() * 3600 + self.minute_spec() * 60 + self.second_spec()
    }

    /// This moment's date at midnight.
    pub fn to_midnight(self) -> (r: Self)
        ensures
            r.year_spec() == self.year_spec(),
            r.month_spec() == self.month_spec(),
            r.day_spec() == self.day_spec(),
            r.time_secs_spec() == 0,
            r.secs() == self.day_number_spec() * 86400,
    {
        proof { use_type_invariant(&self); }
        Utc2k { y: self.y, m: self.m, d: self.d, hh: 0, mm: 0, ss: 0 }
    }

    /// This moment's date with a new time, carrying over into later dates
    /// where the time overflows.
    pub fn with_time(self, hh: u8, mm: u8, ss: u8) -> (r: Self)
        ensures
            r.saturates(self.day_number_spec() * 86400 + hh * 3600 + mm * 60 + ss),
    {
        proof {
            use_type_invariant(&self);
            crate::calendar::lemma_linear_day_balanced(2000 + self.y, self.m as int, self.d as int);
        }
        Self::new(self.year(), self.month(), self.day(), hh, mm, ss)
    }

    /// The number of days in this moment's month; leap-aware.
    pub fn month_size(self) -> (r: u8)
        ensures
            r == month_len(self.year_spec(), self.month_spec()),
    {
        proof { use_type_invariant(&self); }
        match self.m {
            1 | 3 | 5 | 7 | 8 | 10 | 12 => 31,
            4 | 6 | 9 | 11 => 30,
            _ => if self.leap_year() { 29 } else { 28 },
        }
    }

    /// The month as a [`Month`].
    pub fn month_enum(self) -> (r: Month)
        ensures
            r.num() == self.month_spec(),
    {
        proof { use_type_invariant(&self); }
        Month::from_u8(self.m)
    }

    /// The abbreviated name of the month, e.g. `"Jun"`.
    pub fn month_abbreviation(self) -> (r: &'static str)
        ensures
            r@ == Month::from_num(self.month_spec()).abbr(),
    {
        self.month_enum().abbreviation()
    }

    /// The name of the month, e.g. `"June"`.
    pub fn month_name(self) -> (r: &'static str)
        ensures
            r@ == Month::from_num(self.month_spec()).name(),
    {
        self.month_enum().as_str()
    }

    /// The day of the week.
    pub fn weekday(self) -> (r: Weekday)
        ensures
            r == Weekday::from_num(self.day_number_spec() + 7),
    {
        proof {
            use_type_invariant(&self);
            lemma_century_days_before_year(self.y as int);
            lemma_day_of_year_bounds(2000 + self.y, self.m as int, self.d as int);
        }
        let first = Weekday::year_begins_on(self.y);
        let ord = self.ordinal();
        let r = Weekday::from_u8(first.number() + ((ord - 1) % 7) as u8);
        proof {
            let n = days_before_year(self.year_spec());
            let o = ord - 1;
            Weekday::lemma_from_num(n + 7);
            vstd::arithmetic::div_mod::lemma_add_mod_noop(first.num(), o, 7);
            vstd::arithmetic::div_mod::lemma_mod_twice(o, 7);
            vstd::arithmetic::div_mod::lemma_add_mod_noop(first.num(), o % 7, 7);
            vstd::arithmetic::div_mod::lemma_add_mod_noop(n + 7, o, 7);
        }
        r
    }

    /// Midnight on the first of a month of this century; the year is an
    /// offset from 2000.
    pub(crate) fn from_ym(y: u8, m: Month) -> (r: Self)
        requires
            y < 100,
        ensures
            r.year_spec() == 2000 + y,
            r.month_spec() == m.num(),
            r.day_spec() == 1,
            r.time_secs_spec() == 0,
    {
        proof { m.lemma_num_from_num(); }
        Utc2k { y, m: m.number(), d: 1, hh: 0, mm: 0, ss: 0 }
    }

    /// The current moment.
    pub fn now() -> (r: Self) {
        Self::from_unixtime(crate::unixtime())
    }

    /// The moment one day from now. Whatever the clock says, that is at
    /// least a day into the century: the clock reading is saturated to the
    /// century before the day is added.
    pub fn tomorrow() -> (r: Self)
        ensures
            DAY_IN_SECONDS <= r.secs(),
    {
        let t = crate::unixtime();
        let r = Self::from_unixtime(t + DAY_IN_SECONDS);
        proof { lemma_century_days_before_year(99); }
        r
    }

    /// The moment one day ago. Whatever the clock says, that is at least a
    /// day before the end of the century: the clock reading is saturated to
    /// the century before the day is taken away.
    pub fn yesterday() -> (r: Self)
        ensures
            r.secs() <= century_secs() - DAY_IN_SECONDS,
    {
        let t = crate::unixtime();
        let r = Self::from_unixtime(t - DAY_IN_SECONDS);
        proof { lemma_century_days_before_year(99); }
        r
    }

    /// The moment an ASCII date or datetime string spells out, saturated to
    /// the century, or `None` if it spells none out.
    ///
    /// Dates are `YYYYMMDD` or `YYYY-MM-DD` (with any single-byte separators);
    /// datetimes are `YYYYMMDDhhmmss` or `YYYY-MM-DD hh:mm:ss`, optionally
    /// followed by ignored fractional seconds and a `Z`, `UT`, `UTC`, or `GMT`
    /// marker or `±hhmm` or `±hh:mm` UTC offset. Parts need not be balanced:
    /// `2000-13-10` is `2001-01-10`.
    pub fn from_ascii(src: &[u8]) -> (r: Option<Self>)
        ensures
            r is Some <==> crate::parse::ascii_spec(src@) is Some,
            r matches Some(u) ==> u.saturates(crate::parse::ascii_spec(src@).unwrap()),
    {
        match Abacus::from_ascii(src) {
            Some(parts) => {
                let r = Self::from_abacus(parts);
                proof { r.lemma_saturates_clamp(parts.secs(), crate::parse::ascii_spec(src@).unwrap()); }
                Some(r)
            },
            None => None,
        }
    }

    /// The moment an RFC2822 date or datetime spells out, saturated to the
    /// century, or `None` if it spells none out. The offset's minus sign may
    /// also be the Unicode minus sign, `U+2212`.
    pub fn from_rfc2822(src: &[u8]) -> (r: Option<Self>)
        ensures
            r is Some <==> crate::parse::rfc2822_spec(src@) is Some,
            r matches Some(u) ==> u.saturates(crate::parse::rfc2822_spec(src@).unwrap()),
    {
        match Abacus::from_rfc2822(src) {
            Some(parts) => {
                let r = Self::from_abacus(parts);
                proof { r.lemma_saturates_clamp(parts.secs(), crate::parse::rfc2822_spec(src@).unwrap()); }
                Some(r)
            },
            None => None,
        }
    }

    /// Like [`Utc2k::from_ascii`], but moments outside the century are
    /// errors rather than saturated.
    pub fn checked_from_ascii(src: &[u8]) -> (r: Result<Self, Utc2kError>)
        ensures
            crate::parse::ascii_spec(src@) is None <==> r == Err::<Utc2k, Utc2kError>(Utc2kError::Invalid),
            (crate::parse::ascii_spec(src@) matches Some(s) && s < 0) <==> r == Err::<Utc2k, Utc2kError>(Utc2kError::Underflow),
            (crate::parse::ascii_spec(src@) matches Some(s) && s > century_secs()) <==> r == Err::<Utc2k, Utc2kError>(Utc2kError::Overflow),
            r matches Ok(u) ==> u.secs() == crate::parse::ascii_spec(src@).unwrap(),
    {
        match Abacus::from_ascii(src) {
            Some(parts) => match parts.parts_checked() {
                Ok((y, m, d, hh, mm, ss)) => Ok(Utc2k { y, m, d, hh, mm, ss }),
                Err(e) => Err(e),
            },
            None => Err(Utc2kError::Invalid),
        }
    }

    /// The earliest moment: `2000-01-01 00:00:00`.
    pub fn min() -> (r: Self)
        ensures
            r == Self::first(),
            r.secs() == 0,
    {
        Utc2k { y: 0, m: 1, d: 1, hh: 0, mm: 0, ss: 0 }
    }

    /// The latest moment: `2099-12-31 23:59:59`.
    pub fn max() -> (r: Self)
        ensures
            r == Self::last(),
            r.secs() == century_secs(),
    {
        proof { lemma_century_days_before_year(99); }
        Utc2k { y: 99, m: 12, d: 31, hh: 23, mm: 59, ss: 59 }
    }

    /// The moment of a unix timestamp, saturating to [`Utc2k::min`] or
    /// [`Utc2k::max`] when the timestamp falls outside of the century.
    pub fn from_unixtime(src: u32) -> (r: Self)
        ensures
            r.saturates(src - Self::MIN_UNIXTIME),
    {
        if src <= Self::MIN_UNIXTIME { Self::min() }
        else if src >= Self::MAX_UNIXTIME { Self::max() }
        else {
            let (y, m, d) = date_seconds(src / DAY_IN_SECONDS);
            let (hh, mm, ss) = time_seconds(src % DAY_IN_SECONDS);
            Utc2k { y, m, d, hh, mm, ss }
        }
    }

    /// The unix timestamp of this moment.
    pub fn unixtime(self) -> (r: u32)
        ensures
            r == Self::MIN_UNIXTIME + self.secs(),
            0 <= self.secs() <= century_secs(),
    {
        proof {
            use_type_invariant(&self);
            lemma_valid_secs_range(2000 + self.y, self.m as int, self.d as int, self.hh as int, self.mm as int, self.ss as int);
            lemma_century_days_before_year(self.y as int);
        }
        let y = self.y as u32;
        // Everything as it would be in a non-leap year, then the leap day.
        let time = Self::MIN_UNIXTIME
            + (365 * y + (y + 3) / 4) * DAY_IN_SECONDS
            + self.month_enum().ordinal_seconds()
            + self.seconds_from_midnight()
            + DAY_IN_SECONDS * (self.d as u32 - 1);
        if 2 < self.m && self.leap_year() { time + DAY_IN_SECONDS } else { time }
    }

    /// Whether this moment falls in a leap year.
    pub fn leap_year(self) -> (r: bool)
        ensures
            r == is_leap(self.year_spec()),
    {
        proof {
            use_type_invariant(&self);
            lemma_century_days_before_year(self.y as int);
        }
        self.y % 4 == 0
    }


    /// The day of the year, counted from one.
    pub fn ordinal(self) -> (r: u16)
        ensures
            r == days_before_month(self.year_spec(), self.month_spec()) + self.day_spec(),
            1 <= r <= 366,
    {
        proof {
            use_type_invariant(&self);
            lemma_day_of_year_bounds(2000 + self.y, self.m as int, self.d as int);
        }
        let days = self.d as u16 + match self.m {
            2 => 31u16,
            3 => 59,
            4 => 90,
            5 => 120,
            6 => 151,
            7 => 181,
            8 => 212,
            9 => 243,
            10 => 273,
            11 => 304,
            12 => 334,
            _ => 0,
        };
        if 2 < self.m && self.leap_year() { days + 1 } else { days }
    }

    /// Seconds since this moment's midnight.
    pub fn seconds_from_midnight(self) -> (r: u32)
        ensures
            r == self.hour_spec() * 3600 + self.minute_spec() * 60 + self.second_spec(),
            r < 86400,
    {
        proof { use_type_invariant(&self); }
        self.ss as u32 + self.mm as u32 * MINUTE_IN_SECONDS + self.hh as u32 * HOUR_IN_SECONDS
    }
}

impl core::ops::Add<u32> for Utc2k {
    type Output = Self;

    /// The moment `other` seconds later, saturating at [`Utc2k::max`].
    fn add(self, other: u32) -> (r: Self)
        ensures
            r.saturates(self.secs() + other),
    {
        let r = self.plus_seconds(other);
        proof {
            use_type_invariant(&r);
            Self::lemma_at_secs(r, self.secs() + other);
        }
        r
    }
}

impl core::ops::Sub<u32> for Utc2k {
    type Output = Self;

    /// The moment `other` seconds earlier, saturating at [`Utc2k::min`].
    fn sub(self, other: u32) -> (r: Self)
        ensures
            r.saturates(self.secs() - other),
    {
        let r = self.minus_seconds(other);
        proof {
            use_type_invariant(&r);
            Self::lemma_at_secs(r, self.secs() - other);
        }
        r
    }
}

impl vstd::std_specs::ops::SubSpecImpl<u32> for Utc2k {
    open spec fn obeys_sub_spec() -> bool {
        true
    }

    open spec fn sub_req(self, rhs: u32) -> bool {
        true
    }

    open spec fn sub_spec(self, rhs: u32) -> Self {
        Utc2k::at_secs(self.secs() - rhs)
    }
}

impl core::ops::AddAssign<u32> for Utc2k {
    /// Move `other` seconds later, saturating at [`Utc2k::max`].
    fn add_assign(&mut self, other: u32)
        ensures
            final(self).saturates(old(self).secs() + other),
    {
        *self = self.plus_seconds(other);
    }
}

impl core::ops::SubAssign<u32> for Utc2k {
    /// Move `other` seconds earlier, saturating at [`Utc2k::min`].
    fn sub_assign(&mut self, other: u32)
        ensures
            final(self).saturates(old(self).secs() - other),
    {
        *self = self.minus_seconds(other);
    }
}

impl vstd::std_specs::ops::AddSpecImpl<u32> for Utc2k {
    open spec fn obeys_add_spec() -> bool {
        true
    }

    open spec fn add_req(self, rhs: u32) -> bool {
        true
    }

    open spec fn add_spec(self, rhs: u32) -> Self {
        Utc2k::at_secs(self.secs() + rhs)
    }
}

} // verus!
