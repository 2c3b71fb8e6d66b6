//! UTC2K: a small date/time library for UTC happenings within the years
//! `2000..=2099`.

#![allow(unused_imports)]

pub mod calendar;
mod abacus;
mod convert;
mod date;
mod error;
pub mod fixed;
pub mod fancy;
pub mod fmt;
pub mod local;
pub mod laws;
mod month;
mod order;
pub mod parse;
mod period;
mod weekday;

pub use abacus::Abacus;
pub use date::Utc2k;
pub use error::{Utc2kError, Utc2kFormatError};
pub use fmt::FmtUtc2k;
pub use local::{FmtLocal2k, Local2k, LocalOffset};
pub use month::Month;
pub use period::Period;
pub use weekday::Weekday;

use vstd::prelude::*;

verus! {

/// Seconds per minute.
pub const MINUTE_IN_SECONDS: u32 = 60;

/// Seconds per hour.
pub const HOUR_IN_SECONDS: u32 = 3600;

/// Seconds per day.
pub const DAY_IN_SECONDS: u32 = 86_400;

/// Seconds per week.
pub const WEEK_IN_SECONDS: u32 = 604_800;

/// Seconds per (normal) year.
pub const YEAR_IN_SECONDS: u32 = 31_536_000;

/// Bits that lowercase the last three bytes of a little-endian `u32` holding
/// ASCII letters.
pub const ASCII_LOWER: u32 = 0x2020_2000;

/// The system clock as std represents it.
#[verifier::external_type_specification]
#[verifier::external_body]
pub struct ExSystemTime(std::time::SystemTime);

/// The error std gives for a clock reading before the unix epoch.
#[verifier::external_type_specification]
#[verifier::external_body]
pub struct ExSystemTimeError(std::time::SystemTimeError);

/// Calls `std::time::SystemTime::now`. Nothing is claimed of the reading:
/// it is whatever the system clock says.
#[verifier::external_body]
fn system_now() -> std::time::SystemTime {
    std::time::SystemTime::now()
}

/// Calls `std::time::SystemTime::duration_since` with the unix epoch.
/// Nothing is claimed of the result: it depends on the clock reading.
#[verifier::external_body]
fn since_unix_epoch(t: &std::time::SystemTime) -> Result<core::time::Duration, std::time::SystemTimeError> {
    t.duration_since(std::time::SystemTime::UNIX_EPOCH)
}

/// Calls `core::time::Duration::as_secs`. Nothing is claimed of the whole
/// seconds it returns, as the duration is opaque here.
#[verifier::external_body]
fn duration_secs(d: &core::time::Duration) -> u64 {
    d.as_secs()
}

/// A count of seconds since the unix epoch, saturated to the century.
pub fn clamp_unixtime(secs: u64) -> (r: u32)
    ensures
        secs <= Utc2k::MIN_UNIXTIME ==> r == Utc2k::MIN_UNIXTIME,
        secs >= Utc2k::MAX_UNIXTIME ==> r == Utc2k::MAX_UNIXTIME,
        Utc2k::MIN_UNIXTIME <= secs <= Utc2k::MAX_UNIXTIME ==> r == secs,
{
    if secs <= Utc2k::MIN_UNIXTIME as u64 { Utc2k::MIN_UNIXTIME }
    else if secs >= Utc2k::MAX_UNIXTIME as u64 { Utc2k::MAX_UNIXTIME }
    else { secs as u32 }
}

/// The current unix timestamp, saturated to the century; a clock set before
/// the unix epoch reads as [`Utc2k::MIN_UNIXTIME`].
pub fn unixtime() -> (r: u32)
    ensures
        Utc2k::MIN_UNIXTIME <= r <= Utc2k::MAX_UNIXTIME,
{
    match since_unix_epoch(&system_now()) {
        Ok(d) => clamp_unixtime(duration_secs(&d)),
        Err(_) => Utc2k::MIN_UNIXTIME,
    }
}

/// Days from March 1 of year zero to the unix epoch.
const JULIAN_OFFSET: u32 = 719_469;

/// The average days per year, to two decimals (365.25), times one hundred.
const YEAR_IN_DAYS_P2: u32 = 36_525;

/// The average days per year, to four decimals (365.2425), times ten
/// thousand.
const YEAR_IN_DAYS_P4: u32 = 3_652_425;

/// The year of a unix timestamp of this century, worked out without the
/// rest of its date.
pub fn year_of_unixtime(t: u32) -> (r: u16)
    requires
        Utc2k::MIN_UNIXTIME <= t <= Utc2k::MAX_UNIXTIME,
    ensures
        r == Utc2k::at_secs(t - Utc2k::MIN_UNIXTIME).year_spec(),
        2000 <= r <= 2099,
{
    let z = t / DAY_IN_SECONDS + JULIAN_OFFSET;
    let h: u32 = 100 * z - 25;
    let mut a: u32 = h / YEAR_IN_DAYS_P4;
    assert(a == 19 || a == 20);
    assert(a == 19 || a == 20 ==> a - a / 4 == 15);
    a = a - a / 4;
    let year: u32 = (100 * a + h) / YEAR_IN_DAYS_P2;
    proof { crate::date::lemma_march_year(z as int); }
    a = a + z - 365 * year - year / 4;
    let month = (5 * a + 456) / 153;
    proof {
        crate::date::lemma_march_day(a as int);
        crate::date::lemma_march_date(year as int, a as int);
        let d = a - crate::date::march_month_days(month as int);
        let cy: int = if month > 12 { year + 1 } else { year as int };
        let cm: int = if month > 12 { month - 12 } else { month as int };
        let rest = t % 86400;
        let u = Utc2k::from_parts_spec((cy - 2000) as u8, cm as u8, d as u8, (rest / 3600) as u8, (rest % 3600 / 60) as u8, (rest % 60) as u8);
        assert(u.wf());
        assert(u.secs() == t - Utc2k::MIN_UNIXTIME);
        Utc2k::lemma_at_secs(u, t - Utc2k::MIN_UNIXTIME);
    }
    year as u16 + if 12 < month { 1 } else { 0 }
}

/// The current year.
pub fn year() -> (r: u16)
    ensures
        2000 <= r <= 2099,
{
    year_of_unixtime(unixtime())
}

/// Lowercase three (presumed) letters into a single `u32` for comparing
/// abbreviations, as `u32::from_le_bytes([0, a, b, c]) | ASCII_LOWER`.
pub fn needle3(a: u8, b: u8, c: u8) -> (r: u32)
    ensures
        r == (a | 32u8) as u32 * 0x100 + (b | 32u8) as u32 * 0x1_0000 + (c | 32u8) as u32 * 0x100_0000,
{
    let r = ((a as u32) << 8u32) | ((b as u32) << 16u32) | ((c as u32) << 24u32) | ASCII_LOWER;
    assert(((a as u32) << 8u32) | ((b as u32) << 16u32) | ((c as u32) << 24u32) | 0x2020_2000u32
        == (a | 32u8) as u32 * 0x100 + (b | 32u8) as u32 * 0x1_0000 + (c | 32u8) as u32 * 0x100_0000) by (bit_vector);
    r
}

} // verus!

