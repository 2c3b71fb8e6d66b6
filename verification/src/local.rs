//! Moments in the system's local time zone.
//!
//! The zone's offset from UTC comes from the `tz` crate, which reads the
//! system's time zone settings; everything done with the offset is verified
//! here for every offset it could give.

use vstd::prelude::*;
use vstd::string::StringExecFns;
use vstd::string::StringSliceAdditionalSpecFns;
use crate::abacus::Abacus;
use crate::calendar::century_secs;
use crate::fmt::{ascii_chars, dd, dd_chars, digit_byte, push_ascii, push_char, push_dd};
use crate::{FmtUtc2k, Month, Utc2k, Weekday};
use crate::{DAY_IN_SECONDS, HOUR_IN_SECONDS, MINUTE_IN_SECONDS};

verus! {

/// A time zone of the `tz` crate.
#[verifier::external_type_specification]
#[verifier::external_body]
pub struct ExTimeZone(tz::TimeZone);

/// A local time type (an offset and its designation) of the `tz` crate.
#[verifier::external_type_specification]
#[verifier::external_body]
pub struct ExLocalTimeType(tz::LocalTimeType);

/// The error of the `tz` crate's time zone computations.
#[verifier::external_type_specification]
#[verifier::external_body]
pub struct ExTzError(tz::TzError);

/// The error of the `tz` crate's time zone loading.
#[verifier::external_type_specification]
#[verifier::external_body]
pub struct ExTzLoadError(tz::Error);

/// Calls `tz::TimeZone::local`, which reads the system's time zone settings.
/// Nothing is claimed of the outcome: it depends on the environment and on
/// what is on disk.
#[verifier::external_body]
fn timezone_local() -> Result<tz::TimeZone, tz::Error> {
    tz::TimeZone::local()
}

/// Calls `tz::TimeZone::utc`, the zone of UTC itself. Nothing is claimed of
/// it here, as the zone is opaque.
#[verifier::external_body]
fn timezone_utc() -> tz::TimeZone {
    tz::TimeZone::utc()
}

/// Calls `tz::TimeZone::find_local_time_type`, the local time type the zone
/// has at a unix timestamp. Nothing is claimed of the result: it depends on
/// the zone's rules, which are opaque here.
#[verifier::external_body]
fn find_local_time_type(zone: &tz::TimeZone, unix_time: i64) -> Result<&tz::LocalTimeType, tz::TzError> {
    zone.find_local_time_type(unix_time)
}

/// Calls `tz::LocalTimeType::ut_offset`, the offset from UTC in seconds.
/// Nothing is claimed of its value.
#[verifier::external_body]
fn ut_offset(t: &tz::LocalTimeType) -> i32 {
    t.ut_offset()
}

/// An offset a local date/time can carry: nonzero, less than a day either
/// way, and a whole number of minutes.
pub open spec fn offset_ok(o: int) -> bool {
    &&& o != 0
    &&& -86400 < o < 86400
    &&& o % 60 == 0
}

/// The remainder of `o` divided by a day, with the sign of `o`.
pub open spec fn day_rem(o: int) -> int {
    if o >= 0 { o % 86400 } else { -((-o) % 86400) }
}

/// The offset an `i32` stands for, once reduced to less than a day; `None`
/// when that is zero or not a whole number of minutes.
pub open spec fn nonzero_offset_spec(o: int) -> Option<i32> {
    let r = day_rem(o);
    if r != 0 && r % 60 == 0 { Some(r as i32) } else { None }
}

/// Reduce an offset in seconds to less than a day; `None` when that leaves
/// zero, or something other than a whole number of minutes.
pub fn nonzero_offset(offset: i32) -> (r: Option<i32>)
    ensures
        r == nonzero_offset_spec(offset as int),
        r matches Some(o) ==> offset_ok(o as int),
{
    let o = offset as i64;
    let r: i64 = if o >= 0 { o % 86400 } else { -((-o) % 86400) };
    if r != 0 && r % 60 == 0 { Some(r as i32) } else { None }
}

/// The local offset in effect at a unix timestamp, if the system's time zone
/// can be read and its offset there is one a local date/time can carry.
pub fn unixtime_offset(unixtime: u32) -> (r: Option<i32>)
    ensures
        r matches Some(o) ==> offset_ok(o as int),
{
    match timezone_local() {
        Ok(zone) => match find_local_time_type(&zone, unixtime as i64) {
            Ok(t) => nonzero_offset(ut_offset(t)),
            Err(_) => None,
        },
        Err(_) => None,
    }
}

/// The bytes of an offset as `±hhmm`.
pub open spec fn suffix_bytes(o: int) -> Seq<u8> {
    let a = if o < 0 { -o } else { o };
    seq![if o < 0 { 45u8 } else { 43u8 },
        digit_byte(a / 3600 / 10), digit_byte(a / 3600 % 10),
        digit_byte(a % 3600 / 60 / 10), digit_byte(a % 3600 / 60 % 10)]
}

/// An offset written as `±hhmm`, or `None` without one.
pub fn offset_suffix(offset: Option<i32>) -> (r: Option<[u8; 5]>)
    requires
        offset matches Some(o) ==> offset_ok(o as int),
    ensures
        offset is None <==> r is None,
        offset matches Some(o) ==> r matches Some(b) && b@ == suffix_bytes(o as int),
{
    match offset {
        Some(o) => {
            let sign: u8 = if o < 0 { 45 } else { 43 };
            let a: u32 = if o < 0 { (0 - o) as u32 } else { o as u32 };
            let (h1, h0) = dd((a / HOUR_IN_SECONDS) as u8);
            let (m1, m0) = dd(((a % HOUR_IN_SECONDS) / MINUTE_IN_SECONDS) as u8);
            let b: [u8; 5] = [sign, h1, h0, m1, m0];
            proof { assert(b@ =~= suffix_bytes(o as int)); }
            Some(b)
        },
        None => None,
    }
}

/// A moment as the system's local time zone shows it.
///
/// It holds the local date/time and the offset that was applied to reach it
/// from UTC. Without an offset (the zone is UTC, unknown, or applying it would
/// leave the century) the local date/time is the UTC one.
///
/// Offsets do not matter for equality and ordering: two `Local2k` are equal
/// when they stand for the same UTC moment.
#[derive(Debug, Clone, Copy, Eq)]
pub struct Local2k {
    pub(crate) inner: Utc2k,
    pub(crate) offset: Option<i32>,
}

impl Local2k {
    /// An offset is one a local date/time can carry, and undoing it stays
    /// within the century.
    #[verifier::type_invariant]
    pub(crate) open spec fn inv(self) -> bool {
        self.offset matches Some(o) ==> offset_ok(o as int) && 0 <= self.inner.secs() - o <= century_secs()
    }

    /// The local date/time.
    pub open(crate) spec fn local(self) -> Utc2k {
        self.inner
    }

    /// The offset, if any.
    pub open(crate) spec fn offset_spec(self) -> Option<i32> {
        self.offset
    }

    /// Seconds since `2000-01-01 00:00:00` UTC of the moment this stands for.
    pub open(crate) spec fn utc_secs(self) -> int {
        match self.offset {
            Some(o) => self.inner.secs() - o,
            None => self.inner.secs(),
        }
    }

    /// The local date/time of a UTC moment with an offset applied, if the
    /// offset keeps it within the century; otherwise the UTC moment itself,
    /// with no offset.
    fn with_offset(src: Utc2k, offset: Option<i32>) -> (r: Self)
        requires
            offset matches Some(o) ==> offset_ok(o as int),
        ensures
            r.utc_secs() == src.secs(),
            r.offset_spec() == (match offset {
                Some(o) => if 0 <= src.secs() + o <= century_secs() { Some(o) } else { None },
                None => None,
            }),
            r.offset_spec() is None ==> r.local() == src,
            r.offset_spec() matches Some(o) ==> r.local().secs() == src.secs() + o,
    {
        let unixtime = src.unixtime();
        if let Some(o) = offset {
            let localtime: i64 = unixtime as i64 + o as i64;
            if Utc2k::MIN_UNIXTIME as i64 <= localtime && localtime <= Utc2k::MAX_UNIXTIME as i64 {
                let inner = Utc2k::from_unixtime(localtime as u32);
                return Local2k { inner, offset: Some(o) };
            }
        }
        Local2k { inner: src, offset: None }
    }

    /// A UTC moment in the system's local time zone.
    ///
    /// The offset comes from the system's time zone settings; whatever it
    /// is, the result stands for the same moment.
    pub fn from_utc2k(src: Utc2k) -> (r: Self)
        ensures
            r.utc_secs() == src.secs(),
            r.offset_spec() is None ==> r.local() == src,
            r.offset_spec() matches Some(o) ==> r.local().secs() == src.secs() + o,
    {
        Self::with_offset(src, unixtime_offset(src.unixtime()))
    }

    /// A UTC moment with a fixed offset in seconds rather than the system's.
    ///
    /// The offset is first reduced to less than a day; one that is then zero
    /// or not a whole number of minutes is ignored, as is one that would
    /// leave the century.
    pub fn fixed_from_utc2k(src: Utc2k, offset: i32) -> (r: Self)
        ensures
            r.utc_secs() == src.secs(),
            r.offset_spec() == (match nonzero_offset_spec(offset as int) {
                Some(o) => if 0 <= src.secs() + o <= century_secs() { Some(o) } else { None },
                None => None,
            }),
            r.offset_spec() is None ==> r.local() == src,
            r.offset_spec() matches Some(o) ==> r.local().secs() == src.secs() + o,
    {
        Self::with_offset(src, nonzero_offset(offset))
    }

    /// The current moment, locally.
    pub fn now() -> (r: Self) {
        Self::from_utc2k(Utc2k::now())
    }

    /// The moment one day from now, locally; it stands for a UTC moment at
    /// least a day into the century (see [`Utc2k::tomorrow`]).
    pub fn tomorrow() -> (r: Self)
        ensures
            DAY_IN_SECONDS <= r.utc_secs(),
    {
        Self::from_utc2k(Utc2k::tomorrow())
    }

    /// The moment one day ago, locally; it stands for a UTC moment at least a
    /// day before the end of the century (see [`Utc2k::yesterday`]).
    pub fn yesterday() -> (r: Self)
        ensures
            r.utc_secs() <= century_secs() - DAY_IN_SECONDS,
    {
        Self::from_utc2k(Utc2k::yesterday())
    }

    /// The UTC moment this stands for.
    pub fn to_utc2k(&self) -> (r: Utc2k)
        ensures
            r.secs() == self.utc_secs(),
    {
        proof { use_type_invariant(self); use_type_invariant(&self.inner); }
        match self.offset {
            Some(o) => {
                let mut a = Abacus::from_utc2k(self.inner);
                a.apply_offset(o);
                a.rebalance();
                let r = Utc2k::from_abacus(a);
                proof {
                    r.lemma_saturates_clamp(a.secs(), self.inner.secs() - o);
                    use_type_invariant(&r);
                }
                r
            },
            None => self.inner,
        }
    }

    /// The unix timestamp of the moment this stands for.
    pub fn unixtime(&self) -> (r: u32)
        ensures
            r == Utc2k::MIN_UNIXTIME + self.utc_secs(),
    {
        proof { use_type_invariant(self); }
        let unixtime = self.inner.unixtime();
        match self.offset {
            Some(o) => (unixtime as i64 - o as i64) as u32,
            None => unixtime,
        }
    }

    /// Whether no offset is applied.
    pub fn is_utc(&self) -> (r: bool)
        ensures
            r == self.offset_spec() is None,
    {
        self.offset.is_none()
    }

    /// The offset from UTC in seconds, if any; never zero.
    pub fn offset(&self) -> (r: Option<i32>)
        ensures
            r == self.offset_spec(),
            r matches Some(o) ==> offset_ok(o as int),
    {
        proof { use_type_invariant(self); }
        self.offset
    }

    /// The local parts, from year down to second.
    pub fn parts(&self) -> (r: (u16, u8, u8, u8, u8, u8))
        ensures
            r.0 == self.local().year_spec() && r.1 == self.local().month_spec() && r.2 == self.local().day_spec(),
            r.3 == self.local().hour_spec() && r.4 == self.local().minute_spec() && r.5 == self.local().second_spec(),
    {
        self.inner.parts()
    }

    /// The local year, month, and day.
    pub fn ymd(&self) -> (r: (u16, u8, u8))
        ensures
            r.0 == self.local().year_spec() && r.1 == self.local().month_spec() && r.2 == self.local().day_spec(),
    {
        self.inner.ymd()
    }

    /// The local hour, minute, and second.
    pub fn hms(&self) -> (r: (u8, u8, u8))
        ensures
            r.0 == self.local().hour_spec() && r.1 == self.local().minute_spec() && r.2 == self.local().second_spec(),
    {
        self.inner.hms()
    }

    /// The local year.
    pub fn year(&self) -> (r: u16)
        ensures
            r == self.local().year_spec(),
    {
        self.inner.year()
    }

    /// The local month.
    pub fn month(&self) -> (r: Month)
        ensures
            r.num() == self.local().month_spec(),
    {
        self.inner.month_enum()
    }

    /// The local day of the month.
    pub fn day(&self) -> (r: u8)
        ensures
            r == self.local().day_spec(),
    {
        self.inner.day()
    }

    /// The local hour.
    pub fn hour(&self) -> (r: u8)
        ensures
            r == self.local().hour_spec(),
    {
        self.inner.hour()
    }

    /// The local minute.
    pub fn minute(&self) -> (r: u8)
        ensures
            r == self.local().minute_spec(),
    {
        self.inner.minute()
    }

    /// The local second.
    pub fn second(&self) -> (r: u8)
        ensures
            r == self.local().second_spec(),
    {
        self.inner.second()
    }

    /// Whether the local year is a leap year.
    pub fn leap_year(&self) -> (r: bool)
        ensures
            r == crate::calendar::is_leap(self.local().year_spec()),
    {
        self.inner.leap_year()
    }

    /// The number of days in the local month.
    pub fn month_size(&self) -> (r: u8)
        ensures
            r == crate::calendar::month_len(self.local().year_spec(), self.local().month_spec()),
    {
        self.inner.month_size()
    }

    /// The local day of the year, counted from one.
    pub fn ordinal(&self) -> (r: u16)
        ensures
            r == crate::calendar::days_before_month(self.local().year_spec(), self.local().month_spec()) + self.local().day_spec(),
    {
        self.inner.ordinal()
    }

    /// Seconds since local midnight.
    pub fn seconds_from_midnight(&self) -> (r: u32)
        ensures
            r == self.local().hour_spec() * 3600 + self.local().minute_spec() * 60 + self.local().second_spec(),
    {
        self.inner.seconds_from_midnight()
    }

    /// The local day of the week.
    pub fn weekday(&self) -> (r: Weekday)
        ensures
            r == Weekday::from_num(self.local().day_number_spec() + 7),
    {
        self.inner.weekday()
    }

    /// The local date/time as text.
    pub fn formatted(self) -> (r: FmtLocal2k)
        ensures
            r.local() == self.local(),
            r.offset_spec() == self.offset_spec(),
    {
        FmtLocal2k::from_local2k(self)
    }

    /// The local date/time as RFC2822 text, with its offset.
    pub fn to_rfc2822(&self) -> (r: String)
        ensures
            r@ == rfc2822_local_chars(self.local(), self.offset_spec()),
    {
        proof { use_type_invariant(self); use_type_invariant(&self.inner); }
        let mut out = String::new();
        let wd = self.weekday().abbreviation();
        out.append(wd);
        assert(out@ =~= wd@);
        out.append(", ");
        push_dd(&mut out, self.inner.d);
        out.append(" ");
        out.append(self.month().abbreviation());
        out.append(" 20");
        push_dd(&mut out, self.inner.y);
        out.append(" ");
        push_dd(&mut out, self.inner.hh);
        out.append(":");
        push_dd(&mut out, self.inner.mm);
        out.append(":");
        push_dd(&mut out, self.inner.ss);
        match offset_suffix(self.offset) {
            Some(b) => {
                push_char(&mut out, ' ');
                push_ascii(&mut out, b.as_slice());
            },
            None => out.append(" +0000"),
        }
        out
    }

    /// The local date/time as RFC3339 text, with its offset.
    pub fn to_rfc3339(&self) -> (r: String)
        ensures
            r@ == rfc3339_local_chars(self.local(), self.offset_spec()),
    {
        FmtLocal2k::from_local2k(*self).to_rfc3339()
    }

    /// The local date/time of a formatted one.
    pub fn from_fmtlocal2k(src: FmtLocal2k) -> (r: Self)
        ensures
            r.local() == src.local(),
            r.offset_spec() == src.offset_spec(),
    {
        proof { use_type_invariant(&src); }
        Local2k { inner: Utc2k::from_fmtutc2k(src.inner), offset: src.offset }
    }
}

/// The RFC2822 text of a local date/time and its offset.
pub open spec fn rfc2822_local_chars(u: Utc2k, offset: Option<i32>) -> Seq<char> {
    match offset {
        Some(o) => u.rfc2822_head_chars() + seq![' '] + ascii_chars(suffix_bytes(o as int)),
        None => u.rfc2822_chars(),
    }
}

/// The RFC3339 text of a local date/time and its offset.
pub open spec fn rfc3339_local_chars(u: Utc2k, offset: Option<i32>) -> Seq<char> {
    let head = ascii_chars(u.text().subrange(0, 10)) + seq!['T'] + ascii_chars(u.text().subrange(11, 19));
    match offset {
        Some(o) => head + ascii_chars(suffix_bytes(o as int)),
        None => head + seq!['Z'],
    }
}

impl PartialEq for Local2k {
    fn eq(&self, other: &Self) -> (r: bool) {
        proof { use_type_invariant(self); use_type_invariant(other); }
        if self.offset == other.offset {
            proof {
                use_type_invariant(&self.inner);
                use_type_invariant(&other.inner);
                if self.inner.secs() == other.inner.secs() {
                    Utc2k::lemma_secs_injective(self.inner, other.inner);
                }
            }
            self.inner == other.inner
        } else {
            self.unixtime() == other.unixtime()
        }
    }
}

impl vstd::std_specs::cmp::PartialEqSpecImpl for Local2k {
    open spec fn obeys_eq_spec() -> bool {
        true
    }

    open spec fn eq_spec(&self, other: &Self) -> bool {
        self.utc_secs() == other.utc_secs()
    }
}

impl PartialEq<Utc2k> for Local2k {
    /// A local date/time equals the UTC moment it stands for.
    fn eq(&self, other: &Utc2k) -> (r: bool) {
        self.unixtime() == other.unixtime()
    }
}

impl vstd::std_specs::cmp::PartialEqSpecImpl<Utc2k> for Local2k {
    open spec fn obeys_eq_spec() -> bool {
        true
    }

    open spec fn eq_spec(&self, other: &Utc2k) -> bool {
        self.utc_secs() == other.secs()
    }
}

/// A [`Local2k`] written out as `YYYY-MM-DD hh:mm:ss`, with its offset.
#[derive(Debug, Clone, Copy, Eq)]
pub struct FmtLocal2k {
    pub(crate) inner: FmtUtc2k,
    pub(crate) offset: Option<i32>,
}

impl FmtLocal2k {
    /// The same as for [`Local2k`].
    #[verifier::type_invariant]
    pub(crate) open spec fn inv(self) -> bool {
        self.offset matches Some(o) ==> offset_ok(o as int) && 0 <= self.inner.moment().secs() - o <= century_secs()
    }

    /// The local date/time written out.
    pub open(crate) spec fn local(self) -> Utc2k {
        self.inner.moment()
    }

    /// The offset, if any.
    pub open(crate) spec fn offset_spec(self) -> Option<i32> {
        self.offset
    }

    /// The text held.
    pub open(crate) spec fn text(self) -> Seq<u8> {
        self.inner.text()
    }

    /// Seconds since `2000-01-01 00:00:00` UTC of the moment this stands for.
    pub open(crate) spec fn utc_secs(self) -> int {
        match self.offset {
            Some(o) => self.inner.moment().secs() - o,
            None => self.inner.moment().secs(),
        }
    }

    /// The text of a local date/time.
    pub fn from_local2k(src: Local2k) -> (r: Self)
        ensures
            r.local() == src.local(),
            r.offset_spec() == src.offset_spec(),
    {
        proof { use_type_invariant(&src); }
        FmtLocal2k { inner: FmtUtc2k::from_utc2k(src.inner), offset: src.offset }
    }

    /// The text of the current local moment.
    pub fn now() -> (r: Self) {
        Self::from_local2k(Local2k::now())
    }

    /// The text as bytes.
    pub fn as_bytes(&self) -> (r: &[u8])
        ensures
            r@ == self.text(),
    {
        self.inner.as_bytes()
    }

    /// The text as a string slice.
    pub fn as_str(&self) -> (r: &str)
        ensures
            r.spec_bytes() == self.text(),
    {
        self.inner.as_str()
    }

    /// The date half, `YYYY-MM-DD`.
    pub fn date(&self) -> (r: &str)
        ensures
            r.spec_bytes() == self.text().subrange(0, 10),
    {
        self.inner.date()
    }

    /// The year, `YYYY`.
    pub fn year(&self) -> (r: &str)
        ensures
            r.spec_bytes() == self.text().subrange(0, 4),
    {
        self.inner.year()
    }

    /// The time half, `hh:mm:ss`.
    pub fn time(&self) -> (r: &str)
        ensures
            r.spec_bytes() == self.text().subrange(11, 19),
    {
        self.inner.time()
    }

    /// The text as RFC2822, with the offset.
    pub fn to_rfc2822(&self) -> (r: String)
        ensures
            r@ == rfc2822_local_chars(self.local(), self.offset_spec()),
    {
        Local2k::from_fmtlocal2k(*self).to_rfc2822()
    }

    /// The text as RFC3339, with the offset.
    pub fn to_rfc3339(&self) -> (r: String)
        ensures
            r@ == rfc3339_local_chars(self.local(), self.offset_spec()),
    {
        proof {
            use_type_invariant(self);
            use_type_invariant(&self.inner);
            self.inner.lemma_ascii();
        }
        let mut out = String::new();
        push_ascii(&mut out, vstd::slice::slice_subrange(self.inner.bytes.as_slice(), 0, 10));
        push_char(&mut out, 'T');
        push_ascii(&mut out, vstd::slice::slice_subrange(self.inner.bytes.as_slice(), 11, 19));
        match offset_suffix(self.offset) {
            Some(b) => push_ascii(&mut out, b.as_slice()),
            None => push_char(&mut out, 'Z'),
        }
        out
    }
}

/// The offset from UTC in seconds that the system's time zone has at a unix
/// timestamp; zero when the zone cannot be read (UTC is used instead) or has
/// no local time type there.
fn offset(now: u32) -> i32 {
    let zone = match timezone_local() {
        Ok(z) => z,
        Err(_) => timezone_utc(),
    };
    match find_local_time_type(&zone, now as i64) {
        Ok(t) => ut_offset(t),
        Err(_) => 0,
    }
}

/// A unix timestamp together with the system's offset from UTC at that
/// time, in seconds.
#[derive(Debug, Clone, Copy, PartialEq, Eq, Structural, Hash)]
pub struct LocalOffset {
    unixtime: u32,
    offset: i32,
}

/// A count of seconds saturated to the `u32` range.
pub open spec fn saturate_u32(t: int) -> u32 {
    if t < 0 { 0 } else if t > u32::MAX { u32::MAX } else { t as u32 }
}

impl LocalOffset {
    /// The unix timestamp.
    pub closed spec fn unixtime_spec(self) -> u32 {
        self.unixtime
    }

    /// The offset in seconds.
    pub closed spec fn offset_spec(self) -> i32 {
        self.offset
    }

    /// The current unix timestamp, saturated to the century, and the
    /// system's offset at that time.
    pub fn now() -> (r: Self)
        ensures
            Utc2k::MIN_UNIXTIME <= r.unixtime_spec() <= Utc2k::MAX_UNIXTIME,
    {
        Self::from(crate::unixtime())
    }

    /// The timestamp with the offset applied, saturated to the `u32` range.
    pub fn localtime(self) -> (r: u32)
        ensures
            r == saturate_u32(self.unixtime_spec() + self.offset_spec()),
    {
        let t: i64 = self.unixtime as i64 + self.offset as i64;
        if t < 0 { 0 } else if t > u32::MAX as i64 { u32::MAX } else { t as u32 }
    }

    /// The offset from UTC in seconds.
    pub fn offset(self) -> (r: i32)
        ensures
            r == self.offset_spec(),
    {
        self.offset
    }

    /// The unix timestamp.
    pub fn unixtime(self) -> (r: u32)
        ensures
            r == self.unixtime_spec(),
    {
        self.unixtime
    }
}

impl Default for LocalOffset {
    /// The unix epoch with no offset.
    fn default() -> (r: Self)
        ensures
            r.unixtime_spec() == 0 && r.offset_spec() == 0,
    {
        LocalOffset { unixtime: 0, offset: 0 }
    }
}

impl From<u32> for LocalOffset {
    /// A unix timestamp with the system's offset at that time.
    fn from(unixtime: u32) -> (r: Self)
        ensures
            r.unixtime_spec() == unixtime,
    {
        LocalOffset { unixtime, offset: offset(unixtime) }
    }
}

impl vstd::std_specs::convert::FromSpecImpl<u32> for LocalOffset {
    /// The offset depends on the system's time zone, so no single value is
    /// promised.
    open spec fn obeys_from_spec() -> bool {
        false
    }

    /// Only the timestamp is fixed by the argument; see [`LocalOffset::from`].
    open spec fn from_spec(v: u32) -> Self {
        choose|r: LocalOffset| r.unixtime_spec() == v
    }
}

impl From<Utc2k> for LocalOffset {
    /// The unix timestamp of a moment with the system's offset at that time.
    fn from(src: Utc2k) -> (r: Self)
        ensures
            r.unixtime_spec() == Utc2k::MIN_UNIXTIME + src.secs(),
    {
        Self::from(src.unixtime())
    }
}

impl vstd::std_specs::convert::FromSpecImpl<Utc2k> for LocalOffset {
    /// The offset depends on the system's time zone, so no single value is
    /// promised.
    open spec fn obeys_from_spec() -> bool {
        false
    }

    /// Only the timestamp is fixed by the argument; see [`LocalOffset::from`].
    open spec fn from_spec(v: Utc2k) -> Self {
        choose|r: LocalOffset| r.unixtime_spec() == Utc2k::MIN_UNIXTIME + v.secs()
    }
}

/// The offset negated, with `i32::MIN`, which has no negation, becoming
/// `i32::MAX`.
pub open spec fn neg_offset(o: i32) -> i32 {
    if o == i32::MIN { i32::MAX } else { (-o) as i32 }
}

impl core::ops::Neg for LocalOffset {
    type Output = Self;

    /// The same timestamp with the offset negated.
    fn neg(self) -> (r: Self) {
        if self.offset == i32::MIN {
            LocalOffset { unixtime: self.unixtime, offset: i32::MAX }
        } else {
            LocalOffset { unixtime: self.unixtime, offset: -self.offset }
        }
    }
}

impl LocalOffset {
    /// Negating an offset twice gives it back, for every offset but
    /// `i32::MIN`, whose negation saturates.
    pub proof fn law_neg_neg(x: LocalOffset)
        requires
            x.offset_spec() != i32::MIN,
        ensures
            vstd::std_specs::ops::NegSpec::neg_spec(vstd::std_specs::ops::NegSpec::neg_spec(x)) == x,
    {
    }
}

impl vstd::std_specs::ops::NegSpecImpl for LocalOffset {
    open spec fn obeys_neg_spec() -> bool {
        true
    }

    open spec fn neg_req(self) -> bool {
        true
    }

    closed spec fn neg_spec(self) -> Self {
        LocalOffset { unixtime: self.unixtime, offset: neg_offset(self.offset) }
    }
}

impl From<LocalOffset> for i32 {
    /// The offset.
    fn from(src: LocalOffset) -> (r: Self) {
        src.offset
    }
}

impl vstd::std_specs::convert::FromSpecImpl<LocalOffset> for i32 {
    open spec fn obeys_from_spec() -> bool {
        true
    }

    open spec fn from_spec(v: LocalOffset) -> Self {
        v.offset_spec()
    }
}

impl From<LocalOffset> for Utc2k {
    /// The moment of the timestamp with the offset applied, saturated to the
    /// century.
    fn from(src: LocalOffset) -> (r: Self) {
        let t = src.localtime();
        let r = Utc2k::from_unixtime(t);
        proof {
            use_type_invariant(&r);
            Utc2k::lemma_at_secs(r, t - Utc2k::MIN_UNIXTIME);
        }
        r
    }
}

impl vstd::std_specs::convert::FromSpecImpl<LocalOffset> for Utc2k {
    open spec fn obeys_from_spec() -> bool {
        true
    }

    open spec fn from_spec(v: LocalOffset) -> Self {
        Utc2k::at_secs(saturate_u32(v.unixtime_spec() + v.offset_spec()) - Utc2k::MIN_UNIXTIME)
    }
}

impl PartialEq for FmtLocal2k {
    fn eq(&self, other: &Self) -> (r: bool) {
        proof { use_type_invariant(self); use_type_invariant(other); }
        if self.offset == other.offset {
            proof {
                use_type_invariant(&self.inner);
                use_type_invariant(&other.inner);
                self.inner.lemma_ascii();
                other.inner.lemma_ascii();
                FmtUtc2k::lemma_eq(self.inner, other.inner);
                if self.inner.moment().secs() == other.inner.moment().secs() {
                    Utc2k::lemma_secs_injective(self.inner.moment(), other.inner.moment());
                    assert(self.inner.bytes@ =~= other.inner.bytes@);
                }
            }
            self.inner == other.inner
        } else {
            Local2k::from_fmtlocal2k(*self).unixtime() == Local2k::from_fmtlocal2k(*other).unixtime()
        }
    }
}

impl vstd::std_specs::cmp::PartialEqSpecImpl for FmtLocal2k {
    open spec fn obeys_eq_spec() -> bool {
        true
    }

    open spec fn eq_spec(&self, other: &Self) -> bool {
        self.utc_secs() == other.utc_secs()
    }
}

} // verus!
