//! Date/time arithmetic with room for over- and underflow.

use vstd::prelude::*;
use crate::calendar::{
    century_secs, clamp_secs, day_number, is_leap, lemma_day_number_outside, lemma_day_number_overflow,
    lemma_day_number_zero_day, lemma_linear_day_balanced, lemma_linear_day_carry_months, lemma_linear_day_early,
    lemma_linear_day_late, lemma_linear_day_month_zero, lemma_valid_secs_range, linear_day, moment_secs,
    month_len, valid_moment, valid_secs, lemma_month_bounds,
};
use crate::Utc2kError;
use crate::{DAY_IN_SECONDS, HOUR_IN_SECONDS, MINUTE_IN_SECONDS};

verus! {

/// The parts of a date/time, each with room to over- or underflow, so that
/// they can be added to and then rebalanced into a proper calendar moment.
#[derive(Debug, Clone, Copy, PartialEq, Eq, Structural, Hash)]
pub struct Abacus {
    /// Year.
    pub y: u16,
    /// Month.
    pub m: u16,
    /// Day.
    pub d: u16,
    /// Hour.
    pub hh: u16,
    /// Minute.
    pub mm: u16,
    /// Second.
    pub ss: u16,
}

/// Parts that are a real calendar moment of this century, with the year held
/// as an offset from 2000.
pub open spec fn valid_parts(p: (u8, u8, u8, u8, u8, u8)) -> bool {
    valid_moment(2000 + p.0, p.1 as int, p.2 as int, p.3 as int, p.4 as int, p.5 as int)
}

/// Seconds since the start of the century of valid parts.
pub open spec fn parts_secs(p: (u8, u8, u8, u8, u8, u8)) -> int {
    valid_secs(2000 + p.0, p.1 as int, p.2 as int, p.3 as int, p.4 as int, p.5 as int)
}

/// The parts of the moment `s` seconds into the century, saturated to its
/// first or last moment.
pub open spec fn parts_saturate(p: (u8, u8, u8, u8, u8, u8), s: int) -> bool {
    &&& valid_parts(p)
    &&& if s < 0 { p == (0u8, 1u8, 1u8, 0u8, 0u8, 0u8) }
        else if s > century_secs() { p == (99u8, 12u8, 31u8, 23u8, 59u8, 59u8) }
        else { parts_secs(p) == s }
}

impl Abacus {
    /// Seconds since `2000-01-01 00:00:00` of the moment the parts add up to.
    pub open spec fn secs(self) -> int {
        moment_secs(self.y as int, self.m as int, self.d as int, self.hh as int, self.mm as int, self.ss as int)
    }

    /// The time parts are within a day.
    pub open spec fn time_balanced(self) -> bool {
        self.hh < 24 && self.mm < 60 && self.ss < 60
    }

    /// Every part is within its calendar range.
    pub open spec fn balanced(self) -> bool {
        &&& self.time_balanced()
        &&& 1 <= self.m <= 12
        &&& 1 <= self.d <= month_len(self.y as int, self.m as int)
    }

    /// The date parts can be rebalanced: either the month and day are small,
    /// or the date started out in this century and only its days overflow.
    pub open spec fn date_ok(self) -> bool {
        (self.d <= 500 && self.m <= 300) || (self.y >= 1999 && 1 <= self.m <= 13)
    }

    /// The parts can be rebalanced.
    pub open spec fn rebalanceable(self) -> bool {
        &&& self.hh <= 1000 && self.mm <= 1000 && self.ss <= 1000
        &&& (self.d <= 400 && self.m <= 300) || (self.y >= 2000 && 1 <= self.m <= 12 && self.d <= 40000)
    }

    /// The parts of a [`Utc2k`](crate::Utc2k), balanced.
    pub fn from_utc2k(src: crate::Utc2k) -> (r: Self)
        ensures
            r.balanced(),
            2000 <= r.y <= 2099,
            r.secs() == src.secs(),
    {
        proof { use_type_invariant(&src); }
        let (y, m, d, hh, mm, ss) = src.parts();
        let out = Abacus { y, m: m as u16, d: d as u16, hh: hh as u16, mm: mm as u16, ss: ss as u16 };
        proof { lemma_linear_day_balanced(y as int, m as int, d as int); }
        out
    }

    /// The parts, with the year as an offset from 2000, unless they fall
    /// outside the century.
    pub fn parts_checked(&self) -> (r: Result<(u8, u8, u8, u8, u8, u8), Utc2kError>)
        requires
            self.balanced(),
        ensures
            self.secs() < 0 <==> r == Err::<(u8, u8, u8, u8, u8, u8), Utc2kError>(Utc2kError::Underflow),
            self.secs() > century_secs() <==> r == Err::<(u8, u8, u8, u8, u8, u8), Utc2kError>(Utc2kError::Overflow),
            r is Ok <==> 0 <= self.secs() <= century_secs(),
            r matches Ok(p) ==> valid_parts(p) && parts_secs(p) == self.secs(),
    {
        proof { self.lemma_balanced_outside(); }
        if self.y < 2000 { Err(Utc2kError::Underflow) }
        else if 2099 < self.y { Err(Utc2kError::Overflow) }
        else {
            Ok((
                (self.y - 2000) as u8,
                self.m as u8,
                self.d as u8,
                self.hh as u8,
                self.mm as u8,
                self.ss as u8,
            ))
        }
    }

    /// The balanced parts of an ASCII date or datetime; see
    /// [`ascii_spec`](crate::parse::ascii_spec).
    pub fn from_ascii(src: &[u8]) -> (r: Option<Self>)
        ensures
            r is Some <==> crate::parse::ascii_spec(src@) is Some,
            r matches Some(a) ==> a.balanced() && clamp_secs(a.secs()) == clamp_secs(crate::parse::ascii_spec(src@).unwrap()),
    {
        match crate::parse::parse_ascii_raw(src) {
            Some(mut out) => {
                out.rebalance();
                Some(out)
            },
            None => None,
        }
    }

    /// The balanced parts of an RFC2822 date or datetime; see
    /// [`rfc2822_spec`](crate::parse::rfc2822_spec).
    pub fn from_rfc2822(src: &[u8]) -> (r: Option<Self>)
        ensures
            r is Some <==> crate::parse::rfc2822_spec(src@) is Some,
            r matches Some(a) ==> a.balanced() && clamp_secs(a.secs()) == clamp_secs(crate::parse::rfc2822_spec(src@).unwrap()),
    {
        match crate::parse::parse_rfc2822_raw(src) {
            Some(mut out) => {
                out.rebalance();
                Some(out)
            },
            None => None,
        }
    }

    /// Trying to add more seconds than this to any in-range moment pulls it
    /// out of range.
    pub const MAX_SECONDS: u32 = 3_155_760_000;

    /// A balanced instance from raw parts.
    pub fn new(y: u16, m: u8, d: u8, hh: u8, mm: u8, ss: u8) -> (r: Self)
        ensures
            r.balanced(),
            clamp_secs(r.secs()) == clamp_secs(moment_secs(y as int, m as int, d as int, hh as int, mm as int, ss as int)),
    {
        let mut out = Abacus { y, m: m as u16, d: d as u16, hh: hh as u16, mm: mm as u16, ss: ss as u16 };
        out.rebalance();
        out
    }

    /// The parts, saturated to the century, with the year as an offset from
    /// 2000.
    pub fn parts(&self) -> (r: (u8, u8, u8, u8, u8, u8))
        requires
            self.balanced(),
        ensures
            parts_saturate(r, self.secs()),
    {
        proof { self.lemma_balanced_outside(); }
        if self.y < 2000 { (0, 1, 1, 0, 0, 0) }
        else if 2099 < self.y {
            proof { crate::calendar::lemma_century_days_before_year(99); }
            (99, 12, 31, 23, 59, 59)
        }
        else {
            (
                (self.y - 2000) as u8,
                self.m as u8,
                self.d as u8,
                self.hh as u8,
                self.mm as u8,
                self.ss as u8,
            )
        }
    }

    /// Balanced parts outside the century have second counts outside it too.
    proof fn lemma_balanced_outside(&self)
        requires
            self.balanced(),
        ensures
            self.y < 2000 ==> self.secs() < 0,
            self.y > 2099 ==> self.secs() > century_secs(),
            2000 <= self.y <= 2099 ==> self.secs() == valid_secs(self.y as int, self.m as int, self.d as int, self.hh as int, self.mm as int, self.ss as int),
            2000 <= self.y <= 2099 ==> 0 <= self.secs() <= century_secs(),
    {
        lemma_linear_day_balanced(self.y as int, self.m as int, self.d as int);
        lemma_day_number_outside(self.y as int, self.m as int, self.d as int);
        if 2000 <= self.y <= 2099 {
            lemma_valid_secs_range(self.y as int, self.m as int, self.d as int, self.hh as int, self.mm as int, self.ss as int);
        }
    }

    /// The number of days in the month; leap-aware.
    pub fn month_days(&self) -> (r: u16)
        ensures
            1 <= self.m <= 12 ==> r == month_len(self.y as int, self.m as int),
            28 <= r <= 31,
    {
        match self.m {
            1 | 3 | 5 | 7 | 8 | 10 | 12 => 31,
            4 | 6 | 9 | 11 => 30,
            2 => if self.y % 4 == 0 && (self.y % 100 != 0 || self.y % 400 == 0) { 29 } else { 28 },
            _ => 28,
        }
    }

    /// The carries of the time parts into minutes, hours, and days fit in
    /// `u16`.
    pub open spec fn carries_fit(self) -> bool {
        let mm1: int = if self.ss > 59 { self.mm + self.ss / 60 } else { self.mm as int };
        let hh1: int = if mm1 > 59 { self.hh + mm1 / 60 } else { self.hh as int };
        &&& mm1 <= u16::MAX
        &&& hh1 <= u16::MAX
        &&& hh1 > 23 ==> self.d + hh1 / 24 <= u16::MAX
    }

    /// Shift overflowing small units into larger ones: seconds into
    /// minutes, minutes into hours, and so on up to years.
    ///
    /// The parts always come out balanced; where they are small enough for
    /// [`Abacus::rebalance_date`] to see the real year, the moment is kept.
    pub fn rebalance(&mut self)
        requires
            old(self).carries_fit(),
        ensures
            final(self).balanced(),
            old(self).rebalanceable() ==> clamp_secs(final(self).secs()) == clamp_secs(old(self).secs()),
    {
        if 59 < self.ss {
            self.mm = self.mm + self.ss / 60;
            self.ss = self.ss % 60;
        }
        if 59 < self.mm {
            self.hh = self.hh + self.mm / 60;
            self.mm = self.mm % 60;
        }
        if 23 < self.hh {
            self.d = self.d + self.hh / 24;
            self.hh = self.hh % 24;
        }
        assert(self.secs() == old(self).secs());
        if 0 == self.m || 12 < self.m || 0 == self.d || (28 < self.d && self.month_days() < self.d) {
            self.rebalance_date();
        }
    }

    /// Shift over- and underflowing days into months, and months into years.
    ///
    /// A day or month of zero rewinds the bigger parts: `2000-00` becomes
    /// `1999-12`, and `06-00` becomes `05-31`. A year at or before 1900 (or
    /// at or after 2200), looked at before the months are carried, sets the
    /// parts to [`Abacus::under_marker`] (or [`Abacus::over_marker`]).
    ///
    /// Whatever the parts, the date comes out balanced and the time parts are
    /// left alone (but for the markers). Where the date parts are small
    /// enough for the year check to see the real year, the moment is kept.
    pub fn rebalance_date(&mut self)
        ensures
            *final(self) == Self::under_marker()
                || *final(self) == Self::over_marker()
                || (1 <= final(self).m <= 12
                    && 1 <= final(self).d <= month_len(final(self).y as int, final(self).m as int)
                    && final(self).hh == old(self).hh
                    && final(self).mm == old(self).mm
                    && final(self).ss == old(self).ss),
            old(self).time_balanced() ==> final(self).balanced(),
            old(self).date_ok() && old(self).time_balanced() ==> {
                &&& clamp_secs(final(self).secs()) == clamp_secs(old(self).secs())
                &&& final(self).secs() == old(self).secs()
                    || (*final(self) == Self::under_marker() && old(self).secs() < -86400)
                    || (*final(self) == Self::over_marker() && old(self).secs() > century_secs() + 86400)
            },
    {
        let ghost start = old(self).secs();
        let ghost tracked_moment: bool = old(self).date_ok() && old(self).time_balanced();
        loop
            invariant
                tracked_moment == (old(self).date_ok() && old(self).time_balanced()),
                tracked_moment ==> self.date_ok() && self.time_balanced() && self.secs() == start,
                start == old(self).secs(),
                self.hh == old(self).hh && self.mm == old(self).mm && self.ss == old(self).ss,
            decreases self.d,
        {
            // Short circuit if we're way off base!
            if self.y <= 1900 {
                proof { if tracked_moment { lemma_linear_day_early(self.y as int, self.m as int, self.d as int); } }
                self.rebalance_underflow();
                proof { self.lemma_marker_secs(); }
                return;
            }
            if 2200 <= self.y {
                proof { if tracked_moment { lemma_linear_day_late(self.y as int, self.m as int, self.d as int); } }
                self.rebalance_overflow();
                proof { self.lemma_marker_secs(); }
                return;
            }

            // Rewind the year.
            if self.m == 0 {
                proof { if tracked_moment { lemma_linear_day_month_zero(self.y as int, self.d as int); } }
                self.y = self.y - 1;
                self.m = 12;
            }
            // Carry excess months over to years.
            else if 12 < self.m {
                proof { if tracked_moment { lemma_linear_day_carry_months(self.y as int, self.m as int, self.d as int); } }
                let div = (self.m - 1) / 12;
                self.y = self.y + div;
                self.m = self.m - div * 12;
            }
            proof { if tracked_moment { lemma_linear_day_balanced(self.y as int, self.m as int, self.d as int); } }

            // Rewind the month.
            if self.d == 0 {
                proof { if tracked_moment { lemma_day_number_zero_day(self.y as int, self.m as int); } }
                if self.m == 1 {
                    self.y = self.y - 1;
                    self.m = 12;
                    self.d = 31;
                }
                else {
                    self.m = self.m - 1;
                    self.d = self.month_days();
                }
                proof { if tracked_moment { lemma_linear_day_balanced(self.y as int, self.m as int, self.d as int); } }
            }
            // Carry days past the end of the month into the next.
            else if 28 < self.d {
                let size = self.month_days();
                if size < self.d {
                    proof { if tracked_moment { lemma_day_number_overflow(self.y as int, self.m as int, self.d as int); } }
                    self.m = self.m + 1;
                    self.d = self.d - size;
                    continue;
                }
            }

            return;
        }
    }

    /// The parts [`Abacus::rebalance_underflow`] sets.
    pub open spec fn under_marker() -> Self {
        Abacus { y: 1900, m: 1, d: 1, hh: 0, mm: 0, ss: 0 }
    }

    /// The parts [`Abacus::rebalance_overflow`] sets.
    pub open spec fn over_marker() -> Self {
        Abacus { y: 2200, m: 1, d: 1, hh: 0, mm: 0, ss: 0 }
    }

    /// The marker dates used for saturation lie well outside the century.
    proof fn lemma_marker_secs(&self)
        requires
            self.m == 1 && self.d == 1 && self.hh == 0 && self.mm == 0 && self.ss == 0,
            self.y == 1900 || self.y == 2200,
        ensures
            self.balanced(),
            self.y == 1900 ==> self.secs() < 0,
            self.y == 2200 ==> self.secs() > century_secs(),
    {
        lemma_linear_day_balanced(self.y as int, 1, 1);
        lemma_day_number_outside(self.y as int, 1, 1);
    }

    /// The parts of `self + offset` seconds, balanced.
    ///
    /// Only used with parts that start out balanced and within the century.
    pub fn plus_seconds(self, offset: u32) -> (r: Self)
        requires
            self.balanced(),
            2000 <= self.y <= 2099,
        ensures
            r.balanced(),
            clamp_secs(r.secs()) == clamp_secs(self.secs() + offset),
    {
        proof { self.lemma_balanced_outside(); }
        let mut out = self;
        let mut offset = offset;
        let ghost total = self.secs() + offset;
        // Spread the seconds over the bigger units so they fit.
        if DAY_IN_SECONDS <= offset {
            // An offset this big always leaves the century.
            if Self::MAX_SECONDS < offset {
                out.rebalance_overflow();
                proof { out.lemma_marker_secs(); }
                return out;
            }
            out.d = out.d + (offset / DAY_IN_SECONDS) as u16;
            offset = offset % DAY_IN_SECONDS;
        }
        if HOUR_IN_SECONDS <= offset {
            out.hh = out.hh + (offset / HOUR_IN_SECONDS) as u16;
            offset = offset % HOUR_IN_SECONDS;
        }
        if MINUTE_IN_SECONDS <= offset {
            out.mm = out.mm + (offset / MINUTE_IN_SECONDS) as u16;
            offset = offset % MINUTE_IN_SECONDS;
        }
        out.ss = out.ss + offset as u16;
        assert(out.secs() == total);
        out.rebalance();
        out
    }

    /// Seconds of the time parts.
    pub open spec fn time_secs(self) -> int {
        self.hh * 3600 + self.mm * 60 + self.ss
    }

    /// Applying the offset `o` adds nothing past `u16` to any part.
    pub open spec fn offset_fits(self, o: int) -> bool {
        if o < 0 {
            &&& self.hh + (-o) / 3600 <= u16::MAX
            &&& self.mm + (-o) % 3600 / 60 <= u16::MAX
            &&& self.ss + (-o) % 60 <= u16::MAX
        } else if o > 0 && self.time_secs() >= o {
            self.d + (self.time_secs() - o) / 86400 <= u16::MAX
        } else {
            true
        }
    }

    /// The seconds of the day that are left once the offset `o > 0` is taken
    /// from the time parts, borrowing a day if they fall short.
    pub open spec fn offset_rest(self, o: int) -> int {
        if self.time_secs() >= o { self.time_secs() - o } else { self.time_secs() + 86400 - o }
    }

    /// The parts after applying the offset `o`: a negative offset is added
    /// to the time parts; a positive one is taken from the time parts
    /// (borrowing a day if they fall short) and what is left is spread over
    /// days, hours, minutes, and seconds. Not meant for a positive offset
    /// that must borrow a day from a day of zero.
    pub open spec fn shifted(self, o: int) -> Abacus {
        if o == 0 {
            self
        } else if o < 0 {
            Abacus {
                y: self.y,
                m: self.m,
                d: self.d,
                hh: (self.hh + (-o) / 3600) as u16,
                mm: (self.mm + (-o) % 3600 / 60) as u16,
                ss: (self.ss + (-o) % 60) as u16,
            }
        } else {
            let x = self.offset_rest(o);
            Abacus {
                y: self.y,
                m: self.m,
                d: (if self.time_secs() >= o { self.d + x / 86400 } else { self.d - 1 }) as u16,
                hh: (x % 86400 / 3600) as u16,
                mm: (x % 3600 / 60) as u16,
                ss: (x % 60) as u16,
            }
        }
    }

    /// Add `offset` seconds (less than a day's worth of time parts, or any
    /// number of days) to the parts: whole days to the day, then hours,
    /// minutes, and seconds. Nothing is rebalanced.
    fn spread_seconds(&mut self, offset: u32)
        requires
            old(self).d + offset / 86400 <= u16::MAX,
            old(self).hh + offset % 86400 / 3600 <= u16::MAX,
            old(self).mm + offset % 3600 / 60 <= u16::MAX,
            old(self).ss + offset % 60 <= u16::MAX,
        ensures
            final(self).y == old(self).y && final(self).m == old(self).m,
            final(self).d == old(self).d + offset / 86400,
            final(self).hh == old(self).hh + offset % 86400 / 3600,
            final(self).mm == old(self).mm + offset % 3600 / 60,
            final(self).ss == old(self).ss + offset % 60,
            final(self).secs() == old(self).secs() + offset,
    {
        let ghost rest = offset;
        let mut offset = offset;
        if DAY_IN_SECONDS <= offset {
            self.d = self.d + (offset / DAY_IN_SECONDS) as u16;
            offset = offset % DAY_IN_SECONDS;
        }
        assert(offset == rest % 86400 && self.d == old(self).d + rest / 86400);
        if HOUR_IN_SECONDS <= offset {
            self.hh = self.hh + (offset / HOUR_IN_SECONDS) as u16;
            offset = offset % HOUR_IN_SECONDS;
        }
        assert(offset == rest % 3600 && self.hh == old(self).hh + rest % 86400 / 3600) by {
            assert(rest % 86400 % 3600 == rest % 3600) by (nonlinear_arith);
        }
        if MINUTE_IN_SECONDS <= offset {
            self.mm = self.mm + (offset / MINUTE_IN_SECONDS) as u16;
            offset = offset % MINUTE_IN_SECONDS;
        }
        assert(offset == rest % 60 && self.mm == old(self).mm + rest % 3600 / 60) by {
            assert(rest % 3600 % 60 == rest % 60) by (nonlinear_arith);
        }
        self.ss = self.ss + offset as u16;
        assert(rest == rest / 86400 * 86400 + rest % 86400 / 3600 * 3600 + rest % 3600 / 60 * 60 + rest % 60) by (nonlinear_arith);
    }

    /// `after` is what applying the offset `o` makes of these parts: the
    /// parts [`Abacus::shifted`] gives, but for a positive offset that must
    /// borrow a day from a day of zero, where only the time parts are fixed
    /// (the date is first rebalanced, then a day taken from it).
    pub open spec fn offset_applied(self, o: int, after: Abacus) -> bool {
        &&& after.hh == self.shifted(o).hh
        &&& after.mm == self.shifted(o).mm
        &&& after.ss == self.shifted(o).ss
        &&& !(0 < o && self.time_secs() < o && self.d == 0) ==> after == self.shifted(o)
    }

    /// Apply a parsed `±hhmm`-style UTC offset: the moment moves back by
    /// `signed_offset` seconds. The parts are not rebalanced.
    ///
    /// The parts come out as [`Abacus::shifted`] says, but for a positive
    /// offset that must borrow a day from a day of zero: then the date is
    /// first rebalanced (see [`Abacus::rebalance_date`]) and a day taken from
    /// it, while the time parts still come out as `shifted` says.
    pub fn apply_offset(&mut self, signed_offset: i32)
        requires
            -86400 < signed_offset < 86400,
            old(self).offset_fits(signed_offset as int),
        ensures
            signed_offset == 0 ==> *final(self) == *old(self),
            old(self).offset_applied(signed_offset as int, *final(self)),
            old(self).d <= 300 && old(self).m <= 300 ==>
                clamp_secs(final(self).secs()) == clamp_secs(old(self).secs() - signed_offset),
            old(self).hh <= 100 && old(self).mm <= 100 && old(self).ss <= 100 && old(self).d <= 300 && old(self).m <= 300 ==>
                final(self).hh <= 200 && final(self).mm <= 200 && final(self).ss <= 200 && final(self).d <= 305 && final(self).m <= 300,
    {
        if signed_offset == 0 { return; }

        let ghost start = old(self).secs();
        let ghost tracked_moment: bool = old(self).d <= 300 && old(self).m <= 300;
        let mut offset: u32 = if signed_offset < 0 { (0 - signed_offset) as u32 } else { signed_offset as u32 };
        let ghost mut exact: bool = true;

        // A positive offset requires subtraction, which borrows from the
        // time parts first, and a day if those do not suffice.
        if 0 < signed_offset {
            let mut balance: u32 =
                self.ss as u32 +
                self.mm as u32 * MINUTE_IN_SECONDS +
                self.hh as u32 * HOUR_IN_SECONDS;

            self.ss = 0;
            self.hh = 0;
            self.mm = 0;
            assert(self.secs() + balance == start);

            if balance < offset {
                // With no days to borrow from, rebalancing the date always
                // yields at least one.
                if 0 == self.d {
                    let ghost before = *self;
                    self.rebalance_date();
                    proof {
                        if self.secs() != before.secs() {
                            exact = false;
                            lemma_linear_day_balanced(1900, 1, 0);
                            lemma_linear_day_balanced(2200, 1, 0);
                            lemma_day_number_outside(1899, 12, 31);
                            lemma_day_number_outside(2199, 12, 31);
                            lemma_day_number_zero_day(1900, 1);
                            lemma_day_number_zero_day(2200, 1);
                        }
                    }
                }
                balance = balance + DAY_IN_SECONDS;
                self.d = self.d - 1;
            }

            // What remains of the balance is added back below.
            offset = balance - offset;
        }
        self.spread_seconds(offset);
        proof {
            if !exact {
                lemma_linear_day_balanced(1900, 1, 0);
                lemma_linear_day_balanced(2200, 1, 0);
                lemma_day_number_zero_day(1900, 1);
                lemma_day_number_zero_day(2200, 1);
                lemma_day_number_outside(1899, 12, 31);
                lemma_day_number_outside(2199, 12, 31);
            }
        }
    }

    /// Set every part to a date after the century.
    pub fn rebalance_overflow(&mut self)
        ensures
            *final(self) == (Abacus { y: 2200, m: 1, d: 1, hh: 0, mm: 0, ss: 0 }),
    {
        self.y = 2200;
        self.m = 1;
        self.d = 1;
        self.hh = 0;
        self.mm = 0;
        self.ss = 0;
    }

    /// Set every part to a date before the century.
    pub fn rebalance_underflow(&mut self)
        ensures
            *final(self) == (Abacus { y: 1900, m: 1, d: 1, hh: 0, mm: 0, ss: 0 }),
    {
        self.y = 1900;
        self.m = 1;
        self.d = 1;
        self.hh = 0;
        self.mm = 0;
        self.ss = 0;
    }
}

impl core::ops::Add<u32> for Abacus {
    type Output = Self;

    /// The parts `other` seconds later, balanced.
    fn add(self, other: u32) -> (r: Self)
        ensures
            r.balanced(),
            clamp_secs(r.secs()) == clamp_secs(self.secs() + other),
    {
        self.plus_seconds(other)
    }
}

impl vstd::std_specs::ops::AddSpecImpl<u32> for Abacus {
    /// A balanced moment past the century may come out as any balanced parts
    /// past it; see [`Abacus::add`] for what is promised.
    open spec fn obeys_add_spec() -> bool {
        false
    }

    /// Addition starts from balanced parts within the century.
    open spec fn add_req(self, rhs: u32) -> bool {
        self.balanced() && 2000 <= self.y <= 2099
    }

    /// Some balanced parts with the second count of the sum, saturated.
    open spec fn add_spec(self, rhs: u32) -> Self {
        choose|r: Abacus| r.balanced() && clamp_secs(r.secs()) == clamp_secs(self.secs() + rhs)
    }
}

impl core::ops::AddAssign<u32> for Abacus {
    /// Move the parts `other` seconds later, balanced.
    fn add_assign(&mut self, other: u32)
        requires
            old(self).balanced(),
            2000 <= old(self).y <= 2099,
        ensures
            final(self).balanced(),
            clamp_secs(final(self).secs()) == clamp_secs(old(self).secs() + other),
    {
        *self = self.plus_seconds(other);
    }
}

} // verus!
