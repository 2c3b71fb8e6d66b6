//! Days of the week.

use vstd::prelude::*;
use crate::{Month, Utc2k, Utc2kError};
use vstd::string::StringSliceAdditionalSpecFns;

verus! {

/// Days of the week, numbered from one.
#[derive(Debug, Clone, Copy, Default, PartialEq, Eq, Structural, Hash, PartialOrd, Ord)]
pub enum Weekday {
    /// Sunday.
    #[default]
    Sunday,
    /// Monday.
    Monday,
    /// Tuesday.
    Tuesday,
    /// Wednesday.
    Wednesday,
    /// Thursday.
    Thursday,
    /// Friday.
    Friday,
    /// Saturday.
    Saturday,
}

impl Weekday {
    /// The number of this weekday, `1..=7`.
    pub open spec fn num(self) -> int {
        match self {
            Weekday::Sunday => 1,
            Weekday::Monday => 2,
            Weekday::Tuesday => 3,
            Weekday::Wednesday => 4,
            Weekday::Thursday => 5,
            Weekday::Friday => 6,
            Weekday::Saturday => 7,
        }
    }

    /// The weekday numbered `n`, counting around the cycle: `0` and `7` both
    /// give the last, `8` gives the first again, and so on.
    pub open spec fn from_num(n: int) -> Self {
        let i = n % 7;
        if i == 1 { Weekday::Sunday }
        else if i == 2 { Weekday::Monday }
        else if i == 3 { Weekday::Tuesday }
        else if i == 4 { Weekday::Wednesday }
        else if i == 5 { Weekday::Thursday }
        else if i == 6 { Weekday::Friday }
        else { Weekday::Saturday }
    }

    /// The name of this weekday.
    pub open spec fn name(self) -> Seq<char> {
        match self {
            Weekday::Sunday => "Sunday"@,
            Weekday::Monday => "Monday"@,
            Weekday::Tuesday => "Tuesday"@,
            Weekday::Wednesday => "Wednesday"@,
            Weekday::Thursday => "Thursday"@,
            Weekday::Friday => "Friday"@,
            Weekday::Saturday => "Saturday"@,
        }
    }

    /// The three-letter abbreviation of this weekday.
    pub open spec fn abbr(self) -> Seq<char> {
        match self {
            Weekday::Sunday => "Sun"@,
            Weekday::Monday => "Mon"@,
            Weekday::Tuesday => "Tue"@,
            Weekday::Wednesday => "Wed"@,
            Weekday::Thursday => "Thu"@,
            Weekday::Friday => "Fri"@,
            Weekday::Saturday => "Sat"@,
        }
    }

    /// The lowercase bytes of the abbreviation of this weekday.
    pub open spec fn abbr_lower(self) -> (u8, u8, u8) {
        match self {
            Weekday::Sunday => (115u8, 117u8, 110u8),
            Weekday::Monday => (109u8, 111u8, 110u8),
            Weekday::Tuesday => (116u8, 117u8, 101u8),
            Weekday::Wednesday => (119u8, 101u8, 100u8),
            Weekday::Thursday => (116u8, 104u8, 117u8),
            Weekday::Friday => (102u8, 114u8, 105u8),
            Weekday::Saturday => (115u8, 97u8, 116u8),
        }
    }

    /// Numbering around the cycle lands on the number modulo 7.
    pub proof fn lemma_from_num(n: int)
        ensures
            1 <= Self::from_num(n).num() <= 7,
            Self::from_num(n).num() % 7 == n % 7,
    {
    }

    /// Each weekday is numbered as itself.
    pub proof fn lemma_num_from_num(self)
        ensures
            Self::from_num(self.num()) == self,
            1 <= self.num() <= 7,
    {
    }

    /// Adding `a` and then taking `a` away again gives back the same weekday.
    pub proof fn lemma_add_sub(self, a: int)
        ensures
            Self::from_num(Self::from_num(self.num() + a).num() - a) == self,
            Self::from_num(Self::from_num(self.num() - a).num() + a) == self,
    {
        Self::lemma_from_num(self.num() + a);
        Self::lemma_from_num(self.num() - a);
        Self::lemma_from_num(Self::from_num(self.num() + a).num() - a);
        Self::lemma_from_num(Self::from_num(self.num() - a).num() + a);
        assert((Self::from_num(self.num() + a).num() - a) % 7 == self.num() % 7) by {
            vstd::arithmetic::div_mod::lemma_mod_sub_multiples_vanish(self.num() + a, 7);
            vstd::arithmetic::div_mod::lemma_sub_mod_noop(Self::from_num(self.num() + a).num(), a, 7);
            vstd::arithmetic::div_mod::lemma_sub_mod_noop(self.num() + a, a, 7);
        }
        assert((Self::from_num(self.num() - a).num() + a) % 7 == self.num() % 7) by {
            vstd::arithmetic::div_mod::lemma_add_mod_noop(Self::from_num(self.num() - a).num(), a, 7);
            vstd::arithmetic::div_mod::lemma_add_mod_noop(self.num() - a, a, 7);
        }
    }

    /// The number of this weekday, `1..=7`.
    pub fn number(self) -> (r: u8)
        ensures
            r == self.num(),
            1 <= r <= 7,
    {
        match self {
            Weekday::Sunday => 1,
            Weekday::Monday => 2,
            Weekday::Tuesday => 3,
            Weekday::Wednesday => 4,
            Weekday::Thursday => 5,
            Weekday::Friday => 6,
            Weekday::Saturday => 7,
        }
    }

    /// The weekday numbered `src`, counting around the cycle (so `0` is the
    /// last).
    pub(crate) fn from_u8(src: u8) -> (r: Self)
        ensures
            r == Self::from_num(src as int),
    {
        match src % 7 {
            1 => Weekday::Sunday,
            2 => Weekday::Monday,
            3 => Weekday::Tuesday,
            4 => Weekday::Wednesday,
            5 => Weekday::Thursday,
            6 => Weekday::Friday,
            _ => Weekday::Saturday,
        }
    }

    /// The weekday at position `i` (`0..7`) of the cycle, counted from zero.
    fn from_index(i: u8) -> (r: Self)
        requires
            i < 7,
        ensures
            r == Self::from_num(i + 1),
    {
        Self::from_u8(i + 1)
    }

    /// The name of this weekday, e.g. `"Sunday"`.
    pub fn as_str(self) -> (r: &'static str)
        ensures
            r@ == self.name(),
    {
        match self {
            Weekday::Sunday => "Sunday",
            Weekday::Monday => "Monday",
            Weekday::Tuesday => "Tuesday",
            Weekday::Wednesday => "Wednesday",
            Weekday::Thursday => "Thursday",
            Weekday::Friday => "Friday",
            Weekday::Saturday => "Saturday",
        }
    }

    /// The three-letter abbreviation of this weekday, e.g. `"Sun"`.
    pub fn abbreviation(self) -> (r: &'static str)
        ensures
            r@ == self.abbr(),
    {
        match self {
            Weekday::Sunday => "Sun",
            Weekday::Monday => "Mon",
            Weekday::Tuesday => "Tue",
            Weekday::Wednesday => "Wed",
            Weekday::Thursday => "Thu",
            Weekday::Friday => "Fri",
            Weekday::Saturday => "Sat",
        }
    }

    /// All seven weekdays, in order.
    pub const ALL: [Weekday; 7] = [
        Weekday::Sunday, Weekday::Monday, Weekday::Tuesday, Weekday::Wednesday,
        Weekday::Thursday, Weekday::Friday, Weekday::Saturday,
    ];

    /// The next weekday, wrapping around.
    pub fn next(self) -> (r: Self)
        ensures
            r == Self::from_num(self.num() + 1),
    {
        match self {
            Weekday::Sunday => Weekday::Monday,
            Weekday::Monday => Weekday::Tuesday,
            Weekday::Tuesday => Weekday::Wednesday,
            Weekday::Wednesday => Weekday::Thursday,
            Weekday::Thursday => Weekday::Friday,
            Weekday::Friday => Weekday::Saturday,
            Weekday::Saturday => Weekday::Sunday,
        }
    }

    /// The previous weekday, wrapping around.
    pub fn previous(self) -> (r: Self)
        ensures
            r == Self::from_num(self.num() - 1),
    {
        match self {
            Weekday::Sunday => Weekday::Saturday,
            Weekday::Monday => Weekday::Sunday,
            Weekday::Tuesday => Weekday::Monday,
            Weekday::Wednesday => Weekday::Tuesday,
            Weekday::Thursday => Weekday::Wednesday,
            Weekday::Friday => Weekday::Thursday,
            Weekday::Saturday => Weekday::Friday,
        }
    }

    /// Compare two weekdays by their numbers.
    pub fn cmp(a: Self, b: Self) -> (r: core::cmp::Ordering)
        ensures
            r == core::cmp::Ordering::Less <==> a.num() < b.num(),
            r == core::cmp::Ordering::Equal <==> a.num() == b.num(),
            r == core::cmp::Ordering::Greater <==> a.num() > b.num(),
    {
        let a = a.number();
        let b = b.number();
        if a == b { core::cmp::Ordering::Equal }
        else if a < b { core::cmp::Ordering::Less }
        else { core::cmp::Ordering::Greater }
    }

    /// Match three bytes, case-insensitively, against the weekday
    /// abbreviations.
    pub(crate) fn from_abbreviation(a: u8, b: u8, c: u8) -> (r: Option<Self>)
        ensures
            r matches Some(x) ==> x.abbr_lower() == (a | 32u8, b | 32u8, c | 32u8),
            r is None ==> forall|x: Self| x.abbr_lower() != (a | 32u8, b | 32u8, c | 32u8),
    {
        let a = a | 32;
        let b = b | 32;
        let c = c | 32;
        if a == 115 && b == 117 && c == 110 { Some(Weekday::Sunday) }
        else if a == 109 && b == 111 && c == 110 { Some(Weekday::Monday) }
        else if a == 116 && b == 117 && c == 101 { Some(Weekday::Tuesday) }
        else if a == 119 && b == 101 && c == 100 { Some(Weekday::Wednesday) }
        else if a == 116 && b == 104 && c == 117 { Some(Weekday::Thursday) }
        else if a == 102 && b == 114 && c == 105 { Some(Weekday::Friday) }
        else if a == 115 && b == 97 && c == 116 { Some(Weekday::Saturday) }
        else { None }
    }

    /// The day of the week on which year `2000 + y` begins.
    pub(crate) fn year_begins_on(y: u8) -> (r: Self)
        requires
            y < 100,
        ensures
            r == Self::from_num(crate::calendar::days_before_year(2000 + y) + 7),
    {
        proof { crate::calendar::lemma_century_days_before_year(y as int); }
        let y = y as u32;
        let days = 365 * y + (y + 3) / 4;
        proof {
            vstd::arithmetic::div_mod::lemma_add_mod_noop(days as int, 7, 7);
        }
        Self::from_u8((days % 7) as u8)
    }

    /// The day of the week of `y-m-d`.
    pub open spec fn of_date(y: int, m: int, d: int) -> Self {
        Self::from_num(crate::calendar::day_number(y, m, d) + 7)
    }

    /// The day of the month of the first occurrence of this weekday in month
    /// `m` of year `y`.
    pub open spec fn first_day_in(self, y: int, m: int) -> int {
        1 + (self.num() - Self::of_date(y, m, 1).num()) % 7
    }

    /// Successive days cycle through the week.
    proof fn lemma_of_date_step(y: int, m: int, d: int, k: int)
        ensures
            Self::of_date(y, m, d + k).num() % 7 == (Self::of_date(y, m, d).num() + k) % 7,
    {
        let n = crate::calendar::day_number(y, m, d) + 7;
        Self::lemma_from_num(n);
        Self::lemma_from_num(n + k);
        vstd::arithmetic::div_mod::lemma_add_mod_noop(n, k, 7);
        vstd::arithmetic::div_mod::lemma_add_mod_noop(Self::from_num(n).num(), k, 7);
    }

    /// The first occurrence of this weekday does fall on this weekday.
    proof fn lemma_first_day_in(self, y: int, m: int, k: int)
        requires
            0 <= k,
        ensures
            1 <= self.first_day_in(y, m) <= 7,
            Self::of_date(y, m, self.first_day_in(y, m) + 7 * k) == self,
    {
        let w = Self::of_date(y, m, 1);
        let f = self.first_day_in(y, m);
        Self::lemma_from_num(crate::calendar::day_number(y, m, 1) + 7);
        Self::lemma_of_date_step(y, m, 1, f - 1 + 7 * k);
        self.lemma_num_from_num();
        vstd::arithmetic::div_mod::lemma_mod_multiples_vanish(k, f - 1 + w.num(), 7);
        vstd::arithmetic::div_mod::lemma_add_mod_noop(w.num(), self.num() - w.num(), 7);
        vstd::arithmetic::div_mod::lemma_mod_twice(self.num() - w.num(), 7);
        vstd::arithmetic::div_mod::lemma_add_mod_noop(w.num(), (self.num() - w.num()) % 7, 7);
        Self::lemma_from_num_congruent(crate::calendar::day_number(y, m, f + 7 * k) + 7, self.num());
    }

    /// The day of the month of the first occurrence of this weekday, from the
    /// weekday of the first of the month.
    fn first_day_from(self, first: Self) -> (r: u8)
        ensures
            r == 1 + (self.num() - first.num()) % 7,
    {
        let w = first.number();
        let s = self.number();
        if w == s { 1 }
        else if w < s { 1 + s - w }
        else { 8 - (w - s) }
    }

    /// The day of the month of the first occurrence of this weekday in the
    /// given year and month, or `None` if the year is outside the century.
    pub fn first_in_month(self, y: u16, m: Month) -> (r: Option<u8>)
        ensures
            r is Some <==> 2000 <= y <= 2099,
            r matches Some(d) ==> d == self.first_day_in(y as int, m.num()) && Self::of_date(y as int, m.num(), d as int) == self,
    {
        self.nth_in_month(y, m, 1)
    }

    /// The day of the month of the last occurrence of this weekday in the
    /// given year and month, or `None` if the year is outside the century.
    pub fn last_in_month(self, y: u16, m: Month) -> (r: Option<u8>)
        ensures
            r is Some <==> 2000 <= y <= 2099,
            r matches Some(d) ==> {
                &&& Self::of_date(y as int, m.num(), d as int) == self
                &&& d <= crate::calendar::month_len(y as int, m.num()) < d + 7
                &&& (d - self.first_day_in(y as int, m.num())) % 7 == 0
            },
    {
        if 2000 <= y && y <= 2099 {
            let first = Utc2k::from_ym((y - 2000) as u8, m);
            let d = self.first_day_from(first.weekday());
            let size = first.month_size();
            let n = (size - d) / 7;
            proof {
                self.lemma_first_day_in(y as int, m.num(), n as int);
                m.lemma_num_from_num();
            }
            Some(d + n * 7)
        }
        else { None }
    }

    /// The day of the month of the `n`th occurrence (counted from one) of this
    /// weekday in the given year and month, or `None` if there is no such
    /// occurrence or the year is outside the century.
    pub fn nth_in_month(self, y: u16, m: Month, n: u8) -> (r: Option<u8>)
        ensures
            r is Some <==> {
                &&& 1 <= n <= 5
                &&& 2000 <= y <= 2099
                &&& self.first_day_in(y as int, m.num()) + 7 * (n - 1) <= crate::calendar::month_len(y as int, m.num())
            },
            r matches Some(d) ==> {
                &&& d == self.first_day_in(y as int, m.num()) + 7 * (n - 1)
                &&& Self::of_date(y as int, m.num(), d as int) == self
            },
    {
        if 0 < n && n < 6 && 2000 <= y && y <= 2099 {
            let first = Utc2k::from_ym((y - 2000) as u8, m);
            let d = self.first_day_from(first.weekday()) + (n - 1) * 7;
            proof {
                self.lemma_first_day_in(y as int, m.num(), n - 1);
                m.lemma_num_from_num();
            }
            if d <= first.month_size() { Some(d) }
            else { None }
        }
        else { None }
    }

    /// Today's day of the week.
    pub fn now() -> (r: Self) {
        Utc2k::now().weekday()
    }

    /// Tomorrow's day of the week.
    pub fn tomorrow() -> (r: Self) {
        Utc2k::tomorrow().weekday()
    }

    /// Yesterday's day of the week.
    pub fn yesterday() -> (r: Self) {
        Utc2k::yesterday().weekday()
    }

    /// The weekday named by the first three bytes of `src`, compared
    /// case-insensitively with the abbreviations.
    pub fn from_bytes(src: &[u8]) -> (r: Result<Self, Utc2kError>)
        ensures
            r matches Ok(x) ==> src@.len() > 2 && x.abbr_lower() == (src@[0] | 32u8, src@[1] | 32u8, src@[2] | 32u8),
            r is Err ==> r == Err::<Self, Utc2kError>(Utc2kError::Invalid),
            r is Err ==> src@.len() <= 2 || forall|x: Self| x.abbr_lower() != (src@[0] | 32u8, src@[1] | 32u8, src@[2] | 32u8),
    {
        if 2 < src.len() {
            match Self::from_abbreviation(src[0], src[1], src[2]) {
                Some(x) => Ok(x),
                None => Err(Utc2kError::Invalid),
            }
        }
        else { Err(Utc2kError::Invalid) }
    }

    /// What parsing the bytes `s` gives: the weekday whose abbreviation the
    /// first three bytes spell, case-insensitively.
    pub open spec fn parse_spec(s: Seq<u8>) -> Result<Self, Utc2kError> {
        if s.len() > 2 && exists|x: Self| x.abbr_lower() == (s[0] | 32u8, s[1] | 32u8, s[2] | 32u8) {
            Ok(choose|x: Self| x.abbr_lower() == (s[0] | 32u8, s[1] | 32u8, s[2] | 32u8))
        } else {
            Err(Utc2kError::Invalid)
        }
    }

    /// Parse the first three bytes, case-insensitively.
    pub fn parse_bytes(src: &[u8]) -> (r: Result<Self, Utc2kError>)
        ensures
            r == Self::parse_spec(src@),
    {
        let r = Self::from_bytes(src);
        proof {
            if let Ok(x) = r {
                let s = src@;
                let y = choose|y: Self| y.abbr_lower() == (s[0] | 32u8, s[1] | 32u8, s[2] | 32u8);
                Self::lemma_abbr_lower_injective(x, y);
            }
        }
        r
    }

    /// Different weekdays have different abbreviations.
    pub proof fn lemma_abbr_lower_injective(a: Self, b: Self)
        requires
            a.abbr_lower() == b.abbr_lower(),
        ensures
            a == b,
    {
    }

    /// Wrapping addition of numbers in the cycle.
    proof fn lemma_cycle_add(k: int, o: int)
        requires
            1 <= k <= 7,
            0 <= o,
        ensures
            (k + o % 7) % 7 == (k + o) % 7,
    {
        vstd::arithmetic::div_mod::lemma_add_mod_noop(k, o, 7);
        vstd::arithmetic::div_mod::lemma_mod_twice(o, 7);
        vstd::arithmetic::div_mod::lemma_add_mod_noop(k, o % 7, 7);
    }

    /// Wrapping subtraction of numbers in the cycle.
    proof fn lemma_cycle_sub(k: int, o: int)
        requires
            1 <= k <= 7,
            0 <= o,
        ensures
            (k - o % 7 + 7) % 7 == (k - o) % 7,
            (k - o % 7) % 7 == (k - o) % 7,
    {
        vstd::arithmetic::div_mod::lemma_sub_mod_noop(k, o, 7);
        vstd::arithmetic::div_mod::lemma_mod_twice(o, 7);
        vstd::arithmetic::div_mod::lemma_sub_mod_noop(k, o % 7, 7);
        vstd::arithmetic::div_mod::lemma_mod_add_multiples_vanish(k - o % 7, 7);
    }

    /// One step around the cycle from the value named by `n` lands on the
    /// value named by `n + 1`, and likewise back.
    proof fn lemma_step(n: int)
        ensures
            Self::from_num(Self::from_num(n).num() + 1) == Self::from_num(n + 1),
            Self::from_num(Self::from_num(n).num() - 1) == Self::from_num(n - 1),
    {
        Self::lemma_from_num(n);
        let k = Self::from_num(n).num();
        vstd::arithmetic::div_mod::lemma_add_mod_noop(k, 1, 7);
        vstd::arithmetic::div_mod::lemma_add_mod_noop(n, 1, 7);
        vstd::arithmetic::div_mod::lemma_sub_mod_noop(k, 1, 7);
        vstd::arithmetic::div_mod::lemma_sub_mod_noop(n, 1, 7);
        Self::lemma_from_num_congruent(k + 1, n + 1);
        Self::lemma_from_num_congruent(k - 1, n - 1);
    }

    /// The first `n` values of the endless cycle that starts here and moves
    /// forward.
    pub fn cycle(self, n: usize) -> (r: Vec<Self>)
        ensures
            r@.len() == n,
            forall|i: int| 0 <= i < n ==> #[trigger] r@[i] == Self::from_num(self.num() + i),
    {
        let mut out: Vec<Self> = Vec::new();
        let mut cur = self;
        proof { self.lemma_num_from_num(); }
        let mut i: usize = 0;
        while i < n
            invariant
                i <= n,
                out@.len() == i,
                cur == Self::from_num(self.num() + i),
                forall|j: int| 0 <= j < i ==> #[trigger] out@[j] == Self::from_num(self.num() + j),
            decreases n - i,
        {
            out.push(cur);
            proof { Self::lemma_step(self.num() + i); }
            cur = cur.next();
            i = i + 1;
        }
        out
    }

    /// The first `n` values of the endless cycle that starts here and moves
    /// backward.
    pub fn cycle_rev(self, n: usize) -> (r: Vec<Self>)
        ensures
            r@.len() == n,
            forall|i: int| 0 <= i < n ==> #[trigger] r@[i] == Self::from_num(self.num() - i),
    {
        let mut out: Vec<Self> = Vec::new();
        let mut cur = self;
        proof { self.lemma_num_from_num(); }
        let mut i: usize = 0;
        while i < n
            invariant
                i <= n,
                out@.len() == i,
                cur == Self::from_num(self.num() - i),
                forall|j: int| 0 <= j < i ==> #[trigger] out@[j] == Self::from_num(self.num() - j),
            decreases n - i,
        {
            out.push(cur);
            proof { Self::lemma_step(self.num() - i); }
            cur = cur.previous();
            i = i + 1;
        }
        out
    }

    /// Numbers congruent modulo the cycle length name the same value.
    proof fn lemma_from_num_congruent(a: int, b: int)
        requires
            a % 7 == b % 7,
        ensures
            Self::from_num(a) == Self::from_num(b),
    {
    }

    /// The day of the week of a moment; `2000-01-01` was a Saturday.
    pub open spec fn of_moment(u: Utc2k) -> Self {
        Self::from_num(u.day_number_spec() + 7)
    }
}

impl core::convert::TryFrom<&[u8]> for Weekday {
    type Error = Utc2kError;

    /// Parse from the first three bytes, case-insensitively.
    fn try_from(src: &[u8]) -> (r: Result<Self, Utc2kError>)
        ensures
            r == Self::parse_spec(src@),
    {
        Self::parse_bytes(src)
    }
}

impl vstd::std_specs::convert::TryFromSpecImpl<&[u8]> for Weekday {
    open spec fn obeys_try_from_spec() -> bool {
        true
    }

    open spec fn try_from_spec(v: &[u8]) -> Result<Self, Utc2kError> {
        Self::parse_spec(v@)
    }
}

impl core::convert::TryFrom<&str> for Weekday {
    type Error = Utc2kError;

    /// Parse from the first three bytes, case-insensitively.
    fn try_from(src: &str) -> (r: Result<Self, Utc2kError>)
        ensures
            r == Self::parse_spec(src.spec_bytes()),
    {
        Self::parse_bytes(src.as_bytes())
    }
}

impl vstd::std_specs::convert::TryFromSpecImpl<&str> for Weekday {
    open spec fn obeys_try_from_spec() -> bool {
        true
    }

    open spec fn try_from_spec(v: &str) -> Result<Self, Utc2kError> {
        Self::parse_spec(v.spec_bytes())
    }
}

impl core::convert::TryFrom<String> for Weekday {
    type Error = Utc2kError;

    /// Parse from the first three bytes, case-insensitively.
    fn try_from(src: String) -> (r: Result<Self, Utc2kError>)
        ensures
            r == Self::parse_spec(vstd::utf8::encode_utf8(src@)),
    {
        Self::parse_bytes(src.as_str().as_bytes())
    }
}

impl vstd::std_specs::convert::TryFromSpecImpl<String> for Weekday {
    open spec fn obeys_try_from_spec() -> bool {
        true
    }

    open spec fn try_from_spec(v: String) -> Result<Self, Utc2kError> {
        Self::parse_spec(vstd::utf8::encode_utf8(v@))
    }
}

impl vstd::std_specs::convert::TryFromSpecImpl<&String> for Weekday {
    open spec fn obeys_try_from_spec() -> bool {
        true
    }

    open spec fn try_from_spec(v: &String) -> Result<Self, Utc2kError> {
        Self::parse_spec(vstd::utf8::encode_utf8(v@))
    }
}

impl core::convert::TryFrom<&String> for Weekday {
    type Error = Utc2kError;

    /// Parse from the first three bytes, case-insensitively.
    fn try_from(src: &String) -> (r: Result<Self, Utc2kError>)
        ensures
            r == Self::parse_spec(vstd::utf8::encode_utf8(src@)),
    {
        Self::parse_bytes(src.as_str().as_bytes())
    }
}

impl core::str::FromStr for Weekday {
    type Err = Utc2kError;

    /// Parse from the first three bytes, case-insensitively.
    fn from_str(src: &str) -> (r: Result<Self, Utc2kError>)
        ensures
            r == Self::parse_spec(src.spec_bytes()),
    {
        Self::parse_bytes(src.as_bytes())
    }
}

impl core::convert::From<Utc2k> for Weekday {
    /// The weekday of a moment.
    fn from(src: Utc2k) -> (r: Self)
        ensures
            r == Self::of_moment(src),
    {
        src.weekday()
    }
}

impl vstd::std_specs::convert::FromSpecImpl<Utc2k> for Weekday {
    open spec fn obeys_from_spec() -> bool {
        true
    }

    open spec fn from_spec(v: Utc2k) -> Self {
        Self::of_moment(v)
    }
}

impl core::convert::From<u8> for Weekday {
    /// The weekday numbered `src`, counting around the cycle (so `0` is the
    /// last).
    fn from(src: u8) -> (r: Self)
        ensures
            r == Self::from_num(src as int),
    {
        Self::from_u8((src % 7) as u8)
    }
}

impl vstd::std_specs::convert::FromSpecImpl<u8> for Weekday {
    open spec fn obeys_from_spec() -> bool {
        true
    }

    open spec fn from_spec(v: u8) -> Self {
        Self::from_num(v as int)
    }
}

impl core::convert::From<Weekday> for u8 {
    /// The number of the weekday.
    fn from(src: Weekday) -> (r: Self)
        ensures
            r == src.num(),
    {
        src.number() as u8
    }
}

impl vstd::std_specs::convert::FromSpecImpl<Weekday> for u8 {
    open spec fn obeys_from_spec() -> bool {
        true
    }

    open spec fn from_spec(v: Weekday) -> Self {
        v.num() as u8
    }
}

impl core::ops::Add<u8> for Weekday {
    type Output = Self;

    /// The weekday `other` places later, wrapping around.
    fn add(self, other: u8) -> (r: Self)
        ensures
            r == Self::from_num(self.num() + other),
    {
        let o = (other % 7) as u8;
        let k = self.number();
        let r = Self::from_u8((k + o) % 7);
        proof {
            Self::lemma_cycle_add(k as int, other as int);
            vstd::arithmetic::div_mod::lemma_mod_twice(k + o, 7);
            Self::lemma_from_num_congruent(((k + o) % 7) as int, self.num() + other);
        }
        r
    }
}

impl vstd::std_specs::ops::AddSpecImpl<u8> for Weekday {
    open spec fn obeys_add_spec() -> bool {
        true
    }

    open spec fn add_req(self, rhs: u8) -> bool {
        true
    }

    open spec fn add_spec(self, rhs: u8) -> Self {
        Self::from_num(self.num() + rhs)
    }
}

impl core::ops::AddAssign<u8> for Weekday {
    /// Move `other` places later, wrapping around.
    fn add_assign(&mut self, other: u8)
        ensures
            *final(self) == Self::from_num(old(self).num() + other),
    {
        *self = *self + other;
    }
}

impl core::ops::Sub<u8> for Weekday {
    type Output = Self;

    /// The weekday `other` places earlier, wrapping around.
    fn sub(self, other: u8) -> (r: Self)
        ensures
            r == Self::from_num(self.num() - other),
    {
        let o = (other % 7) as u8;
        let k = self.number();
        let i = k - 1;
        let r = if o <= i { Self::from_index(i - o) } else { Self::from_index(i + 7 - o) };
        proof {
            Self::lemma_cycle_sub(k as int, other as int);
            if o <= i {
                Self::lemma_from_num_congruent(i - o + 1, self.num() - other);
            } else {
                Self::lemma_from_num_congruent(i + 7 - o + 1, self.num() - other);
            }
        }
        r
    }
}

impl vstd::std_specs::ops::SubSpecImpl<u8> for Weekday {
    open spec fn obeys_sub_spec() -> bool {
        true
    }

    open spec fn sub_req(self, rhs: u8) -> bool {
        true
    }

    open spec fn sub_spec(self, rhs: u8) -> Self {
        Self::from_num(self.num() - rhs)
    }
}

impl core::ops::SubAssign<u8> for Weekday {
    /// Move `other` places earlier, wrapping around.
    fn sub_assign(&mut self, other: u8)
        ensures
            *final(self) == Self::from_num(old(self).num() - other),
    {
        *self = *self - other;
    }
}

impl core::convert::From<u16> for Weekday {
    /// The weekday numbered `src`, counting around the cycle (so `0` is the
    /// last).
    fn from(src: u16) -> (r: Self)
        ensures
            r == Self::from_num(src as int),
    {
        Self::from_u8((src % 7) as u8)
    }
}

impl vstd::std_specs::convert::FromSpecImpl<u16> for Weekday {
    open spec fn obeys_from_spec() -> bool {
        true
    }

    open spec fn from_spec(v: u16) -> Self {
        Self::from_num(v as int)
    }
}

impl core::convert::From<Weekday> for u16 {
    /// The number of the weekday.
    fn from(src: Weekday) -> (r: Self)
        ensures
            r == src.num(),
    {
        src.number() as u16
    }
}

impl vstd::std_specs::convert::FromSpecImpl<Weekday> for u16 {
    open spec fn obeys_from_spec() -> bool {
        true
    }

    open spec fn from_spec(v: Weekday) -> Self {
        v.num() as u16
    }
}

impl core::ops::Add<u16> for Weekday {
    type Output = Self;

    /// The weekday `other` places later, wrapping around.
    fn add(self, other: u16) -> (r: Self)
        ensures
            r == Self::from_num(self.num() + other),
    {
        let o = (other % 7) as u8;
        let k = self.number();
        let r = Self::from_u8((k + o) % 7);
        proof {
            Self::lemma_cycle_add(k as int, other as int);
            vstd::arithmetic::div_mod::lemma_mod_twice(k + o, 7);
            Self::lemma_from_num_congruent(((k + o) % 7) as int, self.num() + other);
        }
        r
    }
}

impl vstd::std_specs::ops::AddSpecImpl<u16> for Weekday {
    open spec fn obeys_add_spec() -> bool {
        true
    }

    open spec fn add_req(self, rhs: u16) -> bool {
        true
    }

    open spec fn add_spec(self, rhs: u16) -> Self {
        Self::from_num(self.num() + rhs)
    }
}

impl core::ops::AddAssign<u16> for Weekday {
    /// Move `other` places later, wrapping around.
    fn add_assign(&mut self, other: u16)
        ensures
            *final(self) == Self::from_num(old(self).num() + other),
    {
        *self = *self + other;
    }
}

impl core::ops::Sub<u16> for Weekday {
    type Output = Self;

    /// The weekday `other` places earlier, wrapping around.
    fn sub(self, other: u16) -> (r: Self)
        ensures
            r == Self::from_num(self.num() - other),
    {
        let o = (other % 7) as u8;
        let k = self.number();
        let i = k - 1;
        let r = if o <= i { Self::from_index(i - o) } else { Self::from_index(i + 7 - o) };
        proof {
            Self::lemma_cycle_sub(k as int, other as int);
            if o <= i {
                Self::lemma_from_num_congruent(i - o + 1, self.num() - other);
            } else {
                Self::lemma_from_num_congruent(i + 7 - o + 1, self.num() - other);
            }
        }
        r
    }
}

impl vstd::std_specs::ops::SubSpecImpl<u16> for Weekday {
    open spec fn obeys_sub_spec() -> bool {
        true
    }

    open spec fn sub_req(self, rhs: u16) -> bool {
        true
    }

    open spec fn sub_spec(self, rhs: u16) -> Self {
        Self::from_num(self.num() - rhs)
    }
}

impl core::ops::SubAssign<u16> for Weekday {
    /// Move `other` places earlier, wrapping around.
    fn sub_assign(&mut self, other: u16)
        ensures
            *final(self) == Self::from_num(old(self).num() - other),
    {
        *self = *self - other;
    }
}

impl core::convert::From<u32> for Weekday {
    /// The weekday numbered `src`, counting around the cycle (so `0` is the
    /// last).
    fn from(src: u32) -> (r: Self)
        ensures
            r == Self::from_num(src as int),
    {
        Self::from_u8((src % 7) as u8)
    }
}

impl vstd::std_specs::convert::FromSpecImpl<u32> for Weekday {
    open spec fn obeys_from_spec() -> bool {
        true
    }

    open spec fn from_spec(v: u32) -> Self {
        Self::from_num(v as int)
    }
}

impl core::convert::From<Weekday> for u32 {
    /// The number of the weekday.
    fn from(src: Weekday) -> (r: Self)
        ensures
            r == src.num(),
    {
        src.number() as u32
    }
}

impl vstd::std_specs::convert::FromSpecImpl<Weekday> for u32 {
    open spec fn obeys_from_spec() -> bool {
        true
    }

    open spec fn from_spec(v: Weekday) -> Self {
        v.num() as u32
    }
}

impl core::ops::Add<u32> for Weekday {
    type Output = Self;

    /// The weekday `other` places later, wrapping around.
    fn add(self, other: u32) -> (r: Self)
        ensures
            r == Self::from_num(self.num() + other),
    {
        let o = (other % 7) as u8;
        let k = self.number();
        let r = Self::from_u8((k + o) % 7);
        proof {
            Self::lemma_cycle_add(k as int, other as int);
            vstd::arithmetic::div_mod::lemma_mod_twice(k + o, 7);
            Self::lemma_from_num_congruent(((k + o) % 7) as int, self.num() + other);
        }
        r
    }
}

impl vstd::std_specs::ops::AddSpecImpl<u32> for Weekday {
    open spec fn obeys_add_spec() -> bool {
        true
    }

    open spec fn add_req(self, rhs: u32) -> bool {
        true
    }

    open spec fn add_spec(self, rhs: u32) -> Self {
        Self::from_num(self.num() + rhs)
    }
}

impl core::ops::AddAssign<u32> for Weekday {
    /// Move `other` places later, wrapping around.
    fn add_assign(&mut self, other: u32)
        ensures
            *final(self) == Self::from_num(old(self).num() + other),
    {
        *self = *self + other;
    }
}

impl core::ops::Sub<u32> for Weekday {
    type Output = Self;

    /// The weekday `other` places earlier, wrapping around.
    fn sub(self, other: u32) -> (r: Self)
        ensures
            r == Self::from_num(self.num() - other),
    {
        let o = (other % 7) as u8;
        let k = self.number();
        let i = k - 1;
        let r = if o <= i { Self::from_index(i - o) } else { Self::from_index(i + 7 - o) };
        proof {
            Self::lemma_cycle_sub(k as int, other as int);
            if o <= i {
                Self::lemma_from_num_congruent(i - o + 1, self.num() - other);
            } else {
                Self::lemma_from_num_congruent(i + 7 - o + 1, self.num() - other);
            }
        }
        r
    }
}

impl vstd::std_specs::ops::SubSpecImpl<u32> for Weekday {
    open spec fn obeys_sub_spec() -> bool {
        true
    }

    open spec fn sub_req(self, rhs: u32) -> bool {
        true
    }

    open spec fn sub_spec(self, rhs: u32) -> Self {
        Self::from_num(self.num() - rhs)
    }
}

impl core::ops::SubAssign<u32> for Weekday {
    /// Move `other` places earlier, wrapping around.
    fn sub_assign(&mut self, other: u32)
        ensures
            *final(self) == Self::from_num(old(self).num() - other),
    {
        *self = *self - other;
    }
}

impl core::convert::From<u64> for Weekday {
    /// The weekday numbered `src`, counting around the cycle (so `0` is the
    /// last).
    fn from(src: u64) -> (r: Self)
        ensures
            r == Self::from_num(src as int),
    {
        Self::from_u8((src % 7) as u8)
    }
}

impl vstd::std_specs::convert::FromSpecImpl<u64> for Weekday {
    open spec fn obeys_from_spec() -> bool {
        true
    }

    open spec fn from_spec(v: u64) -> Self {
        Self::from_num(v as int)
    }
}

impl core::convert::From<Weekday> for u64 {
    /// The number of the weekday.
    fn from(src: Weekday) -> (r: Self)
        ensures
            r == src.num(),
    {
        src.number() as u64
    }
}

impl vstd::std_specs::convert::FromSpecImpl<Weekday> for u64 {
    open spec fn obeys_from_spec() -> bool {
        true
    }

    open spec fn from_spec(v: Weekday) -> Self {
        v.num() as u64
    }
}

impl core::ops::Add<u64> for Weekday {
    type Output = Self;

    /// The weekday `other` places later, wrapping around.
    fn add(self, other: u64) -> (r: Self)
        ensures
            r == Self::from_num(self.num() + other),
    {
        let o = (other % 7) as u8;
        let k = self.number();
        let r = Self::from_u8((k + o) % 7);
        proof {
            Self::lemma_cycle_add(k as int, other as int);
            vstd::arithmetic::div_mod::lemma_mod_twice(k + o, 7);
            Self::lemma_from_num_congruent(((k + o) % 7) as int, self.num() + other);
        }
        r
    }
}

impl vstd::std_specs::ops::AddSpecImpl<u64> for Weekday {
    open spec fn obeys_add_spec() -> bool {
        true
    }

    open spec fn add_req(self, rhs: u64) -> bool {
        true
    }

    open spec fn add_spec(self, rhs: u64) -> Self {
        Self::from_num(self.num() + rhs)
    }
}

impl core::ops::AddAssign<u64> for Weekday {
    /// Move `other` places later, wrapping around.
    fn add_assign(&mut self, other: u64)
        ensures
            *final(self) == Self::from_num(old(self).num() + other),
    {
        *self = *self + other;
    }
}

impl core::ops::Sub<u64> for Weekday {
    type Output = Self;

    /// The weekday `other` places earlier, wrapping around.
    fn sub(self, other: u64) -> (r: Self)
        ensures
            r == Self::from_num(self.num() - other),
    {
        let o = (other % 7) as u8;
        let k = self.number();
        let i = k - 1;
        let r = if o <= i { Self::from_index(i - o) } else { Self::from_index(i + 7 - o) };
        proof {
            Self::lemma_cycle_sub(k as int, other as int);
            if o <= i {
                Self::lemma_from_num_congruent(i - o + 1, self.num() - other);
            } else {
                Self::lemma_from_num_congruent(i + 7 - o + 1, self.num() - other);
            }
        }
        r
    }
}

impl vstd::std_specs::ops::SubSpecImpl<u64> for Weekday {
    open spec fn obeys_sub_spec() -> bool {
        true
    }

    open spec fn sub_req(self, rhs: u64) -> bool {
        true
    }

    open spec fn sub_spec(self, rhs: u64) -> Self {
        Self::from_num(self.num() - rhs)
    }
}

impl core::ops::SubAssign<u64> for Weekday {
    /// Move `other` places earlier, wrapping around.
    fn sub_assign(&mut self, other: u64)
        ensures
            *final(self) == Self::from_num(old(self).num() - other),
    {
        *self = *self - other;
    }
}

impl core::convert::From<usize> for Weekday {
    /// The weekday numbered `src`, counting around the cycle (so `0` is the
    /// last).
    fn from(src: usize) -> (r: Self)
        ensures
            r == Self::from_num(src as int),
    {
        Self::from_u8((src % 7) as u8)
    }
}

impl vstd::std_specs::convert::FromSpecImpl<usize> for Weekday {
    open spec fn obeys_from_spec() -> bool {
        true
    }

    open spec fn from_spec(v: usize) -> Self {
        Self::from_num(v as int)
    }
}

impl core::convert::From<Weekday> for usize {
    /// The number of the weekday.
    fn from(src: Weekday) -> (r: Self)
        ensures
            r == src.num(),
    {
        src.number() as usize
    }
}

impl vstd::std_specs::convert::FromSpecImpl<Weekday> for usize {
    open spec fn obeys_from_spec() -> bool {
        true
    }

    open spec fn from_spec(v: Weekday) -> Self {
        v.num() as usize
    }
}

impl core::ops::Add<usize> for Weekday {
    type Output = Self;

    /// The weekday `other` places later, wrapping around.
    fn add(self, other: usize) -> (r: Self)
        ensures
            r == Self::from_num(self.num() + other),
    {
        let o = (other % 7) as u8;
        let k = self.number();
        let r = Self::from_u8((k + o) % 7);
        proof {
            Self::lemma_cycle_add(k as int, other as int);
            vstd::arithmetic::div_mod::lemma_mod_twice(k + o, 7);
            Self::lemma_from_num_congruent(((k + o) % 7) as int, self.num() + other);
        }
        r
    }
}

impl vstd::std_specs::ops::AddSpecImpl<usize> for Weekday {
    open spec fn obeys_add_spec() -> bool {
        true
    }

    open spec fn add_req(self, rhs: usize) -> bool {
        true
    }

    open spec fn add_spec(self, rhs: usize) -> Self {
        Self::from_num(self.num() + rhs)
    }
}

impl core::ops::AddAssign<usize> for Weekday {
    /// Move `other` places later, wrapping around.
    fn add_assign(&mut self, other: usize)
        ensures
            *final(self) == Self::from_num(old(self).num() + other),
    {
        *self = *self + other;
    }
}

impl core::ops::Sub<usize> for Weekday {
    type Output = Self;

    /// The weekday `other` places earlier, wrapping around.
    fn sub(self, other: usize) -> (r: Self)
        ensures
            r == Self::from_num(self.num() - other),
    {
        let o = (other % 7) as u8;
        let k = self.number();
        let i = k - 1;
        let r = if o <= i { Self::from_index(i - o) } else { Self::from_index(i + 7 - o) };
        proof {
            Self::lemma_cycle_sub(k as int, other as int);
            if o <= i {
                Self::lemma_from_num_congruent(i - o + 1, self.num() - other);
            } else {
                Self::lemma_from_num_congruent(i + 7 - o + 1, self.num() - other);
            }
        }
        r
    }
}

impl vstd::std_specs::ops::SubSpecImpl<usize> for Weekday {
    open spec fn obeys_sub_spec() -> bool {
        true
    }

    open spec fn sub_req(self, rhs: usize) -> bool {
        true
    }

    open spec fn sub_spec(self, rhs: usize) -> Self {
        Self::from_num(self.num() - rhs)
    }
}

impl core::ops::SubAssign<usize> for Weekday {
    /// Move `other` places earlier, wrapping around.
    fn sub_assign(&mut self, other: usize)
        ensures
            *final(self) == Self::from_num(old(self).num() - other),
    {
        *self = *self - other;
    }
}

} // verus!
