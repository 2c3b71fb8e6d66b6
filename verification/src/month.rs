//! Calendar months.

use vstd::prelude::*;
use crate::{Utc2k, Utc2kError};
use vstd::string::StringSliceAdditionalSpecFns;

verus! {

/// Calendar months, numbered from one.
#[derive(Debug, Clone, Copy, Default, PartialEq, Eq, Structural, Hash, PartialOrd, Ord)]
pub enum Month {
    /// January.
    #[default]
    January,
    /// February.
    February,
    /// March.
    March,
    /// April.
    April,
    /// May.
    May,
    /// June.
    June,
    /// July.
    July,
    /// August.
    August,
    /// September.
    September,
    /// October.
    October,
    /// November.
    November,
    /// December.
    December,
}

impl Month {
    /// The number of this month, `1..=12`.
    pub open spec fn num(self) -> int {
        match self {
            Month::January => 1,
            Month::February => 2,
            Month::March => 3,
            Month::April => 4,
            Month::May => 5,
            Month::June => 6,
            Month::July => 7,
            Month::August => 8,
            Month::September => 9,
            Month::October => 10,
            Month::November => 11,
            Month::December => 12,
        }
    }

    /// The month numbered `n`, counting around the cycle: `0` and `12` both
    /// give the last, `13` gives the first again, and so on.
    pub open spec fn from_num(n: int) -> Self {
        let i = n % 12;
        if i == 1 { Month::January }
        else if i == 2 { Month::February }
        else if i == 3 { Month::March }
        else if i == 4 { Month::April }
        else if i == 5 { Month::May }
        else if i == 6 { Month::June }
        else if i == 7 { Month::July }
        else if i == 8 { Month::August }
        else if i == 9 { Month::September }
        else if i == 10 { Month::October }
        else if i == 11 { Month::November }
        else { Month::December }
    }

    /// The name of this month.
    pub open spec fn name(self) -> Seq<char> {
        match self {
            Month::January => "January"@,
            Month::February => "February"@,
            Month::March => "March"@,
            Month::April => "April"@,
            Month::May => "May"@,
            Month::June => "June"@,
            Month::July => "July"@,
            Month::August => "August"@,
            Month::September => "September"@,
            Month::October => "October"@,
            Month::November => "November"@,
            Month::December => "December"@,
        }
    }

    /// The three-letter abbreviation of this month.
    pub open spec fn abbr(self) -> Seq<char> {
        match self {
            Month::January => "Jan"@,
            Month::February => "Feb"@,
            Month::March => "Mar"@,
            Month::April => "Apr"@,
            Month::May => "May"@,
            Month::June => "Jun"@,
            Month::July => "Jul"@,
            Month::August => "Aug"@,
            Month::September => "Sep"@,
            Month::October => "Oct"@,
            Month::November => "Nov"@,
            Month::December => "Dec"@,
        }
    }

    /// The lowercase bytes of the abbreviation of this month.
    pub open spec fn abbr_lower(self) -> (u8, u8, u8) {
        match self {
            Month::January => (106u8, 97u8, 110u8),
            Month::February => (102u8, 101u8, 98u8),
            Month::March => (109u8, 97u8, 114u8),
            Month::April => (97u8, 112u8, 114u8),
            Month::May => (109u8, 97u8, 121u8),
            Month::June => (106u8, 117u8, 110u8),
            Month::July => (106u8, 117u8, 108u8),
            Month::August => (97u8, 117u8, 103u8),
            Month::September => (115u8, 101u8, 112u8),
            Month::October => (111u8, 99u8, 116u8),
            Month::November => (110u8, 111u8, 118u8),
            Month::December => (100u8, 101u8, 99u8),
        }
    }

    /// Numbering around the cycle lands on the number modulo 12.
    pub proof fn lemma_from_num(n: int)
        ensures
            1 <= Self::from_num(n).num() <= 12,
            Self::from_num(n).num() % 12 == n % 12,
    {
    }

    /// Each month is numbered as itself.
    pub proof fn lemma_num_from_num(self)
        ensures
            Self::from_num(self.num()) == self,
            1 <= self.num() <= 12,
    {
    }

    /// Adding `a` and then taking `a` away again gives back the same month.
    pub proof fn lemma_add_sub(self, a: int)
        ensures
            Self::from_num(Self::from_num(self.num() + a).num() - a) == self,
            Self::from_num(Self::from_num(self.num() - a).num() + a) == self,
    {
        Self::lemma_from_num(self.num() + a);
        Self::lemma_from_num(self.num() - a);
        Self::lemma_from_num(Self::from_num(self.num() + a).num() - a);
        Self::lemma_from_num(Self::from_num(self.num() - a).num() + a);
        assert((Self::from_num(self.num() + a).num() - a) % 12 == self.num() % 12) by {
            vstd::arithmetic::div_mod::lemma_mod_sub_multiples_vanish(self.num() + a, 12);
            vstd::arithmetic::div_mod::lemma_sub_mod_noop(Self::from_num(self.num() + a).num(), a, 12);
            vstd::arithmetic::div_mod::lemma_sub_mod_noop(self.num() + a, a, 12);
        }
        assert((Self::from_num(self.num() - a).num() + a) % 12 == self.num() % 12) by {
            vstd::arithmetic::div_mod::lemma_add_mod_noop(Self::from_num(self.num() - a).num(), a, 12);
            vstd::arithmetic::div_mod::lemma_add_mod_noop(self.num() - a, a, 12);
        }
    }

    /// The number of this month, `1..=12`.
    pub fn number(self) -> (r: u8)
        ensures
            r == self.num(),
            1 <= r <= 12,
    {
        match self {
            Month::January => 1,
            Month::February => 2,
            Month::March => 3,
            Month::April => 4,
            Month::May => 5,
            Month::June => 6,
            Month::July => 7,
            Month::August => 8,
            Month::September => 9,
            Month::October => 10,
            Month::November => 11,
            Month::December => 12,
        }
    }

    /// The month numbered `src`, counting around the cycle (so `0` is the
    /// last).
    pub(crate) fn from_u8(src: u8) -> (r: Self)
        ensures
            r == Self::from_num(src as int),
    {
        match src % 12 {
            1 => Month::January,
            2 => Month::February,
            3 => Month::March,
            4 => Month::April,
            5 => Month::May,
            6 => Month::June,
            7 => Month::July,
            8 => Month::August,
            9 => Month::September,
            10 => Month::October,
            11 => Month::November,
            _ => Month::December,
        }
    }

    /// The month at position `i` (`0..12`) of the cycle, counted from zero.
    fn from_index(i: u8) -> (r: Self)
        requires
            i < 12,
        ensures
            r == Self::from_num(i + 1),
    {
        Self::from_u8(i + 1)
    }

    /// The name of this month, e.g. `"January"`.
    pub fn as_str(self) -> (r: &'static str)
        ensures
            r@ == self.name(),
    {
        match self {
            Month::January => "January",
            Month::February => "February",
            Month::March => "March",
            Month::April => "April",
            Month::May => "May",
            Month::June => "June",
            Month::July => "July",
            Month::August => "August",
            Month::September => "September",
            Month::October => "October",
            Month::November => "November",
            Month::December => "December",
        }
    }

    /// The three-letter abbreviation of this month, e.g. `"Jan"`.
    pub fn abbreviation(self) -> (r: &'static str)
        ensures
            r@ == self.abbr(),
    {
        match self {
            Month::January => "Jan",
            Month::February => "Feb",
            Month::March => "Mar",
            Month::April => "Apr",
            Month::May => "May",
            Month::June => "Jun",
            Month::July => "Jul",
            Month::August => "Aug",
            Month::September => "Sep",
            Month::October => "Oct",
            Month::November => "Nov",
            Month::December => "Dec",
        }
    }

    /// All twelve months, in order.
    pub const ALL: [Month; 12] = [
        Month::January, Month::February, Month::March, Month::April, Month::May, Month::June,
        Month::July, Month::August, Month::September, Month::October, Month::November, Month::December,
    ];

    /// The next month, wrapping around.
    pub fn next(self) -> (r: Self)
        ensures
            r == Self::from_num(self.num() + 1),
    {
        match self {
            Month::January => Month::February,
            Month::February => Month::March,
            Month::March => Month::April,
            Month::April => Month::May,
            Month::May => Month::June,
            Month::June => Month::July,
            Month::July => Month::August,
            Month::August => Month::September,
            Month::September => Month::October,
            Month::October => Month::November,
            Month::November => Month::December,
            Month::December => Month::January,
        }
    }

    /// The previous month, wrapping around.
    pub fn previous(self) -> (r: Self)
        ensures
            r == Self::from_num(self.num() - 1),
    {
        match self {
            Month::January => Month::December,
            Month::February => Month::January,
            Month::March => Month::February,
            Month::April => Month::March,
            Month::May => Month::April,
            Month::June => Month::May,
            Month::July => Month::June,
            Month::August => Month::July,
            Month::September => Month::August,
            Month::October => Month::September,
            Month::November => Month::October,
            Month::December => Month::November,
        }
    }

    /// Compare two months by their numbers.
    pub fn cmp(a: Self, b: Self) -> (r: core::cmp::Ordering)
        ensures
            r == core::cmp::Ordering::Less <==> a.num() < b.num(),
            r == core::cmp::Ordering::Equal <==> a.num() == b.num(),
            r == core::cmp::Ordering::Greater <==> a.num() > b.num(),
    {
        let a = a.number();
        let b = b.number();
        if a == b { core::cmp::Ordering::Equal }
        else if a < b { core::cmp::Ordering::Less }
        else { core::cmp::Ordering::Greater }
    }

    /// Match three bytes, case-insensitively, against the month
    /// abbreviations.
    pub(crate) fn from_abbreviation(a: u8, b: u8, c: u8) -> (r: Option<Self>)
        ensures
            r matches Some(x) ==> x.abbr_lower() == (a | 32u8, b | 32u8, c | 32u8),
            r is None ==> forall|x: Self| x.abbr_lower() != (a | 32u8, b | 32u8, c | 32u8),
    {
        let a = a | 32;
        let b = b | 32;
        let c = c | 32;
        if a == 106 && b == 97 && c == 110 { Some(Month::January) }
        else if a == 102 && b == 101 && c == 98 { Some(Month::February) }
        else if a == 109 && b == 97 && c == 114 { Some(Month::March) }
        else if a == 97 && b == 112 && c == 114 { Some(Month::April) }
        else if a == 109 && b == 97 && c == 121 { Some(Month::May) }
        else if a == 106 && b == 117 && c == 110 { Some(Month::June) }
        else if a == 106 && b == 117 && c == 108 { Some(Month::July) }
        else if a == 97 && b == 117 && c == 103 { Some(Month::August) }
        else if a == 115 && b == 101 && c == 112 { Some(Month::September) }
        else if a == 111 && b == 99 && c == 116 { Some(Month::October) }
        else if a == 110 && b == 111 && c == 118 { Some(Month::November) }
        else if a == 100 && b == 101 && c == 99 { Some(Month::December) }
        else { None }
    }

    /// The current month.
    pub fn now() -> (r: Self) {
        Utc2k::now().month_enum()
    }

    /// The number of days in this month, not counting leap days: February
    /// gives `28`.
    pub fn days(self) -> (r: u8)
        ensures
            r == crate::calendar::month_len(2001, self.num()),
    {
        match self {
            Month::January | Month::March | Month::May | Month::July | Month::August | Month::October
                | Month::December => 31,
            Month::April | Month::June | Month::September | Month::November => 30,
            Month::February => 28,
        }
    }

    /// The number of days before this month in a non-leap year.
    pub(crate) fn ordinal(self) -> (r: u16)
        ensures
            r == crate::calendar::naive_days_before_month(self.num()),
    {
        match self {
            Month::January => 0,
            Month::February => 31,
            Month::March => 59,
            Month::April => 90,
            Month::May => 120,
            Month::June => 151,
            Month::July => 181,
            Month::August => 212,
            Month::September => 243,
            Month::October => 273,
            Month::November => 304,
            Month::December => 334,
        }
    }

    /// The number of seconds before this month in a non-leap year.
    pub(crate) fn ordinal_seconds(self) -> (r: u32)
        ensures
            r == crate::calendar::naive_days_before_month(self.num()) * 86400,
    {
        self.ordinal() as u32 * crate::DAY_IN_SECONDS
    }

    /// The month named by the first three bytes of `src`, compared
    /// case-insensitively with the abbreviations.
    pub fn from_bytes(src: &[u8]) -> (r: Result<Self, Utc2kError>)
        ensures
            r matches Ok(x) ==> src@.len() > 2 && x.abbr_lower() == (src@[0] | 32u8, src@[1] | 32u8, src@[2] | 32u8),
            r is Err ==> r == Err::<Self, Utc2kError>(Utc2kError::Invalid),
            r is Err ==> src@.len() <= 2 || forall|x: Self| x.abbr_lower() != (src@[0] | 32u8, src@[1] | 32u8, src@[2] | 32u8),
    {
        if 2 < src.len() {
            match Self::from_abbreviation(src[0], src[1], src[2]) {
                Some(x) => Ok(x),
                None => Err(Utc2kError::Invalid),
            }
        }
        else { Err(Utc2kError::Invalid) }
    }

    /// What parsing the bytes `s` gives: the month whose abbreviation the
    /// first three bytes spell, case-insensitively.
    pub open spec fn parse_spec(s: Seq<u8>) -> Result<Self, Utc2kError> {
        if s.len() > 2 && exists|x: Self| x.abbr_lower() == (s[0] | 32u8, s[1] | 32u8, s[2] | 32u8) {
            Ok(choose|x: Self| x.abbr_lower() == (s[0] | 32u8, s[1] | 32u8, s[2] | 32u8))
        } else {
            Err(Utc2kError::Invalid)
        }
    }

    /// Parse the first three bytes, case-insensitively.
    pub fn parse_bytes(src: &[u8]) -> (r: Result<Self, Utc2kError>)
        ensures
            r == Self::parse_spec(src@),
    {
        let r = Self::from_bytes(src);
        proof {
            if let Ok(x) = r {
                let s = src@;
                let y = choose|y: Self| y.abbr_lower() == (s[0] | 32u8, s[1] | 32u8, s[2] | 32u8);
                Self::lemma_abbr_lower_injective(x, y);
            }
        }
        r
    }

    /// Different months have different abbreviations.
    pub proof fn lemma_abbr_lower_injective(a: Self, b: Self)
        requires
            a.abbr_lower() == b.abbr_lower(),
        ensures
            a == b,
    {
    }

    /// Wrapping addition of numbers in the cycle.
    proof fn lemma_cycle_add(k: int, o: int)
        requires
            1 <= k <= 12,
            0 <= o,
        ensures
            (k + o % 12) % 12 == (k + o) % 12,
    {
        vstd::arithmetic::div_mod::lemma_add_mod_noop(k, o, 12);
        vstd::arithmetic::div_mod::lemma_mod_twice(o, 12);
        vstd::arithmetic::div_mod::lemma_add_mod_noop(k, o % 12, 12);
    }

    /// Wrapping subtraction of numbers in the cycle.
    proof fn lemma_cycle_sub(k: int, o: int)
        requires
            1 <= k <= 12,
            0 <= o,
        ensures
            (k - o % 12 + 12) % 12 == (k - o) % 12,
            (k - o % 12) % 12 == (k - o) % 12,
    {
        vstd::arithmetic::div_mod::lemma_sub_mod_noop(k, o, 12);
        vstd::arithmetic::div_mod::lemma_mod_twice(o, 12);
        vstd::arithmetic::div_mod::lemma_sub_mod_noop(k, o % 12, 12);
        vstd::arithmetic::div_mod::lemma_mod_add_multiples_vanish(k - o % 12, 12);
    }

    /// One step around the cycle from the value named by `n` lands on the
    /// value named by `n + 1`, and likewise back.
    proof fn lemma_step(n: int)
        ensures
            Self::from_num(Self::from_num(n).num() + 1) == Self::from_num(n + 1),
            Self::from_num(Self::from_num(n).num() - 1) == Self::from_num(n - 1),
    {
        Self::lemma_from_num(n);
        let k = Self::from_num(n).num();
        vstd::arithmetic::div_mod::lemma_add_mod_noop(k, 1, 12);
        vstd::arithmetic::div_mod::lemma_add_mod_noop(n, 1, 12);
        vstd::arithmetic::div_mod::lemma_sub_mod_noop(k, 1, 12);
        vstd::arithmetic::div_mod::lemma_sub_mod_noop(n, 1, 12);
        Self::lemma_from_num_congruent(k + 1, n + 1);
        Self::lemma_from_num_congruent(k - 1, n - 1);
    }

    /// The first `n` values of the endless cycle that starts here and moves
    /// forward.
    pub fn cycle(self, n: usize) -> (r: Vec<Self>)
        ensures
            r@.len() == n,
            forall|i: int| 0 <= i < n ==> #[trigger] r@[i] == Self::from_num(self.num() + i),
    {
        let mut out: Vec<Self> = Vec::new();
        let mut cur = self;
        proof { self.lemma_num_from_num(); }
        let mut i: usize = 0;
        while i < n
            invariant
                i <= n,
                out@.len() == i,
                cur == Self::from_num(self.num() + i),
                forall|j: int| 0 <= j < i ==> #[trigger] out@[j] == Self::from_num(self.num() + j),
            decreases n - i,
        {
            out.push(cur);
            proof { Self::lemma_step(self.num() + i); }
            cur = cur.next();
            i = i + 1;
        }
        out
    }

    /// The first `n` values of the endless cycle that starts here and moves
    /// backward.
    pub fn cycle_rev(self, n: usize) -> (r: Vec<Self>)
        ensures
            r@.len() == n,
            forall|i: int| 0 <= i < n ==> #[trigger] r@[i] == Self::from_num(self.num() - i),
    {
        let mut out: Vec<Self> = Vec::new();
        let mut cur = self;
        proof { self.lemma_num_from_num(); }
        let mut i: usize = 0;
        while i < n
            invariant
                i <= n,
                out@.len() == i,
                cur == Self::from_num(self.num() - i),
                forall|j: int| 0 <= j < i ==> #[trigger] out@[j] == Self::from_num(self.num() - j),
            decreases n - i,
        {
            out.push(cur);
            proof { Self::lemma_step(self.num() - i); }
            cur = cur.previous();
            i = i + 1;
        }
        out
    }

    /// Numbers congruent modulo the cycle length name the same value.
    proof fn lemma_from_num_congruent(a: int, b: int)
        requires
            a % 12 == b % 12,
        ensures
            Self::from_num(a) == Self::from_num(b),
    {
    }

    /// The month of a moment.
    pub open spec fn of_moment(u: Utc2k) -> Self {
        Self::from_num(u.month_spec())
    }
}

impl core::convert::TryFrom<&[u8]> for Month {
    type Error = Utc2kError;

    /// Parse from the first three bytes, case-insensitively.
    fn try_from(src: &[u8]) -> (r: Result<Self, Utc2kError>)
        ensures
            r == Self::parse_spec(src@),
    {
        Self::parse_bytes(src)
    }
}

impl vstd::std_specs::convert::TryFromSpecImpl<&[u8]> for Month {
    open spec fn obeys_try_from_spec() -> bool {
        true
    }

    open spec fn try_from_spec(v: &[u8]) -> Result<Self, Utc2kError> {
        Self::parse_spec(v@)
    }
}

impl core::convert::TryFrom<&str> for Month {
    type Error = Utc2kError;

    /// Parse from the first three bytes, case-insensitively.
    fn try_from(src: &str) -> (r: Result<Self, Utc2kError>)
        ensures
            r == Self::parse_spec(src.spec_bytes()),
    {
        Self::parse_bytes(src.as_bytes())
    }
}

impl vstd::std_specs::convert::TryFromSpecImpl<&str> for Month {
    open spec fn obeys_try_from_spec() -> bool {
        true
    }

    open spec fn try_from_spec(v: &str) -> Result<Self, Utc2kError> {
        Self::parse_spec(v.spec_bytes())
    }
}

impl core::convert::TryFrom<String> for Month {
    type Error = Utc2kError;

    /// Parse from the first three bytes, case-insensitively.
    fn try_from(src: String) -> (r: Result<Self, Utc2kError>)
        ensures
            r == Self::parse_spec(vstd::utf8::encode_utf8(src@)),
    {
        Self::parse_bytes(src.as_str().as_bytes())
    }
}

impl vstd::std_specs::convert::TryFromSpecImpl<String> for Month {
    open spec fn obeys_try_from_spec() -> bool {
        true
    }

    open spec fn try_from_spec(v: String) -> Result<Self, Utc2kError> {
        Self::parse_spec(vstd::utf8::encode_utf8(v@))
    }
}

impl vstd::std_specs::convert::TryFromSpecImpl<&String> for Month {
    open spec fn obeys_try_from_spec() -> bool {
        true
    }

    open spec fn try_from_spec(v: &String) -> Result<Self, Utc2kError> {
        Self::parse_spec(vstd::utf8::encode_utf8(v@))
    }
}

impl core::convert::TryFrom<&String> for Month {
    type Error = Utc2kError;

    /// Parse from the first three bytes, case-insensitively.
    fn try_from(src: &String) -> (r: Result<Self, Utc2kError>)
        ensures
            r == Self::parse_spec(vstd::utf8::encode_utf8(src@)),
    {
        Self::parse_bytes(src.as_str().as_bytes())
    }
}

impl core::str::FromStr for Month {
    type Err = Utc2kError;

    /// Parse from the first three bytes, case-insensitively.
    fn from_str(src: &str) -> (r: Result<Self, Utc2kError>)
        ensures
            r == Self::parse_spec(src.spec_bytes()),
    {
        Self::parse_bytes(src.as_bytes())
    }
}

impl core::convert::From<Utc2k> for Month {
    /// The month of a moment.
    fn from(src: Utc2k) -> (r: Self)
        ensures
            r == Self::of_moment(src),
    {
        src.month_enum()
    }
}

impl vstd::std_specs::convert::FromSpecImpl<Utc2k> for Month {
    open spec fn obeys_from_spec() -> bool {
        true
    }

    open spec fn from_spec(v: Utc2k) -> Self {
        Self::of_moment(v)
    }
}

impl core::convert::From<u8> for Month {
    /// The month numbered `src`, counting around the cycle (so `0` is the
    /// last).
    fn from(src: u8) -> (r: Self)
        ensures
            r == Self::from_num(src as int),
    {
        Self::from_u8((src % 12) as u8)
    }
}

impl vstd::std_specs::convert::FromSpecImpl<u8> for Month {
    open spec fn obeys_from_spec() -> bool {
        true
    }

    open spec fn from_spec(v: u8) -> Self {
        Self::from_num(v as int)
    }
}

impl core::convert::From<Month> for u8 {
    /// The number of the month.
    fn from(src: Month) -> (r: Self)
        ensures
            r == src.num(),
    {
        src.number() as u8
    }
}

impl vstd::std_specs::convert::FromSpecImpl<Month> for u8 {
    open spec fn obeys_from_spec() -> bool {
        true
    }

    open spec fn from_spec(v: Month) -> Self {
        v.num() as u8
    }
}

impl core::ops::Add<u8> for Month {
    type Output = Self;

    /// The month `other` places later, wrapping around.
    fn add(self, other: u8) -> (r: Self)
        ensures
            r == Self::from_num(self.num() + other),
    {
        let o = (other % 12) as u8;
        let k = self.number();
        let r = Self::from_u8((k + o) % 12);
        proof {
            Self::lemma_cycle_add(k as int, other as int);
            vstd::arithmetic::div_mod::lemma_mod_twice(k + o, 12);
            Self::lemma_from_num_congruent(((k + o) % 12) as int, self.num() + other);
        }
        r
    }
}

impl vstd::std_specs::ops::AddSpecImpl<u8> for Month {
    open spec fn obeys_add_spec() -> bool {
        true
    }

    open spec fn add_req(self, rhs: u8) -> bool {
        true
    }

    open spec fn add_spec(self, rhs: u8) -> Self {
        Self::from_num(self.num() + rhs)
    }
}

impl core::ops::AddAssign<u8> for Month {
    /// Move `other` places later, wrapping around.
    fn add_assign(&mut self, other: u8)
        ensures
            *final(self) == Self::from_num(old(self).num() + other),
    {
        *self = *self + other;
    }
}

impl core::ops::Sub<u8> for Month {
    type Output = Self;

    /// The month `other` places earlier, wrapping around.
    fn sub(self, other: u8) -> (r: Self)
        ensures
            r == Self::from_num(self.num() - other),
    {
        let o = (other % 12) as u8;
        let k = self.number();
        let i = k - 1;
        let r = if o <= i { Self::from_index(i - o) } else { Self::from_index(i + 12 - o) };
        proof {
            Self::lemma_cycle_sub(k as int, other as int);
            if o <= i {
                Self::lemma_from_num_congruent(i - o + 1, self.num() - other);
            } else {
                Self::lemma_from_num_congruent(i + 12 - o + 1, self.num() - other);
            }
        }
        r
    }
}

impl vstd::std_specs::ops::SubSpecImpl<u8> for Month {
    open spec fn obeys_sub_spec() -> bool {
        true
    }

    open spec fn sub_req(self, rhs: u8) -> bool {
        true
    }

    open spec fn sub_spec(self, rhs: u8) -> Self {
        Self::from_num(self.num() - rhs)
    }
}

impl core::ops::SubAssign<u8> for Month {
    /// Move `other` places earlier, wrapping around.
    fn sub_assign(&mut self, other: u8)
        ensures
            *final(self) == Self::from_num(old(self).num() - other),
    {
        *self = *self - other;
    }
}

impl core::convert::From<u16> for Month {
    /// The month numbered `src`, counting around the cycle (so `0` is the
    /// last).
    fn from(src: u16) -> (r: Self)
        ensures
            r == Self::from_num(src as int),
    {
        Self::from_u8((src % 12) as u8)
    }
}

impl vstd::std_specs::convert::FromSpecImpl<u16> for Month {
    open spec fn obeys_from_spec() -> bool {
        true
    }

    open spec fn from_spec(v: u16) -> Self {
        Self::from_num(v as int)
    }
}

impl core::convert::From<Month> for u16 {
    /// The number of the month.
    fn from(src: Month) -> (r: Self)
        ensures
            r == src.num(),
    {
        src.number() as u16
    }
}

impl vstd::std_specs::convert::FromSpecImpl<Month> for u16 {
    open spec fn obeys_from_spec() -> bool {
        true
    }

    open spec fn from_spec(v: Month) -> Self {
        v.num() as u16
    }
}

impl core::ops::Add<u16> for Month {
    type Output = Self;

    /// The month `other` places later, wrapping around.
    fn add(self, other: u16) -> (r: Self)
        ensures
            r == Self::from_num(self.num() + other),
    {
        let o = (other % 12) as u8;
        let k = self.number();
        let r = Self::from_u8((k + o) % 12);
        proof {
            Self::lemma_cycle_add(k as int, other as int);
            vstd::arithmetic::div_mod::lemma_mod_twice(k + o, 12);
            Self::lemma_from_num_congruent(((k + o) % 12) as int, self.num() + other);
        }
        r
    }
}

impl vstd::std_specs::ops::AddSpecImpl<u16> for Month {
    open spec fn obeys_add_spec() -> bool {
        true
    }

    open spec fn add_req(self, rhs: u16) -> bool {
        true
    }

    open spec fn add_spec(self, rhs: u16) -> Self {
        Self::from_num(self.num() + rhs)
    }
}

impl core::ops::AddAssign<u16> for Month {
    /// Move `other` places later, wrapping around.
    fn add_assign(&mut self, other: u16)
        ensures
            *final(self) == Self::from_num(old(self).num() + other),
    {
        *self = *self + other;
    }
}

impl core::ops::Sub<u16> for Month {
    type Output = Self;

    /// The month `other` places earlier, wrapping around.
    fn sub(self, other: u16) -> (r: Self)
        ensures
            r == Self::from_num(self.num() - other),
    {
        let o = (other % 12) as u8;
        let k = self.number();
        let i = k - 1;
        let r = if o <= i { Self::from_index(i - o) } else { Self::from_index(i + 12 - o) };
        proof {
            Self::lemma_cycle_sub(k as int, other as int);
            if o <= i {
                Self::lemma_from_num_congruent(i - o + 1, self.num() - other);
            } else {
                Self::lemma_from_num_congruent(i + 12 - o + 1, self.num() - other);
            }
        }
        r
    }
}

impl vstd::std_specs::ops::SubSpecImpl<u16> for Month {
    open spec fn obeys_sub_spec() -> bool {
        true
    }

    open spec fn sub_req(self, rhs: u16) -> bool {
        true
    }

    open spec fn sub_spec(self, rhs: u16) -> Self {
        Self::from_num(self.num() - rhs)
    }
}

impl core::ops::SubAssign<u16> for Month {
    /// Move `other` places earlier, wrapping around.
    fn sub_assign(&mut self, other: u16)
        ensures
            *final(self) == Self::from_num(old(self).num() - other),
    {
        *self = *self - other;
    }
}

impl core::convert::From<u32> for Month {
    /// The month numbered `src`, counting around the cycle (so `0` is the
    /// last).
    fn from(src: u32) -> (r: Self)
        ensures
            r == Self::from_num(src as int),
    {
        Self::from_u8((src % 12) as u8)
    }
}

impl vstd::std_specs::convert::FromSpecImpl<u32> for Month {
    open spec fn obeys_from_spec() -> bool {
        true
    }

    open spec fn from_spec(v: u32) -> Self {
        Self::from_num(v as int)
    }
}

impl core::convert::From<Month> for u32 {
    /// The number of the month.
    fn from(src: Month) -> (r: Self)
        ensures
            r == src.num(),
    {
        src.number() as u32
    }
}

impl vstd::std_specs::convert::FromSpecImpl<Month> for u32 {
    open spec fn obeys_from_spec() -> bool {
        true
    }

    open spec fn from_spec(v: Month) -> Self {
        v.num() as u32
    }
}

impl core::ops::Add<u32> for Month {
    type Output = Self;

    /// The month `other` places later, wrapping around.
    fn add(self, other: u32) -> (r: Self)
        ensures
            r == Self::from_num(self.num() + other),
    {
        let o = (other % 12) as u8;
        let k = self.number();
        let r = Self::from_u8((k + o) % 12);
        proof {
            Self::lemma_cycle_add(k as int, other as int);
            vstd::arithmetic::div_mod::lemma_mod_twice(k + o, 12);
            Self::lemma_from_num_congruent(((k + o) % 12) as int, self.num() + other);
        }
        r
    }
}

impl vstd::std_specs::ops::AddSpecImpl<u32> for Month {
    open spec fn obeys_add_spec() -> bool {
        true
    }

    open spec fn add_req(self, rhs: u32) -> bool {
        true
    }

    open spec fn add_spec(self, rhs: u32) -> Self {
        Self::from_num(self.num() + rhs)
    }
}

impl core::ops::AddAssign<u32> for Month {
    /// Move `other` places later, wrapping around.
    fn add_assign(&mut self, other: u32)
        ensures
            *final(self) == Self::from_num(old(self).num() + other),
    {
        *self = *self + other;
    }
}

impl core::ops::Sub<u32> for Month {
    type Output = Self;

    /// The month `other` places earlier, wrapping around.
    fn sub(self, other: u32) -> (r: Self)
        ensures
            r == Self::from_num(self.num() - other),
    {
        let o = (other % 12) as u8;
        let k = self.number();
        let i = k - 1;
        let r = if o <= i { Self::from_index(i - o) } else { Self::from_index(i + 12 - o) };
        proof {
            Self::lemma_cycle_sub(k as int, other as int);
            if o <= i {
                Self::lemma_from_num_congruent(i - o + 1, self.num() - other);
            } else {
                Self::lemma_from_num_congruent(i + 12 - o + 1, self.num() - other);
            }
        }
        r
    }
}

impl vstd::std_specs::ops::SubSpecImpl<u32> for Month {
    open spec fn obeys_sub_spec() -> bool {
        true
    }

    open spec fn sub_req(self, rhs: u32) -> bool {
        true
    }

    open spec fn sub_spec(self, rhs: u32) -> Self {
        Self::from_num(self.num() - rhs)
    }
}

impl core::ops::SubAssign<u32> for Month {
    /// Move `other` places earlier, wrapping around.
    fn sub_assign(&mut self, other: u32)
        ensures
            *final(self) == Self::from_num(old(self).num() - other),
    {
        *self = *self - other;
    }
}

impl core::convert::From<u64> for Month {
    /// The month numbered `src`, counting around the cycle (so `0` is the
    /// last).
    fn from(src: u64) -> (r: Self)
        ensures
            r == Self::from_num(src as int),
    {
        Self::from_u8((src % 12) as u8)
    }
}

impl vstd::std_specs::convert::FromSpecImpl<u64> for Month {
    open spec fn obeys_from_spec() -> bool {
        true
    }

    open spec fn from_spec(v: u64) -> Self {
        Self::from_num(v as int)
    }
}

impl core::convert::From<Month> for u64 {
    /// The number of the month.
    fn from(src: Month) -> (r: Self)
        ensures
            r == src.num(),
    {
        src.number() as u64
    }
}

impl vstd::std_specs::convert::FromSpecImpl<Month> for u64 {
    open spec fn obeys_from_spec() -> bool {
        true
    }

    open spec fn from_spec(v: Month) -> Self {
        v.num() as u64
    }
}

impl core::ops::Add<u64> for Month {
    type Output = Self;

    /// The month `other` places later, wrapping around.
    fn add(self, other: u64) -> (r: Self)
        ensures
            r == Self::from_num(self.num() + other),
    {
        let o = (other % 12) as u8;
        let k = self.number();
        let r = Self::from_u8((k + o) % 12);
        proof {
            Self::lemma_cycle_add(k as int, other as int);
            vstd::arithmetic::div_mod::lemma_mod_twice(k + o, 12);
            Self::lemma_from_num_congruent(((k + o) % 12) as int, self.num() + other);
        }
        r
    }
}

impl vstd::std_specs::ops::AddSpecImpl<u64> for Month {
    open spec fn obeys_add_spec() -> bool {
        true
    }

    open spec fn add_req(self, rhs: u64) -> bool {
        true
    }

    open spec fn add_spec(self, rhs: u64) -> Self {
        Self::from_num(self.num() + rhs)
    }
}

impl core::ops::AddAssign<u64> for Month {
    /// Move `other` places later, wrapping around.
    fn add_assign(&mut self, other: u64)
        ensures
            *final(self) == Self::from_num(old(self).num() + other),
    {
        *self = *self + other;
    }
}

impl core::ops::Sub<u64> for Month {
    type Output = Self;

    /// The month `other` places earlier, wrapping around.
    fn sub(self, other: u64) -> (r: Self)
        ensures
            r == Self::from_num(self.num() - other),
    {
        let o = (other % 12) as u8;
        let k = self.number();
        let i = k - 1;
        let r = if o <= i { Self::from_index(i - o) } else { Self::from_index(i + 12 - o) };
        proof {
            Self::lemma_cycle_sub(k as int, other as int);
            if o <= i {
                Self::lemma_from_num_congruent(i - o + 1, self.num() - other);
            } else {
                Self::lemma_from_num_congruent(i + 12 - o + 1, self.num() - other);
            }
        }
        r
    }
}

impl vstd::std_specs::ops::SubSpecImpl<u64> for Month {
    open spec fn obeys_sub_spec() -> bool {
        true
    }

    open spec fn sub_req(self, rhs: u64) -> bool {
        true
    }

    open spec fn sub_spec(self, rhs: u64) -> Self {
        Self::from_num(self.num() - rhs)
    }
}

impl core::ops::SubAssign<u64> for Month {
    /// Move `other` places earlier, wrapping around.
    fn sub_assign(&mut self, other: u64)
        ensures
            *final(self) == Self::from_num(old(self).num() - other),
    {
        *self = *self - other;
    }
}

impl core::convert::From<usize> for Month {
    /// The month numbered `src`, counting around the cycle (so `0` is the
    /// last).
    fn from(src: usize) -> (r: Self)
        ensures
            r == Self::from_num(src as int),
    {
        Self::from_u8((src % 12) as u8)
    }
}

impl vstd::std_specs::convert::FromSpecImpl<usize> for Month {
    open spec fn obeys_from_spec() -> bool {
        true
    }

    open spec fn from_spec(v: usize) -> Self {
        Self::from_num(v as int)
    }
}

impl core::convert::From<Month> for usize {
    /// The number of the month.
    fn from(src: Month) -> (r: Self)
        ensures
            r == src.num(),
    {
        src.number() as usize
    }
}

impl vstd::std_specs::convert::FromSpecImpl<Month> for usize {
    open spec fn obeys_from_spec() -> bool {
        true
    }

    open spec fn from_spec(v: Month) -> Self {
        v.num() as usize
    }
}

impl core::ops::Add<usize> for Month {
    type Output = Self;

    /// The month `other` places later, wrapping around.
    fn add(self, other: usize) -> (r: Self)
        ensures
            r == Self::from_num(self.num() + other),
    {
        let o = (other % 12) as u8;
        let k = self.number();
        let r = Self::from_u8((k + o) % 12);
        proof {
            Self::lemma_cycle_add(k as int, other as int);
            vstd::arithmetic::div_mod::lemma_mod_twice(k + o, 12);
            Self::lemma_from_num_congruent(((k + o) % 12) as int, self.num() + other);
        }
        r
    }
}

impl vstd::std_specs::ops::AddSpecImpl<usize> for Month {
    open spec fn obeys_add_spec() -> bool {
        true
    }

    open spec fn add_req(self, rhs: usize) -> bool {
        true
    }

    open spec fn add_spec(self, rhs: usize) -> Self {
        Self::from_num(self.num() + rhs)
    }
}

impl core::ops::AddAssign<usize> for Month {
    /// Move `other` places later, wrapping around.
    fn add_assign(&mut self, other: usize)
        ensures
            *final(self) == Self::from_num(old(self).num() + other),
    {
        *self = *self + other;
    }
}

impl core::ops::Sub<usize> for Month {
    type Output = Self;

    /// The month `other` places earlier, wrapping around.
    fn sub(self, other: usize) -> (r: Self)
        ensures
            r == Self::from_num(self.num() - other),
    {
        let o = (other % 12) as u8;
        let k = self.number();
        let i = k - 1;
        let r = if o <= i { Self::from_index(i - o) } else { Self::from_index(i + 12 - o) };
        proof {
            Self::lemma_cycle_sub(k as int, other as int);
            if o <= i {
                Self::lemma_from_num_congruent(i - o + 1, self.num() - other);
            } else {
                Self::lemma_from_num_congruent(i + 12 - o + 1, self.num() - other);
            }
        }
        r
    }
}

impl vstd::std_specs::ops::SubSpecImpl<usize> for Month {
    open spec fn obeys_sub_spec() -> bool {
        true
    }

    open spec fn sub_req(self, rhs: usize) -> bool {
        true
    }

    open spec fn sub_spec(self, rhs: usize) -> Self {
        Self::from_num(self.num() - rhs)
    }
}

impl core::ops::SubAssign<usize> for Month {
    /// Move `other` places earlier, wrapping around.
    fn sub_assign(&mut self, other: usize)
        ensures
            *final(self) == Self::from_num(old(self).num() - other),
    {
        *self = *self - other;
    }
}

} // verus!
