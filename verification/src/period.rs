//! The periods of a 12-hour clock.

use vstd::prelude::*;
use crate::parse::{trim_bytes, trim_end, trim_start};

verus! {

/// The half of the day a 12-hour clock needs to tell its hours apart.
#[derive(Debug, Clone, Copy, PartialEq, Eq, Structural, Hash, PartialOrd, Ord)]
pub enum Period {
    /// Ante meridiem: the hours before noon.
    Am,
    /// Post meridiem: noon and the hours after.
    Pm,
}

impl Period {
    /// The lowercase name, `am` or `pm`.
    pub open spec fn lower(self) -> Seq<char> {
        match self {
            Period::Am => "am"@,
            Period::Pm => "pm"@,
        }
    }

    /// The uppercase name, `AM` or `PM`.
    pub open spec fn upper(self) -> Seq<char> {
        match self {
            Period::Am => "AM"@,
            Period::Pm => "PM"@,
        }
    }

    /// The AP-style name, `a.m.` or `p.m.`.
    pub open spec fn ap(self) -> Seq<char> {
        match self {
            Period::Am => "a.m."@,
            Period::Pm => "p.m."@,
        }
    }

    /// The period a trimmed byte string names: `am`, `a.m.`, `AM`, or `A.M.`
    /// for [`Period::Am`], and the like for [`Period::Pm`].
    pub open spec fn parse_spec(raw: Seq<u8>) -> Option<Self> {
        let t = trim_end(trim_start(raw));
        if t == seq![97u8, 109u8] || t == seq![97u8, 46u8, 109u8, 46u8]
            || t == seq![65u8, 77u8] || t == seq![65u8, 46u8, 77u8, 46u8] {
            Some(Period::Am)
        } else if t == seq![112u8, 109u8] || t == seq![112u8, 46u8, 109u8, 46u8]
            || t == seq![80u8, 77u8] || t == seq![80u8, 46u8, 77u8, 46u8] {
            Some(Period::Pm)
        } else {
            None
        }
    }

    /// The period as a string slice, in upper or lower case.
    pub fn as_str(self, upper: bool) -> (r: &'static str)
        ensures
            r@ == (if upper { self.upper() } else { self.lower() }),
    {
        match self {
            Period::Am => if upper { "AM" } else { "am" },
            Period::Pm => if upper { "PM" } else { "pm" },
        }
    }

    /// The period as a lowercase string slice.
    pub fn as_str_default(self) -> (r: &'static str)
        ensures
            r@ == self.lower(),
    {
        self.as_str(false)
    }

    /// The period as an AP-style string slice.
    pub fn as_str_ap(self) -> (r: &'static str)
        ensures
            r@ == self.ap(),
    {
        match self {
            Period::Am => "a.m.",
            Period::Pm => "p.m.",
        }
    }

    /// The period named by a byte string, ignoring surrounding whitespace;
    /// both the plain and the dotted forms match, in lower or upper case.
    pub fn from_bytes(raw: &[u8]) -> (r: Option<Self>)
        ensures
            r == Self::parse_spec(raw@),
    {
        let t = trim_bytes(raw);
        let ghost s = t@;
        if t.len() == 2 {
            if (t[0] == 97 && t[1] == 109) || (t[0] == 65 && t[1] == 77) {
                assert(s =~= seq![97u8, 109u8] || s =~= seq![65u8, 77u8]);
                return Some(Period::Am);
            }
            if (t[0] == 112 && t[1] == 109) || (t[0] == 80 && t[1] == 77) {
                assert(s =~= seq![112u8, 109u8] || s =~= seq![80u8, 77u8]);
                return Some(Period::Pm);
            }
        }
        else if t.len() == 4 && t[1] == 46 && t[3] == 46 {
            if (t[0] == 97 && t[2] == 109) || (t[0] == 65 && t[2] == 77) {
                assert(s =~= seq![97u8, 46u8, 109u8, 46u8] || s =~= seq![65u8, 46u8, 77u8, 46u8]);
                return Some(Period::Am);
            }
            if (t[0] == 112 && t[2] == 109) || (t[0] == 80 && t[2] == 77) {
                assert(s =~= seq![112u8, 46u8, 109u8, 46u8] || s =~= seq![80u8, 46u8, 77u8, 46u8]);
                return Some(Period::Pm);
            }
        }
        proof {
            if s.len() == 2 {
                assert(s != seq![97u8, 109u8] ==> s[0] != 97u8 || s[1] != 109u8);
            }
        }
        None
    }
}

} // verus!
