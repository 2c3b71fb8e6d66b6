//! Reading dates and datetimes whose digits sit at fixed positions:
//! `YYYY-MM-DD` and `YYYY-MM-DD hh:mm:ss`, with any separators.

use vstd::prelude::*;
use vstd::string::StringSliceAdditionalSpecFns;
use crate::calendar::moment_secs;
use crate::parse::{digits_in, four_digits, is_digit, parse2, two_digits};
use crate::{Abacus, Utc2k, Utc2kError};

verus! {

/// The seconds, from the start of the century, of the date in the first ten
/// bytes of `s` at midnight, if its digits are where `YYYY-MM-DD` has them.
/// The parts need not be balanced.
pub open spec fn fixed_date_spec(s: Seq<u8>) -> Option<int> {
    if s.len() >= 10 && digits_in(s, 0, 4) && is_digit(s[5]) && is_digit(s[6]) && is_digit(s[8]) && is_digit(s[9]) {
        Some(moment_secs(four_digits(s[0], s[1], s[2], s[3]), two_digits(s[5], s[6]), two_digits(s[8], s[9]), 0, 0, 0))
    } else {
        None
    }
}

/// The seconds, from the start of the century, of the datetime in the first
/// nineteen bytes of `s`, if its digits are where `YYYY-MM-DD hh:mm:ss` has
/// them. The parts need not be balanced.
pub open spec fn fixed_datetime_spec(s: Seq<u8>) -> Option<int> {
    if s.len() >= 19 && digits_in(s, 0, 4) && is_digit(s[5]) && is_digit(s[6]) && is_digit(s[8]) && is_digit(s[9])
        && is_digit(s[11]) && is_digit(s[12]) && is_digit(s[14]) && is_digit(s[15]) && is_digit(s[17]) && is_digit(s[18]) {
        Some(moment_secs(
            four_digits(s[0], s[1], s[2], s[3]), two_digits(s[5], s[6]), two_digits(s[8], s[9]),
            two_digits(s[11], s[12]), two_digits(s[14], s[15]), two_digits(s[17], s[18]),
        ))
    } else {
        None
    }
}

/// The value of two ASCII digits, or [`Utc2kError::Invalid`].
pub fn parse_u8_str(one: u8, two: u8) -> (r: Result<u8, Utc2kError>)
    ensures
        r is Ok <==> is_digit(one) && is_digit(two),
        r matches Ok(v) ==> v == two_digits(one, two),
        r is Err ==> r == Err::<u8, Utc2kError>(Utc2kError::Invalid),
{
    match parse2(one, two) {
        Some(v) => Ok(v),
        None => Err(Utc2kError::Invalid),
    }
}

/// The value of the four ASCII digits at the start of `src`, or
/// [`Utc2kError::Invalid`].
fn parse_year(src: &[u8]) -> (r: Result<u16, Utc2kError>)
    requires
        src@.len() >= 4,
    ensures
        r is Ok <==> digits_in(src@, 0, 4),
        r matches Ok(v) ==> v == four_digits(src@[0], src@[1], src@[2], src@[3]),
        r is Err ==> r == Err::<u16, Utc2kError>(Utc2kError::Invalid),
{
    let mut a: u16 = 0;
    let mut i: usize = 0;
    while i < 4
        invariant
            i <= 4 <= src@.len(),
            digits_in(src@, 0, i as int),
            a == (if i == 0 { 0 } else if i == 1 { src@[0] - 48 }
                else if i == 2 { (src@[0] - 48) * 10 + (src@[1] - 48) }
                else if i == 3 { (src@[0] - 48) * 100 + (src@[1] - 48) * 10 + (src@[2] - 48) }
                else { four_digits(src@[0], src@[1], src@[2], src@[3]) }),
        decreases 4 - i,
    {
        let c = src[i];
        if !(48 <= c && c <= 57) {
            return Err(Utc2kError::Invalid);
        }
        a = a * 10 + (c - 48) as u16;
        i = i + 1;
    }
    Ok(a)
}

/// The moment of a `YYYY-MM-DD` date, saturated to the century.
fn parse_parts_from_date(src: &[u8]) -> (r: Result<Utc2k, Utc2kError>)
    requires
        src@.len() >= 10,
    ensures
        match fixed_date_spec(src@) {
            Some(s) => r matches Ok(u) && u.saturates(s),
            None => r == Err::<Utc2k, Utc2kError>(Utc2kError::Invalid),
        },
{
    let y = match parse_year(src) { Ok(v) => v, Err(e) => { return Err(e); } };
    let m = match parse_u8_str(src[5], src[6]) { Ok(v) => v, Err(e) => { return Err(e); } };
    let d = match parse_u8_str(src[8], src[9]) { Ok(v) => v, Err(e) => { return Err(e); } };
    Ok(Utc2k::new(y, m, d, 0, 0, 0))
}

/// The moment of a `YYYY-MM-DD hh:mm:ss` datetime, saturated to the century.
fn parse_parts_from_datetime(src: &[u8]) -> (r: Result<Utc2k, Utc2kError>)
    requires
        src@.len() >= 19,
    ensures
        match fixed_datetime_spec(src@) {
            Some(s) => r matches Ok(u) && u.saturates(s),
            None => r == Err::<Utc2k, Utc2kError>(Utc2kError::Invalid),
        },
{
    let y = match parse_year(src) { Ok(v) => v, Err(e) => { return Err(e); } };
    let m = match parse_u8_str(src[5], src[6]) { Ok(v) => v, Err(e) => { return Err(e); } };
    let d = match parse_u8_str(src[8], src[9]) { Ok(v) => v, Err(e) => { return Err(e); } };
    let hh = match parse_u8_str(src[11], src[12]) { Ok(v) => v, Err(e) => { return Err(e); } };
    let mm = match parse_u8_str(src[14], src[15]) { Ok(v) => v, Err(e) => { return Err(e); } };
    let ss = match parse_u8_str(src[17], src[18]) { Ok(v) => v, Err(e) => { return Err(e); } };
    Ok(Utc2k::new(y, m, d, hh, mm, ss))
}

impl Utc2k {
    /// The moment of a datetime whose digits sit where `YYYY-MM-DD hh:mm:ss`
    /// has them (the separators may be anything; bytes after the nineteenth
    /// are ignored), saturated to the century; [`Utc2kError::Invalid`] if a
    /// digit is missing.
    pub fn from_datetime_str(src: &str) -> (r: Result<Self, Utc2kError>)
        ensures
            match fixed_datetime_spec(src.spec_bytes()) {
                Some(s) => r matches Ok(u) && u.saturates(s),
                None => r == Err::<Utc2k, Utc2kError>(Utc2kError::Invalid),
            },
    {
        let bytes = src.as_bytes();
        if bytes.len() >= 19 { parse_parts_from_datetime(bytes) } else { Err(Utc2kError::Invalid) }
    }

    /// The moment of a date whose digits sit where `YYYY-MM-DD` has them (the
    /// separators may be anything; bytes after the tenth are ignored), at
    /// midnight, saturated to the century; [`Utc2kError::Invalid`] if a digit
    /// is missing.
    pub fn from_date_str(src: &str) -> (r: Result<Self, Utc2kError>)
        ensures
            match fixed_date_spec(src.spec_bytes()) {
                Some(s) => r matches Ok(u) && u.saturates(s),
                None => r == Err::<Utc2k, Utc2kError>(Utc2kError::Invalid),
            },
    {
        let bytes = src.as_bytes();
        if bytes.len() >= 10 { parse_parts_from_date(bytes) } else { Err(Utc2kError::Invalid) }
    }
}

} // verus!
