//! Conversions between [`Utc2k`], [`FmtUtc2k`], unix timestamps, and text.

use vstd::prelude::*;
use vstd::std_specs::convert::{FromSpecImpl, TryFromSpecImpl};
use vstd::string::StringSliceAdditionalSpecFns;
use crate::{Abacus, FmtUtc2k, Utc2k, Utc2kError};

verus! {

/// The moment of a unix timestamp, saturated to the century.
pub open spec fn moment_of_unixtime(t: int) -> Utc2k {
    Utc2k::at_secs(t - Utc2k::MIN_UNIXTIME)
}

/// The moment an ASCII date or datetime spells out, saturated to the
/// century, or [`Utc2kError::Invalid`].
pub open spec fn moment_of_ascii(src: Seq<u8>) -> Result<Utc2k, Utc2kError> {
    match crate::parse::ascii_spec(src) {
        Some(s) => Ok(Utc2k::at_secs(s)),
        None => Err(Utc2kError::Invalid),
    }
}

/// The moment of a timestamp of another integer type: [`Utc2kError::Invalid`]
/// unless it fits a `u32`.
pub open spec fn moment_of_wide(t: int) -> Result<Utc2k, Utc2kError> {
    if 0 <= t <= u32::MAX { Ok(moment_of_unixtime(t)) } else { Err(Utc2kError::Invalid) }
}

/// The text of a moment.
pub open spec fn text_of(u: Utc2k) -> FmtUtc2k {
    choose|f: FmtUtc2k| f.text() == u.text()
}

/// Texts holding the same bytes are the same.
proof fn lemma_text_of(f: FmtUtc2k, u: Utc2k)
    requires
        f.text() == u.text(),
    ensures
        text_of(u) == f,
{
    let c = text_of(u);
    assert(c.text() == u.text());
    assert(c.bytes@ =~= f.bytes@);
    vstd::array::axiom_array_ext_equal(c.bytes, f.bytes);
}

impl Utc2k {
    /// The moment of a unix timestamp given as a wider or signed integer;
    /// [`Utc2kError::Invalid`] unless it fits a `u32`.
    fn from_wide(src: i128) -> (r: Result<Self, Utc2kError>)
        ensures
            r == moment_of_wide(src as int),
    {
        if 0 <= src && src <= u32::MAX as i128 {
            let r = Self::from_unixtime(src as u32);
            proof {
                use_type_invariant(&r);
                Utc2k::lemma_at_secs(r, src - Utc2k::MIN_UNIXTIME);
            }
            Ok(r)
        } else {
            Err(Utc2kError::Invalid)
        }
    }

    /// The moment an ASCII date or datetime spells out, or
    /// [`Utc2kError::Invalid`].
    fn from_ascii_checked(src: &[u8]) -> (r: Result<Self, Utc2kError>)
        ensures
            r == moment_of_ascii(src@),
    {
        match Abacus::from_ascii(src) {
            Some(parts) => {
                let r = Self::from_abacus(parts);
                proof {
                    use_type_invariant(&r);
                    let s = crate::parse::ascii_spec(src@).unwrap();
                    r.lemma_saturates_clamp(parts.secs(), s);
                    Utc2k::lemma_at_secs(r, s);
                }
                Ok(r)
            },
            None => Err(Utc2kError::Invalid),
        }
    }
}

impl Default for Utc2k {
    /// `2000-01-01 00:00:00`.
    fn default() -> (r: Self)
        ensures
            r == Utc2k::first(),
    {
        Self::min()
    }
}

impl From<u32> for Utc2k {
    /// The moment of a unix timestamp, saturated to the century.
    fn from(src: u32) -> (r: Self) {
        let r = Self::from_unixtime(src);
        proof {
            use_type_invariant(&r);
            Utc2k::lemma_at_secs(r, src - Utc2k::MIN_UNIXTIME);
        }
        r
    }
}

impl FromSpecImpl<u32> for Utc2k {
    open spec fn obeys_from_spec() -> bool {
        true
    }

    open spec fn from_spec(v: u32) -> Self {
        moment_of_unixtime(v as int)
    }
}

impl From<Utc2k> for u32 {
    /// The unix timestamp of a moment.
    fn from(src: Utc2k) -> (r: Self) {
        src.unixtime()
    }
}

impl FromSpecImpl<Utc2k> for u32 {
    open spec fn obeys_from_spec() -> bool {
        true
    }

    open spec fn from_spec(v: Utc2k) -> Self {
        (Utc2k::MIN_UNIXTIME + v.secs()) as u32
    }
}

impl TryFrom<&[u8]> for Utc2k {
    type Error = Utc2kError;

    /// The moment an ASCII date or datetime spells out, saturated to the
    /// century; see [`Utc2k::from_ascii`].
    fn try_from(src: &[u8]) -> (r: Result<Self, Utc2kError>) {
        Self::from_ascii_checked(src)
    }
}

impl TryFromSpecImpl<&[u8]> for Utc2k {
    open spec fn obeys_try_from_spec() -> bool {
        true
    }

    open spec fn try_from_spec(v: &[u8]) -> Result<Self, Utc2kError> {
        moment_of_ascii(v@)
    }
}

impl TryFrom<&str> for Utc2k {
    type Error = Utc2kError;

    /// The moment an ASCII date or datetime spells out, saturated to the
    /// century; see [`Utc2k::from_ascii`].
    fn try_from(src: &str) -> (r: Result<Self, Utc2kError>) {
        Self::from_ascii_checked(src.as_bytes())
    }
}

impl TryFromSpecImpl<&str> for Utc2k {
    open spec fn obeys_try_from_spec() -> bool {
        true
    }

    open spec fn try_from_spec(v: &str) -> Result<Self, Utc2kError> {
        moment_of_ascii(v.spec_bytes())
    }
}

impl core::str::FromStr for Utc2k {
    type Err = Utc2kError;

    /// The moment an ASCII date or datetime spells out, saturated to the
    /// century.
    fn from_str(src: &str) -> (r: Result<Self, Utc2kError>)
        ensures
            r == moment_of_ascii(src.spec_bytes()),
    {
        Self::from_ascii_checked(src.as_bytes())
    }
}

impl TryFrom<u64> for Utc2k {
    type Error = Utc2kError;

    /// The moment of a unix timestamp, if it fits a `u32`.
    fn try_from(src: u64) -> (r: Result<Self, Utc2kError>) {
        Self::from_wide(src as i128)
    }
}

impl TryFromSpecImpl<u64> for Utc2k {
    open spec fn obeys_try_from_spec() -> bool {
        true
    }

    open spec fn try_from_spec(v: u64) -> Result<Self, Utc2kError> {
        moment_of_wide(v as int)
    }
}

impl TryFrom<usize> for Utc2k {
    type Error = Utc2kError;

    /// The moment of a unix timestamp, if it fits a `u32`.
    fn try_from(src: usize) -> (r: Result<Self, Utc2kError>) {
        Self::from_wide(src as i128)
    }
}

impl TryFromSpecImpl<usize> for Utc2k {
    open spec fn obeys_try_from_spec() -> bool {
        true
    }

    open spec fn try_from_spec(v: usize) -> Result<Self, Utc2kError> {
        moment_of_wide(v as int)
    }
}

impl TryFrom<i32> for Utc2k {
    type Error = Utc2kError;

    /// The moment of a unix timestamp, if it fits a `u32`.
    fn try_from(src: i32) -> (r: Result<Self, Utc2kError>) {
        Self::from_wide(src as i128)
    }
}

impl TryFromSpecImpl<i32> for Utc2k {
    open spec fn obeys_try_from_spec() -> bool {
        true
    }

    open spec fn try_from_spec(v: i32) -> Result<Self, Utc2kError> {
        moment_of_wide(v as int)
    }
}

impl TryFrom<i64> for Utc2k {
    type Error = Utc2kError;

    /// The moment of a unix timestamp, if it fits a `u32`.
    fn try_from(src: i64) -> (r: Result<Self, Utc2kError>) {
        Self::from_wide(src as i128)
    }
}

impl TryFromSpecImpl<i64> for Utc2k {
    open spec fn obeys_try_from_spec() -> bool {
        true
    }

    open spec fn try_from_spec(v: i64) -> Result<Self, Utc2kError> {
        moment_of_wide(v as int)
    }
}

impl TryFrom<isize> for Utc2k {
    type Error = Utc2kError;

    /// The moment of a unix timestamp, if it fits a `u32`.
    fn try_from(src: isize) -> (r: Result<Self, Utc2kError>) {
        Self::from_wide(src as i128)
    }
}

impl TryFromSpecImpl<isize> for Utc2k {
    open spec fn obeys_try_from_spec() -> bool {
        true
    }

    open spec fn try_from_spec(v: isize) -> Result<Self, Utc2kError> {
        moment_of_wide(v as int)
    }
}

impl From<FmtUtc2k> for Utc2k {
    /// The moment a text spells out.
    fn from(src: FmtUtc2k) -> (r: Self) {
        Self::from_fmtutc2k(src)
    }
}

impl FromSpecImpl<FmtUtc2k> for Utc2k {
    open spec fn obeys_from_spec() -> bool {
        true
    }

    open spec fn from_spec(v: FmtUtc2k) -> Self {
        v.moment()
    }
}

impl Default for FmtUtc2k {
    /// `2000-01-01 00:00:00`.
    fn default() -> (r: Self)
        ensures
            r.moment() == Utc2k::first(),
    {
        Self::min()
    }
}

impl From<Utc2k> for FmtUtc2k {
    /// The text of a moment.
    fn from(src: Utc2k) -> (r: Self) {
        let r = Self::from_utc2k(src);
        proof { lemma_text_of(r, src); }
        r
    }
}

impl FromSpecImpl<Utc2k> for FmtUtc2k {
    open spec fn obeys_from_spec() -> bool {
        true
    }

    open spec fn from_spec(v: Utc2k) -> Self {
        text_of(v)
    }
}

impl From<u32> for FmtUtc2k {
    /// The text of a unix timestamp, saturated to the century.
    fn from(src: u32) -> (r: Self) {
        let u = Utc2k::from_unixtime(src);
        proof {
            use_type_invariant(&u);
            Utc2k::lemma_at_secs(u, src - Utc2k::MIN_UNIXTIME);
        }
        let r = Self::from_utc2k(u);
        proof { lemma_text_of(r, u); }
        r
    }
}

impl FromSpecImpl<u32> for FmtUtc2k {
    open spec fn obeys_from_spec() -> bool {
        true
    }

    open spec fn from_spec(v: u32) -> Self {
        text_of(moment_of_unixtime(v as int))
    }
}

impl TryFrom<&[u8]> for FmtUtc2k {
    type Error = Utc2kError;

    /// The text of the moment an ASCII date or datetime spells out.
    fn try_from(src: &[u8]) -> (r: Result<Self, Utc2kError>) {
        match Utc2k::from_ascii_checked(src) {
            Ok(u) => {
                let f = Self::from_utc2k(u);
                proof { lemma_text_of(f, u); }
                Ok(f)
            },
            Err(e) => Err(e),
        }
    }
}

impl TryFromSpecImpl<&[u8]> for FmtUtc2k {
    open spec fn obeys_try_from_spec() -> bool {
        true
    }

    open spec fn try_from_spec(v: &[u8]) -> Result<Self, Utc2kError> {
        match moment_of_ascii(v@) {
            Ok(u) => Ok(text_of(u)),
            Err(e) => Err(e),
        }
    }
}

impl TryFrom<&str> for FmtUtc2k {
    type Error = Utc2kError;

    /// The text of the moment an ASCII date or datetime spells out.
    fn try_from(src: &str) -> (r: Result<Self, Utc2kError>) {
        match Utc2k::from_ascii_checked(src.as_bytes()) {
            Ok(u) => {
                let f = Self::from_utc2k(u);
                proof { lemma_text_of(f, u); }
                Ok(f)
            },
            Err(e) => Err(e),
        }
    }
}

impl TryFromSpecImpl<&str> for FmtUtc2k {
    open spec fn obeys_try_from_spec() -> bool {
        true
    }

    open spec fn try_from_spec(v: &str) -> Result<Self, Utc2kError> {
        match moment_of_ascii(v.spec_bytes()) {
            Ok(u) => Ok(text_of(u)),
            Err(e) => Err(e),
        }
    }
}

} // verus!
