//! The `YYYY-MM-DD hh:mm:ss` text of a [`Utc2k`], and the string forms
//! built from it.

use vstd::prelude::*;
use vstd::string::StringExecFns;
use vstd::string::StringSliceAdditionalSpecFns;
use crate::calendar::{lemma_linear_day_balanced, moment_secs, valid_moment, valid_secs};
use crate::{Month, Utc2k, Utc2kError, Weekday};

verus! {

/// The ASCII byte of the decimal digit `n`.
pub open spec fn digit_byte(n: int) -> u8 {
    (48 + n) as u8
}

/// The ASCII char of the decimal digit `n`.
pub open spec fn digit_char(n: int) -> char {
    (48 + n) as char
}

/// The two zero-padded decimal digits of `n < 100`, as chars.
pub open spec fn dd_chars(n: int) -> Seq<char> {
    seq![digit_char(n / 10), digit_char(n % 10)]
}

/// ASCII bytes read as chars.
pub open spec fn ascii_chars(b: Seq<u8>) -> Seq<char> {
    b.map_values(|x: u8| x as char)
}

/// Every byte is ASCII.
pub open spec fn all_ascii(b: Seq<u8>) -> bool {
    forall|i: int| 0 <= i < b.len() ==> #[trigger] b[i] < 128
}

/// The `YYYY-MM-DD hh:mm:ss` text of parts whose year is an offset from 2000.
pub open spec fn fmt_text(y: int, m: int, d: int, hh: int, mm: int, ss: int) -> Seq<u8> {
    seq![
        50u8, 48u8, digit_byte(y / 10), digit_byte(y % 10), 45u8,
        digit_byte(m / 10), digit_byte(m % 10), 45u8,
        digit_byte(d / 10), digit_byte(d % 10), 32u8,
        digit_byte(hh / 10), digit_byte(hh % 10), 58u8,
        digit_byte(mm / 10), digit_byte(mm % 10), 58u8,
        digit_byte(ss / 10), digit_byte(ss % 10),
    ]
}

/// Calls `String::push`, which appends one char to the string.
#[verifier::external_body]
pub(crate) fn push_char(s: &mut String, c: char)
    ensures
        final(s)@ == old(s)@.push(c),
{
    s.push(c);
}

/// Calls `std::str::from_utf8` on ASCII bytes, which are valid UTF-8, so the
/// call returns the string slice those very bytes encode.
#[verifier::external_body]
fn ascii_str(b: &[u8]) -> (r: &str)
    requires
        all_ascii(b@),
    ensures
        r.spec_bytes() == b@,
{
    std::str::from_utf8(b).unwrap()
}

/// Append ASCII bytes to a string, one char each.
pub fn push_ascii(out: &mut String, b: &[u8])
    ensures
        final(out)@ == old(out)@ + ascii_chars(b@),
{
    let ghost start = old(out)@;
    let mut i: usize = 0;
    while i < b.len()
        invariant
            i <= b.len(),
            out@ == start + ascii_chars(b@.subrange(0, i as int)),
        decreases b.len() - i,
    {
        push_char(out, b[i] as char);
        i = i + 1;
        proof {
            assert(ascii_chars(b@.subrange(0, i as int)) =~= ascii_chars(b@.subrange(0, i - 1)).push(b@[i - 1] as char));
        }
    }
    assert(b@.subrange(0, b@.len() as int) =~= b@);
}

/// The two zero-padded decimal digits of `n < 100`, as ASCII bytes.
pub fn dd(n: u8) -> (r: (u8, u8))
    requires
        n < 100,
    ensures
        r.0 == digit_byte((n / 10) as int),
        r.1 == digit_byte((n % 10) as int),
        48 <= r.0 < 58 && 48 <= r.1 < 58,
{
    (n / 10 + 48, n % 10 + 48)
}

/// Append the two zero-padded decimal digits of `n < 100`.
pub fn push_dd(out: &mut String, n: u8)
    requires
        n < 100,
    ensures
        final(out)@ == old(out)@ + dd_chars(n as int),
{
    let (a, b) = dd(n);
    push_char(out, a as char);
    push_char(out, b as char);
    assert(final(out)@ =~= old(out)@ + dd_chars(n as int));
}

/// The number two ASCII digit bytes spell.
fn undigit(a: u8, b: u8) -> (r: u8)
    requires
        48 <= a < 58,
        48 <= b < 58,
    ensures
        r == (a - 48) * 10 + (b - 48),
{
    (a - 48) * 10 + (b - 48)
}

/// The digit bytes of a number below 100 spell it.
proof fn lemma_undigit(n: int)
    requires
        0 <= n < 100,
    ensures
        48 <= digit_byte(n / 10) < 58,
        48 <= digit_byte(n % 10) < 58,
        (digit_byte(n / 10) - 48) * 10 + (digit_byte(n % 10) - 48) == n,
{
}

/// Two digit bytes that are equal stand for the same digit.
proof fn lemma_digit_byte_injective(a: int, b: int)
    requires
        0 <= a < 10,
        0 <= b < 10,
        digit_byte(a) == digit_byte(b),
    ensures
        a == b,
{
}

/// A number below 100 is given by its two decimal digits.
proof fn lemma_two_digits(a: int, b: int)
    requires
        0 <= a < 100,
        0 <= b < 100,
        digit_byte(a / 10) == digit_byte(b / 10),
        digit_byte(a % 10) == digit_byte(b % 10),
    ensures
        a == b,
{
    lemma_digit_byte_injective(a / 10, b / 10);
    lemma_digit_byte_injective(a % 10, b % 10);
}

impl Utc2k {
    /// This moment as `YYYY-MM-DD hh:mm:ss` text.
    pub open(crate) spec fn text(self) -> Seq<u8> {
        fmt_text(self.y as int, self.m as int, self.d as int, self.hh as int, self.mm as int, self.ss as int)
    }

    /// The text of a moment has nineteen ASCII bytes and spells that moment
    /// alone.
    pub proof fn lemma_text(a: Utc2k, b: Utc2k)
        requires
            a.wf(),
            b.wf(),
        ensures
            a.text().len() == 19,
            all_ascii(a.text()),
            a.text() == b.text() ==> a == b,
    {
        if a.text() == b.text() {
            assert(a.text()[2] == b.text()[2] && a.text()[3] == b.text()[3]);
            lemma_two_digits(a.y as int, b.y as int);
            assert(a.text()[5] == b.text()[5] && a.text()[6] == b.text()[6]);
            lemma_two_digits(a.m as int, b.m as int);
            assert(a.text()[8] == b.text()[8] && a.text()[9] == b.text()[9]);
            lemma_two_digits(a.d as int, b.d as int);
            assert(a.text()[11] == b.text()[11] && a.text()[12] == b.text()[12]);
            lemma_two_digits(a.hh as int, b.hh as int);
            assert(a.text()[14] == b.text()[14] && a.text()[15] == b.text()[15]);
            lemma_two_digits(a.mm as int, b.mm as int);
            assert(a.text()[17] == b.text()[17] && a.text()[18] == b.text()[18]);
            lemma_two_digits(a.ss as int, b.ss as int);
        }
    }
}

/// A [`Utc2k`] written out as `YYYY-MM-DD hh:mm:ss`, held in a fixed
/// nineteen-byte buffer.
#[derive(Debug, Clone, Copy, Eq, Hash, PartialOrd, Ord)]
pub struct FmtUtc2k {
    pub(crate) bytes: [u8; 19],
}

impl PartialEq for FmtUtc2k {
    fn eq(&self, other: &Self) -> (r: bool) {
        let mut i: usize = 0;
        while i < 19
            invariant
                i <= 19,
                forall|j: int| 0 <= j < i ==> self.bytes@[j] == other.bytes@[j],
            decreases 19 - i,
        {
            if self.bytes[i] != other.bytes[i] {
                return false;
            }
            i = i + 1;
        }
        assert(self.bytes@ =~= other.bytes@);
        true
    }
}

impl vstd::std_specs::cmp::PartialEqSpecImpl for FmtUtc2k {
    open spec fn obeys_eq_spec() -> bool {
        true
    }

    closed spec fn eq_spec(&self, other: &Self) -> bool {
        self.bytes@ == other.bytes@
    }
}

impl FmtUtc2k {
    /// Texts are equal when they hold the same bytes.
    pub proof fn lemma_eq(a: FmtUtc2k, b: FmtUtc2k)
        ensures
            vstd::std_specs::cmp::PartialEqSpec::eq_spec(&a, &b) <==> a.text() == b.text(),
    {
    }

    /// The buffer always spells out a moment of the century.
    #[verifier::type_invariant]
    pub(crate) open spec fn inv(self) -> bool {
        exists|u: Utc2k| u.wf() && self.bytes@ == #[trigger] u.text()
    }

    /// The text held.
    pub open(crate) spec fn text(self) -> Seq<u8> {
        self.bytes@
    }

    /// The moment the text spells out.
    pub open(crate) spec fn moment(self) -> Utc2k {
        choose|u: Utc2k| u.wf() && self.bytes@ == #[trigger] u.text()
    }

    /// The length of the text, in bytes.
    pub const LEN: usize = 19;

    /// The text of a moment.
    pub fn from_utc2k(src: Utc2k) -> (r: Self)
        ensures
            r.text() == src.text(),
            r.moment() == src,
    {
        let bytes: [u8; 19] = [50, 48, 48, 48, 45, 48, 49, 45, 48, 49, 32, 48, 48, 58, 48, 48, 58, 48, 48];
        proof {
            let first = Utc2k { y: 0, m: 1, d: 1, hh: 0, mm: 0, ss: 0 };
            assert(first.wf());
            assert(bytes@ =~= first.text());
        }
        let mut out = FmtUtc2k { bytes };
        out.set_datetime(src);
        out
    }

    /// Overwrite the text with that of another moment.
    pub fn set_datetime(&mut self, src: Utc2k)
        ensures
            final(self).text() == src.text(),
            final(self).moment() == src,
    {
        proof { use_type_invariant(&src); }
        let (y, m, d, hh, mm, ss) = src.parts();
        self.set_parts_unchecked((y - 2000) as u8, m, d, hh, mm, ss);
        proof {
            assert(src == Utc2k { y: (y - 2000) as u8, m, d, hh, mm, ss });
        }
    }

    /// Overwrite the text with that of valid parts.
    fn set_parts_unchecked(&mut self, y: u8, m: u8, d: u8, hh: u8, mm: u8, ss: u8)
        requires
            valid_moment(2000 + y, m as int, d as int, hh as int, mm as int, ss as int),
        ensures
            final(self).text() == fmt_text(y as int, m as int, d as int, hh as int, mm as int, ss as int),
            final(self).moment() == (Utc2k { y, m, d, hh, mm, ss }),
    {
        let (y1, y0) = dd(y);
        let (m1, m0) = dd(m);
        let (d1, d0) = dd(d);
        let (h1, h0) = dd(hh);
        let (i1, i0) = dd(mm);
        let (s1, s0) = dd(ss);
        let bytes: [u8; 19] = [50, 48, y1, y0, 45, m1, m0, 45, d1, d0, 32, h1, h0, 58, i1, i0, 58, s1, s0];
        let ghost u = Utc2k { y, m, d, hh, mm, ss };
        proof {
            assert(bytes@ =~= u.text());
            assert(u.wf());
        }
        self.bytes = bytes;
        proof {
            let c = self.moment();
            Utc2k::lemma_text(c, u);
        }
    }

    /// The text of the moment parts add up to, which need not be balanced;
    /// moments outside the century saturate.
    pub fn set_parts(&mut self, y: u16, m: u8, d: u8, hh: u8, mm: u8, ss: u8)
        ensures
            final(self).moment().saturates(moment_secs(y as int, m as int, d as int, hh as int, mm as int, ss as int)),
    {
        let (y, m, d, hh, mm, ss) = crate::Abacus::new(y, m, d, hh, mm, ss).parts();
        self.set_parts_unchecked(y, m, d, hh, mm, ss);
        proof {
            let u = Utc2k { y, m, d, hh, mm, ss };
            assert(u.secs() == crate::abacus::parts_secs((y, m, d, hh, mm, ss)));
        }
    }

    /// The text of a unix timestamp, saturated to the century.
    pub fn set_unixtime(&mut self, src: u32)
        ensures
            final(self).moment().saturates(src - Utc2k::MIN_UNIXTIME),
    {
        self.set_datetime(Utc2k::from_unixtime(src));
    }

    /// The text of `2000-01-01 00:00:00`.
    pub fn min() -> (r: Self)
        ensures
            r.moment() == Utc2k::first(),
    {
        Self::from_utc2k(Utc2k::min())
    }

    /// The text of `2099-12-31 23:59:59`.
    pub fn max() -> (r: Self)
        ensures
            r.moment() == Utc2k::last(),
    {
        Self::from_utc2k(Utc2k::max())
    }

    /// The text of a unix timestamp, saturated to the century.
    pub fn from_unixtime(src: u32) -> (r: Self)
        ensures
            r.moment().saturates(src - Utc2k::MIN_UNIXTIME),
    {
        Self::from_utc2k(Utc2k::from_unixtime(src))
    }

    /// The text of the current moment.
    pub fn now() -> (r: Self) {
        Self::from_utc2k(Utc2k::now())
    }

    /// The text of an ASCII date or datetime; see [`Utc2k::from_ascii`].
    pub fn from_ascii(src: &[u8]) -> (r: Option<Self>)
        ensures
            r is Some <==> crate::parse::ascii_spec(src@) is Some,
            r matches Some(f) ==> f.moment().saturates(crate::parse::ascii_spec(src@).unwrap()),
    {
        match Utc2k::from_ascii(src) {
            Some(u) => Some(Self::from_utc2k(u)),
            None => None,
        }
    }

    /// The text of an RFC2822 date or datetime; see [`Utc2k::from_rfc2822`].
    pub fn from_rfc2822(src: &[u8]) -> (r: Option<Self>)
        ensures
            r is Some <==> crate::parse::rfc2822_spec(src@) is Some,
            r matches Some(f) ==> f.moment().saturates(crate::parse::rfc2822_spec(src@).unwrap()),
    {
        match Utc2k::from_rfc2822(src) {
            Some(u) => Some(Self::from_utc2k(u)),
            None => None,
        }
    }

    /// The text as bytes.
    pub fn as_bytes(&self) -> (r: &[u8])
        ensures
            r@ == self.text(),
    {
        self.bytes.as_slice()
    }

    /// The text as a string slice, `YYYY-MM-DD hh:mm:ss`.
    pub fn as_str(&self) -> (r: &str)
        ensures
            r.spec_bytes() == self.text(),
    {
        proof { use_type_invariant(self); self.lemma_ascii(); }
        ascii_str(self.bytes.as_slice())
    }

    /// The date half, `YYYY-MM-DD`.
    pub fn date(&self) -> (r: &str)
        ensures
            r.spec_bytes() == self.text().subrange(0, 10),
    {
        proof { use_type_invariant(self); self.lemma_ascii(); }
        ascii_str(vstd::slice::slice_subrange(self.bytes.as_slice(), 0, 10))
    }

    /// The year, `YYYY`.
    pub fn year(&self) -> (r: &str)
        ensures
            r.spec_bytes() == self.text().subrange(0, 4),
    {
        proof { use_type_invariant(self); self.lemma_ascii(); }
        ascii_str(vstd::slice::slice_subrange(self.bytes.as_slice(), 0, 4))
    }

    /// The time half, `hh:mm:ss`.
    pub fn time(&self) -> (r: &str)
        ensures
            r.spec_bytes() == self.text().subrange(11, 19),
    {
        proof { use_type_invariant(self); self.lemma_ascii(); }
        ascii_str(vstd::slice::slice_subrange(self.bytes.as_slice(), 11, 19))
    }

    /// The text is that of the moment it spells out, nineteen ASCII bytes.
    pub(crate) proof fn lemma_ascii(&self)
        requires
            self.inv(),
        ensures
            self.text() == self.moment().text(),
            self.moment().wf(),
            self.text().len() == 19,
            all_ascii(self.text()),
    {
        Utc2k::lemma_text(self.moment(), self.moment());
    }

    /// The text, as `YYYY-MM-DDThh:mm:ssZ`.
    pub fn to_rfc3339(&self) -> (r: String)
        ensures
            r@ == self.moment().rfc3339_chars(),
    {
        proof { use_type_invariant(self); self.lemma_ascii(); }
        let mut out = String::new();
        push_ascii(&mut out, vstd::slice::slice_subrange(self.bytes.as_slice(), 0, 10));
        push_char(&mut out, 'T');
        push_ascii(&mut out, vstd::slice::slice_subrange(self.bytes.as_slice(), 11, 19));
        push_char(&mut out, 'Z');
        out
    }

    /// The moment, as RFC2822 text: `Tue, 01 Jul 2003 10:52:37 +0000`.
    pub fn to_rfc2822(&self) -> (r: String)
        ensures
            r@ == self.moment().rfc2822_chars(),
    {
        proof { use_type_invariant(self); self.lemma_ascii(); }
        Utc2k::from_fmtutc2k(*self).to_rfc2822()
    }
}

impl Utc2k {
    /// The text of this moment.
    pub fn formatted(self) -> (r: FmtUtc2k)
        ensures
            r.text() == self.text(),
            r.moment() == self,
    {
        FmtUtc2k::from_utc2k(self)
    }

    /// The moment a text spells out.
    pub fn from_fmtutc2k(src: FmtUtc2k) -> (r: Self)
        ensures
            r == src.moment(),
    {
        proof { use_type_invariant(&src); src.lemma_ascii(); }
        let ghost u = src.moment();
        let b = src.bytes;
        proof {
            assert(b@ == u.text());
            lemma_undigit(u.y as int);
            lemma_undigit(u.m as int);
            lemma_undigit(u.d as int);
            lemma_undigit(u.hh as int);
            lemma_undigit(u.mm as int);
            lemma_undigit(u.ss as int);
        }
        let y = undigit(b[2], b[3]);
        let m = undigit(b[5], b[6]);
        let d = undigit(b[8], b[9]);
        let hh = undigit(b[11], b[12]);
        let mm = undigit(b[14], b[15]);
        let ss = undigit(b[17], b[18]);
        let r = Self::new(2000 + y as u16, m, d, hh, mm, ss);
        proof {
            use_type_invariant(&r);
            Utc2k::lemma_saturates_own_parts(u, r);
        }
        r
    }

    /// A moment that saturates the second count of the parts of another is
    /// that other moment.
    pub proof fn lemma_saturates_own_parts(u: Utc2k, r: Utc2k)
        requires
            u.wf(),
            r.wf(),
            r.saturates(moment_secs(u.year_spec(), u.month_spec(), u.day_spec(), u.hour_spec(), u.minute_spec(), u.second_spec())),
        ensures
            r == u,
    {
        lemma_linear_day_balanced(2000 + u.y, u.m as int, u.d as int);
        crate::calendar::lemma_valid_secs_range(2000 + u.y, u.m as int, u.d as int, u.hh as int, u.mm as int, u.ss as int);
        Utc2k::lemma_saturates_unique(r, u, u.secs());
    }

    /// The RFC3339 text of this moment: `YYYY-MM-DDThh:mm:ssZ`.
    pub open(crate) spec fn rfc3339_chars(self) -> Seq<char> {
        ascii_chars(self.text().subrange(0, 10)) + seq!['T'] + ascii_chars(self.text().subrange(11, 19)) + seq!['Z']
    }

    /// The RFC2822 text of this moment up to its zone.
    pub open(crate) spec fn rfc2822_head_chars(self) -> Seq<char> {
        Weekday::from_num(self.day_number_spec() + 7).abbr() + ", "@ + dd_chars(self.d as int) + " "@
            + Month::from_num(self.m as int).abbr() + " 20"@ + dd_chars(self.y as int) + " "@
            + dd_chars(self.hh as int) + ":"@ + dd_chars(self.mm as int) + ":"@ + dd_chars(self.ss as int)
    }

    /// The RFC2822 text of this moment.
    pub open(crate) spec fn rfc2822_chars(self) -> Seq<char> {
        self.rfc2822_head_chars() + " +0000"@
    }

    /// This moment as RFC2822 text: `Tue, 01 Jul 2003 10:52:37 +0000`.
    pub fn to_rfc2822(&self) -> (r: String)
        ensures
            r@ == self.rfc2822_chars(),
    {
        proof { use_type_invariant(self); }
        let mut out = String::new();
        let wd = self.weekday().abbreviation();
        out.append(wd);
        assert(out@ =~= wd@);
        out.append(", ");
        push_dd(&mut out, self.d);
        out.append(" ");
        out.append(self.month_enum().abbreviation());
        out.append(" 20");
        push_dd(&mut out, self.y);
        out.append(" ");
        push_dd(&mut out, self.hh);
        out.append(":");
        push_dd(&mut out, self.mm);
        out.append(":");
        push_dd(&mut out, self.ss);
        out.append(" +0000");
        out
    }

    /// This moment as RFC3339 text: `2021-12-13T11:56:01Z`.
    pub fn to_rfc3339(&self) -> (r: String)
        ensures
            r@ == self.rfc3339_chars(),
    {
        FmtUtc2k::from_utc2k(*self).to_rfc3339()
    }

    /// This moment as `YYYY-MM-DD hh:mm:ss` text.
    pub fn to_string(&self) -> (r: String)
        ensures
            r@ == ascii_chars(self.text()),
    {
        let f = FmtUtc2k::from_utc2k(*self);
        let mut out = String::new();
        push_ascii(&mut out, f.as_bytes());
        assert(out@ =~= ascii_chars(self.text()));
        out
    }
}

} // verus!
