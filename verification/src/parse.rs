//! Reading dates and times from bytes.

use vstd::prelude::*;
use crate::calendar::moment_secs;

verus! {

/// An ASCII digit.
pub open spec fn is_digit(b: u8) -> bool {
    48 <= b <= 57
}

/// The value of an ASCII digit.
pub open spec fn digit_value(b: u8) -> int {
    b - 48
}

/// The value of two ASCII digits.
pub open spec fn two_digits(a: u8, b: u8) -> int {
    digit_value(a) * 10 + digit_value(b)
}

/// The value of four ASCII digits.
pub open spec fn four_digits(a: u8, b: u8, c: u8, d: u8) -> int {
    digit_value(a) * 1000 + digit_value(b) * 100 + digit_value(c) * 10 + digit_value(d)
}

/// Bytes `lo..hi` of `s` are all ASCII digits.
pub open spec fn digits_in(s: Seq<u8>, lo: int, hi: int) -> bool {
    forall|i: int| lo <= i < hi ==> is_digit(#[trigger] s[i])
}

/// ASCII whitespace: space, tab, line feed, form feed, or carriage return.
pub open spec fn is_space(b: u8) -> bool {
    b == 32 || b == 9 || b == 10 || b == 12 || b == 13
}

/// `s` without its trailing ASCII whitespace.
pub open spec fn trim_end(s: Seq<u8>) -> Seq<u8>
    decreases s.len(),
{
    if s.len() > 0 && is_space(s.last()) { trim_end(s.drop_last()) } else { s }
}

/// `s` without its leading ASCII whitespace.
pub open spec fn trim_start(s: Seq<u8>) -> Seq<u8>
    decreases s.len(),
{
    if s.len() > 0 && is_space(s[0]) { trim_start(s.drop_first()) } else { s }
}

/// Trimming the front leaves a suffix.
pub proof fn lemma_trim_start(s: Seq<u8>)
    ensures
        trim_start(s).len() <= s.len(),
        trim_start(s) == s.subrange(s.len() - trim_start(s).len(), s.len() as int),
        trim_start(s).len() > 0 ==> !is_space(trim_start(s)[0]),
    decreases s.len(),
{
    if s.len() > 0 && is_space(s[0]) {
        lemma_trim_start(s.drop_first());
        assert(s.drop_first().subrange(s.len() - 1 - trim_start(s).len(), s.len() - 1) =~= s.subrange(s.len() - trim_start(s).len(), s.len() as int));
    } else {
        assert(s.subrange(0, s.len() as int) =~= s);
    }
}

/// The bytes of `src` after its leading ASCII whitespace.
pub fn trim_start_bytes(src: &[u8]) -> (r: &[u8])
    ensures
        r@ == trim_start(src@),
{
    let mut i: usize = 0;
    assert(src@.subrange(0, src@.len() as int) =~= src@);
    while i < src.len() && (src[i] == 32 || src[i] == 9 || src[i] == 10 || src[i] == 12 || src[i] == 13)
        invariant
            i <= src@.len(),
            trim_start(src@.subrange(i as int, src@.len() as int)) == trim_start(src@),
        decreases src@.len() - i,
    {
        assert(src@.subrange(i as int, src@.len() as int).drop_first() =~= src@.subrange(i + 1, src@.len() as int));
        i = i + 1;
    }
    vstd::slice::slice_subrange(src, i, src.len())
}

/// The bytes of `src` without leading or trailing ASCII whitespace.
pub fn trim_bytes(src: &[u8]) -> (r: &[u8])
    ensures
        r@ == trim_end(trim_start(src@)),
{
    let t = trim_start_bytes(src);
    let e = trim_end_len(t, t.len());
    proof { assert(t@.subrange(0, t@.len() as int) =~= t@); }
    vstd::slice::slice_subrange(t, 0, e)
}

/// ASCII letter `b` in either case equals lowercase letter `l`.
pub open spec fn is_letter(b: u8, l: u8) -> bool {
    b == l || b == l - 32
}

/// What a UTC marker leaves of `s` after it is removed, if `s` ends with one:
/// `Z`, `UT`, `GMT`, or `UTC`, in any case.
pub open spec fn strip_utc_marker(s: Seq<u8>) -> Option<Seq<u8>> {
    let l = s.len();
    if l >= 1 && is_letter(s[l - 1], 122) { Some(s.subrange(0, l - 1)) }
    else if l >= 2 && is_letter(s[l - 2], 117) && is_letter(s[l - 1], 116) { Some(s.subrange(0, l - 2)) }
    else if l >= 3 && is_letter(s[l - 3], 103) && is_letter(s[l - 2], 109) && is_letter(s[l - 1], 116) { Some(s.subrange(0, l - 3)) }
    else if l >= 3 && is_letter(s[l - 3], 117) && is_letter(s[l - 2], 116) && is_letter(s[l - 1], 99) { Some(s.subrange(0, l - 3)) }
    else { None }
}

/// `s` is nothing, or a dot followed by digits (ignored fractional seconds).
pub open spec fn is_fraction(s: Seq<u8>) -> bool {
    s.len() == 0 || (s[0] == 46 && digits_in(s, 1, s.len() as int))
}

/// A `+` or `-` sign.
pub open spec fn is_sign(b: u8) -> bool {
    b == 43 || b == 45
}

/// The three bytes of the Unicode minus sign, `U+2212`, start at `i`.
pub open spec fn minus_sign_at(s: Seq<u8>, i: int) -> bool {
    0 <= i && i + 3 <= s.len() && s[i] == 0xE2 && s[i + 1] == 0x88 && s[i + 2] == 0x92
}

/// A fixed offset whose sign starts at `start`, with the hour digits at `h`
/// and the minute digits at `m`, normalized to within a day; the bytes
/// before the sign may only be ignored fractional seconds and whitespace.
pub open spec fn numeric_offset(s: Seq<u8>, start: int, neg: bool, h: int, m: int) -> Option<int> {
    if is_digit(s[h]) && is_digit(s[h + 1]) && is_digit(s[m]) && is_digit(s[m + 1]) {
        let o = (two_digits(s[h], s[h + 1]) * 3600 + two_digits(s[m], s[m + 1]) * 60) % 86400;
        if is_fraction(trim_end(s.subrange(0, start))) {
            Some(if neg { -o } else { o })
        } else {
            None
        }
    } else {
        None
    }
}

/// The UTC offset, in seconds, that the tail of a datetime string gives:
/// nothing at all, a UTC marker, or a fixed `±hhmm` offset (normalized to
/// within a day), any of them preceded by ignored fractional seconds.
///
/// ASCII datetimes also take the `±hh:mm` form; RFC2822 datetimes instead
/// take the Unicode minus sign, `U+2212`, in place of `-`.
pub open spec fn offset_spec(s: Seq<u8>, rfc2822: bool) -> Option<int> {
    let l = s.len() as int;
    if l == 0 {
        Some(0)
    } else if l >= 5 && is_sign(s[l - 5]) {
        numeric_offset(s, l - 5, s[l - 5] == 45, l - 4, l - 2)
    } else if !rfc2822 && l >= 6 && is_sign(s[l - 6]) && s[l - 3] == 58 {
        numeric_offset(s, l - 6, s[l - 6] == 45, l - 5, l - 2)
    } else if rfc2822 && l >= 7 && minus_sign_at(s, l - 7) {
        numeric_offset(s, l - 7, true, l - 4, l - 2)
    } else {
        let rest = match strip_utc_marker(s) {
            Some(r) => trim_end(r),
            None => s,
        };
        if is_fraction(rest) { Some(0) } else { None }
    }
}

/// The length of `s[..end]` once trailing ASCII whitespace is removed.
fn trim_end_len(src: &[u8], end: usize) -> (r: usize)
    requires
        end <= src@.len(),
    ensures
        r <= end,
        src@.subrange(0, r as int) == trim_end(src@.subrange(0, end as int)),
{
    let mut e = end;
    while e > 0 && (src[e - 1] == 32 || src[e - 1] == 9 || src[e - 1] == 10 || src[e - 1] == 12 || src[e - 1] == 13)
        invariant
            e <= end <= src@.len(),
            trim_end(src@.subrange(0, e as int)) == trim_end(src@.subrange(0, end as int)),
        decreases e,
    {
        assert(src@.subrange(0, e as int).drop_last() =~= src@.subrange(0, e - 1));
        e = e - 1;
    }
    e
}

/// Whether `s[start..end]` is nothing, or a dot followed by digits.
fn fraction_at(src: &[u8], start: usize, end: usize) -> (r: bool)
    requires
        start <= end <= src@.len(),
    ensures
        r == is_fraction(src@.subrange(start as int, end as int)),
{
    if start == end { return true; }
    if src[start] != 46 { return false; }
    let mut i = start + 1;
    while i < end
        invariant
            start < i <= end <= src@.len(),
            digits_in(src@.subrange(start as int, end as int), 1, i - start),
        decreases end - i,
    {
        if src[i] < 48 || src[i] > 57 {
            assert(!is_digit(src@.subrange(start as int, end as int)[i - start]));
            return false;
        }
        i = i + 1;
    }
    true
}

/// Whether lowercase letter `l` matches byte `b` in either case.
fn letter(b: u8, l: u8) -> (r: bool)
    requires
        97 <= l <= 122,
    ensures
        r == is_letter(b, l),
{
    b == l || b == l - 32
}

/// The fixed offset whose sign starts at `start`, with the hour digits at
/// `h` and the minute digits at `m`; see [`numeric_offset`].
fn parse_numeric_offset(src: &[u8], start: usize, neg: bool, h: usize, m: usize) -> (r: Option<i32>)
    requires
        start < h,
        h + 1 < m,
        m + 2 == src@.len(),
    ensures
        r matches Some(o) ==> numeric_offset(src@, start as int, neg, h as int, m as int) == Some(o as int),
        r is None ==> numeric_offset(src@, start as int, neg, h as int, m as int) is None,
        r matches Some(o) ==> -86400 < o < 86400,
{
    let (a, b, c, d) = (src[h], src[h + 1], src[m], src[m + 1]);
    if a < 48 || a > 57 || b < 48 || b > 57 || c < 48 || c > 57 || d < 48 || d > 57 {
        return None;
    }
    let o: i32 = (((a - 48) * 10 + (b - 48)) as i32 * 3600 + ((c - 48) * 10 + (d - 48)) as i32 * 60) % 86400;
    let e = trim_end_len(src, start);
    if fraction_at(src, 0, e) {
        Some(if neg { 0 - o } else { o })
    } else {
        None
    }
}

/// The UTC offset of the tail of a datetime string: see [`offset_spec`];
/// `rfc2822` picks the RFC2822 form of the grammar over the ASCII one.
pub fn parse_offset(src: &[u8], rfc2822: bool) -> (r: Option<i32>)
    ensures
        r matches Some(o) ==> offset_spec(src@, rfc2822) == Some(o as int),
        r is None ==> offset_spec(src@, rfc2822) is None,
        r matches Some(o) ==> -86400 < o < 86400,
{
    let l = src.len();
    assert(src@.subrange(0, l as int) =~= src@);
    if l == 0 { return Some(0); }
    if l >= 5 && (src[l - 5] == 43 || src[l - 5] == 45) {
        return parse_numeric_offset(src, l - 5, src[l - 5] == 45, l - 4, l - 2);
    }
    if !rfc2822 && l >= 6 && (src[l - 6] == 43 || src[l - 6] == 45) && src[l - 3] == 58 {
        return parse_numeric_offset(src, l - 6, src[l - 6] == 45, l - 5, l - 2);
    }
    if rfc2822 && l >= 7 && src[l - 7] == 0xE2 && src[l - 6] == 0x88 && src[l - 5] == 0x92 {
        return parse_numeric_offset(src, l - 7, true, l - 4, l - 2);
    }
    let end: usize =
        if letter(src[l - 1], 122) { trim_end_len(src, l - 1) }
        else if l >= 2 && letter(src[l - 2], 117) && letter(src[l - 1], 116) { trim_end_len(src, l - 2) }
        else if l >= 3 && letter(src[l - 3], 103) && letter(src[l - 2], 109) && letter(src[l - 1], 116) { trim_end_len(src, l - 3) }
        else if l >= 3 && letter(src[l - 3], 117) && letter(src[l - 2], 116) && letter(src[l - 1], 99) { trim_end_len(src, l - 3) }
        else { l };
    if fraction_at(src, 0, end) { Some(0) } else { None }
}

/// The second count (before saturation) of the moment an ASCII date or
/// datetime string spells out, if it spells one out.
///
/// Dates are `YYYYMMDD` or `YYYY?MM?DD`, with any single byte for `?`.
/// Datetimes are `YYYYMMDDhhmmss` or `YYYY?MM?DD?hh?mm?ss`, followed by a
/// tail that [`offset_spec`] accepts; the offset moves the moment back.
pub open spec fn ascii_spec(s: Seq<u8>) -> Option<int> {
    let l = s.len();
    if l == 8 && is_digit(s[4]) {
        if digits_in(s, 0, 8) {
            Some(moment_secs(four_digits(s[0], s[1], s[2], s[3]), two_digits(s[4], s[5]), two_digits(s[6], s[7]), 0, 0, 0))
        } else { None }
    } else if l == 10 {
        if digits_in(s, 0, 4) && digits_in(s, 5, 7) && digits_in(s, 8, 10) {
            Some(moment_secs(four_digits(s[0], s[1], s[2], s[3]), two_digits(s[5], s[6]), two_digits(s[8], s[9]), 0, 0, 0))
        } else { None }
    } else if l >= 14 && is_digit(s[4]) {
        if digits_in(s, 0, 14) {
            match offset_spec(s.subrange(14, l as int), false) {
                Some(o) => Some(moment_secs(
                    four_digits(s[0], s[1], s[2], s[3]), two_digits(s[4], s[5]), two_digits(s[6], s[7]),
                    two_digits(s[8], s[9]), two_digits(s[10], s[11]), two_digits(s[12], s[13]),
                ) - o),
                None => None,
            }
        } else { None }
    } else if l >= 19 {
        if digits_in(s, 0, 4) && digits_in(s, 5, 7) && digits_in(s, 8, 10) && digits_in(s, 11, 13)
            && digits_in(s, 14, 16) && digits_in(s, 17, 19) {
            match offset_spec(s.subrange(19, l as int), false) {
                Some(o) => Some(moment_secs(
                    four_digits(s[0], s[1], s[2], s[3]), two_digits(s[5], s[6]), two_digits(s[8], s[9]),
                    two_digits(s[11], s[12]), two_digits(s[14], s[15]), two_digits(s[17], s[18]),
                ) - o),
                None => None,
            }
        } else { None }
    } else {
        None
    }
}

/// Parts from digit values; the values always fit.
pub open spec fn abacus_of(y: int, m: int, d: int, hh: int, mm: int, ss: int) -> crate::Abacus {
    crate::Abacus { y: y as u16, m: m as u16, d: d as u16, hh: hh as u16, mm: mm as u16, ss: ss as u16 }
}

/// The parts an ASCII date or datetime spells out, as written, and the UTC
/// offset that follows them; see [`ascii_spec`].
pub open spec fn ascii_fields(s: Seq<u8>) -> Option<(crate::Abacus, int)> {
    let l = s.len();
    if l == 8 && is_digit(s[4]) {
        if digits_in(s, 0, 8) {
            Some((abacus_of(four_digits(s[0], s[1], s[2], s[3]), two_digits(s[4], s[5]), two_digits(s[6], s[7]), 0, 0, 0), 0))
        } else { None }
    } else if l == 10 {
        if digits_in(s, 0, 4) && digits_in(s, 5, 7) && digits_in(s, 8, 10) {
            Some((abacus_of(four_digits(s[0], s[1], s[2], s[3]), two_digits(s[5], s[6]), two_digits(s[8], s[9]), 0, 0, 0), 0))
        } else { None }
    } else if l >= 14 && is_digit(s[4]) {
        if digits_in(s, 0, 14) {
            match offset_spec(s.subrange(14, l as int), false) {
                Some(o) => Some((abacus_of(
                    four_digits(s[0], s[1], s[2], s[3]), two_digits(s[4], s[5]), two_digits(s[6], s[7]),
                    two_digits(s[8], s[9]), two_digits(s[10], s[11]), two_digits(s[12], s[13]),
                ), o)),
                None => None,
            }
        } else { None }
    } else if l >= 19 {
        if digits_in(s, 0, 4) && digits_in(s, 5, 7) && digits_in(s, 8, 10) && digits_in(s, 11, 13)
            && digits_in(s, 14, 16) && digits_in(s, 17, 19) {
            match offset_spec(s.subrange(19, l as int), false) {
                Some(o) => Some((abacus_of(
                    four_digits(s[0], s[1], s[2], s[3]), two_digits(s[5], s[6]), two_digits(s[8], s[9]),
                    two_digits(s[11], s[12]), two_digits(s[14], s[15]), two_digits(s[17], s[18]),
                ), o)),
                None => None,
            }
        } else { None }
    } else {
        None
    }
}

/// The value of two ASCII digits, or `None` if either is not a digit.
pub fn parse2(a: u8, b: u8) -> (r: Option<u8>)
    ensures
        r is Some <==> is_digit(a) && is_digit(b),
        r matches Some(v) ==> v == two_digits(a, b) && v <= 99,
{
    if 48 <= a && a <= 57 && 48 <= b && b <= 57 { Some((a - 48) * 10 + (b - 48)) } else { None }
}

/// The value of four ASCII digits, or `None` if any is not a digit.
pub fn parse4(a: u8, b: u8, c: u8, d: u8) -> (r: Option<u16>)
    ensures
        r is Some <==> is_digit(a) && is_digit(b) && is_digit(c) && is_digit(d),
        r matches Some(v) ==> v == four_digits(a, b, c, d) && v <= 9999,
{
    if 48 <= a && a <= 57 && 48 <= b && b <= 57 && 48 <= c && c <= 57 && 48 <= d && d <= 57 {
        Some((a - 48) as u16 * 1000 + (b - 48) as u16 * 100 + (c - 48) as u16 * 10 + (d - 48) as u16)
    } else { None }
}

/// The raw parts of an ASCII date or datetime, with any UTC offset already
/// applied; see [`ascii_spec`]. The parts may be unbalanced.
#[verifier::rlimit(40)]
pub(crate) fn parse_ascii_raw(src: &[u8]) -> (r: Option<crate::Abacus>)
    ensures
        r is Some <==> ascii_spec(src@) is Some,
        r is Some <==> ascii_fields(src@) is Some,
        r matches Some(a) ==> ascii_fields(src@) matches Some((f, o)) && f.offset_applied(o, a),
        r matches Some(a) ==> a.rebalanceable() && crate::calendar::clamp_secs(a.secs()) == crate::calendar::clamp_secs(ascii_spec(src@).unwrap()),
{
    let l = src.len();
    let s = src;
    if (l == 8 && 48 <= s[4] && s[4] <= 57) || l == 10 {
        let (mi, di) = if l == 8 { (4usize, 6usize) } else { (5usize, 8usize) };
        let y = parse4(s[0], s[1], s[2], s[3]);
        let m = parse2(s[mi], s[mi + 1]);
        let d = parse2(s[di], s[di + 1]);
        match (y, m, d) {
            (Some(y), Some(m), Some(d)) => {
                return Some(crate::Abacus { y, m: m as u16, d: d as u16, hh: 0, mm: 0, ss: 0 });
            },
            _ => {
                proof {
                    if l == 8 { assert(!digits_in(src@, 0, 8)); }
                    else { assert(!(digits_in(src@, 0, 4) && digits_in(src@, 5, 7) && digits_in(src@, 8, 10))); }
                }
                return None;
            },
        }
    }
    if (l >= 14 && 48 <= s[4] && s[4] <= 57) || l >= 19 {
        let squished = l >= 14 && 48 <= s[4] && s[4] <= 57;
        let (mi, di, hi, ni, si, rest) =
            if squished { (4usize, 6usize, 8usize, 10usize, 12usize, 14usize) }
            else { (5usize, 8usize, 11usize, 14usize, 17usize, 19usize) };
        let y = parse4(s[0], s[1], s[2], s[3]);
        let m = parse2(s[mi], s[mi + 1]);
        let d = parse2(s[di], s[di + 1]);
        let hh = parse2(s[hi], s[hi + 1]);
        let mm = parse2(s[ni], s[ni + 1]);
        let ss = parse2(s[si], s[si + 1]);
        match (y, m, d, hh, mm, ss) {
            (Some(y), Some(m), Some(d), Some(hh), Some(mm), Some(ss)) => {
                let tail = vstd::slice::slice_subrange(src, rest, l);
                proof {
                    if squished { assert(digits_in(src@, 0, 14)); }
                }
                match parse_offset(tail, false) {
                    Some(o) => {
                        let mut out = crate::Abacus { y, m: m as u16, d: d as u16, hh: hh as u16, mm: mm as u16, ss: ss as u16 };
                        out.apply_offset(o);
                        return Some(out);
                    },
                    None => { return None; },
                }
            },
            _ => {
                proof {
                    if squished { assert(!digits_in(src@, 0, 14)); }
                    else {
                        assert(!(digits_in(src@, 0, 4) && digits_in(src@, 5, 7) && digits_in(src@, 8, 10) && digits_in(src@, 11, 13)
                            && digits_in(src@, 14, 16) && digits_in(src@, 17, 19)));
                    }
                }
                return None;
            },
        }
    }
    None
}

/// `s` without a leading `Www, ` weekday, if it has one.
pub open spec fn strip_weekday(s: Seq<u8>) -> Seq<u8> {
    if s.len() >= 5 && s[3] == 44 && s[4] == 32 { s.subrange(5, s.len() as int) } else { s }
}

/// The day that starts an RFC2822 date (one digit, a space and one digit, or
/// two digits, then a space), and what follows it.
pub open spec fn rfc2822_day(t: Seq<u8>) -> Option<(int, Seq<u8>)> {
    if t.len() >= 2 && is_digit(t[0]) && t[1] == 32 {
        Some((digit_value(t[0]), t.subrange(2, t.len() as int)))
    } else if t.len() >= 3 && t[0] == 32 && is_digit(t[1]) && t[2] == 32 {
        Some((digit_value(t[1]), t.subrange(3, t.len() as int)))
    } else if t.len() >= 3 && is_digit(t[0]) && is_digit(t[1]) && t[2] == 32 {
        Some((two_digits(t[0], t[1]), t.subrange(3, t.len() as int)))
    } else {
        None
    }
}

/// The `Mon YYYY` that follows the day of an RFC2822 date: year, month
/// number, and what follows.
pub open spec fn rfc2822_month_year(t: Seq<u8>) -> Option<(int, int, Seq<u8>)> {
    if t.len() >= 8 && t[3] == 32 && digits_in(t, 4, 8) && crate::Month::parse_spec(t) is Ok {
        Some((four_digits(t[4], t[5], t[6], t[7]), crate::Month::parse_spec(t)->Ok_0.num(), t.subrange(8, t.len() as int)))
    } else {
        None
    }
}

/// The year, month number, day, and remainder of an RFC2822 date.
pub open spec fn rfc2822_date_spec(s: Seq<u8>) -> Option<(int, int, int, Seq<u8>)> {
    match rfc2822_day(strip_weekday(s)) {
        Some((d, t)) => match rfc2822_month_year(t) {
            Some((y, m, rest)) => Some((y, m, d, rest)),
            None => None,
        },
        None => None,
    }
}

/// The second count (before saturation) of the moment an RFC2822 date or
/// datetime spells out: `[Www, ]D Mon YYYY[ hh:mm:ss[ tail]]`, where the
/// tail is one [`offset_spec`] accepts.
pub open spec fn rfc2822_spec(s: Seq<u8>) -> Option<int> {
    match rfc2822_date_spec(s) {
        Some((y, m, d, r)) => {
            if r.len() >= 9 {
                if digits_in(r, 1, 3) && digits_in(r, 4, 6) && digits_in(r, 7, 9) {
                    match offset_spec(r.subrange(9, r.len() as int), true) {
                        Some(o) => Some(moment_secs(y, m, d, two_digits(r[1], r[2]), two_digits(r[4], r[5]), two_digits(r[7], r[8])) - o),
                        None => None,
                    }
                } else { None }
            } else if r.len() == 0 {
                Some(moment_secs(y, m, d, 0, 0, 0))
            } else {
                None
            }
        },
        None => None,
    }
}

/// The parts an RFC2822 date or datetime spells out, as written, and the
/// UTC offset that follows them; see [`rfc2822_spec`].
pub open spec fn rfc2822_fields(s: Seq<u8>) -> Option<(crate::Abacus, int)> {
    match rfc2822_date_spec(s) {
        Some((y, m, d, r)) => {
            if r.len() >= 9 {
                if digits_in(r, 1, 3) && digits_in(r, 4, 6) && digits_in(r, 7, 9) {
                    match offset_spec(r.subrange(9, r.len() as int), true) {
                        Some(o) => Some((abacus_of(y, m, d, two_digits(r[1], r[2]), two_digits(r[4], r[5]), two_digits(r[7], r[8])), o)),
                        None => None,
                    }
                } else { None }
            } else if r.len() == 0 {
                Some((abacus_of(y, m, d, 0, 0, 0), 0))
            } else {
                None
            }
        },
        None => None,
    }
}

/// The year, month, day, and remainder of an RFC2822 date; see
/// [`rfc2822_date_spec`].
pub fn parse_rfc2822_date(src: &[u8]) -> (r: Option<(u16, crate::Month, u8, &[u8])>)
    ensures
        r is Some <==> rfc2822_date_spec(src@) is Some,
        r matches Some((y, m, d, rest)) ==> {
            &&& rfc2822_date_spec(src@) == Some((y as int, m.num(), d as int, rest@))
            &&& y <= 9999 && d <= 99
        },
{
    let mut p: usize = 0;
    let l = src.len();
    if l >= 5 && src[3] == 44 && src[4] == 32 { p = 5; }
    let ghost t = strip_weekday(src@);
    assert(t =~= src@.subrange(p as int, l as int));
    let d: u8;
    if l - p >= 2 && 48 <= src[p] && src[p] <= 57 && src[p + 1] == 32 {
        d = src[p] - 48;
        p = p + 2;
    } else if l - p >= 3 && src[p] == 32 && 48 <= src[p + 1] && src[p + 1] <= 57 && src[p + 2] == 32 {
        d = src[p + 1] - 48;
        p = p + 3;
    } else if l - p >= 3 && 48 <= src[p] && src[p] <= 57 && 48 <= src[p + 1] && src[p + 1] <= 57 && src[p + 2] == 32 {
        d = (src[p] - 48) * 10 + (src[p + 1] - 48);
        p = p + 3;
    } else {
        return None;
    }
    let ghost t2 = rfc2822_day(t).unwrap().1;
    assert(t2 =~= src@.subrange(p as int, l as int));
    if l - p >= 8 && src[p + 3] == 32 {
        let rest = vstd::slice::slice_subrange(src, p, l);
        match (crate::Month::parse_bytes(rest), parse4(src[p + 4], src[p + 5], src[p + 6], src[p + 7])) {
            (Ok(m), Some(y)) => {
                assert(digits_in(t2, 4, 8));
                let tail = vstd::slice::slice_subrange(src, p + 8, l);
                assert(tail@ =~= t2.subrange(8, t2.len() as int));
                return Some((y, m, d, tail));
            },
            _ => {
                proof {
                    if digits_in(t2, 4, 8) {
                        assert(is_digit(t2[4]) && is_digit(t2[5]) && is_digit(t2[6]) && is_digit(t2[7]));
                    }
                }
                return None;
            },
        }
    }
    None
}

/// The raw parts of an RFC2822 date or datetime, with any UTC offset already
/// applied; see [`rfc2822_spec`]. The parts may be unbalanced.
pub(crate) fn parse_rfc2822_raw(src: &[u8]) -> (r: Option<crate::Abacus>)
    ensures
        r is Some <==> rfc2822_spec(src@) is Some,
        r is Some <==> rfc2822_fields(src@) is Some,
        r matches Some(a) ==> rfc2822_fields(src@) matches Some((f, o)) && f.offset_applied(o, a),
        r matches Some(a) ==> a.rebalanceable() && crate::calendar::clamp_secs(a.secs()) == crate::calendar::clamp_secs(rfc2822_spec(src@).unwrap()),
{
    match parse_rfc2822_date(src) {
        Some((y, m, d, rest)) => {
            proof { m.lemma_num_from_num(); }
            let mut out = crate::Abacus { y, m: m.number() as u16, d: d as u16, hh: 0, mm: 0, ss: 0 };
            let l = rest.len();
            if l >= 9 {
                let hh = parse2(rest[1], rest[2]);
                let mm = parse2(rest[4], rest[5]);
                let ss = parse2(rest[7], rest[8]);
                match (hh, mm, ss) {
                    (Some(hh), Some(mm), Some(ss)) => {
                        let tail = vstd::slice::slice_subrange(rest, 9, l);
                        match parse_offset(tail, true) {
                            Some(o) => {
                                out.hh = hh as u16;
                                out.mm = mm as u16;
                                out.ss = ss as u16;
                                out.apply_offset(o);
                                Some(out)
                            },
                            None => None,
                        }
                    },
                    _ => {
                        proof {
                            assert(!(digits_in(rest@, 1, 3) && digits_in(rest@, 4, 6) && digits_in(rest@, 7, 9)));
                        }
                        None
                    },
                }
            } else if l == 0 {
                Some(out)
            } else {
                None
            }
        },
        None => None,
    }
}

} // verus!
