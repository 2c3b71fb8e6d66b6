//! Properties that relate the library's operations to one another.

use vstd::prelude::*;
use vstd::utf8::{encode_utf8, is_ascii_chars, is_ascii_chars_encode_utf8};
use crate::calendar::{century_secs, lemma_linear_day_balanced, lemma_valid_secs_range, moment_secs};
use crate::fmt::{ascii_chars, digit_byte};
use crate::parse::{ascii_spec, digits_in, four_digits, is_digit, offset_spec, two_digits};
use crate::{FmtUtc2k, Local2k, Month, Utc2k, Weekday};

verus! {

/// A unix timestamp within the century comes back unchanged from the moment
/// it gives: whatever moment saturates its second count has it as its own.
pub proof fn law_unixtime_round_trip(t: u32, u: Utc2k)
    requires
        Utc2k::MIN_UNIXTIME <= t <= Utc2k::MAX_UNIXTIME,
        u.wf(),
        u.saturates(t - Utc2k::MIN_UNIXTIME),
    ensures
        Utc2k::MIN_UNIXTIME + u.secs() == t,
{
}

/// A moment comes back unchanged from its unix timestamp: the only moment
/// that saturates its second count is itself.
pub proof fn law_moment_round_trip(u: Utc2k, v: Utc2k)
    requires
        u.wf(),
        v.wf(),
        v.saturates(u.secs()),
    ensures
        v == u,
{
    lemma_valid_secs_range(u.year_spec(), u.month_spec(), u.day_spec(), u.hour_spec(), u.minute_spec(), u.second_spec());
    Utc2k::lemma_saturates_unique(u, v, u.secs());
}

/// The text of a moment determines the moment: any [`FmtUtc2k`] holding it
/// spells out that moment.
pub proof fn law_text_round_trip(u: Utc2k, f: FmtUtc2k)
    requires
        u.wf(),
        f.text() == u.text(),
    ensures
        f.moment() == u,
{
    let c = f.moment();
    assert(exists|x: Utc2k| x.wf() && f.bytes@ == #[trigger] x.text());
    Utc2k::lemma_text(c, u);
}

/// Adding seconds and then taking them away again gives back the moment,
/// when the sum stays within the century: `(u + n) - n == u`.
pub proof fn law_add_then_sub(u: Utc2k, n: u32, sum: Utc2k, back: Utc2k)
    requires
        u.wf(),
        sum.wf(),
        back.wf(),
        u.secs() + n <= century_secs(),
        sum.saturates(u.secs() + n),
        back.saturates(sum.secs() - n),
    ensures
        back == u,
{
    lemma_valid_secs_range(u.year_spec(), u.month_spec(), u.day_spec(), u.hour_spec(), u.minute_spec(), u.second_spec());
    Utc2k::lemma_saturates_unique(back, u, u.secs());
}

/// Taking seconds away and then adding them back gives back the moment,
/// when the difference stays within the century: `(u - n) + n == u`.
pub proof fn law_sub_then_add(u: Utc2k, n: u32, diff: Utc2k, back: Utc2k)
    requires
        u.wf(),
        diff.wf(),
        back.wf(),
        u.secs() >= n,
        diff.saturates(u.secs() - n),
        back.saturates(diff.secs() + n),
    ensures
        back == u,
{
    lemma_valid_secs_range(u.year_spec(), u.month_spec(), u.day_spec(), u.hour_spec(), u.minute_spec(), u.second_spec());
    Utc2k::lemma_saturates_unique(back, u, u.secs());
}

/// A local date/time stands for the moment it was made from: the UTC moment
/// with its second count is that moment.
pub proof fn law_local_round_trip(u: Utc2k, l: Local2k, back: Utc2k)
    requires
        u.wf(),
        back.wf(),
        l.utc_secs() == u.secs(),
        back.secs() == l.utc_secs(),
    ensures
        back == u,
{
    Utc2k::lemma_secs_injective(back, u);
}

/// The RFC3339 text of a moment, read back as an ASCII datetime, gives the
/// moment's own second count, so parsing it gives back the moment.
pub proof fn law_rfc3339_round_trip(u: Utc2k)
    requires
        u.wf(),
    ensures
        ascii_spec(encode_utf8(u.rfc3339_chars())) == Some(u.secs()),
{
    let t = u.text();
    let c = u.rfc3339_chars();
    Utc2k::lemma_text(u, u);
    assert(c.len() == 20);
    assert forall|i: int| 0 <= i < 20 implies '\0' <= #[trigger] c[i] <= '\u{7f}' by {
        if i < 10 { assert(c[i] == t[i] as char); }
        else if 11 <= i < 19 { assert(c[i] == t[i] as char); }
    }
    assert(is_ascii_chars(c));
    is_ascii_chars_encode_utf8(c);
    let b = encode_utf8(c);
    assert(b.len() == 20);
    assert forall|i: int| 0 <= i < 19 && i != 10 implies #[trigger] b[i] == t[i] by {
        assert(c[i] == t[i] as char);
    }
    assert(b[10] == 84u8);
    assert(b[19] == 90u8);
    lemma_undigits(u);
    assert(!is_digit(b[4]));
    assert(digits_in(b, 0, 4) && digits_in(b, 5, 7) && digits_in(b, 8, 10) && digits_in(b, 11, 13)
        && digits_in(b, 14, 16) && digits_in(b, 17, 19));
    let tail = b.subrange(19, 20);
    assert(tail.len() == 1 && tail[0] == 90u8);
    assert(tail.subrange(0, 0) =~= Seq::<u8>::empty());
    assert(crate::parse::trim_end(Seq::<u8>::empty()) == Seq::<u8>::empty());
    assert(offset_spec(tail, false) == Some(0int));
    assert(four_digits(b[0], b[1], b[2], b[3]) == 2000 + u.year_spec() - 2000);
    lemma_linear_day_balanced(u.year_spec(), u.month_spec(), u.day_spec());
}

/// The digit bytes of a moment's text spell its parts.
proof fn lemma_undigits(u: Utc2k)
    requires
        u.wf(),
    ensures
        four_digits(u.text()[0], u.text()[1], u.text()[2], u.text()[3]) == u.year_spec(),
        two_digits(u.text()[5], u.text()[6]) == u.month_spec(),
        two_digits(u.text()[8], u.text()[9]) == u.day_spec(),
        two_digits(u.text()[11], u.text()[12]) == u.hour_spec(),
        two_digits(u.text()[14], u.text()[15]) == u.minute_spec(),
        two_digits(u.text()[17], u.text()[18]) == u.second_spec(),
        is_digit(u.text()[0]) && is_digit(u.text()[1]) && is_digit(u.text()[2]) && is_digit(u.text()[3]),
        is_digit(u.text()[5]) && is_digit(u.text()[6]) && is_digit(u.text()[8]) && is_digit(u.text()[9]),
        is_digit(u.text()[11]) && is_digit(u.text()[12]) && is_digit(u.text()[14]) && is_digit(u.text()[15]),
        is_digit(u.text()[17]) && is_digit(u.text()[18]),
        u.text()[4] == 45u8,
{
}

/// Setting the case bit of an ASCII letter lowercases it.
proof fn lemma_lower_bit(b: u8)
    ensures
        65 <= b <= 90 ==> (b | 32u8) == b + 32,
        97 <= b <= 122 ==> (b | 32u8) == b,
{
    assert(65 <= b <= 90 ==> (b | 32u8) == b + 32) by (bit_vector);
    assert(97 <= b <= 122 ==> (b | 32u8) == b) by (bit_vector);
}

/// A weekday's abbreviation is three ASCII letters.
proof fn lemma_weekday_abbr(w: Weekday)
    ensures
        w.abbr().len() == 3,
        is_ascii_chars(w.abbr()),
{
    reveal_strlit("Sun");
    reveal_strlit("Mon");
    reveal_strlit("Tue");
    reveal_strlit("Wed");
    reveal_strlit("Thu");
    reveal_strlit("Fri");
    reveal_strlit("Sat");
}

/// A month's abbreviation is three ASCII letters that lowercase to the
/// bytes it is matched by.
proof fn lemma_month_abbr(m: Month)
    ensures
        m.abbr().len() == 3,
        is_ascii_chars(m.abbr()),
        ((m.abbr()[0] as u8) | 32u8, (m.abbr()[1] as u8) | 32u8, (m.abbr()[2] as u8) | 32u8) == m.abbr_lower(),
{
    reveal_strlit("Jan");
    reveal_strlit("Feb");
    reveal_strlit("Mar");
    reveal_strlit("Apr");
    reveal_strlit("May");
    reveal_strlit("Jun");
    reveal_strlit("Jul");
    reveal_strlit("Aug");
    reveal_strlit("Sep");
    reveal_strlit("Oct");
    reveal_strlit("Nov");
    reveal_strlit("Dec");
    let a = m.abbr();
    lemma_lower_bit(a[0] as u8);
    lemma_lower_bit(a[1] as u8);
    lemma_lower_bit(a[2] as u8);
}

/// The RFC2822 text of a moment, read back, gives the moment's own second
/// count, so parsing it gives back the moment.
pub proof fn law_rfc2822_round_trip(u: Utc2k)
    requires
        u.wf(),
    ensures
        crate::parse::rfc2822_spec(encode_utf8(u.rfc2822_chars())) == Some(u.secs()),
{
    reveal_strlit(", ");
    reveal_strlit(" ");
    reveal_strlit(" 20");
    reveal_strlit(":");
    reveal_strlit(" +0000");
    let w = Weekday::from_num(u.day_number_spec() + 7);
    let m = Month::from_num(u.month_spec());
    lemma_weekday_abbr(w);
    lemma_month_abbr(m);
    Month::lemma_from_num(u.month_spec());
    let wa = w.abbr();
    let ma = m.abbr();
    let c = u.rfc2822_chars();
    assert(c =~= seq![
        wa[0], wa[1], wa[2], ',', ' ',
        crate::fmt::digit_char(u.day_spec() / 10), crate::fmt::digit_char(u.day_spec() % 10), ' ',
        ma[0], ma[1], ma[2], ' ', '2', '0',
        crate::fmt::digit_char((u.year_spec() - 2000) / 10), crate::fmt::digit_char((u.year_spec() - 2000) % 10), ' ',
        crate::fmt::digit_char(u.hour_spec() / 10), crate::fmt::digit_char(u.hour_spec() % 10), ':',
        crate::fmt::digit_char(u.minute_spec() / 10), crate::fmt::digit_char(u.minute_spec() % 10), ':',
        crate::fmt::digit_char(u.second_spec() / 10), crate::fmt::digit_char(u.second_spec() % 10),
        ' ', '+', '0', '0', '0', '0',
    ]);
    assert(c.len() == 31);
    assert forall|i: int| 0 <= i < 31 implies '\0' <= #[trigger] c[i] <= '\u{7f}' by {
        if i < 3 { assert(c[i] == wa[i]); } else if 8 <= i < 11 { assert(c[i] == ma[i - 8]); }
    }
    assert(is_ascii_chars(c));
    is_ascii_chars_encode_utf8(c);
    let b = encode_utf8(c);
    assert(b.len() == 31);
    assert forall|i: int| 0 <= i < 31 implies #[trigger] b[i] == c[i] as u8 by {}
    let d = u.day_spec();
    let y = u.year_spec() - 2000;
    assert(b[3] == 44u8 && b[4] == 32u8);
    let t = crate::parse::strip_weekday(b);
    assert(t =~= b.subrange(5, 31));
    assert(is_digit(t[0]) && is_digit(t[1]) && t[2] == 32u8);
    assert(two_digits(t[0], t[1]) == d);
    let t2 = t.subrange(3, 26);
    assert(crate::parse::rfc2822_day(t) == Some((d, t2)));
    assert(t2[3] == 32u8);
    assert(digits_in(t2, 4, 8));
    assert(four_digits(t2[4], t2[5], t2[6], t2[7]) == u.year_spec());
    assert((t2[0] | 32u8, t2[1] | 32u8, t2[2] | 32u8) == m.abbr_lower());
    assert(Month::parse_spec(t2) is Ok);
    let pm = Month::parse_spec(t2)->Ok_0;
    Month::lemma_abbr_lower_injective(pm, m);
    let r = t2.subrange(8, 23);
    assert(crate::parse::rfc2822_month_year(t2) == Some((u.year_spec(), u.month_spec(), r)));
    assert(crate::parse::rfc2822_date_spec(b) == Some((u.year_spec(), u.month_spec(), d, r)));
    assert(r.len() == 15);
    assert(digits_in(r, 1, 3) && digits_in(r, 4, 6) && digits_in(r, 7, 9));
    let tail = r.subrange(9, 15);
    assert(tail[1] == 43u8);
    assert(digits_in(tail, 2, 6));
    assert(tail.subrange(0, 1) =~= seq![32u8]);
    assert(seq![32u8].drop_last() =~= Seq::<u8>::empty());
    assert(crate::parse::trim_end(Seq::<u8>::empty()) == Seq::<u8>::empty());
    assert(crate::parse::trim_end(seq![32u8]) == Seq::<u8>::empty());
    assert(offset_spec(tail, true) == Some(0int));
    lemma_linear_day_balanced(u.year_spec(), u.month_spec(), u.day_spec());
}

/// The `YYYY-MM-DD hh:mm:ss` text of a moment, read back as an ASCII
/// datetime, gives the moment's own second count, so parsing it gives back
/// the moment.
pub proof fn law_text_parse_round_trip(u: Utc2k)
    requires
        u.wf(),
    ensures
        ascii_spec(u.text()) == Some(u.secs()),
{
    let t = u.text();
    Utc2k::lemma_text(u, u);
    lemma_undigits(u);
    assert(t.len() == 19);
    assert(!is_digit(t[4]));
    assert(digits_in(t, 0, 4) && digits_in(t, 5, 7) && digits_in(t, 8, 10) && digits_in(t, 11, 13)
        && digits_in(t, 14, 16) && digits_in(t, 17, 19));
    assert(t.subrange(19, 19) =~= Seq::<u8>::empty());
    assert(offset_spec(Seq::<u8>::empty(), false) == Some(0int));
    lemma_linear_day_balanced(u.year_spec(), u.month_spec(), u.day_spec());
}

/// The name of a period, in either case or in AP style, reads back as that
/// period.
pub proof fn law_period_round_trip(p: crate::Period)
    ensures
        crate::Period::parse_spec(encode_utf8(p.lower())) == Some(p),
        crate::Period::parse_spec(encode_utf8(p.upper())) == Some(p),
        crate::Period::parse_spec(encode_utf8(p.ap())) == Some(p),
{
    reveal_strlit("am");
    reveal_strlit("pm");
    reveal_strlit("AM");
    reveal_strlit("PM");
    reveal_strlit("a.m.");
    reveal_strlit("p.m.");
    let names = seq![p.lower(), p.upper(), p.ap()];
    assert forall|k: int| 0 <= k < 3 implies
        crate::Period::parse_spec(encode_utf8(#[trigger] names[k])) == Some(p) by {
        let c = names[k];
        assert(is_ascii_chars(c));
        is_ascii_chars_encode_utf8(c);
        let b = encode_utf8(c);
        lemma_trim_plain(b);
        if c.len() == 2 {
            assert(b =~= seq![c[0] as u8, c[1] as u8]);
        } else {
            assert(b =~= seq![c[0] as u8, c[1] as u8, c[2] as u8, c[3] as u8]);
        }
    }
    assert(names[0] == p.lower() && names[1] == p.upper() && names[2] == p.ap());
}

/// Trimming bytes that neither start nor end with whitespace changes
/// nothing.
proof fn lemma_trim_plain(b: Seq<u8>)
    requires
        b.len() > 0,
        !crate::parse::is_space(b[0]),
        !crate::parse::is_space(b[b.len() - 1]),
    ensures
        crate::parse::trim_end(crate::parse::trim_start(b)) == b,
{
}


/// The RFC2822 text of a local date/time with an offset, read back, gives
/// the second count of the UTC moment it stands for: the `±hhmm` suffix
/// undoes the offset.
pub proof fn law_rfc2822_offset_round_trip(u: Utc2k, o: i32)
    requires
        u.wf(),
        crate::local::offset_ok(o as int),
    ensures
        crate::parse::rfc2822_spec(encode_utf8(crate::local::rfc2822_local_chars(u, Some(o)))) == Some(u.secs() - o),
{
    reveal_strlit(", ");
    reveal_strlit(" ");
    reveal_strlit(" 20");
    reveal_strlit(":");
    let w = Weekday::from_num(u.day_number_spec() + 7);
    let m = Month::from_num(u.month_spec());
    lemma_weekday_abbr(w);
    lemma_month_abbr(m);
    Month::lemma_from_num(u.month_spec());
    let wa = w.abbr();
    let ma = m.abbr();
    let sfx = crate::local::suffix_bytes(o as int);
    let c = crate::local::rfc2822_local_chars(u, Some(o));
    assert(c =~= seq![
        wa[0], wa[1], wa[2], ',', ' ',
        crate::fmt::digit_char(u.day_spec() / 10), crate::fmt::digit_char(u.day_spec() % 10), ' ',
        ma[0], ma[1], ma[2], ' ', '2', '0',
        crate::fmt::digit_char((u.year_spec() - 2000) / 10), crate::fmt::digit_char((u.year_spec() - 2000) % 10), ' ',
        crate::fmt::digit_char(u.hour_spec() / 10), crate::fmt::digit_char(u.hour_spec() % 10), ':',
        crate::fmt::digit_char(u.minute_spec() / 10), crate::fmt::digit_char(u.minute_spec() % 10), ':',
        crate::fmt::digit_char(u.second_spec() / 10), crate::fmt::digit_char(u.second_spec() % 10),
        ' ', sfx[0] as char, sfx[1] as char, sfx[2] as char, sfx[3] as char, sfx[4] as char,
    ]);
    let a: int = if o < 0 { -o } else { o as int };
    let hh = a / 3600;
    let mm = a % 3600 / 60;
    assert(0 <= hh <= 23 && 0 <= mm <= 59);
    assert(c.len() == 31);
    assert forall|i: int| 0 <= i < 31 implies '\0' <= #[trigger] c[i] <= '\u{7f}' by {
        if i < 3 { assert(c[i] == wa[i]); } else if 8 <= i < 11 { assert(c[i] == ma[i - 8]); }
    }
    assert(is_ascii_chars(c));
    is_ascii_chars_encode_utf8(c);
    let b = encode_utf8(c);
    assert(b.len() == 31);
    assert forall|i: int| 0 <= i < 31 implies #[trigger] b[i] == c[i] as u8 by {}
    let d = u.day_spec();
    assert(b[3] == 44u8 && b[4] == 32u8);
    let t = crate::parse::strip_weekday(b);
    assert(t =~= b.subrange(5, 31));
    assert(is_digit(t[0]) && is_digit(t[1]) && t[2] == 32u8);
    assert(two_digits(t[0], t[1]) == d);
    let t2 = t.subrange(3, 26);
    assert(crate::parse::rfc2822_day(t) == Some((d, t2)));
    assert(t2[3] == 32u8);
    assert(digits_in(t2, 4, 8));
    assert(four_digits(t2[4], t2[5], t2[6], t2[7]) == u.year_spec());
    assert((t2[0] | 32u8, t2[1] | 32u8, t2[2] | 32u8) == m.abbr_lower());
    assert(Month::parse_spec(t2) is Ok);
    let pm = Month::parse_spec(t2)->Ok_0;
    Month::lemma_abbr_lower_injective(pm, m);
    let r = t2.subrange(8, 23);
    assert(crate::parse::rfc2822_month_year(t2) == Some((u.year_spec(), u.month_spec(), r)));
    assert(crate::parse::rfc2822_date_spec(b) == Some((u.year_spec(), u.month_spec(), d, r)));
    assert(r.len() == 15);
    assert(digits_in(r, 1, 3) && digits_in(r, 4, 6) && digits_in(r, 7, 9));
    let tail = r.subrange(9, 15);
    assert(tail[0] == 32u8);
    assert(tail[1] == sfx[0] && tail[2] == sfx[1] && tail[3] == sfx[2] && tail[4] == sfx[3] && tail[5] == sfx[4]);
    assert(crate::parse::is_sign(tail[1]));
    assert(digits_in(tail, 2, 6));
    assert(two_digits(tail[2], tail[3]) == hh);
    assert(two_digits(tail[4], tail[5]) == mm);
    assert((hh * 3600 + mm * 60) % 86400 == a) by (nonlinear_arith)
        requires
            0 <= a < 86400,
            a % 60 == 0,
            hh == a / 3600,
            mm == a % 3600 / 60,
    {}
    assert(tail.subrange(0, 1) =~= seq![32u8]);
    assert(seq![32u8].drop_last() =~= Seq::<u8>::empty());
    assert(crate::parse::trim_end(Seq::<u8>::empty()) == Seq::<u8>::empty());
    assert(crate::parse::trim_end(seq![32u8]) == Seq::<u8>::empty());
    assert(offset_spec(tail, true) == Some(o as int));
    lemma_linear_day_balanced(u.year_spec(), u.month_spec(), u.day_spec());
}

/// The RFC2822 text of a local date/time, read back, gives the second count
/// of the UTC moment it stands for, with or without an offset.
pub proof fn law_local_rfc2822_round_trip(l: Local2k)
    requires
        l.local().wf(),
        l.offset_spec() matches Some(o) ==> crate::local::offset_ok(o as int),
    ensures
        crate::parse::rfc2822_spec(encode_utf8(crate::local::rfc2822_local_chars(l.local(), l.offset_spec()))) == Some(l.utc_secs()),
{
    match l.offset_spec() {
        Some(o) => law_rfc2822_offset_round_trip(l.local(), o),
        None => law_rfc2822_round_trip(l.local()),
    }
}

/// On the twelve-hour clock the hour runs from 1 to 12, and the period says
/// which half of the day it is: before noon is [`Period::Am`](crate::Period),
/// noon and after is `Pm`. The two together give back the hour.
pub proof fn law_twelve_hour_clock(u: Utc2k)
    requires
        u.wf(),
    ensures
        (crate::fancy::period_spec(u.hour_spec()) == crate::Period::Pm) <==> 12 <= u.hour_spec(),
        (crate::fancy::period_spec(u.hour_spec()) == crate::Period::Am) <==> u.hour_spec() < 12,
        1 <= crate::fancy::hour12_spec(u.hour_spec()) <= 12,
        crate::fancy::hour12_spec(u.hour_spec()) % 12
            + (if crate::fancy::period_spec(u.hour_spec()) == crate::Period::Pm { 12int } else { 0int })
            == u.hour_spec(),
{
}

/// The English name of month `n`, January being 1, spelled letter by letter.
pub open spec fn english_month(n: int) -> Seq<char> {
    if n == 1 { seq!['J', 'a', 'n', 'u', 'a', 'r', 'y'] }
    else if n == 2 { seq!['F', 'e', 'b', 'r', 'u', 'a', 'r', 'y'] }
    else if n == 3 { seq!['M', 'a', 'r', 'c', 'h'] }
    else if n == 4 { seq!['A', 'p', 'r', 'i', 'l'] }
    else if n == 5 { seq!['M', 'a', 'y'] }
    else if n == 6 { seq!['J', 'u', 'n', 'e'] }
    else if n == 7 { seq!['J', 'u', 'l', 'y'] }
    else if n == 8 { seq!['A', 'u', 'g', 'u', 's', 't'] }
    else if n == 9 { seq!['S', 'e', 'p', 't', 'e', 'm', 'b', 'e', 'r'] }
    else if n == 10 { seq!['O', 'c', 't', 'o', 'b', 'e', 'r'] }
    else if n == 11 { seq!['N', 'o', 'v', 'e', 'm', 'b', 'e', 'r'] }
    else { seq!['D', 'e', 'c', 'e', 'm', 'b', 'e', 'r'] }
}

/// The English name of weekday `n`, Sunday being 1, spelled letter by letter.
pub open spec fn english_weekday(n: int) -> Seq<char> {
    if n == 1 { seq!['S', 'u', 'n', 'd', 'a', 'y'] }
    else if n == 2 { seq!['M', 'o', 'n', 'd', 'a', 'y'] }
    else if n == 3 { seq!['T', 'u', 'e', 's', 'd', 'a', 'y'] }
    else if n == 4 { seq!['W', 'e', 'd', 'n', 'e', 's', 'd', 'a', 'y'] }
    else if n == 5 { seq!['T', 'h', 'u', 'r', 's', 'd', 'a', 'y'] }
    else if n == 6 { seq!['F', 'r', 'i', 'd', 'a', 'y'] }
    else { seq!['S', 'a', 't', 'u', 'r', 'd', 'a', 'y'] }
}

/// A month's name is its English name, and its abbreviation is the first
/// three letters of that name.
pub proof fn law_month_names(m: Month)
    ensures
        m.name() == english_month(m.num()),
        m.abbr() == m.name().subrange(0, 3),
{
    reveal_strlit("January"); reveal_strlit("February"); reveal_strlit("March");
    reveal_strlit("April"); reveal_strlit("May"); reveal_strlit("June");
    reveal_strlit("July"); reveal_strlit("August"); reveal_strlit("September");
    reveal_strlit("October"); reveal_strlit("November"); reveal_strlit("December");
    reveal_strlit("Jan"); reveal_strlit("Feb"); reveal_strlit("Mar"); reveal_strlit("Apr");
    reveal_strlit("Jun"); reveal_strlit("Jul"); reveal_strlit("Aug");
    reveal_strlit("Sep"); reveal_strlit("Oct"); reveal_strlit("Nov"); reveal_strlit("Dec");
    assert(m.name() =~= english_month(m.num()));
    assert(m.abbr() =~= m.name().subrange(0, 3));
}

/// A weekday's name is its English name, and its abbreviation is the first
/// three letters of that name.
pub proof fn law_weekday_names(w: Weekday)
    ensures
        w.name() == english_weekday(w.num()),
        w.abbr() == w.name().subrange(0, 3),
{
    reveal_strlit("Sunday"); reveal_strlit("Monday"); reveal_strlit("Tuesday");
    reveal_strlit("Wednesday"); reveal_strlit("Thursday"); reveal_strlit("Friday");
    reveal_strlit("Saturday");
    reveal_strlit("Sun"); reveal_strlit("Mon"); reveal_strlit("Tue"); reveal_strlit("Wed");
    reveal_strlit("Thu"); reveal_strlit("Fri"); reveal_strlit("Sat");
    assert(w.name() =~= english_weekday(w.num()));
    assert(w.abbr() =~= w.name().subrange(0, 3));
}

} // verus!
