//! Custom formatting of a [`Utc2k`] from a template such as
//! `"[year]-[month]-[day] [hour]:[minute]:[second]"`.
//!
//! A template is ASCII text. `[[` writes a literal `[`; any other `[` opens a
//! component, which is closed by `]` and may carry `@` modifiers:
//!
//! * `[year]` (`@2`, `@space`, `@trim`)
//! * `[month]` (`@name`, `@abbr`, `@space`, `@trim`)
//! * `[day]` (`@name`, `@abbr`, `@space`, `@trim`)
//! * `[hour]` (`@12`, `@space`, `@trim`)
//! * `[minute]`, `[second]`, `[ordinal]` (`@space`, `@trim`)
//! * `[period]` (`@ap`, `@upper`)
//! * `[unixtime]`
//!
//! Everything else is copied as-is.

use vstd::prelude::*;
use vstd::string::StringExecFns;
use vstd::string::StringSliceAdditionalSpecFns;
use crate::calendar::days_before_month;
use crate::fmt::{dd_chars, digit_char, push_char, push_dd};
use crate::parse::{is_space, lemma_trim_start, trim_start, trim_start_bytes};
use crate::{Month, Period, Utc2k, Utc2kFormatError, Weekday};

verus! {

/// The left padding of a number.
#[derive(Debug, Clone, Copy, PartialEq, Eq, Structural, Hash)]
pub enum Padding {
    /// Zeroes, the default.
    Zero,
    /// Spaces.
    Space,
    /// None.
    Trim,
}

/// Which representation of a value to write; its meaning depends on the
/// component.
#[derive(Debug, Clone, Copy, PartialEq, Eq, Structural, Hash)]
pub enum Style {
    /// The default.
    Main,
    /// `[year @2]`, `[month @name]`, `[day @name]`, `[hour @12]`, or
    /// `[period @ap]`.
    Alt1,
    /// `[month @abbr]`, `[day @abbr]`, or `[period @upper]`.
    Alt2,
}

/// One piece of a template.
#[derive(Debug, Clone, Copy, PartialEq, Eq, Structural, Hash)]
pub enum Component {
    /// The year.
    Year(Style, Padding),
    /// The month.
    Month(Style, Padding),
    /// The day of the month, or the weekday.
    Day(Style, Padding),
    /// The hour.
    Hour(Style, Padding),
    /// The minute.
    Minute(Padding),
    /// The second.
    Second(Padding),
    /// The day of the year.
    Ordinal(Padding),
    /// AM or PM.
    Period(Style),
    /// The unix timestamp.
    Unixtime,
    /// A byte copied as-is.
    Literal(u8),
}

/// A modifier: either a padding or a style.
#[derive(Debug, Clone, Copy, PartialEq, Eq, Structural, Hash)]
pub enum Modifier {
    /// A padding.
    Padding(Padding),
    /// A style.
    Style(Style),
}

/// The components that take modifiers.
#[derive(Debug, Clone, Copy, PartialEq, Eq, Structural, Hash)]
pub enum Field {
    /// `[year]`.
    Year,
    /// `[month]`.
    Month,
    /// `[day]`.
    Day,
    /// `[hour]`.
    Hour,
    /// `[minute]`.
    Minute,
    /// `[second]`.
    Second,
    /// `[ordinal]`.
    Ordinal,
    /// `[period]`.
    Period,
}

/// `t` begins with `p`.
pub open spec fn starts(t: Seq<u8>, p: Seq<u8>) -> bool {
    p.len() <= t.len() && t.subrange(0, p.len() as int) == p
}

/// `@2`.
pub open spec fn at_2() -> Seq<u8> { seq![64u8, 50u8] }
/// `@12`.
pub open spec fn at_12() -> Seq<u8> { seq![64u8, 49u8, 50u8] }
/// `@space`.
pub open spec fn at_space() -> Seq<u8> { seq![64u8, 115u8, 112u8, 97u8, 99u8, 101u8] }
/// `@trim`.
pub open spec fn at_trim() -> Seq<u8> { seq![64u8, 116u8, 114u8, 105u8, 109u8] }
/// `@name`.
pub open spec fn at_name() -> Seq<u8> { seq![64u8, 110u8, 97u8, 109u8, 101u8] }
/// `@abbr`.
pub open spec fn at_abbr() -> Seq<u8> { seq![64u8, 97u8, 98u8, 98u8, 114u8] }
/// `@ap`.
pub open spec fn at_ap() -> Seq<u8> { seq![64u8, 97u8, 112u8] }
/// `@upper`.
pub open spec fn at_upper() -> Seq<u8> { seq![64u8, 117u8, 112u8, 112u8, 101u8, 114u8] }

/// The modifier of field `f` that `t` begins with, and its length.
pub open spec fn modifier_match(f: Field, t: Seq<u8>) -> Option<(Modifier, int)> {
    let pads = if starts(t, at_space()) { Some((Modifier::Padding(Padding::Space), 6int)) }
        else if starts(t, at_trim()) { Some((Modifier::Padding(Padding::Trim), 5int)) }
        else { None };
    let names = if starts(t, at_name()) { Some((Modifier::Style(Style::Alt1), 5int)) }
        else if starts(t, at_abbr()) { Some((Modifier::Style(Style::Alt2), 5int)) }
        else { pads };
    match f {
        Field::Year => if starts(t, at_2()) { Some((Modifier::Style(Style::Alt1), 2int)) } else { pads },
        Field::Month | Field::Day => names,
        Field::Hour => if starts(t, at_12()) { Some((Modifier::Style(Style::Alt1), 3int)) } else { pads },
        Field::Minute | Field::Second | Field::Ordinal => pads,
        Field::Period => if starts(t, at_ap()) { Some((Modifier::Style(Style::Alt1), 3int)) }
            else if starts(t, at_upper()) { Some((Modifier::Style(Style::Alt2), 6int)) }
            else { None },
    }
}

/// The message for a modifier that field `f` does not take.
pub open spec fn modifier_hint(f: Field) -> &'static str {
    match f {
        Field::Year => "Expected [year… @2, @space, @trim,  …].",
        Field::Month => "Expected [month… @name, @abbr, @space, @trim,  …].",
        Field::Day => "Expected [day… @name, @abbr, @space, @trim,  …].",
        Field::Hour => "Expected [hour… @12, @space, @trim,  …].",
        Field::Minute => "Expected [minute… @space, @trim,  …].",
        Field::Second => "Expected [second… @space, @trim,  …].",
        Field::Ordinal => "Expected [ordinal… @space, @trim,  …].",
        Field::Period => "Expected [period… @ap, @upper,  …].",
    }
}

/// The message for a modifier on `[unixtime]`.
pub open spec fn unixtime_hint() -> &'static str {
    "The [unixtime] component has no modifiers."
}

/// Reading one modifier of field `f`, or the closing `]`, after optional
/// whitespace: the modifier, if any, and what follows it.
pub open spec fn modifier_spec(f: Field, raw: Seq<u8>) -> Result<(Option<Modifier>, Seq<u8>), Utc2kFormatError> {
    let t = trim_start(raw);
    match modifier_match(f, t) {
        Some((m, n)) => Ok((Some(m), t.subrange(n, t.len() as int))),
        None => if t.len() > 0 && t[0] == 93 { Ok((None, t.subrange(1, t.len() as int))) }
            else if t.len() > 0 && t[0] == 64 { Err(Utc2kFormatError::InvalidModifier(modifier_hint(f))) }
            else { Err(Utc2kFormatError::Eof) },
    }
}

/// Reading a modifier leaves less behind.
pub proof fn lemma_modifier_shrinks(f: Field, raw: Seq<u8>)
    ensures
        modifier_spec(f, raw) matches Ok((_, rest)) ==> rest.len() < raw.len(),
{
    lemma_trim_start(raw);
}

/// The style and padding the modifiers of field `f` up to the closing `]`
/// set, starting from `style` and `pad`, and what follows the `]`.
pub open spec fn props_spec(f: Field, raw: Seq<u8>, style: Style, pad: Padding) -> Result<(Style, Padding, Seq<u8>), Utc2kFormatError>
    decreases raw.len(),
{
    match modifier_spec(f, raw) {
        Err(e) => Err(e),
        Ok((None, rest)) => Ok((style, pad, rest)),
        Ok((Some(m), rest)) => {
            proof { lemma_modifier_shrinks(f, raw); }
            match m {
                Modifier::Padding(p) => props_spec(f, rest, style, p),
                Modifier::Style(s) => props_spec(f, rest, s, pad),
            }
        },
    }
}

/// Reading modifiers leaves less behind.
pub proof fn lemma_props_shrinks(f: Field, raw: Seq<u8>, style: Style, pad: Padding)
    ensures
        props_spec(f, raw, style, pad) matches Ok((_, _, rest)) ==> rest.len() < raw.len(),
    decreases raw.len(),
{
    lemma_modifier_shrinks(f, raw);
    if let Ok((Some(m), rest)) = modifier_spec(f, raw) {
        match m {
            Modifier::Padding(p) => lemma_props_shrinks(f, rest, style, p),
            Modifier::Style(s) => lemma_props_shrinks(f, rest, s, pad),
        }
    }
}

/// The component of field `f` with a style and a padding.
pub open spec fn field_component(f: Field, s: Style, p: Padding) -> Component {
    match f {
        Field::Year => Component::Year(s, p),
        Field::Month => Component::Month(s, p),
        Field::Day => Component::Day(s, p),
        Field::Hour => Component::Hour(s, p),
        Field::Minute => Component::Minute(p),
        Field::Second => Component::Second(p),
        Field::Ordinal => Component::Ordinal(p),
        Field::Period => Component::Period(s),
    }
}

/// The name of a field in a template.
pub open spec fn field_name(f: Field) -> Seq<u8> {
    match f {
        Field::Year => seq![121u8, 101u8, 97u8, 114u8],
        Field::Month => seq![109u8, 111u8, 110u8, 116u8, 104u8],
        Field::Day => seq![100u8, 97u8, 121u8],
        Field::Hour => seq![104u8, 111u8, 117u8, 114u8],
        Field::Minute => seq![109u8, 105u8, 110u8, 117u8, 116u8, 101u8],
        Field::Second => seq![115u8, 101u8, 99u8, 111u8, 110u8, 100u8],
        Field::Ordinal => seq![111u8, 114u8, 100u8, 105u8, 110u8, 97u8, 108u8],
        Field::Period => seq![112u8, 101u8, 114u8, 105u8, 111u8, 100u8],
    }
}

/// `unixtime`.
pub open spec fn unixtime_name() -> Seq<u8> {
    seq![117u8, 110u8, 105u8, 120u8, 116u8, 105u8, 109u8, 101u8]
}

/// The field whose name `t` begins with, tried in template order.
pub open spec fn field_at(t: Seq<u8>) -> Option<Field> {
    if starts(t, field_name(Field::Year)) { Some(Field::Year) }
    else if starts(t, field_name(Field::Month)) { Some(Field::Month) }
    else if starts(t, field_name(Field::Day)) { Some(Field::Day) }
    else if starts(t, field_name(Field::Hour)) { Some(Field::Hour) }
    else if starts(t, field_name(Field::Minute)) { Some(Field::Minute) }
    else if starts(t, field_name(Field::Second)) { Some(Field::Second) }
    else if starts(t, field_name(Field::Ordinal)) { Some(Field::Ordinal) }
    else if starts(t, field_name(Field::Period)) { Some(Field::Period) }
    else { None }
}

/// Reading the next piece of a template: nothing when it is empty, else
/// the piece and what follows it.
pub open spec fn comp_spec(raw: Seq<u8>) -> Result<Option<(Component, Seq<u8>)>, Utc2kFormatError> {
    if raw.len() == 0 {
        Ok(None)
    } else if raw[0] != 91 {
        Ok(Some((Component::Literal(raw[0]), raw.subrange(1, raw.len() as int))))
    } else if raw.len() >= 2 && raw[1] == 91 {
        Ok(Some((Component::Literal(91u8), raw.subrange(2, raw.len() as int))))
    } else {
        let t = trim_start(raw.subrange(1, raw.len() as int));
        match field_at(t) {
            Some(f) => {
                let n = field_name(f).len() as int;
                match props_spec(f, t.subrange(n, t.len() as int), Style::Main, Padding::Zero) {
                    Ok((s, p, rest)) => Ok(Some((field_component(f, s, p), rest))),
                    Err(e) => Err(e),
                }
            },
            None => if starts(t, unixtime_name()) {
                let u = trim_start(t.subrange(8, t.len() as int));
                if u.len() > 0 && u[0] == 93 { Ok(Some((Component::Unixtime, u.subrange(1, u.len() as int)))) }
                else if u.len() > 0 && u[0] == 64 { Err(Utc2kFormatError::InvalidModifier(unixtime_hint())) }
                else { Err(Utc2kFormatError::Eof) }
            } else {
                Err(Utc2kFormatError::InvalidComponent)
            },
        }
    }
}

/// Reading a piece leaves less behind.
pub proof fn lemma_comp_shrinks(raw: Seq<u8>)
    ensures
        comp_spec(raw) matches Ok(Some((_, rest))) ==> rest.len() < raw.len(),
{
    if raw.len() > 0 && raw[0] == 91 && !(raw.len() >= 2 && raw[1] == 91) {
        let t = trim_start(raw.subrange(1, raw.len() as int));
        lemma_trim_start(raw.subrange(1, raw.len() as int));
        if let Some(f) = field_at(t) {
            let n = field_name(f).len() as int;
            lemma_props_shrinks(f, t.subrange(n, t.len() as int), Style::Main, Padding::Zero);
        } else if starts(t, unixtime_name()) {
            lemma_trim_start(t.subrange(8, t.len() as int));
        }
    }
}

/// The decimal digits of `n`.
pub open spec fn decimal_chars(n: nat) -> Seq<char>
    decreases n,
{
    if n < 10 { seq![digit_char(n as int)] } else { decimal_chars(n / 10).push(digit_char((n % 10) as int)) }
}

/// `k` copies of the padding char, or nothing for [`Padding::Trim`].
pub open spec fn pad_chars(pad: Padding, k: int) -> Seq<char> {
    match pad {
        Padding::Zero => Seq::new(k as nat, |i: int| '0'),
        Padding::Space => Seq::new(k as nat, |i: int| ' '),
        Padding::Trim => Seq::empty(),
    }
}

/// The decimal digits of `n`, left-padded to `width`.
pub open spec fn padded(n: nat, width: int, pad: Padding) -> Seq<char> {
    let d = decimal_chars(n);
    if d.len() < width { pad_chars(pad, width - d.len()) + d } else { d }
}

/// The hour on a 12-hour clock.
pub open spec fn hour12_spec(hh: int) -> int {
    if hh == 0 { 12 } else if hh > 12 { hh - 12 } else { hh }
}

/// The period of an hour.
pub open spec fn period_spec(hh: int) -> Period {
    if hh < 12 { Period::Am } else { Period::Pm }
}

/// What a component writes for a moment.
pub open spec fn render_spec(date: Utc2k, c: Component) -> Seq<char> {
    let y = date.year_spec() - 2000;
    match c {
        Component::Year(s, p) => if s == Style::Main { "20"@ + dd_chars(y) } else { padded(y as nat, 2, p) },
        Component::Month(s, p) => match s {
            Style::Main => padded(date.month_spec() as nat, 2, p),
            Style::Alt1 => Month::from_num(date.month_spec()).name(),
            Style::Alt2 => Month::from_num(date.month_spec()).abbr(),
        },
        Component::Day(s, p) => match s {
            Style::Main => padded(date.day_spec() as nat, 2, p),
            Style::Alt1 => Weekday::from_num(date.day_number_spec() + 7).name(),
            Style::Alt2 => Weekday::from_num(date.day_number_spec() + 7).abbr(),
        },
        Component::Hour(s, p) => if s == Style::Main { padded(date.hour_spec() as nat, 2, p) }
            else { padded(hour12_spec(date.hour_spec()) as nat, 2, p) },
        Component::Minute(p) => padded(date.minute_spec() as nat, 2, p),
        Component::Second(p) => padded(date.second_spec() as nat, 2, p),
        Component::Ordinal(p) => padded((days_before_month(date.year_spec(), date.month_spec()) + date.day_spec()) as nat, 3, p),
        Component::Period(s) => match s {
            Style::Main => period_spec(date.hour_spec()).lower(),
            Style::Alt1 => period_spec(date.hour_spec()).ap(),
            Style::Alt2 => period_spec(date.hour_spec()).upper(),
        },
        Component::Unixtime => decimal_chars((Utc2k::MIN_UNIXTIME + date.secs()) as nat),
        Component::Literal(v) => seq![v as char],
    }
}

/// What a template writes for a moment, or the first error in it.
pub open spec fn format_spec(date: Utc2k, fmt: Seq<u8>) -> Result<Seq<char>, Utc2kFormatError>
    decreases fmt.len(),
{
    match comp_spec(fmt) {
        Err(e) => Err(e),
        Ok(None) => Ok(Seq::empty()),
        Ok(Some((c, rest))) => {
            proof { lemma_comp_shrinks(fmt); }
            match format_spec(date, rest) {
                Ok(s) => Ok(render_spec(date, c) + s),
                Err(e) => Err(e),
            }
        },
    }
}

/// `pre` written before what `r` writes.
pub open spec fn prepend(pre: Seq<char>, r: Result<Seq<char>, Utc2kFormatError>) -> Result<Seq<char>, Utc2kFormatError> {
    match r {
        Ok(s) => Ok(pre + s),
        Err(e) => Err(e),
    }
}

/// Whether `t` begins with `p`.
fn has_prefix(t: &[u8], p: &[u8]) -> (r: bool)
    ensures
        r == starts(t@, p@),
{
    if t.len() < p.len() {
        return false;
    }
    let mut i: usize = 0;
    while i < p.len()
        invariant
            i <= p@.len() <= t@.len(),
            forall|j: int| 0 <= j < i ==> t@[j] == p@[j],
        decreases p@.len() - i,
    {
        if t[i] != p[i] {
            assert(t@.subrange(0, p@.len() as int)[i as int] != p@[i as int]);
            return false;
        }
        i = i + 1;
    }
    assert(t@.subrange(0, p@.len() as int) =~= p@);
    true
}

/// Append the decimal digits of `n`.
fn push_decimal(out: &mut String, n: u32)
    ensures
        final(out)@ == old(out)@ + decimal_chars(n as nat),
    decreases n,
{
    if n >= 10 {
        push_decimal(out, n / 10);
    }
    let d = (n % 10) as u8;
    push_char(out, (48u8 + d) as char);
    proof {
        if n >= 10 {
            assert(final(out)@ =~= old(out)@ + decimal_chars(n as nat));
        } else {
            assert(final(out)@ =~= old(out)@ + decimal_chars(n as nat));
        }
    }
}

/// The number of decimal digits of a number: one, two, or, from 100 up,
/// three or more.
proof fn lemma_decimal_len(n: nat)
    ensures
        n < 10 ==> decimal_chars(n).len() == 1,
        10 <= n < 100 ==> decimal_chars(n).len() == 2,
        100 <= n ==> decimal_chars(n).len() >= 3,
    decreases n,
{
    if n >= 10 {
        lemma_decimal_len(n / 10);
    }
}

/// Append one padding char, if the padding has one.
fn push_pad(out: &mut String, pad: Padding)
    ensures
        final(out)@ == old(out)@ + pad_chars(pad, 1),
{
    match pad {
        Padding::Zero => push_char(out, '0'),
        Padding::Space => push_char(out, ' '),
        Padding::Trim => {},
    }
    assert(final(out)@ =~= old(out)@ + pad_chars(pad, 1));
}

/// Append a number below 100 with at least two digits, unless the padding
/// trims, in which case one may do.
fn write2(out: &mut String, n: u32, pad: Padding)
    requires
        n < 100,
    ensures
        final(out)@ == old(out)@ + padded(n as nat, 2, pad),
{
    proof { lemma_decimal_len(n as nat); }
    if n < 10 {
        push_pad(out, pad);
    }
    push_decimal(out, n);
    assert(final(out)@ =~= old(out)@ + padded(n as nat, 2, pad));
}

/// Append a number with at least three digits, unless the padding trims, in
/// which case one or two may do.
fn write3(out: &mut String, n: u32, pad: Padding)
    ensures
        final(out)@ == old(out)@ + padded(n as nat, 3, pad),
{
    proof { lemma_decimal_len(n as nat); }
    if n < 100 {
        push_pad(out, pad);
        if n < 10 {
            push_pad(out, pad);
        }
    }
    push_decimal(out, n);
    assert(final(out)@ =~= old(out)@ + padded(n as nat, 3, pad));
}

impl Modifier {
    /// The modifier of field `f` that `t` begins with, and its length.
    fn matching(f: Field, t: &[u8]) -> (r: Option<(Modifier, usize)>)
        ensures
            match modifier_match(f, t@) {
                Some((m, n)) => r == Some((m, n as usize)),
                None => r is None,
            },
    {
        let space = has_prefix(t, [64u8, 115u8, 112u8, 97u8, 99u8, 101u8].as_slice());
        let trim = has_prefix(t, [64u8, 116u8, 114u8, 105u8, 109u8].as_slice());
        proof {
            assert([64u8, 115u8, 112u8, 97u8, 99u8, 101u8]@ =~= at_space());
            assert([64u8, 116u8, 114u8, 105u8, 109u8]@ =~= at_trim());
        }
        let pads = if space { Some((Modifier::Padding(Padding::Space), 6usize)) }
            else if trim { Some((Modifier::Padding(Padding::Trim), 5usize)) }
            else { None };
        match f {
            Field::Year => {
                let two = has_prefix(t, [64u8, 50u8].as_slice());
                proof { assert([64u8, 50u8]@ =~= at_2()); }
                if two { Some((Modifier::Style(Style::Alt1), 2)) } else { pads }
            },
            Field::Month | Field::Day => {
                let name = has_prefix(t, [64u8, 110u8, 97u8, 109u8, 101u8].as_slice());
                let abbr = has_prefix(t, [64u8, 97u8, 98u8, 98u8, 114u8].as_slice());
                proof {
                    assert([64u8, 110u8, 97u8, 109u8, 101u8]@ =~= at_name());
                    assert([64u8, 97u8, 98u8, 98u8, 114u8]@ =~= at_abbr());
                }
                if name { Some((Modifier::Style(Style::Alt1), 5)) }
                else if abbr { Some((Modifier::Style(Style::Alt2), 5)) }
                else { pads }
            },
            Field::Hour => {
                let twelve = has_prefix(t, [64u8, 49u8, 50u8].as_slice());
                proof { assert([64u8, 49u8, 50u8]@ =~= at_12()); }
                if twelve { Some((Modifier::Style(Style::Alt1), 3)) } else { pads }
            },
            Field::Minute | Field::Second | Field::Ordinal => pads,
            Field::Period => {
                let ap = has_prefix(t, [64u8, 97u8, 112u8].as_slice());
                let upper = has_prefix(t, [64u8, 117u8, 112u8, 112u8, 101u8, 114u8].as_slice());
                proof {
                    assert([64u8, 97u8, 112u8]@ =~= at_ap());
                    assert([64u8, 117u8, 112u8, 112u8, 101u8, 114u8]@ =~= at_upper());
                }
                if ap { Some((Modifier::Style(Style::Alt1), 3)) }
                else if upper { Some((Modifier::Style(Style::Alt2), 6)) }
                else { None }
            },
        }
    }

    /// The message for a modifier that field `f` does not take.
    fn hint(f: Field) -> (r: &'static str)
        ensures
            r == modifier_hint(f),
    {
        match f {
            Field::Year => "Expected [year… @2, @space, @trim,  …].",
            Field::Month => "Expected [month… @name, @abbr, @space, @trim,  …].",
            Field::Day => "Expected [day… @name, @abbr, @space, @trim,  …].",
            Field::Hour => "Expected [hour… @12, @space, @trim,  …].",
            Field::Minute => "Expected [minute… @space, @trim,  …].",
            Field::Second => "Expected [second… @space, @trim,  …].",
            Field::Ordinal => "Expected [ordinal… @space, @trim,  …].",
            Field::Period => "Expected [period… @ap, @upper,  …].",
        }
    }

    /// Read one modifier of field `f`, or the closing `]`, after optional
    /// whitespace.
    fn parse(f: Field, raw: &[u8]) -> (r: Result<(Option<Modifier>, &[u8]), Utc2kFormatError>)
        ensures
            match modifier_spec(f, raw@) {
                Ok((m, rest)) => r matches Ok((m2, rest2)) && m2 == m && rest2@ == rest,
                Err(e) => r == Err::<(Option<Modifier>, &[u8]), Utc2kFormatError>(e),
            },
            r matches Ok((_, rest)) ==> rest@.len() < raw@.len(),
    {
        proof { lemma_modifier_shrinks(f, raw@); }
        let t = trim_start_bytes(raw);
        match Self::matching(f, t) {
            Some((m, n)) => Ok((Some(m), vstd::slice::slice_subrange(t, n, t.len()))),
            None => {
                if t.len() > 0 && t[0] == 93 {
                    Ok((None, vstd::slice::slice_subrange(t, 1, t.len())))
                } else if t.len() > 0 && t[0] == 64 {
                    Err(Utc2kFormatError::InvalidModifier(Self::hint(f)))
                } else {
                    Err(Utc2kFormatError::Eof)
                }
            },
        }
    }
}

impl Component {
    /// Read the modifiers of field `f` up to the closing `]`.
    fn parse_props(f: Field, raw: &[u8]) -> (r: Result<(Style, Padding, &[u8]), Utc2kFormatError>)
        ensures
            match props_spec(f, raw@, Style::Main, Padding::Zero) {
                Ok((s, p, rest)) => r matches Ok((s2, p2, rest2)) && s2 == s && p2 == p && rest2@ == rest,
                Err(e) => r == Err::<(Style, Padding, &[u8]), Utc2kFormatError>(e),
            },
    {
        let mut style = Style::Main;
        let mut pad = Padding::Zero;
        let mut cur = raw;
        loop
            invariant
                props_spec(f, cur@, style, pad) == props_spec(f, raw@, Style::Main, Padding::Zero),
            decreases cur@.len(),
        {
            match Modifier::parse(f, cur) {
                Ok((Some(Modifier::Padding(v)), rest)) => {
                    pad = v;
                    cur = rest;
                },
                Ok((Some(Modifier::Style(v)), rest)) => {
                    style = v;
                    cur = rest;
                },
                Ok((None, rest)) => {
                    return Ok((style, pad, rest));
                },
                Err(e) => {
                    return Err(e);
                },
            }
        }
    }

    /// The component of a field, once its modifiers are read.
    fn finish(f: Field, raw: &[u8]) -> (r: Result<Option<(Component, &[u8])>, Utc2kFormatError>)
        ensures
            match props_spec(f, raw@, Style::Main, Padding::Zero) {
                Ok((s, p, rest)) => r matches Ok(Some((c, rest2))) && c == field_component(f, s, p) && rest2@ == rest,
                Err(e) => r == Err::<Option<(Component, &[u8])>, Utc2kFormatError>(e),
            },
    {
        match Self::parse_props(f, raw) {
            Ok((s, p, rest)) => Ok(Some((
                match f {
                    Field::Year => Component::Year(s, p),
                    Field::Month => Component::Month(s, p),
                    Field::Day => Component::Day(s, p),
                    Field::Hour => Component::Hour(s, p),
                    Field::Minute => Component::Minute(p),
                    Field::Second => Component::Second(p),
                    Field::Ordinal => Component::Ordinal(p),
                    Field::Period => Component::Period(s),
                },
                rest,
            ))),
            Err(e) => Err(e),
        }
    }

    /// Read the next piece of a template: `None` at its end, else the piece
    /// and what follows it.
    pub fn parse(raw: &[u8]) -> (r: Result<Option<(Component, &[u8])>, Utc2kFormatError>)
        ensures
            match comp_spec(raw@) {
                Ok(Some((c, rest))) => r matches Ok(Some((c2, rest2))) && c2 == c && rest2@ == rest,
                Ok(None) => r matches Ok(None),
                Err(e) => r == Err::<Option<(Component, &[u8])>, Utc2kFormatError>(e),
            },
            r matches Ok(Some((_, rest))) ==> rest@.len() < raw@.len(),
    {
        proof { lemma_comp_shrinks(raw@); }
        if raw.len() == 0 {
            return Ok(None);
        }
        if raw[0] != 91 {
            return Ok(Some((Component::Literal(raw[0]), vstd::slice::slice_subrange(raw, 1, raw.len()))));
        }
        if raw.len() >= 2 && raw[1] == 91 {
            return Ok(Some((Component::Literal(91), vstd::slice::slice_subrange(raw, 2, raw.len()))));
        }
        let t = trim_start_bytes(vstd::slice::slice_subrange(raw, 1, raw.len()));
        let year = has_prefix(t, [121u8, 101u8, 97u8, 114u8].as_slice());
        let month = has_prefix(t, [109u8, 111u8, 110u8, 116u8, 104u8].as_slice());
        let day = has_prefix(t, [100u8, 97u8, 121u8].as_slice());
        let hour = has_prefix(t, [104u8, 111u8, 117u8, 114u8].as_slice());
        let minute = has_prefix(t, [109u8, 105u8, 110u8, 117u8, 116u8, 101u8].as_slice());
        let second = has_prefix(t, [115u8, 101u8, 99u8, 111u8, 110u8, 100u8].as_slice());
        let ordinal = has_prefix(t, [111u8, 114u8, 100u8, 105u8, 110u8, 97u8, 108u8].as_slice());
        let period = has_prefix(t, [112u8, 101u8, 114u8, 105u8, 111u8, 100u8].as_slice());
        let unixtime = has_prefix(t, [117u8, 110u8, 105u8, 120u8, 116u8, 105u8, 109u8, 101u8].as_slice());
        proof {
            assert([121u8, 101u8, 97u8, 114u8]@ =~= field_name(Field::Year));
            assert([109u8, 111u8, 110u8, 116u8, 104u8]@ =~= field_name(Field::Month));
            assert([100u8, 97u8, 121u8]@ =~= field_name(Field::Day));
            assert([104u8, 111u8, 117u8, 114u8]@ =~= field_name(Field::Hour));
            assert([109u8, 105u8, 110u8, 117u8, 116u8, 101u8]@ =~= field_name(Field::Minute));
            assert([115u8, 101u8, 99u8, 111u8, 110u8, 100u8]@ =~= field_name(Field::Second));
            assert([111u8, 114u8, 100u8, 105u8, 110u8, 97u8, 108u8]@ =~= field_name(Field::Ordinal));
            assert([112u8, 101u8, 114u8, 105u8, 111u8, 100u8]@ =~= field_name(Field::Period));
            assert([117u8, 110u8, 105u8, 120u8, 116u8, 105u8, 109u8, 101u8]@ =~= unixtime_name());
        }
        if year { Self::finish(Field::Year, vstd::slice::slice_subrange(t, 4, t.len())) }
        else if month { Self::finish(Field::Month, vstd::slice::slice_subrange(t, 5, t.len())) }
        else if day { Self::finish(Field::Day, vstd::slice::slice_subrange(t, 3, t.len())) }
        else if hour { Self::finish(Field::Hour, vstd::slice::slice_subrange(t, 4, t.len())) }
        else if minute { Self::finish(Field::Minute, vstd::slice::slice_subrange(t, 6, t.len())) }
        else if second { Self::finish(Field::Second, vstd::slice::slice_subrange(t, 6, t.len())) }
        else if ordinal { Self::finish(Field::Ordinal, vstd::slice::slice_subrange(t, 7, t.len())) }
        else if period { Self::finish(Field::Period, vstd::slice::slice_subrange(t, 6, t.len())) }
        else if unixtime {
            let u = trim_start_bytes(vstd::slice::slice_subrange(t, 8, t.len()));
            if u.len() > 0 && u[0] == 93 {
                Ok(Some((Component::Unixtime, vstd::slice::slice_subrange(u, 1, u.len()))))
            } else if u.len() > 0 && u[0] == 64 {
                Err(Utc2kFormatError::InvalidModifier("The [unixtime] component has no modifiers."))
            } else {
                Err(Utc2kFormatError::Eof)
            }
        }
        else { Err(Utc2kFormatError::InvalidComponent) }
    }

    /// Append what this component writes for a moment.
    fn render(self, date: Utc2k, out: &mut String)
        ensures
            final(out)@ == old(out)@ + render_spec(date, self),
    {
        proof { use_type_invariant(&date); }
        match self {
            Component::Year(s, p) => {
                if s == Style::Main {
                    out.append("20");
                    push_dd(out, date.y);
                } else {
                    write2(out, date.y as u32, p);
                }
            },
            Component::Month(s, p) => match s {
                Style::Main => write2(out, date.m as u32, p),
                Style::Alt1 => out.append(date.month_enum().as_str()),
                Style::Alt2 => out.append(date.month_enum().abbreviation()),
            },
            Component::Day(s, p) => match s {
                Style::Main => write2(out, date.d as u32, p),
                Style::Alt1 => out.append(date.weekday().as_str()),
                Style::Alt2 => out.append(date.weekday().abbreviation()),
            },
            Component::Hour(s, p) => {
                let hh = if s == Style::Main { date.hh } else { date.hour_12() };
                write2(out, hh as u32, p);
            },
            Component::Minute(p) => write2(out, date.mm as u32, p),
            Component::Second(p) => write2(out, date.ss as u32, p),
            Component::Ordinal(p) => write3(out, date.ordinal() as u32, p),
            Component::Period(s) => {
                let per = date.hour_period();
                match s {
                    Style::Main => out.append(per.as_str(false)),
                    Style::Alt1 => out.append(per.as_str_ap()),
                    Style::Alt2 => out.append(per.as_str(true)),
                }
            },
            Component::Unixtime => push_decimal(out, date.unixtime()),
            Component::Literal(v) => push_char(out, v as char),
        }
        proof {
            if let Component::Year(s, p) = self {
                if s == Style::Main {
                    assert(final(out)@ =~= old(out)@ + render_spec(date, self));
                }
            }
        }
    }

    /// Write a moment by a template.
    pub fn format_date(date: Utc2k, fmt: &str) -> (r: Result<String, Utc2kFormatError>)
        ensures
            !fmt.is_ascii() ==> r == Err::<String, Utc2kFormatError>(Utc2kFormatError::NotAscii),
            fmt.is_ascii() ==> match format_spec(date, fmt.spec_bytes()) {
                Ok(s) => r matches Ok(out) && out@ == s,
                Err(e) => r == Err::<String, Utc2kFormatError>(e),
            },
    {
        if !fmt.is_ascii() {
            return Err(Utc2kFormatError::NotAscii);
        }
        let mut out = String::new();
        let mut cur = fmt.as_bytes();
        loop
            invariant
                fmt.is_ascii(),
                format_spec(date, fmt.spec_bytes()) == prepend(out@, format_spec(date, cur@)),
            decreases cur@.len(),
        {
            match Self::parse(cur) {
                Err(e) => {
                    return Err(e);
                },
                Ok(None) => {
                    assert(out@ + Seq::<char>::empty() =~= out@);
                    return Ok(out);
                },
                Ok(Some((next, rest))) => {
                    let ghost before = out@;
                    next.render(date, &mut out);
                    proof {
                        if let Ok(s) = format_spec(date, rest@) {
                            assert(before + (render_spec(date, next) + s) =~= out@ + s);
                        }
                    }
                    cur = rest;
                },
            }
        }
    }
}

impl Utc2k {
    /// The hour on a 12-hour clock, `1..=12`.
    pub fn hour_12(self) -> (r: u8)
        ensures
            r == hour12_spec(self.hour_spec()),
            1 <= r <= 12,
            r % 12 == self.hour_spec() % 12,
    {
        proof { use_type_invariant(&self); }
        if self.hh == 0 { 12 } else if self.hh > 12 { self.hh - 12 } else { self.hh }
    }

    /// Whether the hour is before noon ([`Period::Am`]) or not
    /// ([`Period::Pm`]).
    pub fn hour_period(self) -> (r: Period)
        ensures
            r == period_spec(self.hour_spec()),
            (r == Period::Pm) <==> 12 <= self.hour_spec(),
            (r == Period::Am) <==> self.hour_spec() < 12,
    {
        if self.hh < 12 { Period::Am } else { Period::Pm }
    }

    /// This moment written by a template; see the [module docs](crate::fancy)
    /// for the components it may hold.
    pub fn formatted_custom(self, fmt: &str) -> (r: Result<String, Utc2kFormatError>)
        ensures
            !fmt.is_ascii() ==> r == Err::<String, Utc2kFormatError>(Utc2kFormatError::NotAscii),
            fmt.is_ascii() ==> match format_spec(self, fmt.spec_bytes()) {
                Ok(s) => r matches Ok(out) && out@ == s,
                Err(e) => r == Err::<String, Utc2kFormatError>(e),
            },
    {
        Component::format_date(self, fmt)
    }
}

/// The bytes of `[year]-[month]-[day] [hour]:[minute]:[second]`.
pub open spec fn default_template() -> Seq<u8> {
    seq![91u8] + field_name(Field::Year) + seq![93u8, 45u8, 91u8] + field_name(Field::Month) + seq![93u8, 45u8, 91u8]
        + field_name(Field::Day) + seq![93u8, 32u8, 91u8] + field_name(Field::Hour) + seq![93u8, 58u8, 91u8]
        + field_name(Field::Minute) + seq![93u8, 58u8, 91u8] + field_name(Field::Second) + seq![93u8]
}

/// A byte other than `[` is copied as-is.
proof fn lemma_comp_literal(c: u8, rest: Seq<u8>)
    requires
        c != 91,
    ensures
        comp_spec(seq![c] + rest) == Ok::<Option<(Component, Seq<u8>)>, Utc2kFormatError>(Some((Component::Literal(c), rest))),
{
    assert((seq![c] + rest).subrange(1, rest.len() as int + 1) =~= rest);
}

/// A plain field component, `[name]`, reads as that field with the default
/// style and padding.
proof fn lemma_comp_field(f: Field, rest: Seq<u8>)
    requires
        f != Field::Period,
        f != Field::Ordinal,
    ensures
        comp_spec(seq![91u8] + field_name(f) + seq![93u8] + rest)
            == Ok::<Option<(Component, Seq<u8>)>, Utc2kFormatError>(Some((field_component(f, Style::Main, Padding::Zero), rest))),
{
    let raw = seq![91u8] + field_name(f) + seq![93u8] + rest;
    let n = field_name(f).len() as int;
    let body = raw.subrange(1, raw.len() as int);
    assert(body =~= field_name(f) + seq![93u8] + rest);
    assert(!is_space(body[0]));
    assert(trim_start(body) == body);
    assert(body.subrange(0, n) =~= field_name(f));
    assert(starts(body, field_name(f)));
    let after = body.subrange(n, body.len() as int);
    assert(after =~= seq![93u8] + rest);
    assert(trim_start(after) == after);
    assert(modifier_match(f, after) is None);
    assert(after.subrange(1, after.len() as int) =~= rest);
    assert(modifier_spec(f, after) == Ok::<(Option<Modifier>, Seq<u8>), Utc2kFormatError>((None, rest)));
    assert(props_spec(f, after, Style::Main, Padding::Zero) == Ok::<(Style, Padding, Seq<u8>), Utc2kFormatError>((Style::Main, Padding::Zero, rest)));
    assert(field_at(body) == Some(f));
}

/// One piece of a template, and then the rest.
proof fn lemma_format_step(date: Utc2k, raw: Seq<u8>, c: Component, rest: Seq<u8>)
    requires
        comp_spec(raw) == Ok::<Option<(Component, Seq<u8>)>, Utc2kFormatError>(Some((c, rest))),
    ensures
        format_spec(date, raw) == prepend(render_spec(date, c), format_spec(date, rest)),
{
    lemma_comp_shrinks(raw);
}

/// Two zero-padded digits of a number below 100.
proof fn lemma_padded_two(n: nat)
    requires
        n < 100,
    ensures
        padded(n, 2, Padding::Zero) == dd_chars(n as int),
{
    if n >= 10 {
        assert(decimal_chars(n / 10) == seq![digit_char((n / 10) as int)]);
        assert(padded(n, 2, Padding::Zero) =~= dd_chars(n as int));
    } else {
        assert(padded(n, 2, Padding::Zero) =~= dd_chars(n as int));
    }
}

/// [`format_spec`], kept folded while a template is taken apart piece by
/// piece.
#[verifier::opaque]
spec fn folded_format(date: Utc2k, raw: Seq<u8>) -> Result<Seq<char>, Utc2kFormatError> {
    format_spec(date, raw)
}

/// A plain field component ahead of the rest of a template.
proof fn lemma_step_field(date: Utc2k, f: Field, rest: Seq<u8>, w: Seq<char>)
    requires
        f != Field::Period,
        f != Field::Ordinal,
        folded_format(date, rest) == Ok::<Seq<char>, Utc2kFormatError>(w),
    ensures
        folded_format(date, seq![91u8] + field_name(f) + seq![93u8] + rest)
            == Ok::<Seq<char>, Utc2kFormatError>(render_spec(date, field_component(f, Style::Main, Padding::Zero)) + w),
{
    reveal(folded_format);
    lemma_comp_field(f, rest);
    lemma_format_step(date, seq![91u8] + field_name(f) + seq![93u8] + rest, field_component(f, Style::Main, Padding::Zero), rest);
}

/// A literal byte ahead of the rest of a template.
proof fn lemma_step_literal(date: Utc2k, c: u8, rest: Seq<u8>, w: Seq<char>)
    requires
        c != 91,
        folded_format(date, rest) == Ok::<Seq<char>, Utc2kFormatError>(w),
    ensures
        folded_format(date, seq![c] + rest) == Ok::<Seq<char>, Utc2kFormatError>(seq![c as char] + w),
{
    reveal(folded_format);
    lemma_comp_literal(c, rest);
    lemma_format_step(date, seq![c] + rest, Component::Literal(c), rest);
}

/// What the default template writes, piece by piece.
#[verifier::opaque]
spec fn written_pieces(date: Utc2k) -> Seq<char> {
    let w10 = render_spec(date, Component::Second(Padding::Zero)) + Seq::<char>::empty();
    let w9 = seq![58u8 as char] + w10;
    let w8 = render_spec(date, Component::Minute(Padding::Zero)) + w9;
    let w7 = seq![58u8 as char] + w8;
    let w6 = render_spec(date, Component::Hour(Style::Main, Padding::Zero)) + w7;
    let w5 = seq![32u8 as char] + w6;
    let w4 = render_spec(date, Component::Day(Style::Main, Padding::Zero)) + w5;
    let w3 = seq![45u8 as char] + w4;
    let w2 = render_spec(date, Component::Month(Style::Main, Padding::Zero)) + w3;
    let w1 = seq![45u8 as char] + w2;
    render_spec(date, Component::Year(Style::Main, Padding::Zero)) + w1
}

/// The pieces are written in turn.
proof fn lemma_pieces_written(date: Utc2k)
    ensures
        folded_format(date, default_template()) == Ok::<Seq<char>, Utc2kFormatError>(written_pieces(date)),
{
    reveal(written_pieces);
    let e = Seq::<u8>::empty();
    let s10 = seq![91u8] + field_name(Field::Second) + seq![93u8] + e;
    let s9 = seq![58u8] + s10;
    let s8 = seq![91u8] + field_name(Field::Minute) + seq![93u8] + s9;
    let s7 = seq![58u8] + s8;
    let s6 = seq![91u8] + field_name(Field::Hour) + seq![93u8] + s7;
    let s5 = seq![32u8] + s6;
    let s4 = seq![91u8] + field_name(Field::Day) + seq![93u8] + s5;
    let s3 = seq![45u8] + s4;
    let s2 = seq![91u8] + field_name(Field::Month) + seq![93u8] + s3;
    let s1 = seq![45u8] + s2;
    assert(folded_format(date, e) == Ok::<Seq<char>, Utc2kFormatError>(Seq::<char>::empty())) by {
        reveal(folded_format);
    }
    let w10 = render_spec(date, Component::Second(Padding::Zero)) + Seq::<char>::empty();
    lemma_step_field(date, Field::Second, e, Seq::<char>::empty());
    let w9 = seq![58u8 as char] + w10;
    lemma_step_literal(date, 58u8, s10, w10);
    let w8 = render_spec(date, Component::Minute(Padding::Zero)) + w9;
    lemma_step_field(date, Field::Minute, s9, w9);
    let w7 = seq![58u8 as char] + w8;
    lemma_step_literal(date, 58u8, s8, w8);
    let w6 = render_spec(date, Component::Hour(Style::Main, Padding::Zero)) + w7;
    lemma_step_field(date, Field::Hour, s7, w7);
    let w5 = seq![32u8 as char] + w6;
    lemma_step_literal(date, 32u8, s6, w6);
    let w4 = render_spec(date, Component::Day(Style::Main, Padding::Zero)) + w5;
    lemma_step_field(date, Field::Day, s5, w5);
    let w3 = seq![45u8 as char] + w4;
    lemma_step_literal(date, 45u8, s4, w4);
    let w2 = render_spec(date, Component::Month(Style::Main, Padding::Zero)) + w3;
    lemma_step_field(date, Field::Month, s3, w3);
    let w1 = seq![45u8 as char] + w2;
    lemma_step_literal(date, 45u8, s2, w2);
    let s0 = seq![91u8] + field_name(Field::Year) + seq![93u8] + s1;
    let w0 = render_spec(date, Component::Year(Style::Main, Padding::Zero)) + w1;
    lemma_step_field(date, Field::Year, s1, w1);
    assert(s0 =~= default_template());
    assert(w0 == written_pieces(date));
}

/// What the pieces write is the text of the moment.
proof fn lemma_pieces_text(date: Utc2k)
    requires
        date.wf(),
    ensures
        written_pieces(date) == crate::fmt::ascii_chars(date.text()),
{
    reveal(written_pieces);
    lemma_padded_two(date.month_spec() as nat);
    lemma_padded_two(date.day_spec() as nat);
    lemma_padded_two(date.hour_spec() as nat);
    lemma_padded_two(date.minute_spec() as nat);
    lemma_padded_two(date.second_spec() as nat);
    reveal_strlit("20");
    Utc2k::lemma_text(date, date);
    assert(written_pieces(date) =~= crate::fmt::ascii_chars(date.text()));
}

/// The template `[year]-[month]-[day] [hour]:[minute]:[second]` writes a
/// moment exactly as its `YYYY-MM-DD hh:mm:ss` text.
pub proof fn law_default_template(date: Utc2k)
    requires
        date.wf(),
    ensures
        format_spec(date, default_template()) == Ok::<Seq<char>, Utc2kFormatError>(crate::fmt::ascii_chars(date.text())),
{
    lemma_pieces_written(date);
    lemma_pieces_text(date);
    assert(format_spec(date, default_template()) == folded_format(date, default_template())) by {
        reveal(folded_format);
    }
}

} // verus!
