use utc2k::{FmtUtc2k, Period, Utc2k, Utc2kFormatError};

#[test]
fn fmt_text() {
    let date = FmtUtc2k::from(946_684_800_u32);
    assert_eq!(date.as_str(), "2000-01-01 00:00:00");
    let utc_date = Utc2k::from(946_684_800_u32);
    assert_eq!(FmtUtc2k::from(utc_date), utc_date.formatted());

    let fmt = FmtUtc2k::from(Utc2k::MAX_UNIXTIME);
    assert_eq!(fmt.as_bytes(), b"2099-12-31 23:59:59");
    assert_eq!(fmt.as_str(), "2099-12-31 23:59:59");
    assert_eq!(fmt.date(), "2099-12-31");
    assert_eq!(fmt.year(), "2099");
    assert_eq!(fmt.time(), "23:59:59");
    assert_eq!(FmtUtc2k::LEN, fmt.as_str().len());
}

#[test]
fn fmt_setters() {
    let mut fmt = FmtUtc2k::default();
    assert_eq!(fmt.as_str(), "2000-01-01 00:00:00");
    fmt.set_datetime(Utc2k::from(Utc2k::MAX_UNIXTIME));
    assert_eq!(fmt.as_str(), "2099-12-31 23:59:59");

    fmt.set_parts(2010, 10, 31, 12, 33, 59);
    assert_eq!(fmt.as_str(), "2010-10-31 12:33:59");
    fmt.set_parts(2010, 10, 32, 12, 33, 59);
    assert_eq!(fmt.as_str(), "2010-11-01 12:33:59");

    fmt.set_unixtime(Utc2k::MIN_UNIXTIME);
    assert_eq!(fmt.as_str(), "2000-01-01 00:00:00");
    fmt.set_unixtime(Utc2k::MAX_UNIXTIME);
    assert_eq!(fmt.as_str(), "2099-12-31 23:59:59");

    assert_eq!(FmtUtc2k::from_unixtime(0).as_str(), "2000-01-01 00:00:00");
    assert_eq!(FmtUtc2k::from_unixtime(u32::MAX).as_str(), "2099-12-31 23:59:59");
}

#[test]
fn fmt_parsing() {
    let dates: [&[u8]; 5] = [b"20250615", b"2025 06 15", b"2025/06/15", b"2025-06-15", b"2025#06#15"];
    for raw in dates {
        assert_eq!(FmtUtc2k::from_ascii(raw).unwrap().as_str(), "2025-06-15 00:00:00");
    }
    let datetimes: [&[u8]; 8] = [
        b"20250615123001",
        b"2025-06-15 12:30:01",
        b"2025-06-15T12:30:01Z",
        b"2025/06/15:12:30:01 GMT",
        b"2025/06/15:12:30:01 UT",
        b"2025/06/15:12:30:01 UTC",
        b"2025/06/15 12:30:01.000 +0000",
        b"2025/06/15 12:30:01+0000",
    ];
    for raw in datetimes {
        assert_eq!(FmtUtc2k::from_ascii(raw).unwrap().as_str(), "2025-06-15 12:30:01");
    }
    assert_eq!(
        FmtUtc2k::from_rfc2822(b"Tue, 01 Jul 2003 10:52:37 +0000").unwrap().as_str(),
        "2003-07-01 10:52:37",
    );
    assert_eq!(FmtUtc2k::try_from("2003-07-01 10:52:37").unwrap().as_str(), "2003-07-01 10:52:37");
    assert!(FmtUtc2k::try_from("nope").is_err());
}

#[test]
fn rfc_strings() {
    let date = Utc2k::new(2003, 7, 1, 10, 52, 37);
    assert_eq!(date.to_rfc2822(), "Tue, 01 Jul 2003 10:52:37 +0000");
    let date = Utc2k::new(2036, 12, 15, 16, 30, 55);
    assert_eq!(date.to_rfc2822(), "Mon, 15 Dec 2036 16:30:55 +0000");
    let date = Utc2k::new(2021, 12, 13, 11, 56, 1);
    assert_eq!(date.to_rfc3339(), "2021-12-13T11:56:01Z");
    assert_eq!(Utc2k::from_ascii(date.to_rfc3339().as_bytes()).unwrap(), date);

    let fmt = FmtUtc2k::from(Utc2k::new(2003, 7, 1, 10, 52, 37));
    assert_eq!(fmt.to_rfc2822(), "Tue, 01 Jul 2003 10:52:37 +0000");
    let mut fmt = FmtUtc2k::from(Utc2k::MIN_UNIXTIME);
    assert_eq!(fmt.to_rfc3339(), "2000-01-01T00:00:00Z");
    fmt.set_unixtime(Utc2k::MAX_UNIXTIME);
    assert_eq!(fmt.to_rfc3339(), "2099-12-31T23:59:59Z");
    assert_eq!(FmtUtc2k::from_ascii(fmt.to_rfc3339().as_bytes()), Some(fmt));

    assert_eq!(Utc2k::from(0).to_string(), "2000-01-01 00:00:00");
    assert_eq!(Utc2k::from(u32::MAX).to_string(), "2099-12-31 23:59:59");
}

#[test]
fn string_round_trips() {
    // A sample of moments across the century, from both ends and the middle.
    let mut t = Utc2k::MIN_UNIXTIME;
    loop {
        let u = Utc2k::from(t);
        let f = FmtUtc2k::from(u);
        assert_eq!(Utc2k::from(f), u);
        assert_eq!(Some(u), Utc2k::from_rfc2822(u.to_rfc2822().as_bytes()));
        assert_eq!(Some(u), Utc2k::from_ascii(u.to_rfc3339().as_bytes()));
        assert_eq!(Some(f), FmtUtc2k::from_rfc2822(f.to_rfc2822().as_bytes()));
        assert_eq!(Some(f), FmtUtc2k::from_ascii(f.to_rfc3339().as_bytes()));
        assert_eq!(Some(f), FmtUtc2k::from_ascii(f.as_bytes()));
        match t.checked_add(7_777_777) {
            Some(n) if n <= Utc2k::MAX_UNIXTIME => { t = n; },
            _ => break,
        }
    }
}

#[test]
fn custom_formats() {
    let date = Utc2k::new(2024, 10, 31, 15, 4, 5);
    assert_eq!(
        date.formatted_custom("[year]-[month]-[day] [hour]:[minute]:[second]").unwrap(),
        "2024-10-31 15:04:05",
    );
    assert_eq!(
        date.formatted_custom("[day @name], [month @name] [day @trim], [year]").unwrap(),
        "Thursday, October 31, 2024",
    );
    assert_eq!(date.formatted_custom("[day @abbr] [month @abbr]").unwrap(), "Thu Oct");
    assert_eq!(date.formatted_custom("[hour @12]:[minute] [period]").unwrap(), "03:04 pm");
    assert_eq!(date.formatted_custom("[hour @12 @trim]:[minute] [period @upper]").unwrap(), "3:04 PM");
    assert_eq!(date.formatted_custom("[hour @12 @space] [period @ap]").unwrap(), " 3 p.m.");
    assert_eq!(date.formatted_custom("[ordinal]").unwrap(), "305");
    assert_eq!(date.formatted_custom("[year @2]").unwrap(), "24");
    assert_eq!(date.formatted_custom("[unixtime]").unwrap(), date.unixtime().to_string());
    assert_eq!(date.formatted_custom("[[year]] [ year ]").unwrap(), "[year]] 2024");

    let early = Utc2k::new(2005, 1, 5, 0, 7, 9);
    assert_eq!(early.formatted_custom("[ordinal]").unwrap(), "005");
    assert_eq!(early.formatted_custom("[ordinal @space]").unwrap(), "  5");
    assert_eq!(early.formatted_custom("[ordinal @trim]").unwrap(), "5");
    assert_eq!(early.formatted_custom("[year @2 @trim]/[month @trim]/[day @space]").unwrap(), "5/1/ 5");
    assert_eq!(early.formatted_custom("[hour @12]:[minute @trim]:[second @space] [period @upper]").unwrap(), "12:7: 9 AM");
    assert_eq!(early.hour_12(), 12);
    assert_eq!(early.hour_period(), Period::Am);
    assert_eq!(date.hour_12(), 3);
    assert_eq!(date.hour_period(), Period::Pm);
}

#[test]
fn custom_format_errors() {
    let date = Utc2k::new(2024, 10, 31, 15, 4, 5);
    assert_eq!(date.formatted_custom("[foo]"), Err(Utc2kFormatError::InvalidComponent));
    assert_eq!(date.formatted_custom("[year"), Err(Utc2kFormatError::Eof));
    assert_eq!(date.formatted_custom("[year @trim"), Err(Utc2kFormatError::Eof));
    assert_eq!(
        date.formatted_custom("[year @name]"),
        Err(Utc2kFormatError::InvalidModifier("Expected [year… @2, @space, @trim,  …].")),
    );
    assert_eq!(
        date.formatted_custom("[period @12]"),
        Err(Utc2kFormatError::InvalidModifier("Expected [period… @ap, @upper,  …].")),
    );
    assert_eq!(
        date.formatted_custom("[unixtime @trim]"),
        Err(Utc2kFormatError::InvalidModifier("The [unixtime] component has no modifiers.")),
    );
    assert_eq!(date.formatted_custom("[unixtime"), Err(Utc2kFormatError::Eof));
    assert_eq!(date.formatted_custom("é [year]"), Err(Utc2kFormatError::NotAscii));
    assert_eq!(Utc2kFormatError::Eof.as_str(), "Expected ']'.");
    assert_eq!(Utc2kFormatError::NotAscii.as_str(), "Date format strings must be ASCII.");
    assert_eq!(
        Utc2kFormatError::InvalidComponent.as_str(),
        "Expected [year | month | day | hour | minute | second | ordinal | period | unixtime].",
    );
    assert_eq!(Utc2kFormatError::InvalidModifier("x").as_str(), "x");
}

#[test]
fn periods() {
    assert_eq!(Period::Am.as_str(false), "am");
    assert_eq!(Period::Am.as_str(true), "AM");
    assert_eq!(Period::Pm.as_str(false), "pm");
    assert_eq!(Period::Pm.as_str(true), "PM");
    assert_eq!(Period::Am.as_str_ap(), "a.m.");
    assert_eq!(Period::Pm.as_str_ap(), "p.m.");
    assert_eq!(Period::Pm.as_str_default(), "pm");
    assert_eq!(Period::from_bytes(b" AM "), Some(Period::Am));
    assert_eq!(Period::from_bytes(b"p.m."), Some(Period::Pm));
    assert_eq!(Period::from_bytes(b"P.M."), Some(Period::Pm));
    assert_eq!(Period::from_bytes(b"Pm"), None);
    assert_eq!(Period::from_bytes(b"noon"), None);
}
