use utc2k::{Utc2k, Utc2kError};

#[test]
fn ascii_dates_and_datetimes() {
    let dates: [&[u8]; 5] = [b"20250615", b"2025 06 15", b"2025/06/15", b"2025-06-15", b"2025#06#15"];
    for raw in dates {
        assert_eq!(Utc2k::from_ascii(raw).unwrap().parts(), (2025, 6, 15, 0, 0, 0));
    }

    let datetimes: [&[u8]; 10] = [
        b"20250615123001",
        b"2025-06-15 12:30:01",
        b"2025-06-15T12:30:01Z",
        b"2025/06/15:12:30:01 GMT",
        b"2025/06/15:12:30:01GMT",
        b"2025/06/15:12:30:01 UT",
        b"2025/06/15:12:30:01 UTC",
        b"2025/06/15:12:30:01 utc",
        b"2025/06/15 12:30:01.000 +0000",
        b"2025/06/15 12:30:01+0000",
    ];
    for raw in datetimes {
        assert_eq!(Utc2k::from_ascii(raw).unwrap().parts(), (2025, 6, 15, 12, 30, 1));
    }

    let bad: [&[u8]; 9] = [
        b"2025-06-15 123001",
        b"2025-06-15123001",
        b"20250615 12:30:01",
        b"2025061512:30:01",
        b"2025-01-01Z",
        b"2025-01-01 +0000",
        b"2025-01-01 UTC",
        b"2025-01-01 00:00:00 PDT",
        b"2025-01-01 00:00:00 EST",
    ];
    for raw in bad {
        assert!(Utc2k::from_ascii(raw).is_none());
    }

    assert_eq!(Utc2k::from_ascii(b"2025-06-15 12:30:01 +0330").unwrap().parts(), (2025, 6, 15, 9, 0, 1));
    assert_eq!(Utc2k::from_ascii(b"2025-06-15 12:30:01 +03:30").unwrap().parts(), (2025, 6, 15, 9, 0, 1));
    assert_eq!(Utc2k::from_ascii(b"2025-06-15T12:30:01.54321-0700").unwrap().parts(), (2025, 6, 15, 19, 30, 1));
    assert_eq!(Utc2k::from_ascii(b"2000-13-10 24:60:61").unwrap().parts(), (2001, 1, 11, 1, 1, 1));
    assert_eq!(Utc2k::from_ascii(b"2050-02-00").unwrap().parts(), (2050, 1, 31, 0, 0, 0));
    assert_eq!(Utc2k::from_ascii(b"1994 04 08"), Some(Utc2k::min()));
    assert_eq!(Utc2k::from_ascii(b"3000/01/01"), Some(Utc2k::max()));
}

#[test]
fn rfc2822_dates() {
    let dates: [&[u8]; 7] = [
        b"Tue, 1 Jul 2003 10:52:37 +0000",
        b"Tue,  1 Jul 2003 10:52:37 +0000",
        b"Tue, 01 Jul 2003 10:52:37 +0000",
        b"1 Jul 2003 10:52:37",
        b"01 Jul 2003 10:52:37",
        b"Tue, 01 Jul 2003 03:52:37 -0700",
        b"Tue, 1 Jul 2003 15:22:37 +0430",
    ];
    for raw in dates {
        assert_eq!(Utc2k::from_rfc2822(raw).unwrap().parts(), (2003, 7, 1, 10, 52, 37));
    }
    assert_eq!(
        Utc2k::from_rfc2822("Tue, 01 Jul 2003 03:52:37\u{2212}0700".as_bytes()).unwrap().parts(),
        (2003, 7, 1, 10, 52, 37),
    );

    let dates: [&[u8]; 5] = [b"Tue, 1 Jul 2003", b"Tue,  1 Jul 2003", b"Tue, 01 Jul 2003", b"1 Jul 2003", b"01 Jul 2003"];
    for raw in dates {
        assert_eq!(Utc2k::from_rfc2822(raw).unwrap().parts(), (2003, 7, 1, 0, 0, 0));
    }
    assert!(Utc2k::from_rfc2822(b"Tue, 01 Jux 2003").is_none());
    assert!(Utc2k::from_rfc2822(b"2003-07-01").is_none());
}

#[test]
fn checked_constructors() {
    assert_eq!(Utc2k::checked_from_ascii(b"1990-01-15 10:20:00"), Err(Utc2kError::Underflow));
    assert_eq!(Utc2k::checked_from_ascii(b"3000-12-01 13:00:00"), Err(Utc2kError::Overflow));
    assert_eq!(Utc2k::checked_from_ascii(b"2025-06-17 00:00:00").map(Utc2k::parts), Ok((2025, 6, 17, 0, 0, 0)));
    assert_eq!(Utc2k::checked_from_ascii(b"nope"), Err(Utc2kError::Invalid));

    assert_eq!(Utc2k::checked_from_unixtime(u32::MIN), Err(Utc2kError::Underflow));
    assert_eq!(Utc2k::checked_from_unixtime(u32::MAX), Err(Utc2kError::Overflow));
    assert_eq!(
        Utc2k::checked_from_unixtime(1_750_187_543).map(Utc2k::parts),
        Ok((2025, 6, 17, 19, 12, 23)),
    );
}

#[test]
fn try_from_others() {
    assert!(Utc2k::try_from("2099-12-31 23:59:59").is_ok());
    assert!(Utc2k::try_from("2099-12-31").is_ok());
    assert!(Utc2k::try_from("2099-12-31T23:59:59.1234").is_ok());
    assert_eq!(Utc2k::try_from("January 1, 2010"), Err(Utc2kError::Invalid));
    assert_eq!("2010-05-05 16:30:01".parse::<Utc2k>().map(Utc2k::parts), Ok((2010, 5, 5, 16, 30, 1)));

    assert_eq!(Utc2k::try_from(1_000_000_000_u64).map(Utc2k::unixtime), Ok(1_000_000_000));
    assert_eq!(Utc2k::try_from(u64::MAX), Err(Utc2kError::Invalid));
    assert_eq!(Utc2k::try_from(-1_i32), Err(Utc2kError::Invalid));
    assert_eq!(Utc2k::try_from(-1_i64), Err(Utc2kError::Invalid));
    assert_eq!(Utc2k::try_from(0_isize), Ok(Utc2k::min()));
    assert_eq!(Utc2k::try_from(5_000_000_000_usize), Err(Utc2kError::Invalid));
    assert_eq!(u32::from(Utc2k::max()), Utc2k::MAX_UNIXTIME);
}

#[test]
fn fixed_position_strings() {
    assert_eq!(Utc2k::from_datetime_str("2021-06-25 13:15:25").map(Utc2k::parts), Ok((2021, 6, 25, 13, 15, 25)));
    assert_eq!(Utc2k::from_datetime_str("2021/06/25T13:15:25.000 UTC").map(Utc2k::parts), Ok((2021, 6, 25, 13, 15, 25)));
    assert_eq!(Utc2k::from_datetime_str("2021-06-25"), Err(Utc2kError::Invalid));
    assert_eq!(Utc2k::from_datetime_str("2021-06-25 13:15:2x"), Err(Utc2kError::Invalid));
    assert_eq!(Utc2k::from_date_str("2021-06-25").map(Utc2k::parts), Ok((2021, 6, 25, 0, 0, 0)));
    assert_eq!(Utc2k::from_date_str("2021-13-01").map(Utc2k::parts), Ok((2022, 1, 1, 0, 0, 0)));
    assert_eq!(Utc2k::from_date_str("1999-01-01"), Ok(Utc2k::min()));
    assert_eq!(Utc2k::from_date_str("2021-0x-01"), Err(Utc2kError::Invalid));
    assert_eq!(Utc2k::from_date_str("2021"), Err(Utc2kError::Invalid));
    assert_eq!(utc2k::fixed::parse_u8_str(b'4', b'2'), Ok(42));
    assert_eq!(utc2k::fixed::parse_u8_str(b'4', b'x'), Err(Utc2kError::Invalid));
    assert_eq!(Utc2kError::Invalid.as_str(), "Invalid date/time format.");
    assert_eq!(Utc2kError::Overflow.as_str(), "Date/time is post-2099.");
    assert_eq!(Utc2kError::Underflow.as_str(), "Date/time is pre-2000.");
}

#[test]
fn offset_grammar_per_parser() {
    // The ASCII parser takes `±hh:mm`, but not the Unicode minus sign.
    assert_eq!(Utc2k::from_ascii(b"2025-06-15 12:30:01 +0330").unwrap().parts(), (2025, 6, 15, 9, 0, 1));
    assert_eq!(Utc2k::from_ascii(b"2025-06-15 12:30:01 -03:30").unwrap().parts(), (2025, 6, 15, 16, 0, 1));
    assert_eq!(Utc2k::from_ascii("2025-06-15 12:30:01 \u{2212}0330".as_bytes()), None);
    assert_eq!(Utc2k::from_ascii(b"2025-01-01 UTC"), None);

    // The RFC2822 parser takes the Unicode minus sign, but not `±hh:mm`.
    assert_eq!(
        Utc2k::from_rfc2822("Tue, 01 Jul 2003 03:52:37 \u{2212}0700".as_bytes()).unwrap().parts(),
        (2003, 7, 1, 10, 52, 37),
    );
    assert_eq!(Utc2k::from_rfc2822(b"Tue, 01 Jul 2003 03:52:37 -07:00"), None);
}

#[test]
fn unbalanced_ascii_parts() {
    assert_eq!(Utc2k::from_ascii(b"2000-13-10 24:60:61").unwrap().parts(), (2001, 1, 11, 1, 1, 1));
}

#[test]
fn checked_unixtime_in_range() {
    assert_eq!(Utc2k::checked_from_unixtime(1_750_187_543).map(Utc2k::parts), Ok((2025, 6, 17, 19, 12, 23)));
    assert_eq!(Utc2k::checked_from_unixtime(Utc2k::MIN_UNIXTIME).map(Utc2k::parts), Ok((2000, 1, 1, 0, 0, 0)));
    assert_eq!(Utc2k::checked_from_unixtime(Utc2k::MAX_UNIXTIME).map(Utc2k::parts), Ok((2099, 12, 31, 23, 59, 59)));
    assert_eq!(Utc2k::checked_from_unixtime(Utc2k::MIN_UNIXTIME - 1), Err(Utc2kError::Underflow));
    assert_eq!(Utc2k::checked_from_unixtime(Utc2k::MAX_UNIXTIME + 1), Err(Utc2kError::Overflow));
}
