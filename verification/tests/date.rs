use chrono::{Datelike, TimeZone, Timelike, Utc};
use utc2k::{FmtUtc2k, Utc2k, YEAR_IN_SECONDS};

/// The `%Y-%m-%d %H:%M:%S` text of a chrono datetime.
fn chrono_text<T: Datelike + Timelike>(c: &T) -> [u8; 19] {
    fn two(out: &mut [u8; 19], at: usize, v: u32) {
        out[at] = b'0' + (v / 10) as u8;
        out[at + 1] = b'0' + (v % 10) as u8;
    }
    let mut out = *b"0000-00-00 00:00:00";
    let y = c.year() as u32;
    two(&mut out, 0, y / 100);
    two(&mut out, 2, y % 100);
    two(&mut out, 5, c.month());
    two(&mut out, 8, c.day());
    two(&mut out, 11, c.hour());
    two(&mut out, 14, c.minute());
    two(&mut out, 17, c.second());
    out
}

fn range_test<T: Datelike + Timelike>(buf: &mut FmtUtc2k, i: u32, c: &T) {
    let u = Utc2k::from(i);
    buf.set_datetime(u);

    // Make sure the timestamp comes back the same.
    assert_eq!(i, u.unixtime(), "Timestamp out does not match timestamp in!");

    assert_eq!(u.year(), c.year() as u16, "Year mismatch for unixtime {}", i);
    assert_eq!(u.month(), c.month() as u8, "Month mismatch for unixtime {}", i);
    assert_eq!(u.day(), c.day() as u8, "Day mismatch for unixtime {}", i);
    assert_eq!(u.hour(), c.hour() as u8, "Hour mismatch for unixtime {}", i);
    assert_eq!(u.minute(), c.minute() as u8, "Minute mismatch for unixtime {}", i);
    assert_eq!(u.second(), c.second() as u8, "Second mismatch for unixtime {}", i);
    assert_eq!(u.ordinal(), c.ordinal() as u16, "Ordinal mismatch for unixtime {}", i);

    assert_eq!(buf.as_bytes(), chrono_text(c).as_slice(), "Date mismatch for unixtime {}", i);
}

#[test]
fn limited_unixtime_range() {
    let mut buf = FmtUtc2k::default();
    // Chrono's datetime for each timestamp, stepped along with it.
    let mut c = Utc.timestamp_opt(Utc2k::MIN_UNIXTIME as i64, 0).unwrap().naive_utc();
    let step = chrono::TimeDelta::seconds(97);
    for i in (Utc2k::MIN_UNIXTIME..=Utc2k::MAX_UNIXTIME).step_by(97) {
        assert_eq!(c.and_utc().timestamp(), i as i64);
        range_test(&mut buf, i, &c);
        c += step;
    }
    // The stepped datetimes agree with chrono's own conversion.
    assert_eq!(c - step, Utc.timestamp_opt(Utc2k::MAX_UNIXTIME as i64 - (Utc2k::MAX_UNIXTIME - Utc2k::MIN_UNIXTIME) as i64 % 97, 0).unwrap().naive_utc());
}

#[test]
fn leap_years() {
    for y in 2000..2100 {
        let date = Utc2k::new(y, 1, 1, 0, 0, 0);
        assert_eq!(date.year(), y);
        assert_eq!(
            date.leap_year(),
            y.trailing_zeros() >= 2 && ((y % 100) != 0 || (y % 400) == 0)
        );
    }
}

fn check_ordering() {
    let expected = vec![
        Utc2k::try_from("2000-01-01 00:00:00").unwrap(),
        Utc2k::try_from("2010-05-31 01:02:03").unwrap(),
        Utc2k::try_from("2010-05-31 02:02:03").unwrap(),
        Utc2k::try_from("2020-10-10 10:10:10").unwrap(),
        Utc2k::try_from("2020-10-10 10:11:10").unwrap(),
        Utc2k::try_from("2020-10-10 10:11:11").unwrap(),
    ];

    let mut shuffled = vec![
        Utc2k::try_from("2010-05-31 01:02:03").unwrap(),
        Utc2k::try_from("2020-10-10 10:11:11").unwrap(),
        Utc2k::try_from("2010-05-31 02:02:03").unwrap(),
        Utc2k::try_from("2000-01-01 00:00:00").unwrap(),
        Utc2k::try_from("2020-10-10 10:11:10").unwrap(),
        Utc2k::try_from("2020-10-10 10:10:10").unwrap(),
    ];

    let f_expected: Vec<FmtUtc2k> = expected.iter().copied().map(FmtUtc2k::from).collect();
    let mut f_shuffled: Vec<FmtUtc2k> = shuffled.iter().copied().map(FmtUtc2k::from).collect();

    // Both sets should be not equal to start.
    assert_ne!(expected, shuffled);
    assert_ne!(f_expected, f_shuffled);

    // Sort 'em.
    shuffled.sort();
    f_shuffled.sort();

    // Now they should match.
    assert_eq!(expected, shuffled);
    assert_eq!(f_expected, f_shuffled);
}

#[test]
fn ordering() {
    check_ordering();
}

#[test]
fn t_leap_years() {
    for y in 2000..2100_u16 {
        let date = Utc2k::new(y, 1, 1, 0, 0, 0);
        assert_eq!(date.year(), y);
        assert_eq!(
            date.leap_year(),
            y.trailing_zeros() >= 2 && (!y.is_multiple_of(100) || y.is_multiple_of(400))
        );
    }
}

#[test]
fn t_min_max() {
    // Self and Timestamps.
    assert_eq!(Utc2k::min(), Utc2k::from(Utc2k::MIN_UNIXTIME));
    assert_eq!(Utc2k::max(), Utc2k::from(Utc2k::MAX_UNIXTIME));
    assert_eq!(Utc2k::min().unixtime(), Utc2k::MIN_UNIXTIME);
    assert_eq!(Utc2k::max().unixtime(), Utc2k::MAX_UNIXTIME);

    // Utc2k and FmtUtc2k.
    assert_eq!(Utc2k::min(), Utc2k::from(FmtUtc2k::min()));
    assert_eq!(Utc2k::max(), Utc2k::from(FmtUtc2k::max()));
    assert_eq!(FmtUtc2k::min(), FmtUtc2k::from(Utc2k::min()));
    assert_eq!(FmtUtc2k::max(), FmtUtc2k::from(Utc2k::max()));
}

#[test]
fn t_ordering() {
    check_ordering();
}

#[test]
fn t_cmp_date() {
    let set = vec![
        Utc2k::new(2024, 1, 1, 0, 0, 0),
        Utc2k::new(2024, 1, 2, 0, 0, 0),
        Utc2k::new(2024, 2, 1, 0, 0, 0),
        Utc2k::new(2024, 2, 2, 0, 0, 0),
        Utc2k::new(2025, 1, 1, 0, 0, 0),
        Utc2k::new(2025, 1, 2, 0, 0, 0),
        Utc2k::new(2025, 2, 1, 0, 0, 0),
        Utc2k::new(2025, 2, 2, 0, 0, 0),
    ];

    let mut sorted = set.clone();
    sorted.sort();
    sorted.dedup();
    assert_eq!(set, sorted); // Double-check our manual sorting.

    for pair in set.windows(2) {
        let &[a, b] = pair else { panic!("Windows is broken?!"); };

        // Each should be equal to itself.
        assert!(a.cmp_date(a).is_eq());
        assert!(b.cmp_date(b).is_eq());

        // And times shouldn't matter.
        assert!(a.cmp_date(a.with_time(1, 2, 3)).is_eq());
        assert!(b.cmp_date(b.with_time(3, 2, 1)).is_eq());
        assert!(a.with_time(1, 2, 3).cmp_date(a).is_eq());
        assert!(b.with_time(3, 2, 1).cmp_date(b).is_eq());

        // A < B, B > A.
        assert!(a.cmp_date(b).is_lt());
        assert!(b.cmp_date(a).is_gt());

        // Again, times shouldn't matter.
        assert!(a.cmp_date(b.with_time(5, 6, 7)).is_lt());
        assert!(b.cmp_date(a.with_time(8, 9, 3)).is_gt());
        assert!(a.with_time(5, 6, 7).cmp_date(b).is_lt());
        assert!(b.with_time(8, 9, 3).cmp_date(a).is_gt());
    }
}

#[test]
fn t_cmp_time() {
    let set = vec![
        Utc2k::new(2027, 6, 5, 0, 0, 0),
        Utc2k::new(2027, 6, 5, 0, 0, 1),
        Utc2k::new(2027, 6, 5, 0, 1, 0),
        Utc2k::new(2027, 6, 5, 0, 1, 1),
        Utc2k::new(2027, 6, 5, 1, 0, 0),
        Utc2k::new(2027, 6, 5, 1, 0, 1),
        Utc2k::new(2027, 6, 5, 1, 1, 0),
        Utc2k::new(2027, 6, 5, 1, 1, 1),
    ];

    let mut sorted = set.clone();
    sorted.sort();
    sorted.dedup();
    assert_eq!(set, sorted); // Double-check our manual sorting.

    for pair in set.windows(2) {
        let &[a, b] = pair else { panic!("Windows is broken?!"); };

        // Each should be equal to itself.
        assert!(a.cmp_time(a).is_eq());
        assert!(b.cmp_time(b).is_eq());

        // The date shouldn't matter.
        let c = a + YEAR_IN_SECONDS;
        assert!(a.cmp_time(c).is_eq());
        assert!(c.cmp_time(a).is_eq());
        let d = b + YEAR_IN_SECONDS;
        assert!(b.cmp_time(d).is_eq());
        assert!(d.cmp_time(b).is_eq());

        // A < B, B > A.
        assert!(a.cmp_time(b).is_lt());
        assert!(b.cmp_time(a).is_gt());

        // Again, the date shouldn't matter.
        assert!(a.cmp_time(d).is_lt());
        assert!(b.cmp_time(c).is_gt());
        assert!(c.cmp_time(b).is_lt());
        assert!(d.cmp_time(a).is_gt());
    }
}

/// A timestamp of the century from a simple xorshift stream.
fn next_unixtime(state: &mut u64) -> u32 {
    *state ^= *state << 13;
    *state ^= *state >> 7;
    *state ^= *state << 17;
    let span = (Utc2k::MAX_UNIXTIME - Utc2k::MIN_UNIXTIME) as u64 + 1;
    Utc2k::MIN_UNIXTIME + (*state % span) as u32
}

#[test]
fn limited_unixtime() {
    let mut state: u64 = 0x2545_F491_4F6C_DD1D;
    let mut buf = FmtUtc2k::default();
    let sample: Vec<u32> = (0..100_000).map(|_| next_unixtime(&mut state))
        .chain(std::iter::once(1_583_037_365))
        .collect();
    for i in sample {
        let u = Utc2k::from(i);
        let f = FmtUtc2k::from(u);
        let c = Utc.timestamp_opt(i as i64, 0).unwrap().naive_utc();

        // Make sure the timestamp comes back the same.
        assert_eq!(i, u.unixtime(), "Timestamp out does not match timestamp in!");

        // Make sure back-and-forth conversions work as expected.
        assert_eq!(Utc2k::from(f), u, "Fmt/Utc back-and-forth failed for {}", i);
        assert_eq!(Some(u), Utc2k::from_rfc2822(u.to_rfc2822().as_bytes()), "RFC2822 back-and-forth failed for {}", i);
        assert_eq!(Some(u), Utc2k::from_ascii(u.to_rfc3339().as_bytes()), "RFC3339 back-and-forth failed for {}", i);
        assert_eq!(Some(f), FmtUtc2k::from_rfc2822(f.to_rfc2822().as_bytes()), "Fmt RFC2822 back-and-forth failed for {}", i);
        assert_eq!(Some(f), FmtUtc2k::from_ascii(f.to_rfc3339().as_bytes()), "Fmt RFC3339 back-and-forth failed for {}", i);

        // The weekdays match.
        assert_eq!(u.weekday().abbreviation(), c.weekday().to_string());

        // The parts and the text match.
        range_test(&mut buf, i, &c);
        assert_eq!(f.as_bytes(), buf.as_bytes());
    }
}

#[test]
fn t_year_start() {
    for y in 0..=99_u16 {
        let c = chrono::NaiveDate::from_ymd_opt(y as i32 + 2000, 1, 1)
            .expect("Unable to create chrono::NaiveDate.");
        assert_eq!(
            Utc2k::new(y + 2000, 1, 1, 0, 0, 0).weekday().abbreviation(),
            c.weekday().to_string(),
            "Failed with year {y}"
        );
    }
}
