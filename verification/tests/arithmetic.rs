use utc2k::{Month, Utc2k, Weekday, DAY_IN_SECONDS};

#[test]
fn checked_math() {
    let date = Utc2k::max();
    assert!(date.checked_add(1).is_none());
    let date = Utc2k::new(2010, 1, 1, 0, 0, 0);
    let added = date.checked_add(86_413).unwrap();
    assert_eq!(added.to_string(), "2010-01-02 00:00:13");

    let date = Utc2k::min();
    assert!(date.checked_sub(1).is_none());
    let date = Utc2k::new(2010, 1, 1, 0, 0, 0);
    let subbed = date.checked_sub(86_413).unwrap();
    assert_eq!(subbed.to_string(), "2009-12-30 23:59:47");
}

#[test]
fn saturating_math() {
    assert_eq!(Utc2k::max() + 1, Utc2k::max());
    assert_eq!(Utc2k::min() - 1, Utc2k::min());
    let mut d = Utc2k::new(2020, 2, 28, 23, 59, 59);
    d += 1;
    assert_eq!(d.parts(), (2020, 2, 29, 0, 0, 0));
    d -= DAY_IN_SECONDS;
    assert_eq!(d.parts(), (2020, 2, 28, 0, 0, 0));
    let u = Utc2k::new(2042, 7, 4, 9, 8, 7);
    assert_eq!((u + 123_456_789) - 123_456_789, u);
    assert_eq!((u - 123_456_789) + 123_456_789, u);
}

#[test]
fn differences_and_comparisons() {
    let date1 = Utc2k::new(2022, 10, 15, 11, 30, 0);
    let date2 = Utc2k::new(2022, 10, 15, 11, 31, 0);
    assert_eq!(date1.abs_diff(date2), 60);
    assert_eq!(date2.abs_diff(date1), 60);
    assert_eq!(date1.abs_diff(date1), 0);
    assert_eq!(Utc2k::min().abs_diff(Utc2k::max()), 3_155_759_999);
    assert!(date1 < date2);
    assert!(date2 > date1);
    assert_eq!(date1.partial_cmp(&date2), Some(std::cmp::Ordering::Less));
}

#[test]
fn getters() {
    let date = Utc2k::new(2010, 5, 4, 16, 30, 1);
    assert_eq!(date.parts(), (2010, 5, 4, 16, 30, 1));
    assert_eq!(date.ymd(), (2010, 5, 4));
    assert_eq!(date.hms(), (16, 30, 1));
    assert_eq!(date.year(), 2010);
    assert_eq!(date.month(), 5);
    assert_eq!(date.month_enum(), Month::May);
    assert_eq!(date.day(), 4);
    assert_eq!(date.hour(), 16);
    assert_eq!(date.minute(), 30);
    assert_eq!(date.second(), 1);
    assert_eq!(Utc2k::new(2020, 6, 1, 0, 0, 0).month_abbreviation(), "Jun");
    assert_eq!(Utc2k::new(2020, 6, 1, 0, 0, 0).month_name(), "June");
    assert_eq!(Utc2k::new(2020, 1, 1, 0, 0, 0).month_size(), 31);
    assert_eq!(Utc2k::new(2020, 2, 1, 0, 0, 0).month_size(), 29);
    assert_eq!(Utc2k::new(2020, 5, 10, 0, 0, 0).ordinal(), 131);
    assert_eq!(Utc2k::new(2020, 1, 15, 0, 0, 0).ordinal(), 15);
    assert_eq!(Utc2k::new(2020, 1, 1, 0, 0, 0).seconds_from_midnight(), 0);
    assert_eq!(Utc2k::new(2020, 1, 1, 12, 30, 10).seconds_from_midnight(), 45_010);
    assert!(Utc2k::new(2020, 1, 1, 0, 0, 0).leap_year());
    assert!(!Utc2k::new(2021, 1, 1, 0, 0, 0).leap_year());
    let halloween = Utc2k::from_ascii(b"2024-10-31 00:00:00").unwrap();
    assert_eq!(halloween.weekday(), Weekday::Thursday);
    assert_eq!(halloween.weekday().as_str(), "Thursday");
    assert_eq!(halloween.ordinal(), 305);
    let date1 = Utc2k::new(2010, 5, 5, 16, 30, 1);
    assert_eq!(date1.to_midnight(), date1.with_time(0, 0, 0));
    assert_eq!(Utc2k::min().with_time(13, 14, 15).to_string(), "2000-01-01 13:14:15");
    assert_eq!(Utc2k::default(), Utc2k::min());
    assert_eq!(Utc2k::new(2010, 5, 5, 16, 30, 1).to_string(), "2010-05-05 16:30:01");
    assert_eq!(Utc2k::new(2010, 5, 5, 24, 0, 0).to_string(), "2010-05-06 00:00:00");
}

#[test]
fn now_family() {
    let now = Utc2k::now();
    let t = Utc2k::tomorrow();
    let y = Utc2k::yesterday();
    assert!(y <= now && now <= t);
    assert!(now.abs_diff(t) <= DAY_IN_SECONDS + 10);
    assert_eq!(Weekday::now(), Utc2k::now().weekday());
    assert_eq!(Month::now(), Utc2k::now().month_enum());
    assert_eq!(Weekday::tomorrow(), Weekday::now() + 1_u8);
    assert_eq!(Weekday::yesterday(), Weekday::now() - 1_u8);
}
