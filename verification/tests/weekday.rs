use utc2k::{Month, Utc2k, Weekday};

#[test]
fn weekday_t_abbr() {
    for d in Weekday::ALL {
        assert_eq!(d.abbreviation(), &d.as_str()[..3]);
    }
}

#[test]
fn weekday_t_into_iter() {
    let mut last = Weekday::Saturday;
    for next in Weekday::Sunday.cycle(25) {
        assert_eq!(next, last + 1_u8);
        assert_eq!(next, last.next());
        last = next;
    }

    last = Weekday::Sunday;
    for next in Weekday::Saturday.cycle_rev(25) {
        assert_eq!(next, last - 1_u8);
        assert_eq!(next, last.previous());
        last = next;
    }
}

#[test]
fn weekday_t_math() {
    let days: Vec<Weekday> = std::iter::repeat(Weekday::ALL)
        .take(6)
        .flatten()
        .collect();

    // Test additions and subtractions.
    for idx in 0..7 {
        for a in 0..36 {
            // Add and sub.
            let b = days[idx] + a;
            assert_eq!(b, days[idx + a]);
            assert_eq!(b - a, days[idx]);

            // Assigning add and sub.
            let mut c = days[idx];
            c += a;
            assert_eq!(c, b);
            c -= a;
            assert_eq!(c, days[idx]);
        }
    }
}

#[test]
fn t_nth_in_month() {
    // One full month should cover our bases.
    for (weekday, dates) in [
        (Weekday::Sunday, vec![1, 8, 15, 22, 29]),
        (Weekday::Monday, vec![2, 9, 16, 23, 30]),
        (Weekday::Tuesday, vec![3, 10, 17, 24, 31]),
        (Weekday::Wednesday, vec![4, 11, 18, 25]),
        (Weekday::Thursday, vec![5, 12, 19, 26]),
        (Weekday::Friday, vec![6, 13, 20, 27]),
        (Weekday::Saturday, vec![7, 14, 21, 28]),
    ] {
        for (k, v) in dates.iter().copied().enumerate() {
            let tmp = weekday.nth_in_month(2023, Month::October, k as u8 + 1);
            assert_eq!(
                tmp,
                Some(v),
                "Expected {} {weekday:?} to be {v}, not {tmp:?}.",
                k + 1,
            );

            // First for the first.
            if k == 0 { assert_eq!(weekday.first_in_month(2023, Month::October), tmp); }
            // And last for the last.
            else if k + 1 == dates.len() {
                assert_eq!(
                    weekday.last_in_month(2023, Month::October),
                    Some(v),
                    "Expected {weekday:?} to end on {v}, not {tmp:?}.",
                );
            }
        }

        // And make sure one more is too many.
        assert_eq!(weekday.nth_in_month(2023, Month::October, dates.len() as u8 + 1), None);
    }
}

#[test]
fn weekday_t_str() {
    for d in Weekday::ALL {
        assert_eq!(Ok(d), Weekday::try_from(d.abbreviation()));
        assert_eq!(Ok(d), Weekday::try_from(d.as_str()));
        assert_eq!(Ok(d), Weekday::try_from(d.as_str().to_ascii_lowercase()));
        assert_eq!(Ok(d), Weekday::try_from(d.as_str().to_ascii_uppercase()));
        assert_eq!(Ok(d), d.abbreviation().parse());
    }

    assert!(Weekday::try_from("Hello").is_err());
}

#[test]
fn weekday_of_dates() {
    assert_eq!(Utc2k::new(2024, 10, 31, 0, 0, 0).weekday(), Weekday::Thursday);
    assert_eq!(Utc2k::new(2000, 1, 1, 0, 0, 0).weekday(), Weekday::Saturday);
    assert_eq!(Weekday::from(Utc2k::new(2099, 12, 31, 0, 0, 0)), Weekday::Thursday);
    assert_eq!(Weekday::Monday.first_in_month(2024, Month::February), Some(5));
    assert_eq!(Weekday::Thursday.last_in_month(2024, Month::February), Some(29));
    assert_eq!(Weekday::Sunday.nth_in_month(2024, Month::March, 0), None);
}
