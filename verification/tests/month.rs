use utc2k::{Month, Utc2k};

#[test]
fn month_t_abbr() {
    for m in Month::ALL {
        assert_eq!(m.abbreviation(), &m.as_str()[..3]);
    }
}

#[test]
fn month_t_into_iter() {
    let mut last = Month::December;
    for next in Month::January.cycle(25) {
        assert_eq!(next, last + 1_u8);
        assert_eq!(next, last.next());
        last = next;
    }

    last = Month::January;
    for next in Month::December.cycle_rev(25) {
        assert_eq!(next, last - 1_u8);
        assert_eq!(next, last.previous());
        last = next;
    }
}

#[test]
fn month_t_math() {
    let months: Vec<Month> = std::iter::repeat(Month::ALL)
        .take(4)
        .flatten()
        .collect();

    // Test additions and subtractions.
    for idx in 0..12 {
        for a in 0..36 {
            // Add and sub.
            let b = months[idx] + a;
            assert_eq!(b, months[idx + a]);
            assert_eq!(b - a, months[idx]);

            // Assigning add and sub.
            let mut c = months[idx];
            c += a;
            assert_eq!(c, b);
            c -= a;
            assert_eq!(c, months[idx]);
        }
    }
}

#[test]
fn month_t_str() {
    for m in Month::ALL {
        assert_eq!(Ok(m), Month::try_from(m.abbreviation()));
        assert_eq!(Ok(m), Month::try_from(m.as_str()));
        assert_eq!(Ok(m), Month::try_from(m.as_str().to_ascii_lowercase()));
        assert_eq!(Ok(m), Month::try_from(m.as_str().to_ascii_uppercase()));
        assert_eq!(Ok(m), m.abbreviation().parse());
    }

    assert!(Month::try_from("Hello").is_err());
}

#[test]
fn month_numbers_and_days() {
    assert_eq!(Month::January.number(), 1);
    assert_eq!(Month::December.number(), 12);
    assert_eq!(Month::from(13_u8), Month::January);
    assert_eq!(Month::from(0_u8), Month::December);
    assert_eq!(u8::from(Month::June), 6);
    assert_eq!(Month::February.days(), 28);
    assert_eq!(Month::April.days(), 30);
    assert_eq!(Month::from(Utc2k::new(2024, 6, 15, 0, 0, 0)), Month::June);
    assert!(Month::cmp(Month::January, Month::February).is_lt());
}
