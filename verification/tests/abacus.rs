use utc2k::{Abacus, Utc2k, Utc2kError, DAY_IN_SECONDS, HOUR_IN_SECONDS, MINUTE_IN_SECONDS};

fn check_add(start: Abacus, num: u32, expected: (u8, u8, u8, u8, u8, u8)) {
    assert_eq!((start + num).parts(), expected);

    // Make sure add/assign is the same as adding.
    let mut tmp = start;
    tmp += num;
    assert_eq!(start + num, tmp);
}

#[test]
fn addition() {
    // Add nothing.
    let start = Abacus::new(2000, 1, 1, 0, 0, 0);
    check_add(start, 0, (0, 1, 1, 0, 0, 0));
    check_add(start, 1, (0, 1, 1, 0, 0, 1));
    check_add(start, 60, (0, 1, 1, 0, 1, 0));
    check_add(start, 3600, (0, 1, 1, 1, 0, 0));
    check_add(start, 3661, (0, 1, 1, 1, 1, 1));
    check_add(start, 31_622_400, (1, 1, 1, 0, 0, 0));
    check_add(start, 4_294_967_295, (99, 12, 31, 23, 59, 59));
}

fn check_carry(
    src: (u16, u8, u8, u8, u8, u8),
    expected: (u8, u8, u8, u8, u8, u8),
    fail: &str,
) {
    assert_eq!(
        Abacus::new(src.0, src.1, src.2, src.3, src.4, src.5).parts(),
        expected,
        "{}",
        fail,
    );
}

fn all_carries() {
    check_carry((2000, 13, 32, 24, 60, 60), (01, 2, 2, 1, 1, 0), "Overage of one everywhere.");
    check_carry((2000, 25, 99, 1, 1, 1), (02, 4, 9, 1, 1, 1), "Large month/day overages.");
    check_carry((2000, 1, 1, 99, 99, 99), (00, 1, 5, 4, 40, 39), "Large time overflows.");
    check_carry((2000, 255, 255, 255, 255, 255), (21, 11, 20, 19, 19, 15), "Max overflows.");
    check_carry((1970, 25, 99, 1, 1, 1), (00, 1, 1, 0, 0, 0), "Saturating low.");
    check_carry((3000, 25, 99, 1, 1, 1), (99, 12, 31, 23, 59, 59), "Saturating high #1.");
    check_carry((2099, 25, 99, 1, 1, 1), (99, 12, 31, 23, 59, 59), "Saturating high #2.");
    check_carry((2010, 0, 0, 1, 1, 1), (09, 11, 30, 1, 1, 1), "Zero month, zero day.");
    check_carry((2010, 0, 32, 1, 1, 1), (10, 1, 1, 1, 1, 1), "Zero month, overflowing day.");
    check_carry((2010, 1, 0, 1, 1, 1), (09, 12, 31, 1, 1, 1), "Zero day into zero month.");
    check_carry((2010, 2, 30, 1, 1, 1), (10, 3, 2, 1, 1, 1), "Too many days for month.");
    check_carry((2010, 24, 1, 1, 1, 1), (11, 12, 1, 1, 1, 1), "Exactly 24 months.");
}

#[test]
fn carries() {
    all_carries();
}

fn divvy(mut ss: u32) -> (u32, u32, u32) {
    let mut hh = 0;
    let mut mm = 0;

    if ss >= HOUR_IN_SECONDS {
        let div = ss / HOUR_IN_SECONDS;
        hh += div;
        ss -= div * HOUR_IN_SECONDS;
    }
    if ss >= MINUTE_IN_SECONDS {
        let div = ss / MINUTE_IN_SECONDS;
        mm += div;
        ss -= div * MINUTE_IN_SECONDS;
    }

    (hh, mm, ss)
}

fn shifty(mut ss: u32) -> (u32, u32, u32) {
    let mut hh = 0;
    let mut mm = 0;

    if ss >= HOUR_IN_SECONDS {
        let div = (ss * 0x91A3) >> 27;
        hh += div;
        ss -= div * HOUR_IN_SECONDS;
    }
    if ss >= MINUTE_IN_SECONDS {
        let div = (ss * 0x889) >> 17;
        mm += div;
        ss -= div * MINUTE_IN_SECONDS;
    }

    (hh, mm, ss)
}

#[test]
fn shifting() {
    for i in 0..DAY_IN_SECONDS {
        assert_eq!(divvy(i), shifty(i));
    }
}

#[test]
fn t_addition() {
    // Add nothing.
    let start = Abacus::new(2000, 1, 1, 0, 0, 0);
    let cases: [(u32, (u8, u8, u8, u8, u8, u8)); 7] = [
        (0, (0, 1, 1, 0, 0, 0)),
        (1, (0, 1, 1, 0, 0, 1)),
        (60, (0, 1, 1, 0, 1, 0)),
        (3600, (0, 1, 1, 1, 0, 0)),
        (3661, (0, 1, 1, 1, 1, 1)),
        (31_622_400, (1, 1, 1, 0, 0, 0)),
        (4_294_967_295, (99, 12, 31, 23, 59, 59)),
    ];
    for (num, expected) in cases {
        assert_eq!(start.plus_seconds(num).parts(), expected);
    }

    // The most seconds that can be added without short-circuiting, added to
    // the biggest valid starting point.
    let start = Abacus::from_utc2k(Utc2k::max());
    let end = start.plus_seconds(Abacus::MAX_SECONDS);
    assert_eq!(end.parts(), (99, 12, 31, 23, 59, 59));

    // The biggest possible offset added to the biggest possible day.
    let mut start = Abacus { y: 9999, m: 99, d: 99, hh: 99, mm: 99, ss: 99 };
    start.apply_offset(-86_399);
    start.rebalance();
    assert_eq!(start.parts(), (99, 12, 31, 23, 59, 59));

    // And the reverse, a nothing date with the smallest possible offset.
    start.y = 0;
    start.m = 0;
    start.d = 0;
    start.hh = 0;
    start.mm = 0;
    start.ss = 0;
    start.apply_offset(86_399);
    start.rebalance();
    assert_eq!(start.parts(), (0, 1, 1, 0, 0, 0));
}

#[test]
fn t_carries() {
    all_carries();
}

#[test]
fn t_month_days() {
    let mut abacus = Abacus::new(2000, 2, 15, 0, 0, 0);
    for i in 2000..=2099_u16 {
        abacus.y = i;
        let days = abacus.month_days();
        let leap = Utc2k::from_abacus(abacus).leap_year();
        assert_eq!(
            28_u16 + u16::from(leap),
            days,
            "Disagreement over February {i}: {days} ({leap})",
        );
    }
}

#[test]
fn abacus_checked_parts() {
    assert_eq!(Abacus::new(1999, 12, 31, 23, 59, 59).parts_checked(), Err(Utc2kError::Underflow));
    assert_eq!(Abacus::new(2100, 1, 1, 0, 0, 0).parts_checked(), Err(Utc2kError::Overflow));
    assert_eq!(Abacus::new(2024, 2, 30, 0, 0, 0).parts_checked(), Ok((24, 3, 1, 0, 0, 0)));
}

#[test]
fn abacus_month_days() {
    assert_eq!(Abacus::new(2023, 2, 1, 0, 0, 0).month_days(), 28);
    assert_eq!(Abacus::new(2024, 2, 1, 0, 0, 0).month_days(), 29);
    assert_eq!(Abacus::new(2024, 4, 1, 0, 0, 0).month_days(), 30);
    assert_eq!(Abacus::new(2024, 12, 1, 0, 0, 0).month_days(), 31);
}

#[test]
fn t_rebalance_date_any_parts() {
    let mut a = Abacus { y: 2001, m: 0, d: 0, hh: 5, mm: 6, ss: 7 };
    a.rebalance_date();
    assert_eq!(a, Abacus { y: 2000, m: 11, d: 30, hh: 5, mm: 6, ss: 7 });

    let mut a = Abacus { y: 1950, m: u16::MAX, d: u16::MAX, hh: 0, mm: 0, ss: 0 };
    a.rebalance_date();
    assert_eq!(a, Abacus { y: 2200, m: 1, d: 1, hh: 0, mm: 0, ss: 0 });
}

#[test]
fn t_apply_offset_parts() {
    let start = Abacus { y: 2025, m: 6, d: 15, hh: 30, mm: 70, ss: 80 };
    let mut a = start;
    a.apply_offset(0);
    assert_eq!(a, start);

    let mut a = Abacus { y: 2025, m: 6, d: 15, hh: 12, mm: 30, ss: 1 };
    a.apply_offset(12_600);
    assert_eq!(a, Abacus { y: 2025, m: 6, d: 15, hh: 9, mm: 0, ss: 1 });

    let mut a = Abacus { y: 2025, m: 6, d: 15, hh: 1, mm: 0, ss: 0 };
    a.apply_offset(7200);
    assert_eq!(a, Abacus { y: 2025, m: 6, d: 14, hh: 23, mm: 0, ss: 0 });

    let mut a = Abacus { y: 2025, m: 6, d: 15, hh: 23, mm: 0, ss: 0 };
    a.apply_offset(-7200);
    assert_eq!(a, Abacus { y: 2025, m: 6, d: 15, hh: 25, mm: 0, ss: 0 });
}
