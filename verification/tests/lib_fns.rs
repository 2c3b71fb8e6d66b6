use std::time::SystemTime;
use utc2k::{needle3, unixtime, Utc2k, ASCII_LOWER};

#[test]
fn t_needle3() {
    // The ASCII lower bit mask is meant to apply to the last three bytes
    // (LE).
    assert_eq!(
        ASCII_LOWER.to_le_bytes(),
        [0, 0b0010_0000, 0b0010_0000, 0b0010_0000],
    );

    // Letters are lowercased whatever their case.
    assert_eq!(
        needle3(b'J', b'E', b'B'),
        u32::from_le_bytes([0, b'j', b'e', b'b']),
    );
    assert_eq!(
        needle3(b'j', b'e', b'b'),
        u32::from_le_bytes([0, b'j', b'e', b'b']),
    );
}

#[test]
fn t_unixtime() {
    // Our method.
    let our_secs = unixtime();

    // Manual construction via SystemTime.
    let secs: u32 = SystemTime::now()
        .duration_since(SystemTime::UNIX_EPOCH)
        .expect("The system time is set to the deep past!")
        .as_secs()
        .try_into()
        .expect("The system clock is set to the distant future!");

    // The SystemTime version should fall within our range.
    assert!(
        (Utc2k::MIN_UNIXTIME..=Utc2k::MAX_UNIXTIME).contains(&secs),
        "Bug: the system clock is completely wrong!",
    );

    // It should also match the `unixtime` output, allowing a ten-second
    // cushion for a slow runner.
    assert!(
        our_secs.abs_diff(secs) <= 10,
        "SystemTime and unixtime are more different than expected!",
    );
}

#[test]
fn year_matches_now() {
    assert_eq!(Utc2k::now().year(), utc2k::year());
}

#[test]
fn clamp_unixtime_saturates() {
    assert_eq!(utc2k::clamp_unixtime(0), Utc2k::MIN_UNIXTIME);
    assert_eq!(utc2k::clamp_unixtime(u64::MAX), Utc2k::MAX_UNIXTIME);
    assert_eq!(utc2k::clamp_unixtime(1_750_000_000), 1_750_000_000);
}

#[test]
fn year_of_unixtime_values() {
    assert_eq!(utc2k::year_of_unixtime(Utc2k::MIN_UNIXTIME), 2000);
    assert_eq!(utc2k::year_of_unixtime(1_577_836_800), 2020);
    assert_eq!(utc2k::year_of_unixtime(1_577_836_799), 2019);
    assert_eq!(utc2k::year_of_unixtime(951_868_799), 2000);
    assert_eq!(utc2k::year_of_unixtime(Utc2k::MAX_UNIXTIME), 2099);
}

#[test]
fn t_clock_bounds() {
    let tomorrow = utc2k::Utc2k::tomorrow();
    assert!(tomorrow.unixtime() >= utc2k::Utc2k::MIN_UNIXTIME + utc2k::DAY_IN_SECONDS);
    let yesterday = utc2k::Utc2k::yesterday();
    assert!(yesterday.unixtime() <= utc2k::Utc2k::MAX_UNIXTIME - utc2k::DAY_IN_SECONDS);
    let now = utc2k::LocalOffset::now().unixtime();
    assert!((utc2k::Utc2k::MIN_UNIXTIME..=utc2k::Utc2k::MAX_UNIXTIME).contains(&now));
}
