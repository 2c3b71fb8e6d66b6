use utc2k::{Local2k, LocalOffset, Utc2k};

#[test]
fn neg() {
    let off = LocalOffset::now();
    let off2 = -off;
    assert_eq!(off, -off2); // Negating twice gives the same offset back.
}

#[test]
fn now() {
    // Unless we're one second away from a DST-type change, the offsets
    // should match!
    let now = utc2k::unixtime();
    assert_eq!(LocalOffset::now().offset(), LocalOffset::from(now).offset());
}

#[test]
fn local_offset_localtime() {
    let off = LocalOffset::from(1_000_000_000);
    assert_eq!(off.unixtime(), 1_000_000_000);
    assert_eq!(off.localtime() as i64, 1_000_000_000_i64 + off.offset() as i64);
    assert_eq!(i32::from(off), off.offset());
}

#[test]
fn local_round_trip() {
    let utc = Utc2k::new(2025, 1, 1, 0, 0, 0);
    let local = Local2k::from_utc2k(utc);
    assert_eq!(local.to_utc2k(), utc);
    assert_eq!(local.unixtime(), utc.unixtime());
    assert_eq!(local.is_utc(), local.offset().is_none());
    assert!(local == utc);
    assert!(Local2k::fixed_from_utc2k(utc, 3600) == utc);
    assert!(Local2k::fixed_from_utc2k(utc, 3600) != utc + 1);
}

#[test]
fn local_fixed_offsets() {
    let utc = Utc2k::new(2010, 5, 4, 16, 30, 1);
    let local = Local2k::fixed_from_utc2k(utc, -25200);
    assert_eq!(local.offset(), Some(-25200));
    assert_eq!(local.parts(), (2010, 5, 4, 9, 30, 1));
    assert_eq!(local.to_utc2k(), utc);
    assert_eq!(local.unixtime(), utc.unixtime());

    // Offsets that would leave the century are dropped.
    let local = Local2k::fixed_from_utc2k(Utc2k::min(), -28800);
    assert!(local.offset().is_none());
    let local = Local2k::fixed_from_utc2k(Utc2k::max(), -28800);
    assert!(local.offset().is_some());
    let local = Local2k::fixed_from_utc2k(Utc2k::min(), 14400);
    assert_eq!(local.offset(), Some(14400));
    let local = Local2k::fixed_from_utc2k(Utc2k::max(), 14400);
    assert!(local.offset().is_none());

    // Offsets are reduced to a day and must be whole minutes.
    assert_eq!(Local2k::fixed_from_utc2k(utc, 86_400 + 3600).offset(), Some(3600));
    assert!(Local2k::fixed_from_utc2k(utc, 3601).offset().is_none());
    assert!(Local2k::fixed_from_utc2k(utc, 0).offset().is_none());
}

#[test]
fn local_text() {
    let utc = Utc2k::new(2003, 7, 1, 10, 52, 37);
    let local = Local2k::fixed_from_utc2k(utc, -25200);
    assert_eq!(local.to_rfc2822(), "Tue, 01 Jul 2003 03:52:37 -0700");
    assert_eq!(local.to_rfc3339(), "2003-07-01T03:52:37-0700");
    let fmt = local.formatted();
    assert_eq!(fmt.as_str(), "2003-07-01 03:52:37");
    assert_eq!(fmt.date(), "2003-07-01");
    assert_eq!(fmt.year(), "2003");
    assert_eq!(fmt.time(), "03:52:37");
    assert_eq!(fmt.to_rfc2822(), "Tue, 01 Jul 2003 03:52:37 -0700");
    assert_eq!(fmt.to_rfc3339(), "2003-07-01T03:52:37-0700");
    assert_eq!(Local2k::from_fmtlocal2k(fmt), local);

    let plain = Local2k::fixed_from_utc2k(utc, 0);
    assert_eq!(plain.to_rfc2822(), "Tue, 01 Jul 2003 10:52:37 +0000");
    assert_eq!(plain.to_rfc3339(), "2003-07-01T10:52:37Z");

    let east = Local2k::fixed_from_utc2k(utc, 19800);
    assert_eq!(east.to_rfc3339(), "2003-07-01T16:22:37+0530");
}

#[test]
fn local_equality_ignores_offsets() {
    let utc = Utc2k::new(2020, 6, 1, 12, 0, 0);
    let a = Local2k::fixed_from_utc2k(utc, -25200);
    let b = Local2k::fixed_from_utc2k(utc, 3600);
    assert_eq!(a, b);
    let c = Local2k::fixed_from_utc2k(utc + 1, 3600);
    assert_ne!(a, c);
}

#[test]
fn nonzero_offset_values() {
    assert_eq!(utc2k::local::nonzero_offset(0), None);
    assert_eq!(utc2k::local::nonzero_offset(-86_400), None);
    assert_eq!(utc2k::local::nonzero_offset(3600), Some(3600));
    assert_eq!(utc2k::local::nonzero_offset(-90_000), Some(-3600));
    assert_eq!(utc2k::local::nonzero_offset(61), None);
    assert_eq!(utc2k::local::offset_suffix(Some(-25200)), Some(*b"-0700"));
    assert_eq!(utc2k::local::offset_suffix(Some(19800)), Some(*b"+0530"));
    assert_eq!(utc2k::local::offset_suffix(None), None);
}

#[test]
fn local_rfc2822_round_trip() {
    let u = Utc2k::new(2025, 6, 17, 19, 12, 23);
    for offset in [19_800_i32, -25_200, 3600, -60, 0] {
        let l = Local2k::fixed_from_utc2k(u, offset);
        let text = l.to_rfc2822();
        assert_eq!(text.len(), 31);
        assert_eq!(Utc2k::from_rfc2822(text.as_bytes()), Some(u), "{text}");
        assert_eq!(l.formatted().to_rfc2822(), text);
    }
    let l = Local2k::fixed_from_utc2k(u, 19_800);
    assert_eq!(l.to_rfc2822(), "Wed, 18 Jun 2025 00:42:23 +0530");
}
