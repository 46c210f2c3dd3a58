use fitnab::moment::{mail_date, Moment};

#[test]
fn reads_feed_dates() {
    let moment = Moment::from_rfc2822("Wed, 18 Feb 2015 23:16:09 +0200").unwrap();
    assert_eq!(moment, Moment { seconds: 1424294169, nanos: 0 });
    assert_eq!(Moment::from_rfc2822("yesterday"), None);
    assert_eq!(Moment::from_rfc2822(""), None);
}

#[test]
fn reads_stored_dates() {
    let moment = Moment::from_rfc3339("2015-02-18T23:16:09.5+02:00").unwrap();
    assert_eq!(moment, Moment { seconds: 1424294169, nanos: 500_000_000 });
    assert_eq!(Moment::from_rfc3339("Wed, 18 Feb 2015 23:16:09 +0200"), None);
}

#[test]
fn written_moments_are_read_back() {
    let moments = [
        (0, 0),
        (1424294169, 123_456_789),
        (-62167219200, 1),
        (253402300799, 999_999_999),
        (1483228799, 1_000_000_000),
        (-1, 1_500_000_000),
    ];
    for (seconds, nanos) in moments {
        let moment = Moment::new(seconds, nanos).unwrap();
        assert_eq!(Moment::from_rfc3339(&moment.to_rfc3339()), Some(moment));
    }
}

#[test]
fn other_years_are_not_read_back() {
    for seconds in [253402300800, -62167219201, 8210266876799, -8334601228800] {
        let moment = Moment::new(seconds, 0).unwrap();
        assert_eq!(Moment::from_rfc3339(&moment.to_rfc3339()), None);
    }
}

#[test]
fn writes_utc() {
    assert_eq!(Moment::new(1424294169, 0).unwrap().to_rfc3339(), "2015-02-18T21:16:09+00:00");
}

#[test]
fn moments_outside_the_calendar() {
    assert_eq!(Moment::new(i64::MAX, 0), None);
    assert_eq!(Moment::new(i64::MIN, 0), None);
    assert_eq!(Moment::new(8210266876800, 0), None);
    assert_eq!(Moment::new(-8334601228801, 0), None);
    assert_eq!(Moment::new(0, 2_000_000_000), None);
    assert_eq!(Moment::new(0, 1_000_000_000), None);
    assert!(Moment::new(59, 1_000_000_000).is_some());
    assert!(Moment::new(-1, 1_000_000_000).is_some());
}

#[test]
fn validity_of_moments() {
    assert!(Moment { seconds: 59, nanos: 1_999_999_999 }.is_valid());
    assert!(!Moment { seconds: 58, nanos: 1_000_000_000 }.is_valid());
    assert!(!Moment { seconds: 59, nanos: 2_000_000_000 }.is_valid());
    assert!(!Moment { seconds: i64::MAX, nanos: 0 }.is_valid());
}

#[test]
fn the_ends_of_the_calendar_can_be_written() {
    assert_eq!(Moment::new(8210266876799, 0).unwrap().to_rfc3339(), "+262142-12-31T23:59:59+00:00");
    assert_eq!(Moment::new(-8334601228800, 0).unwrap().to_rfc3339(), "-262143-01-01T00:00:00+00:00");
}

#[test]
fn moments_in_order() {
    let a = Moment { seconds: 1, nanos: 5 };
    let b = Moment { seconds: 1, nanos: 6 };
    let c = Moment { seconds: 2, nanos: 0 };
    assert!(a.is_no_later(&a) && a.is_no_later(&b) && b.is_no_later(&c) && a.is_no_later(&c));
    assert!(!b.is_no_later(&a) && !c.is_no_later(&b));
}

#[test]
fn mail_dates_keep_the_clock() {
    assert_eq!(
        mail_date("2015-02-18T23:16:09+02:00"),
        Some("Wed, 18 Feb 2015 23:16:09 +0200".to_string())
    );
    assert_eq!(mail_date("0000-01-01T00:00:00+23:59").unwrap(), "Sat, 1 Jan 0000 00:00:00 +2359");
    assert_eq!(mail_date("9999-12-31T23:59:60-23:59").unwrap(), "Fri, 31 Dec 9999 23:59:60 -2359");
    assert_eq!(mail_date("no date"), None);
}
