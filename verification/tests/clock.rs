use user_api::Timestamp;

#[test]
fn the_epoch_is_shown_in_rfc3339() {
    let epoch = Timestamp::new(0, 0).unwrap();
    assert_eq!(epoch.seconds(), 0);
    assert_eq!(epoch.subsec_nanos(), 0);
    assert_eq!(epoch.to_rfc3339(), "1970-01-01T00:00:00+00:00");
}

#[test]
fn whole_seconds_are_shown_without_a_fraction() {
    let stamp = Timestamp::new(1_700_000_000, 0).unwrap();
    assert_eq!(stamp.to_rfc3339(), "2023-11-14T22:13:20+00:00");
}

#[test]
fn nanoseconds_are_shown_in_the_shortest_of_three_widths() {
    assert_eq!(
        Timestamp::new(1_700_000_000, 500_000_000).unwrap().to_rfc3339(),
        "2023-11-14T22:13:20.500+00:00"
    );
    assert_eq!(
        Timestamp::new(1_700_000_000, 123_456_000).unwrap().to_rfc3339(),
        "2023-11-14T22:13:20.123456+00:00"
    );
    assert_eq!(
        Timestamp::new(1_700_000_000, 123_456_789).unwrap().to_rfc3339(),
        "2023-11-14T22:13:20.123456789+00:00"
    );
}

#[test]
fn an_instant_beyond_the_calendar_is_refused() {
    assert_eq!(Timestamp::new(u64::MAX, 0), None);
    assert_eq!(Timestamp::new(i64::MAX as u64, 0), None);
    assert_eq!(Timestamp::new(i64::MAX as u64 + 1, 0), None);
}

#[test]
fn an_invalid_nanosecond_count_is_refused() {
    assert_eq!(Timestamp::new(0, 2_000_000_000), None);
    assert_eq!(Timestamp::new(0, 1_000_000_000), None);
}

#[test]
fn a_leap_second_is_shown_as_second_sixty() {
    let stamp = Timestamp::new(59, 1_000_000_000).unwrap();
    assert_eq!(stamp.to_rfc3339(), "1970-01-01T00:00:60+00:00");
}

#[test]
fn plus_seconds_moves_the_instant_and_its_text() {
    let start = Timestamp::new(1_700_000_000, 250_000_000).unwrap();
    let later = start.plus_seconds(86_400).unwrap();
    assert_eq!(later.seconds(), 1_700_086_400);
    assert_eq!(later.subsec_nanos(), 250_000_000);
    assert_eq!(later.to_rfc3339(), "2023-11-15T22:13:20.250+00:00");
    assert_eq!(later, Timestamp::new(1_700_086_400, 250_000_000).unwrap());
}

#[test]
fn plus_zero_seconds_is_the_same_instant() {
    let start = Timestamp::new(1_700_000_000, 1).unwrap();
    assert_eq!(start.plus_seconds(0).unwrap(), start);
}

#[test]
fn plus_seconds_refuses_what_overflows_or_leaves_the_calendar() {
    let start = Timestamp::new(1_700_000_000, 0).unwrap();
    assert_eq!(start.plus_seconds(u64::MAX), None);
    assert_eq!(start.plus_seconds(i64::MAX as u64), None);
}

#[test]
fn now_reads_a_time_of_this_century() {
    let now = Timestamp::now().unwrap();
    assert!(now.seconds() > 1_600_000_000);
    assert!(now.subsec_nanos() < 2_000_000_000);
    assert_eq!(
        Timestamp::new(now.seconds(), now.subsec_nanos()).unwrap().to_rfc3339(),
        now.to_rfc3339()
    );
}

#[test]
fn now_does_not_run_backwards() {
    let first = Timestamp::now().unwrap();
    let second = Timestamp::now().unwrap();
    assert!(
        (second.seconds(), second.subsec_nanos()) >= (first.seconds(), first.subsec_nanos())
    );
}

#[test]
fn a_reading_since_the_epoch_is_taken_as_its_instant() {
    assert_eq!(Timestamp::from_reading(0, 0), Timestamp::new(0, 0));
    let stamp = Timestamp::from_reading(1_700_000_000, 123_456_789).unwrap();
    assert_eq!(stamp.seconds(), 1_700_000_000);
    assert_eq!(stamp.subsec_nanos(), 123_456_789);
    assert_eq!(stamp.to_rfc3339(), "2023-11-14T22:13:20.123456789+00:00");
}

#[test]
fn a_reading_before_the_epoch_is_taken_as_nothing() {
    assert_eq!(Timestamp::from_reading(-1, 0), None);
    assert_eq!(Timestamp::from_reading(-1, 999_999_999), None);
    assert_eq!(Timestamp::from_reading(i64::MIN, 0), None);
}

#[test]
fn a_reading_that_the_calendar_cannot_show_is_taken_as_nothing() {
    assert_eq!(Timestamp::from_reading(i64::MAX, 0), None);
    assert_eq!(Timestamp::from_reading(0, 2_000_000_000), None);
}

#[test]
fn now_is_what_its_reading_is_taken_as() {
    let now = Timestamp::now().unwrap();
    assert_eq!(Timestamp::from_reading(now.seconds() as i64, now.subsec_nanos()), Some(now));
}
