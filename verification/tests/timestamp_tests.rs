use loginapp::timestamp::{Timestamp, MAX_SECS, MIN_SECS, NANOS_PER_SEC};

fn at(secs: i64, nanos: u32) -> Timestamp {
    Timestamp::new(secs, nanos).unwrap()
}

#[test]
fn new_takes_the_years_0000_to_9999() {
    assert!(Timestamp::new(0, 0).is_some());
    assert!(Timestamp::new(MIN_SECS, 0).is_some());
    assert!(Timestamp::new(MAX_SECS, 999_999_999).is_some());
    assert!(Timestamp::new(MIN_SECS - 1, 0).is_none());
    assert!(Timestamp::new(MAX_SECS + 1, 0).is_none());
    assert!(Timestamp::new(0, NANOS_PER_SEC).is_none());
    assert!(Timestamp::new(i64::MAX, 0).is_none());
    assert!(Timestamp::new(i64::MIN, 0).is_none());
}

#[test]
fn parts_are_kept() {
    let t = at(1_704_067_200, 123);
    assert_eq!(t.seconds(), 1_704_067_200);
    assert_eq!(t.subsec_nanos(), 123);
}

#[test]
fn text_of_known_moments() {
    assert_eq!(at(0, 0).to_rfc3339(), "1970-01-01T00:00:00+00:00");
    assert_eq!(at(1_704_067_200, 0).to_rfc3339(), "2024-01-01T00:00:00+00:00");
    assert_eq!(at(1_704_067_200, 500_000_000).to_rfc3339(), "2024-01-01T00:00:00.500+00:00");
    assert_eq!(at(1_704_067_200, 1_000).to_rfc3339(), "2024-01-01T00:00:00.000001+00:00");
    assert_eq!(at(1_704_067_200, 1).to_rfc3339(), "2024-01-01T00:00:00.000000001+00:00");
    assert_eq!(at(-1, 0).to_rfc3339(), "1969-12-31T23:59:59+00:00");
}

#[test]
fn text_at_the_ends_of_the_range() {
    assert_eq!(at(MIN_SECS, 0).to_rfc3339(), "0000-01-01T00:00:00+00:00");
    assert_eq!(at(MAX_SECS, 999_999_999).to_rfc3339(), "9999-12-31T23:59:59.999999999+00:00");
}

#[test]
fn timestamp_text_reads_back() {
    for (secs, nanos) in [
        (0, 0),
        (1_704_067_200, 0),
        (1_704_067_200, 999_999_999),
        (1_704_067_200, 120_000_000),
        (-1, 1),
        (MIN_SECS, 0),
        (MIN_SECS, 1),
        (MAX_SECS, 0),
        (MAX_SECS, 999_999_999),
        (951_782_400, 0),
    ] {
        let t = at(secs, nanos);
        assert_eq!(Timestamp::parse_rfc3339(&t.to_rfc3339()), Some(t), "{} {}", secs, nanos);
    }
}

#[test]
fn parse_brings_the_moment_to_utc() {
    assert_eq!(Timestamp::parse_rfc3339("2024-01-01T01:00:00+01:00"), Some(at(1_704_067_200, 0)));
    assert_eq!(Timestamp::parse_rfc3339("2023-12-31T19:00:00-05:00"), Some(at(1_704_067_200, 0)));
    assert_eq!(Timestamp::parse_rfc3339("2024-01-01T00:00:00Z"), Some(at(1_704_067_200, 0)));
    assert_eq!(
        Timestamp::parse_rfc3339("2024-01-01T00:00:00.25Z"),
        Some(at(1_704_067_200, 250_000_000))
    );
}

#[test]
fn parse_refuses_what_is_not_rfc3339() {
    for text in [
        "",
        "2024-01-01",
        "2024-01-01 00:00:00",
        "2024-01-01T00:00:00",
        "2024-13-01T00:00:00Z",
        "2024-02-30T00:00:00Z",
        "2024-01-01T24:00:00Z",
        "yesterday",
        "1704067200",
        "2024-01-01T00:00:00Z trailing",
    ] {
        assert_eq!(Timestamp::parse_rfc3339(text), None, "{}", text);
    }
}

#[test]
fn parse_refuses_moments_outside_the_range() {
    assert_eq!(Timestamp::parse_rfc3339("0000-01-01T00:00:00+00:01"), None);
    assert_eq!(Timestamp::parse_rfc3339("9999-12-31T23:59:59-00:01"), None);
    assert_eq!(
        Timestamp::parse_rfc3339("0000-01-01T00:00:00-00:01"),
        Some(at(MIN_SECS + 60, 0))
    );
}

#[test]
fn parse_refuses_a_leap_second() {
    assert_eq!(Timestamp::parse_rfc3339("2016-12-31T23:59:60Z"), None);
}
