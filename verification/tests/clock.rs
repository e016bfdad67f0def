use affine_native::clock::{millis_of, now_millis, Reading, CLOCK_LIMIT, SECONDS_LIMIT};

#[test]
fn a_reading_in_milliseconds() {
    assert_eq!(millis_of(Reading { seconds: 0, nanos: 0 }), 0);
    assert_eq!(millis_of(Reading { seconds: 1, nanos: 0 }), 1_000);
    assert_eq!(millis_of(Reading { seconds: 1, nanos: 999_999 }), 1_000);
    assert_eq!(millis_of(Reading { seconds: 1, nanos: 1_000_000 }), 1_001);
    assert_eq!(millis_of(Reading { seconds: 1, nanos: 999_999_999 }), 1_999);
    assert_eq!(millis_of(Reading { seconds: 1_704_067_200, nanos: 123_456_789 }), 1_704_067_200_123);
    // before the epoch the nanoseconds still count forward
    assert_eq!(millis_of(Reading { seconds: -1, nanos: 500_000_000 }), -500);
    // a leap second is written with more than a thousand million nanoseconds
    assert_eq!(millis_of(Reading { seconds: 59, nanos: 1_500_000_000 }), 60_500);
}

#[test]
fn the_clock_in_milliseconds() {
    let before = chrono::Utc::now().timestamp_millis();
    let now = now_millis();
    let after = chrono::Utc::now().timestamp_millis();
    assert!(before <= now && now <= after);
    assert!(-CLOCK_LIMIT < now && now < CLOCK_LIMIT);
    assert_eq!(CLOCK_LIMIT, SECONDS_LIMIT * 1000 + 5000);
}
