use speech_stream::util::{format_timestamp_to_time, Log};

#[test]
fn test_format_timestamp_to_time() {
    let time = 1000 * 60 * 60 * 3 + 1000 * 60 * 3 + 3;
    let result = format_timestamp_to_time(time);
    assert_eq!(result, "03:00:003");
}

#[test]
fn format_zero() {
    assert_eq!(format_timestamp_to_time(0), "00:00:000");
}

#[test]
fn format_first_minute_begins_with_zero_minutes() {
    for ms in [0, 1, 999, 1000, 12_345, 59_999] {
        assert!(format_timestamp_to_time(ms).starts_with("00:"));
    }
    assert_eq!(format_timestamp_to_time(59_999), "00:59:999");
}

#[test]
fn format_one_minute() {
    assert_eq!(format_timestamp_to_time(60_000), "01:00:000");
}

#[test]
fn format_folds_hours_away() {
    assert_eq!(format_timestamp_to_time(3_600_003), "00:00:003");
    assert_eq!(format_timestamp_to_time(3_599_999), "59:59:999");
    assert_eq!(
        format_timestamp_to_time(754_321 + 3_600_000),
        format_timestamp_to_time(754_321)
    );
}

#[test]
fn format_each_field() {
    assert_eq!(format_timestamp_to_time(5), "00:00:005");
    assert_eq!(format_timestamp_to_time(45), "00:00:045");
    assert_eq!(format_timestamp_to_time(7_000), "00:07:000");
    assert_eq!(format_timestamp_to_time(600_000), "10:00:000");
    assert_eq!(format_timestamp_to_time(754_321), "12:34:321");
}

#[test]
fn format_before_zero_keeps_the_sign_in_each_field() {
    assert_eq!(format_timestamp_to_time(-1), "00:00:-01");
    assert_eq!(format_timestamp_to_time(-12), "00:00:-12");
    assert_eq!(format_timestamp_to_time(-123), "00:00:-123");
    assert_eq!(format_timestamp_to_time(-5_000), "00:-5:000");
    assert_eq!(format_timestamp_to_time(-754_321), "-12:-34:-321");
}

#[test]
fn format_extremes() {
    let at = |ms: i64| {
        format!(
            "{:02}:{:02}:{:03}",
            (ms / 60000) % 60,
            (ms / 1000) % 60,
            ms % 1000
        )
    };
    for ms in [i64::MAX, i64::MIN, i64::MIN + 1, -60_000, -3_600_000] {
        assert_eq!(format_timestamp_to_time(ms), at(ms));
    }
}

#[test]
fn log_gate() {
    assert!(Log::new(true).enabled());
    assert!(!Log::new(false).enabled());
    assert!(!Log::default().enabled());
    let log = Log::new(true);
    assert!(log.clone().enabled());
}
