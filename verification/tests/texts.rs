use carbide_scout::text::{
    decimal_text, join, quote_list, same_text, signed_decimal_text, text_precedes,
};
use carbide_scout::time::{
    debug_duration, format_duration, format_system_time, time_or_unknown, Duration, SystemTime,
};

#[test]
fn numbers_in_decimal() {
    assert_eq!(decimal_text(0), "0");
    assert_eq!(decimal_text(10), "10");
    assert_eq!(decimal_text(u128::MAX), u128::MAX.to_string());
    assert_eq!(signed_decimal_text(-1), "-1");
    assert_eq!(signed_decimal_text(i32::MIN), i32::MIN.to_string());
    assert_eq!(signed_decimal_text(i32::MAX), i32::MAX.to_string());
}

#[test]
fn lists_joined_and_quoted() {
    let parts: Vec<String> = vec!["a".to_string(), "".to_string(), "c\"".to_string()];
    assert_eq!(join(&parts, ", "), "a, , c\"");
    assert_eq!(join(&Vec::new(), ", "), "");
    assert_eq!(quote_list(&parts), format!("{parts:?}"));
}

#[test]
fn texts_compared() {
    assert!(same_text("abc", "abc"));
    assert!(!same_text("abc", "abd"));
    for a in ["", "a", "ab", "b", "Z", "\u{fc}", "\u{1f600}", "fm100"] {
        for b in ["", "a", "ab", "b", "Z", "\u{fc}", "\u{1f600}", "fm100"] {
            assert_eq!(text_precedes(a, b), a < b, "{a:?} {b:?}");
        }
    }
}

#[test]
fn spans_in_short() {
    assert_eq!(format_duration(Duration::from_secs(0)), "0ms");
    assert_eq!(format_duration(Duration::from_millis(999)), "999ms");
    assert_eq!(format_duration(Duration::from_millis(1000)), "1s");
    assert_eq!(format_duration(Duration::from_millis(61_999)), "61s");
    assert_eq!(format_duration(Duration::new(0, 999_999)), "0ms");
}

#[test]
fn spans_for_debugging() {
    assert_eq!(debug_duration(Duration::from_millis(50)), "50ms");
    assert_eq!(debug_duration(Duration::new(1, 500)), "1.0000005s");
}

#[test]
fn spans_hold_seconds_and_nanoseconds() {
    let span = Duration::from_millis(2345);
    assert_eq!(span.as_secs(), 2);
    assert_eq!(span.subsec_nanos(), 345_000_000);
    assert_eq!(span.as_millis(), 2345);
    assert_eq!(Duration::from_secs(u64::MAX).as_millis(), u64::MAX as u128 * 1000);
}

#[test]
fn points_in_time_as_text() {
    assert_eq!(
        format_system_time(SystemTime::unix_epoch()),
        "1970-01-01T00:00:00+00:00"
    );
    assert_eq!(
        format_system_time(SystemTime::new(1_700_000_000, 999_999_999)),
        "2023-11-14T22:13:20+00:00"
    );
    assert_eq!(format_system_time(SystemTime::new(-1, 0)), "unknown");
    assert_eq!(format_system_time(SystemTime::new(i64::MAX, 0)), "unknown");
}

#[test]
fn a_calendar_text_is_taken_from_1970_on() {
    let calendar = || Some("then".to_string());
    assert_eq!(time_or_unknown(SystemTime::new(0, 0), calendar()), "then");
    assert_eq!(time_or_unknown(SystemTime::new(-1, 999_999_999), calendar()), "unknown");
    assert_eq!(time_or_unknown(SystemTime::new(5, 0), None), "unknown");
}

#[test]
fn spans_between_points_in_time() {
    let early = SystemTime::new(-2, 900_000_000);
    let late = SystemTime::new(1, 100_000_000);
    assert_eq!(
        late.duration_since(early),
        Some(Duration::new(2, 200_000_000))
    );
    assert_eq!(early.duration_since(late), None);
    assert_eq!(late.duration_since(late), Some(Duration::from_secs(0)));
}
