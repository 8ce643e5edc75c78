use fraud_signal::clock::{timestamp_millis, LAST_SECOND};

#[test]
fn timestamps_are_in_whole_milliseconds() {
    assert_eq!(timestamp_millis(0, 0), Some(0));
    assert_eq!(timestamp_millis(1, 444_000_000), Some(1_444));
    assert_eq!(timestamp_millis(1_000_000_000, 555_999_999), Some(1_000_000_000_555));
    assert_eq!(timestamp_millis(59, 999_999_999), Some(59_999));
}

#[test]
fn dates_end() {
    let last = LAST_SECOND as u64;
    assert_eq!(timestamp_millis(last, 999_999_999), Some(8_210_266_876_799_999));
    assert_eq!(timestamp_millis(last + 1, 0), None);
    assert_eq!(timestamp_millis(i64::MAX as u64, 0), None);
    assert_eq!(timestamp_millis(u64::MAX, 0), None);
}
