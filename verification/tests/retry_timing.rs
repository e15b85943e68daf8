use sudo_test::timing::delay_increased;
use sudo_test::timing::meets_minimum_delay;
use sudo_test::timing::retry_delay_millis;

#[test]
fn delay_is_measured_as_a_difference() {
    // The timing script prints one millisecond timestamp before and one
    // after the retried attempt.
    assert_eq!(retry_delay_millis(b"1700000001000\n1700000003100\n"), Some(2100));
    assert_eq!(retry_delay_millis(b"500\n500\n"), Some(0));
}

#[test]
fn prompt_lines_between_timestamps_are_passed_over() {
    assert_eq!(retry_delay_millis(b"1000\nPassword: \n3500\n"), Some(2500));
}

#[test]
fn a_measurement_needs_exactly_two_timestamps() {
    assert_eq!(retry_delay_millis(b""), None);
    assert_eq!(retry_delay_millis(b"1000\n"), None);
    assert_eq!(retry_delay_millis(b"1000\n2000\n3000\n"), None);
    // Clocks inside the script must be monotonic; a backwards pair is a
    // broken measurement, not a negative delay.
    assert_eq!(retry_delay_millis(b"2000\n1000\n"), None);
}

#[test]
fn default_retry_delay_floor() {
    // The default inter-attempt delay is about two seconds; the tolerance
    // floor absorbs scheduler jitter.
    let measured = retry_delay_millis(b"1000\n3000\n").unwrap();
    assert!(meets_minimum_delay(measured, 1250));
    assert!(!meets_minimum_delay(1100, 1250));
}

#[test]
fn increased_configured_delay_must_measure_larger() {
    // Raising the configured delay to five seconds must clear the higher
    // floor and exceed the measurement under the default configuration.
    let initial = retry_delay_millis(b"1000\n3050\n").unwrap();
    let newer = retry_delay_millis(b"1000\n6100\n").unwrap();
    assert!(delay_increased(initial, newer, 3100));
    assert!(!delay_increased(initial, 3000, 3100));
    assert!(!delay_increased(5200, 5100, 3100));
}
