//! When callbacks are tried again.

use smesh_authority::push_error::PushSecurityError;
use smesh_authority::retry::{
    classify_status, retry_after_from, retry_after_seconds, retry_after_seconds_at, DeliveryDisposition, RetryPolicy,
};

#[test]
fn bounds_must_fit_together() {
    assert!(RetryPolicy::new(1, 1, 1, 1).is_ok());
    assert!(RetryPolicy::new(32, 10, 20, 30).is_ok());
    for (attempts, base, max, age) in [(0, 1, 1, 1), (33, 1, 1, 1), (1, 0, 1, 1), (1, 2, 1, 1), (1, 1, 2, 1)] {
        assert_eq!(RetryPolicy::new(attempts, base, max, age).err(), Some(PushSecurityError::InvalidPolicy));
    }
}

#[test]
fn attempts_end_with_their_number_and_age() {
    let policy = RetryPolicy::new(3, 100, 1000, 5000).unwrap();
    assert!(!policy.can_attempt(0, 0));
    assert!(policy.can_attempt(1, 0));
    assert!(policy.can_attempt(3, 4999));
    assert!(!policy.can_attempt(4, 0));
    assert!(!policy.can_attempt(1, 5000));
}

#[test]
fn jitter_spreads_over_a_doubling_interval() {
    let policy = RetryPolicy::new(8, 100, 1000, 5000).unwrap();
    assert_eq!(policy.full_jitter_ms(1, 100), Some(100));
    assert_eq!(policy.full_jitter_ms(1, 101), Some(0));
    assert_eq!(policy.full_jitter_ms(2, 201), Some(0));
    assert_eq!(policy.full_jitter_ms(3, 400), Some(400));
    assert_eq!(policy.full_jitter_ms(5, 1000), Some(1000));
    assert_eq!(policy.full_jitter_ms(5, 1001), Some(0));
    assert_eq!(policy.full_jitter_ms(9, 1), None);
    assert_eq!(policy.full_jitter_ms(0, 1), None);
}

#[test]
fn jitter_of_the_largest_interval_leaves_out_its_end() {
    let policy = RetryPolicy::new(32, u64::MAX, u64::MAX, u64::MAX).unwrap();
    assert_eq!(policy.full_jitter_ms(32, u64::MAX), Some(0));
    assert_eq!(policy.full_jitter_ms(32, u64::MAX - 1), Some(u64::MAX - 1));
}

#[test]
fn delays_stay_in_the_interval_of_the_policy() {
    let policy = RetryPolicy::new(3, 100, 1000, 5000).unwrap();
    assert_eq!(policy.clamp_delay_ms(Some(5), 1, 0), Some(100));
    assert_eq!(policy.clamp_delay_ms(Some(500), 1, 0), Some(500));
    assert_eq!(policy.clamp_delay_ms(Some(50_000), 9, 0), Some(1000));
    assert_eq!(policy.clamp_delay_ms(None, 1, 7), Some(100));
    assert_eq!(policy.clamp_delay_ms(None, 3, 350), Some(350));
    assert_eq!(policy.clamp_delay_ms(None, 4, 7), None);
}

#[test]
fn statuses_decide_over_deliveries() {
    for status in [200, 204, 299] {
        assert_eq!(classify_status(status), DeliveryDisposition::Delivered);
    }
    for status in [408, 425, 429, 500, 502, 503, 504] {
        assert_eq!(classify_status(status), DeliveryDisposition::Retry);
    }
    for status in [100, 199, 300, 301, 400, 401, 404, 410, 501, 505] {
        assert_eq!(classify_status(status), DeliveryDisposition::Permanent);
    }
}

#[test]
fn retry_after_takes_seconds() {
    assert_eq!(retry_after_seconds_at(429, &["30"], 0, 1, 100), Some(30));
    assert_eq!(retry_after_seconds_at(503, &["0"], 0, 5, 100), Some(5));
    assert_eq!(retry_after_seconds_at(503, &["500"], 0, 5, 100), Some(100));
    assert_eq!(retry_after_seconds_at(503, &["+7"], 0, 5, 100), Some(7));
    assert_eq!(retry_after_seconds_at(503, &["-7"], 0, 5, 100), None);
    assert_eq!(retry_after_seconds_at(503, &["18446744073709551616"], 0, 5, 100), None);
}

#[test]
fn retry_after_takes_dates_to_come() {
    let date = "Sun, 06 Nov 1994 08:49:37 GMT";
    assert_eq!(retry_after_seconds_at(429, &[date], 784_111_700, 1, 1000), Some(77));
    assert_eq!(retry_after_seconds_at(429, &[date], 784_111_777, 1, 1000), None);
    assert_eq!(retry_after_seconds_at(429, &[date], 784_111_778, 1, 1000), None);
    assert_eq!(retry_after_seconds_at(429, &["yesterday"], 0, 1, 1000), None);
}

#[test]
fn retry_after_is_heard_once_and_from_few_statuses() {
    assert_eq!(retry_after_seconds_at(500, &["30"], 0, 1, 100), None);
    assert_eq!(retry_after_seconds_at(429, &[], 0, 1, 100), None);
    assert_eq!(retry_after_seconds_at(429, &["1", "2"], 0, 1, 100), None);
    assert_eq!(retry_after_seconds_at(429, &["30"], 0, 100, 1), None);
}

#[test]
fn retry_after_follows_the_clock() {
    assert_eq!(retry_after_seconds(429, &["30"], 1, 100), Some(30));
    assert_eq!(retry_after_seconds(429, &["Sun, 06 Nov 1994 08:49:37 GMT"], 1, 100), None);
    assert_eq!(retry_after_seconds(429, &["Fri, 31 Dec 9999 23:59:59 GMT"], 1, 100), Some(100));
}

#[test]
fn retry_after_takes_a_date_that_was_read() {
    assert_eq!(retry_after_from(503, &["whenever"], Some(150), 100, 1, 1000), Some(50));
    assert_eq!(retry_after_from(503, &["12"], Some(150), 100, 1, 1000), Some(12));
    assert_eq!(retry_after_from(503, &["whenever"], None, 100, 1, 1000), None);
}
