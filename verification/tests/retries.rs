use gitlab_tokens_exporter::gitlab::retry::{
    backoff_delay, max_retries, retry_backoff, Decision, Delay, GetWithRetry, Outcome,
};

fn millis(delay: Delay) -> u128 {
    u128::from(delay.as_secs()) * 1000 + u128::from(delay.subsec_nanos()) / 1_000_000
}

fn status(status: u16) -> Outcome {
    Outcome::Response { status }
}

const TIMEOUT: Outcome = Outcome::TransportError {
    timeout: true,
    connect: false,
};

const REFUSED: Outcome = Outcome::TransportError {
    timeout: false,
    connect: true,
};

const OTHER_ERROR: Outcome = Outcome::TransportError {
    timeout: false,
    connect: false,
};

#[test]
fn backoff_doubles_up_to_64_times_the_base() {
    let base = Delay::from_millis(500);
    let expected = [500, 1000, 2000, 4000, 8000, 16000, 32000, 32000, 32000];
    for (attempt, delay) in expected.iter().enumerate() {
        assert_eq!(millis(backoff_delay(attempt as u32, base)), *delay);
    }
    assert_eq!(millis(backoff_delay(u32::MAX, base)), 32000);
}

#[test]
fn backoff_of_the_longest_base_is_exact() {
    let base = Delay::from_millis(u64::MAX);
    assert_eq!(millis(backoff_delay(0, base)), u128::from(u64::MAX));
    assert_eq!(millis(backoff_delay(6, base)), 64 * u128::from(u64::MAX));
}

#[test]
fn delays_saturate() {
    let base = Delay::from_millis(u64::MAX);
    let long = base.saturating_mul(u32::MAX);
    assert_eq!(long.as_secs(), u64::MAX);
    assert_eq!(long.subsec_nanos(), 999_999_999);
    let longer = backoff_delay(3, long);
    assert_eq!(longer.as_secs(), u64::MAX);
    assert_eq!(longer.subsec_nanos(), 999_999_999);
    let none = base.saturating_mul(0);
    assert_eq!((none.as_secs(), none.subsec_nanos()), (0, 0));
}

#[test]
fn delay_splits_into_seconds_and_nanoseconds() {
    let delay = Delay::from_millis(1234);
    assert_eq!(delay.as_secs(), 1);
    assert_eq!(delay.subsec_nanos(), 234_000_000);
}

#[test]
fn max_retries_setting() {
    assert_eq!(max_retries(None), 4);
    assert_eq!(max_retries(Some("0")), 0);
    assert_eq!(max_retries(Some("7")), 7);
    assert_eq!(max_retries(Some("+7")), 7);
    assert_eq!(max_retries(Some("007")), 7);
    assert_eq!(max_retries(Some("4294967295")), u32::MAX);
    for text in ["4294967296", "", "+", "-1", "-0", " 7", "7 ", "7.0", "1_000", "x", "++7", "\u{664}"] {
        assert_eq!(max_retries(Some(text)), 4, "{text}");
    }
}

#[test]
fn settings_are_read_as_std_reads_numbers() {
    for text in [
        "0", "00", "+0", "-0", "-", "+", "", "9", "10", "4294967295", "4294967296", "+4294967295", "12a", "a12",
        "18446744073709551615", "18446744073709551616", "99999999999999999999999", " 1", "1\n", "+-1",
    ] {
        assert_eq!(max_retries(Some(text)), text.parse().unwrap_or(4), "{text}");
        let backoff: u64 = text.parse().unwrap_or(500);
        assert_eq!(millis(retry_backoff(Some(text))), u128::from(backoff), "{text}");
    }
}

#[test]
fn retry_backoff_setting() {
    assert_eq!(millis(retry_backoff(None)), 500);
    assert_eq!(millis(retry_backoff(Some("20"))), 20);
    assert_eq!(millis(retry_backoff(Some("18446744073709551615"))), u128::from(u64::MAX));
    assert_eq!(millis(retry_backoff(Some("18446744073709551616"))), 500);
    assert_eq!(millis(retry_backoff(Some("soon"))), 500);
}

#[test]
fn success_is_accepted() {
    for code in [100, 200, 204, 302, 304, 399, 600, 999] {
        let mut request = GetWithRetry::new(4, Delay::from_millis(500));
        assert!(matches!(request.on_outcome(status(code)), Decision::Accept), "{code}");
        assert_eq!(request.attempt(), 0);
    }
}

#[test]
fn retryable_statuses_are_retried() {
    for code in [429, 500, 502, 503, 504] {
        let mut request = GetWithRetry::new(1, Delay::from_millis(500));
        match request.on_outcome(status(code)) {
            Decision::RetryAfter(delay) => assert_eq!(millis(delay), 500),
            other => panic!("{code}: {other:?}"),
        }
        assert_eq!(request.attempt(), 1);
    }
}

#[test]
fn other_error_statuses_fail_immediately() {
    for code in [400, 401, 403, 404, 428, 430, 499, 501, 505, 599] {
        let mut request = GetWithRetry::new(4, Delay::from_millis(500));
        assert!(matches!(request.on_outcome(status(code)), Decision::FailStatus), "{code}");
        assert_eq!(request.attempt(), 0);
    }
}

#[test]
fn timeouts_and_connection_errors_are_retried() {
    let mut request = GetWithRetry::new(2, Delay::from_millis(10));
    assert!(matches!(request.on_outcome(TIMEOUT), Decision::RetryAfter(_)));
    match request.on_outcome(REFUSED) {
        Decision::RetryAfter(delay) => assert_eq!(millis(delay), 20),
        other => panic!("{other:?}"),
    }
    assert!(matches!(request.on_outcome(TIMEOUT), Decision::FailTransport));
    assert_eq!(request.attempt(), 2);
}

#[test]
fn other_transport_errors_fail_immediately() {
    let mut request = GetWithRetry::new(4, Delay::from_millis(10));
    assert!(matches!(request.on_outcome(OTHER_ERROR), Decision::FailTransport));
}

#[test]
fn zero_retries_disable_retrying() {
    let mut request = GetWithRetry::new(0, Delay::from_millis(10));
    assert!(matches!(request.on_outcome(status(503)), Decision::FailStatus));
    assert!(matches!(request.on_outcome(TIMEOUT), Decision::FailTransport));
}

#[test]
fn retries_are_bounded_and_wait_longer_each_time() {
    let mut request = GetWithRetry::new(4, Delay::from_millis(500));
    let mut waits = Vec::new();
    let last = loop {
        match request.on_outcome(status(503)) {
            Decision::RetryAfter(delay) => waits.push(millis(delay)),
            other => break other,
        }
    };
    assert_eq!(waits, vec![500, 1000, 2000, 4000]);
    assert!(matches!(last, Decision::FailStatus));
}

#[test]
fn success_after_transient_failures_is_accepted() {
    let mut request = GetWithRetry::new(4, Delay::from_millis(500));
    assert!(matches!(request.on_outcome(status(502)), Decision::RetryAfter(_)));
    assert!(matches!(request.on_outcome(TIMEOUT), Decision::RetryAfter(_)));
    assert!(matches!(request.on_outcome(status(200)), Decision::Accept));
}

#[test]
fn total_wait_is_bounded() {
    let mut request = GetWithRetry::new(10, Delay::from_millis(1));
    let mut total = 0;
    while let Decision::RetryAfter(delay) = request.on_outcome(status(429)) {
        total += millis(delay);
    }
    assert_eq!(request.attempt(), 10);
    assert_eq!(total, 1 + 2 + 4 + 8 + 16 + 32 + 4 * 64);
    assert!(total <= 10 * 64);
}
