use rushwind::ratelimit::{Valve, RateLimitError, WaitStep};
use rushwind::retry::{AfterFailure, Backoff, Jitter, Retrier, RetryError};

const MS: u128 = 1_000_000;

#[test]
fn jitter_stays_in_bounds() {
    let delay = 1000 * MS;
    for _ in 0..100 {
        let full = Jitter::Full.apply(delay);
        assert!(full < delay, "full jitter must stay below the delay");
        let equal = Jitter::Equal.apply(delay);
        assert!(
            equal >= 500 * MS && equal < delay,
            "equal jitter must land in [delay/2, delay), got {equal:?}"
        );
    }
}

#[test]
fn jitter_does_not_hand_the_delay_back() {
    let delay = 1_000_000 * MS;
    let draws: Vec<u128> = (0..8).map(|_| Jitter::Full.apply(delay)).collect();
    assert!(draws.iter().any(|d| *d != draws[0]));
    assert_eq!(Jitter::Off.apply(delay), delay);
    assert_eq!(Jitter::Full.apply(0), 0);
}

#[test]
fn drawn_jitter_is_exact() {
    let half = 0x8000_0000_0000_0000;
    assert_eq!(Jitter::Full.apply_drawn(1000 * MS, 0), 0);
    assert_eq!(Jitter::Full.apply_drawn(1000 * MS, half), 500 * MS);
    assert_eq!(Jitter::Full.apply_drawn(1000 * MS, u64::MAX), 999 * MS);
    assert_eq!(Jitter::Equal.apply_drawn(1000 * MS, 0), 500 * MS);
    assert_eq!(Jitter::Equal.apply_drawn(1000 * MS, half), 750 * MS);
    assert_eq!(Jitter::Equal.apply_drawn(1000 * MS, u64::MAX), 999 * MS);
    assert_eq!(Jitter::Full.apply_drawn(1, u64::MAX), 0);
    assert_eq!(Jitter::Equal.apply_drawn(MS, 0), MS / 2);
    assert_eq!(Jitter::Equal.apply_drawn(MS, u64::MAX), MS / 2);
    assert_eq!(Jitter::Equal.apply_drawn(3 * MS, 0), 3 * MS / 2);
    assert_eq!(Jitter::Equal.apply_drawn(3 * MS, half), 2 * MS);
    assert_eq!(Jitter::Equal.apply_drawn(1, u64::MAX), 0);
    assert_eq!(Jitter::Off.apply_drawn(7, 3), 7);
}

#[test]
fn max_attempts_carries_last_error() {
    let retrier = Retrier::default().max_attempts(3);
    let mut attempt = 0;
    let mut calls = 0;
    let last = loop {
        calls += 1;
        match retrier.attempt_failed(attempt, "transient".to_string(), true, 0) {
            AfterFailure::Retry(next) => attempt = next,
            AfterFailure::GiveUp(error) => break error,
        }
    };
    assert_eq!(calls, 3);
    assert_eq!(last, RetryError::MaxAttempts("transient".to_string()));
}

#[test]
fn non_retryable_short_circuits() {
    let retrier = Retrier::default().max_attempts(5);
    assert_eq!(
        retrier.attempt_failed(0, "permanent".to_string(), false, 0),
        AfterFailure::GiveUp(RetryError::MaxAttempts("permanent".to_string()))
    );
}

#[test]
fn total_timeout_bounds_the_retries() {
    let retrier = Retrier::default()
        .max_attempts(10)
        .backoff(Backoff::Fixed(100 * MS))
        .max_total_wait(250 * MS);
    assert!(retrier.wait_fits(0, 100 * MS));
    assert!(retrier.wait_fits(100 * MS, 100 * MS));
    assert!(!retrier.wait_fits(200 * MS, 100 * MS));
    assert_eq!(
        retrier.attempt_failed(0, "slow".to_string(), true, 250 * MS),
        AfterFailure::GiveUp(RetryError::Timeout)
    );
}

#[test]
fn zero_attempts_are_ignored() {
    let retrier = Retrier::new().max_attempts(0);
    assert_eq!(
        retrier.attempt_failed(1, (), true, 0),
        AfterFailure::Retry(2)
    );
    assert_eq!(
        retrier.attempt_failed(2, (), true, 0),
        AfterFailure::GiveUp(RetryError::MaxAttempts(()))
    );
}

#[test]
fn retry_defaults() {
    let retrier = Retrier::new().jitter(Jitter::Off);
    assert_eq!(
        retrier.current_backoff(),
        Backoff::Exponential {
            initial: 200 * MS,
            factor_bits: 2.0f64.to_bits(),
            max: 10_000 * MS,
        }
    );
    assert_eq!(retrier.spread_wait(5), 5);
    assert!(retrier.wait_fits(u128::MAX / 2, 1));
}

#[test]
fn retry_messages() {
    assert_eq!(
        RetryError::MaxAttempts("boom".to_string()).message(),
        "retry: max attempts exceeded: boom"
    );
    assert_eq!(
        RetryError::<String>::Timeout.message(),
        "retry: total timeout exceeded"
    );
}

#[test]
fn close_rejects_and_fails_wait() {
    let mut valve = Valve::new();
    assert!(valve.allow(0));
    assert!(!valve.allow(1));
    assert_eq!(valve.wait(0), Ok(WaitStep::Granted));
    assert_eq!(valve.wait(9), Ok(WaitStep::Sleep(9)));
    valve.close();
    assert!(valve.is_closed());
    assert!(!valve.allow(0), "a closed limiter rejects");
    assert_eq!(valve.wait(0), Err(RateLimitError::Limited));
}

#[test]
fn rate_limit_messages() {
    assert_eq!(
        RateLimitError::Limited.message(),
        "ratelimit: rate limit exceeded"
    );
    assert_eq!(
        RateLimitError::Failed("x".to_string()).message(),
        "ratelimit operation failed: x"
    );
}
