use deboa_extras::delay::Delay;
use deboa_extras::errors::ClientError;
use deboa_extras::hook::retry::{
    is_transient_failure, ExponentialBackoffRetryStrategy, FixedIntervalRetryStrategy,
    LinearRetryStrategy, Retry, RetryHook, RetryStep, RetryStrategy,
};

fn delays<S: RetryStrategy>(mut s: S, n: usize) -> Vec<Option<u128>> {
    (0..n).map(|_| s.next_retry().map(|d| d.as_nanos())).collect()
}

#[test]
fn fixed_strategy_gives_limit_equal_delays() {
    let s = FixedIntervalRetryStrategy::new(3, Delay::from_millis(250));
    assert_eq!(s.limit(), 3);
    assert_eq!(s.attempt(), 0);
    let d = 250_000_000u128;
    assert_eq!(delays(s, 5), vec![Some(d), Some(d), Some(d), None, None]);
}

#[test]
fn linear_strategy_grows_by_base() {
    let s = LinearRetryStrategy::new(4, Delay::from_secs(2));
    let b = 2_000_000_000u128;
    assert_eq!(delays(s, 5), vec![Some(b), Some(2 * b), Some(3 * b), Some(4 * b), None]);
}

#[test]
fn exponential_strategy_doubles() {
    let s = ExponentialBackoffRetryStrategy::new(5, Delay::from_millis(100));
    let b = 100_000_000u128;
    assert_eq!(
        delays(s, 6),
        vec![Some(b), Some(2 * b), Some(4 * b), Some(8 * b), Some(16 * b), None]
    );
}

#[test]
fn strategy_counts_attempts() {
    let mut s = LinearRetryStrategy::new(2, Delay::from_secs(1));
    s.next_retry();
    assert_eq!(s.attempt(), 1);
    s.next_retry();
    s.next_retry();
    assert_eq!(s.attempt(), 2);
    assert_eq!(s.limit(), 2);
}

#[test]
fn zero_limit_gives_no_delay() {
    let mut s = FixedIntervalRetryStrategy::new(0, Delay::from_secs(1));
    assert!(s.next_retry().is_none());
    assert_eq!(s.attempt(), 0);
}

#[test]
fn transient_statuses() {
    for s in [500u16, 502, 503, 504, 429] {
        assert!(is_transient_failure(s));
    }
    for s in [200u16, 201, 301, 400, 401, 404, 501, 505] {
        assert!(!is_transient_failure(s));
    }
}

#[test]
fn retry_run_gives_up_after_limit() {
    let hook = RetryHook::new((), FixedIntervalRetryStrategy::new(3, Delay::from_secs(3)), ());
    let mut run = hook.start();
    let mut sends = 0;
    loop {
        match run.next_attempt() {
            RetryStep::Send { delay } => {
                assert_eq!(delay.as_secs(), 3);
                sends += 1;
                // every answer is 503
                assert!(is_transient_failure(503));
            }
            RetryStep::GiveUp { error } => {
                assert_eq!(
                    error,
                    ClientError::Send {
                        message: "Could not complete request after 3 retries".to_string()
                    }
                );
                break;
            }
        }
    }
    assert_eq!(sends, 3);
}

#[test]
fn retry_default_and_chain() {
    let r: Retry<()> = Retry::default();
    let hook = r.chain(7u8);
    assert_eq!(*hook.inner(), 7u8);
    let mut run = hook.start();
    let mut n = 0;
    while let RetryStep::Send { delay } = run.next_attempt() {
        assert_eq!(delay.as_secs(), 3);
        n += 1;
    }
    assert_eq!(n, 3);
    let r = Retry::new(LinearRetryStrategy::new(1, Delay::from_secs(1)), 5u8);
    let hook = r.chain("inner");
    assert_eq!(*hook.sleeper(), 5u8);
}

#[test]
fn delay_arithmetic() {
    let d = Delay::from_secs(3);
    assert_eq!(d.as_nanos(), 3_000_000_000);
    assert_eq!(d.as_secs(), 3);
    assert_eq!(d.subsec_nanos(), 0);
    let m = Delay::from_millis(1500);
    assert_eq!(m.as_secs(), 1);
    assert_eq!(m.subsec_nanos(), 500_000_000);
    assert_eq!(Delay::from_nanos(7).as_nanos(), 7);
    assert_eq!(m.checked_mul(4).unwrap().as_nanos(), 6_000_000_000);
    let big = Delay::from_secs(u64::MAX);
    assert!(big.checked_mul(2).is_none());
    assert_eq!(big.checked_mul(1).unwrap().as_secs(), u64::MAX);
}

#[test]
fn delay_new_carries_whole_seconds() {
    let d = Delay::new(1, 2_500_000_000);
    assert_eq!(d.as_secs(), 3);
    assert_eq!(d.subsec_nanos(), 500_000_000);
    assert_eq!(d.as_nanos(), 3_500_000_000);
}
