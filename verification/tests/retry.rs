use road7::retry::{
    choose_strategy, FibonacciBackoffStrategy, FixedIntervalBackoffStrategy, HarmonicBackoffStrategy,
    IncrementalBackoffStrategy, LinearBackoffStrategy, RandomDelayStrategy, RetryStrategy, StrategyChoice,
};
use road7::Duration;

#[test]
fn test_fixed_interval_backoff() {
    let mut strategy = FixedIntervalBackoffStrategy::new(Duration::from_secs(2), 3);
    assert_eq!(strategy.delay(), Duration::from_secs(2));
    assert_eq!(strategy.delay(), Duration::from_secs(2));
    assert_eq!(strategy.max_attempts(), 3);
}

#[test]
fn test_linear_backoff() {
    let mut strategy = LinearBackoffStrategy::new(Duration::from_secs(1), Duration::from_secs(2), 3);
    assert_eq!(strategy.delay(), Duration::from_secs(3));
    assert_eq!(strategy.delay(), Duration::from_secs(5));
    assert_eq!(strategy.max_attempts(), 3);
}

#[test]
fn test_random_delay_backoff() {
    let mut strategy = RandomDelayStrategy::new(Duration::from_secs(1), Duration::from_secs(5), 3);
    let delay = strategy.delay();
    assert!(delay >= Duration::from_secs(1) && delay <= Duration::from_secs(5));
    assert_eq!(strategy.max_attempts(), 3);
}

#[test]
fn test_incremental_backoff() {
    let mut strategy = IncrementalBackoffStrategy::new(Duration::from_secs(1), Duration::from_secs(2), 3);
    assert_eq!(strategy.delay(), Duration::from_secs(3));
    assert_eq!(strategy.delay(), Duration::from_secs(5));
    assert_eq!(strategy.max_attempts(), 3);
}

#[test]
fn test_fibonacci_backoff() {
    let mut strategy = FibonacciBackoffStrategy::new(Duration::from_secs(1), 3);
    assert_eq!(strategy.delay(), Duration::from_secs(1));
    assert_eq!(strategy.delay(), Duration::from_secs(1));
    assert_eq!(strategy.delay(), Duration::from_secs(2));
    assert_eq!(strategy.delay(), Duration::from_secs(3));
    assert_eq!(strategy.max_attempts(), 3);
}

#[test]
fn test_harmonic_backoff() {
    let mut strategy = HarmonicBackoffStrategy::new(Duration::from_secs(10), 3);
    assert_eq!(strategy.delay(), Duration::from_secs(10));
    assert_eq!(strategy.delay(), Duration::from_secs(5));

    let expected_delay = std::time::Duration::from_secs_f64(10.0 / 3.0);
    let delay = strategy.delay();
    let actual_delay = std::time::Duration::new(delay.as_secs(), delay.subsec_nanos());
    let tolerance = std::time::Duration::from_millis(100);

    assert!(
        actual_delay >= expected_delay - tolerance && actual_delay <= expected_delay + tolerance,
        "Expected delay: {:?}, actual delay: {:?}",
        expected_delay,
        actual_delay
    );

    assert_eq!(strategy.max_attempts(), 3);
}

#[test]
fn fibonacci_delays_follow_the_sequence() {
    let mut strategy = FibonacciBackoffStrategy::new(Duration::from_secs(3), 10);
    let expected = [1u64, 1, 2, 3, 5, 8, 13, 21];
    for m in expected.iter() {
        assert_eq!(strategy.delay(), Duration::from_secs(3 * m));
    }
}

#[test]
fn linear_delays_grow_by_one_step() {
    let mut strategy = LinearBackoffStrategy::new(Duration::from_secs(1), Duration::new(0, 250_000_000), 5);
    let first = strategy.delay();
    let second = strategy.delay();
    assert_eq!(first, Duration::new(1, 250_000_000));
    assert_eq!(second, Duration::new(1, 500_000_000));
}

#[test]
fn harmonic_delays_shrink() {
    let mut strategy = HarmonicBackoffStrategy::new(Duration::from_secs(12), 5);
    let mut last = strategy.delay();
    assert_eq!(last, Duration::from_secs(12));
    for _ in 0..5 {
        let next = strategy.delay();
        assert!(next <= last);
        last = next;
    }
    assert_eq!(last, Duration::new(2, 0));
}

#[test]
fn random_delays_stay_in_whole_second_range() {
    let mut strategy = RandomDelayStrategy::new(Duration::from_secs(2), Duration::from_secs(3), 1);
    for _ in 0..20 {
        let d = strategy.delay();
        assert_eq!(d.as_secs(), 2);
    }
}

#[test]
fn strategy_names_resolve() {
    assert_eq!(
        choose_strategy("LinearBackoff", 4, 3, None),
        StrategyChoice::Linear { base_delay_seconds: 4, step_seconds: 4, max_attempts: 3 }
    );
    assert_eq!(
        choose_strategy("RandomDelay", 4, 3, None),
        StrategyChoice::RandomDelay { min_seconds: 4, max_seconds: 8, max_attempts: 3 }
    );
    assert_eq!(
        choose_strategy("IncrementalBackoff", 4, 3, None),
        StrategyChoice::Incremental { initial_seconds: 4, increment_seconds: 1, max_attempts: 3 }
    );
    assert_eq!(
        choose_strategy("Unknown", 4, 3, Some(9)),
        StrategyChoice::FixedInterval { base_delay_seconds: 4, max_attempts: 3 }
    );
    assert_eq!(
        choose_strategy("JitterBackoff", 1, 2, None),
        StrategyChoice::Jitter { base_delay_seconds: 1, max_attempts: 2 }
    );
}

#[test]
fn can_delay_reports_computable_delays() {
    let fixed = FixedIntervalBackoffStrategy::new(Duration::from_secs(1), 1);
    assert!(fixed.can_delay());
    let random = RandomDelayStrategy::new(Duration::from_secs(3), Duration::from_secs(3), 1);
    assert!(!random.can_delay());
    let linear = LinearBackoffStrategy::new(Duration::from_secs(u64::MAX), Duration::from_secs(1), 1);
    assert!(!linear.can_delay());
    let incremental = IncrementalBackoffStrategy::new(Duration::from_secs(1), Duration::from_secs(1), 1);
    assert!(incremental.can_delay());
    let mut fib = FibonacciBackoffStrategy::new(Duration::from_secs(u64::MAX / 2), 1);
    assert!(fib.can_delay());
    fib.delay();
    fib.delay();
    assert!(fib.can_delay());
    fib.delay();
    assert!(!fib.can_delay());
    let harmonic = HarmonicBackoffStrategy::new(Duration::from_secs(u64::MAX), 1);
    assert!(!harmonic.can_delay());
    assert!(HarmonicBackoffStrategy::new(Duration::from_secs(5), 1).can_delay());
}
