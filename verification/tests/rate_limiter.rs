use road7::rate_limiter::{RateLimitError, RateLimiter, RateLimiterConfig, RateLimiterManager};
use road7::Duration;

#[test]
fn test_rate_limiter_creation() {
    let config = RateLimiterConfig { capacity: 10, burst_capacity: 5, max_rate: 2, period: Duration::from_secs(1) };
    let limiter = RateLimiter::new(config);
    let status = limiter.status();

    assert_eq!(status.capacity, config.capacity);
    assert_eq!(status.burst_capacity, config.burst_capacity);
    assert_eq!(status.max_rate, config.max_rate);
    assert_eq!(status.tokens, config.capacity + config.burst_capacity);
}

#[test]
fn test_rate_limiter_acquire() {
    let config = RateLimiterConfig { capacity: 1, burst_capacity: 0, max_rate: 1, period: Duration::from_secs(1) };
    let mut limiter = RateLimiter::new(config);

    assert_eq!(limiter.acquire(), Ok(()));
    assert_eq!(limiter.acquire(), Err(RateLimitError::Exhausted));

    // One refill interval later a token is back.
    limiter.refill();

    assert_eq!(limiter.acquire(), Ok(()));
}

#[test]
fn test_rate_limiter_status() {
    let config = RateLimiterConfig { capacity: 5, burst_capacity: 5, max_rate: 1, period: Duration::from_secs(1) };
    let mut limiter = RateLimiter::new(config);

    let status = limiter.status();
    assert_eq!(status.tokens, 10);

    limiter.acquire().unwrap();
    let status = limiter.status();
    assert_eq!(status.tokens, 9);
}

#[test]
fn test_rate_limiter_manager() {
    let mut manager = RateLimiterManager::new();
    let config = RateLimiterConfig { capacity: 5, burst_capacity: 5, max_rate: 1, period: Duration::from_secs(1) };

    manager.add_limiter("api/test".to_string(), config);

    let limiter = manager.get_limiter("api/test");
    assert!(limiter.is_some());

    let limiter = limiter.unwrap();
    let status = limiter.status();
    assert_eq!(status.capacity, config.capacity);

    let all_statuses = manager.get_all_statuses();
    assert_eq!(all_statuses.len(), 1);
}

#[test]
fn test_rate_limiter_manager_prefix() {
    let mut manager = RateLimiterManager::new();
    let config1 = RateLimiterConfig { capacity: 5, burst_capacity: 5, max_rate: 1, period: Duration::from_secs(1) };
    let config2 = RateLimiterConfig { capacity: 10, burst_capacity: 5, max_rate: 2, period: Duration::from_secs(1) };

    manager.add_limiter("api/v1/".to_string(), config1);
    manager.add_limiter("api/v1/user/".to_string(), config2);

    let limiter = manager.get_limiter("api/v1/user/123");
    assert!(limiter.is_some());

    let limiter = limiter.unwrap();
    let status = limiter.status();
    assert_eq!(status.capacity, config2.capacity);

    let all_statuses = manager.get_all_statuses();
    assert_eq!(all_statuses.len(), 2);
}

#[test]
fn refill_stops_at_capacity_plus_burst() {
    let config = RateLimiterConfig { capacity: 2, burst_capacity: 1, max_rate: 4, period: Duration::from_secs(2) };
    let mut limiter = RateLimiter::new_at(config, 100);
    limiter.refill_at(200);
    assert_eq!(limiter.tokens(), 3);
    assert_eq!(limiter.status().last_refill, 200);
    assert_eq!(limiter.refill_interval(), Duration::new(0, 500_000_000));
}

#[test]
fn tokens_bound_grants() {
    let config = RateLimiterConfig { capacity: 3, burst_capacity: 2, max_rate: 1, period: Duration::from_secs(1) };
    let mut limiter = RateLimiter::new_at(config, 0);
    let granted = (0..20).filter(|i| limiter.acquire_at(*i as u64).is_ok()).count();
    assert_eq!(granted, 5);
    assert_eq!(limiter.status().last_acquire, 4);
}

#[test]
fn manager_without_match_has_no_limiter() {
    let mut manager = RateLimiterManager::new();
    let config = RateLimiterConfig { capacity: 1, burst_capacity: 0, max_rate: 1, period: Duration::from_secs(1) };
    manager.add_limiter("api/".to_string(), config);
    assert!(manager.get_limiter("web/").is_none());
    assert_eq!(manager.acquire("web/x"), None);
    assert_eq!(manager.acquire("api/x"), Some(Ok(())));
    assert_eq!(manager.acquire("api/x"), Some(Err(RateLimitError::Exhausted)));
    manager.shutdown();
}

#[test]
fn registered_path_is_governed_by_its_own_limiter() {
    let mut manager = RateLimiterManager::new();
    let short = RateLimiterConfig { capacity: 1, burst_capacity: 0, max_rate: 1, period: Duration::from_secs(1) };
    let long = RateLimiterConfig { capacity: 7, burst_capacity: 0, max_rate: 1, period: Duration::from_secs(1) };
    manager.add_limiter("api/".to_string(), short);
    manager.add_limiter("api/v1/".to_string(), long);
    assert_eq!(manager.get_limiter("api/").unwrap().status().capacity, 1);
    assert_eq!(manager.get_limiter("api/v1/").unwrap().status().capacity, 7);
    manager.add_limiter("api/".to_string(), long);
    assert_eq!(manager.get_limiter("api/").unwrap().status().capacity, 7);
    assert_eq!(manager.get_all_statuses().len(), 2);
}

#[test]
fn statuses_count_distinct_paths_after_adds() {
    let mut manager = RateLimiterManager::new();
    let small = RateLimiterConfig { capacity: 2, burst_capacity: 1, max_rate: 1, period: Duration::from_secs(1) };
    let large = RateLimiterConfig { capacity: 5, burst_capacity: 5, max_rate: 1, period: Duration::from_secs(1) };
    manager.add_limiter("/a".to_string(), small);
    manager.add_limiter("/b".to_string(), small);
    manager.add_limiter("/a".to_string(), large);
    let statuses = manager.get_all_statuses();
    assert_eq!(statuses.len(), 2);
    let a = statuses.iter().find(|(p, _)| p == "/a").unwrap();
    assert_eq!(a.1.capacity, 5);
    assert_eq!(a.1.tokens, 10);
    let b = statuses.iter().find(|(p, _)| p == "/b").unwrap();
    assert_eq!(b.1.tokens, 3);
}

#[test]
fn acquire_records_its_time_and_stays_within_the_limit() {
    let config = RateLimiterConfig { capacity: 1, burst_capacity: 0, max_rate: 1, period: Duration::from_secs(1) };
    let mut limiter = RateLimiter::new_at(config, 100);
    assert!(limiter.acquire_at(250).is_ok());
    assert_eq!(limiter.status().last_acquire, 250);
    assert!(limiter.acquire_at(300).is_err());
    assert_eq!(limiter.status().last_acquire, 250);
    limiter.refill_at(400);
    limiter.refill_at(500);
    assert_eq!(limiter.tokens(), 1);
}
