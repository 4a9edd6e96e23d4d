use road7::circuit_breaker::{CircuitBreaker, CircuitBreakerConfig, CircuitState};

fn config() -> CircuitBreakerConfig {
    CircuitBreakerConfig { max_failures: 2, reset_timeout_seconds: 3, half_open_attempts: 1 }
}

#[test]
fn default_config_values() {
    let c = CircuitBreakerConfig::default();
    assert_eq!(c.max_failures, 3);
    assert_eq!(c.reset_timeout_seconds, 30);
    assert_eq!(c.half_open_attempts, 1);
}

#[test]
fn new_breaker_is_closed() {
    let b = CircuitBreaker::new(&config());
    assert_eq!(b.get_state(), CircuitState::Closed);
    assert_eq!(b.failure_count(), 0);
}

#[test]
fn failures_open_at_threshold_and_refuse_until_timeout() {
    let mut b = CircuitBreaker::new_at(&config(), 0);
    b.record_failure_at(10);
    assert_eq!(b.get_state(), CircuitState::Closed);
    assert!(b.can_attempt_at(11));
    b.record_failure_at(20);
    assert_eq!(b.get_state(), CircuitState::Open);
    assert!(!b.can_attempt_at(3_019));
    assert!(b.can_attempt_at(3_020));
    assert_eq!(b.get_state(), CircuitState::HalfOpen);
    assert!(b.can_attempt_at(3_021));
    assert!(!b.can_attempt_at(3_022));
}

#[test]
fn success_closes_half_open_breaker() {
    let mut b = CircuitBreaker::new_at(&config(), 0);
    b.transition_to_half_open();
    assert_eq!(b.get_state(), CircuitState::HalfOpen);
    b.record_success();
    assert_eq!(b.get_state(), CircuitState::Closed);
    assert_eq!(b.failure_count(), 0);
}

#[test]
fn half_open_breaker_closes_after_its_number_of_successes() {
    let config = CircuitBreakerConfig { max_failures: 1, reset_timeout_seconds: 1, half_open_attempts: 2 };
    let mut b = CircuitBreaker::new_at(&config, 0);
    b.record_failure_at(5);
    assert_eq!(b.get_state(), CircuitState::Open);
    assert!(b.can_attempt_at(1_005));
    assert_eq!(b.get_state(), CircuitState::HalfOpen);
    b.record_success();
    assert_eq!(b.get_state(), CircuitState::HalfOpen);
    assert!(b.can_attempt_at(1_006));
    b.record_success();
    assert_eq!(b.get_state(), CircuitState::Closed);
    assert_eq!(b.failure_count(), 0);
}

#[test]
fn failure_while_half_open_opens_again() {
    let config = CircuitBreakerConfig { max_failures: 2, reset_timeout_seconds: 1, half_open_attempts: 3 };
    let mut b = CircuitBreaker::new_at(&config, 0);
    b.record_failure_at(1);
    b.record_failure_at(2);
    assert_eq!(b.get_state(), CircuitState::Open);
    assert!(b.can_attempt_at(1_002));
    assert_eq!(b.get_state(), CircuitState::HalfOpen);
    b.record_failure_at(1_003);
    assert_eq!(b.get_state(), CircuitState::Open);
    assert!(!b.can_attempt_at(2_002));
    assert!(b.can_attempt_at(2_003));
}

#[test]
fn closed_breaker_admits_and_stays_closed() {
    let mut b = CircuitBreaker::new(&config());
    assert!(b.can_attempt());
    assert!(b.can_attempt());
    assert_eq!(b.get_state(), CircuitState::Closed);
}

#[test]
fn explicit_transitions() {
    let mut b = CircuitBreaker::new_at(&config(), 0);
    b.transition_to_open_at(100);
    assert_eq!(b.get_state(), CircuitState::Open);
    assert!(!b.can_attempt_at(3_099));
    b.transition_to_closed();
    assert_eq!(b.get_state(), CircuitState::Closed);
    assert!(b.can_attempt_at(3_099));
}

#[test]
fn no_allowed_failures_opens_at_the_first() {
    let config = CircuitBreakerConfig { max_failures: 0, reset_timeout_seconds: 1, half_open_attempts: 1 };
    let mut b = CircuitBreaker::new_at(&config, 0);
    b.record_failure_at(10);
    assert_eq!(b.get_state(), CircuitState::Open);
    assert!(!b.can_attempt_at(1_009));
    assert!(b.can_attempt_at(1_010));
}
