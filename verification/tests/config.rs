use road7::config::{default_pool_size, default_timeout_seconds, default_worker_threads, AuthenticationType, LoggingConfig};

#[test]
fn defaults() {
    assert_eq!(default_timeout_seconds(), 30);
    assert_eq!(default_pool_size(), 10);
    assert_eq!(default_worker_threads(), 1);
}

#[test]
fn plain_config_values() {
    let l = LoggingConfig { log_requests: true, log_responses: false };
    assert!(l.log_requests && !l.log_responses);
    assert_ne!(AuthenticationType::JWT, AuthenticationType::Basic);
}
