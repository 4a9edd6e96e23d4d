use road7::cache::{CacheEntry, CorsConfig};
use road7::circuit_breaker::{CircuitBreaker, CircuitBreakerConfig, CircuitState};
use road7::error::ProxyError;
use road7::headers::Headers;
use road7::proxy::{
    add_conditional_headers, apply_cors_headers, cached_response_headers, circuit_breaker_key, classify_path,
    find_target, forwarded_for, is_retry_status, lookup_cached, store_response, upstream_headers, upstream_request,
    upstream_uri,
    AttemptOutcome, CacheLookup, PathKind, RetryDecision, RetryLoop, TargetMap, TargetRoute,
};

fn plain() -> TargetRoute {
    TargetRoute { routing_header: None, routing_values: None }
}

fn map(prefixes: &[&str]) -> TargetMap {
    let mut m = TargetMap::new();
    for p in prefixes {
        m.insert(p.to_string(), plain());
    }
    m
}

fn text(h: &Headers, name: &str) -> Option<String> {
    h.get(name).map(|v| String::from_utf8(v.clone()).unwrap())
}

#[test]
fn special_paths() {
    assert_eq!(classify_path("/health"), PathKind::Health);
    assert_eq!(classify_path("/metrics"), PathKind::Metrics);
    assert_eq!(classify_path("/health/x"), PathKind::Proxied);
}

#[test]
fn a_serving_prefix_is_found() {
    let m = map(&["/api/v1", "/other"]);
    assert_eq!(find_target(&m, "/api/v1/users", &Headers::new()), Some(("/api/v1".to_string(), 7)));
    assert_eq!(find_target(&m, "/other/x", &Headers::new()), Some(("/other".to_string(), 6)));
    assert_eq!(find_target(&m, "/api/v2", &Headers::new()), None);
    let both = map(&["/api", "/api/v1"]);
    let (k, n) = find_target(&both, "/api/v1/x", &Headers::new()).unwrap();
    assert!(k == "/api" || k == "/api/v1");
    assert_eq!(n, k.len());
}

#[test]
fn routing_header_must_hold_a_known_value() {
    let mut m = TargetMap::new();
    m.insert(
        "/svc".to_string(),
        TargetRoute {
            routing_header: Some("X-Version".to_string()),
            routing_values: Some(vec![("v2".to_string(), "http://v2".to_string())]),
        },
    );
    let mut h = Headers::new();
    h.insert("x-version", b"v2".to_vec());
    assert_eq!(find_target(&m, "/svc/a", &h), Some(("/svc".to_string(), 4)));
    let mut h = Headers::new();
    h.insert("x-version", b"v3".to_vec());
    assert_eq!(find_target(&m, "/svc/a", &h), None);
    assert_eq!(find_target(&m, "/svc/a", &Headers::new()), None);
}

#[test]
fn a_prefix_registered_again_keeps_its_last_route() {
    let mut m = TargetMap::new();
    m.insert(
        "/svc".to_string(),
        TargetRoute {
            routing_header: Some("X-Version".to_string()),
            routing_values: Some(vec![("v2".to_string(), "http://v2".to_string())]),
        },
    );
    m.insert("/svc".to_string(), plain());
    assert_eq!(find_target(&m, "/svc/a", &Headers::new()), Some(("/svc".to_string(), 4)));
}

#[test]
fn upstream_uri_replaces_prefix() {
    assert_eq!(upstream_uri("http://backend:8080", "/api/users", 4, ""), "http://backend:8080/users");
    assert_eq!(upstream_uri("http://backend:8080", "/api/users", 4, "a=1"), "http://backend:8080/users?a=1");
    assert_eq!(upstream_uri("http://b", "/api", 4, ""), "http://b");
}

#[test]
fn forwarded_for_appends_client() {
    let mut h = Headers::new();
    assert_eq!(forwarded_for(&h, "10.0.0.1"), "10.0.0.1");
    h.insert("x-forwarded-for", b"1.2.3.4".to_vec());
    assert_eq!(forwarded_for(&h, "10.0.0.1"), "1.2.3.4, 10.0.0.1");
}

#[test]
fn upstream_headers_keep_fields_and_add_proxy_fields() {
    let h = Headers::from_entries(vec![
        ("accept".to_string(), b"a".to_vec()),
        ("accept".to_string(), b"b".to_vec()),
        ("x-forwarded-for".to_string(), b"1.1.1.1".to_vec()),
    ]);
    let out = upstream_headers(&h, "2.2.2.2", Some("backend:80"));
    assert_eq!(text(&out, "accept").unwrap(), "b");
    assert_eq!(text(&out, "x-forwarded-for").unwrap(), "1.1.1.1, 2.2.2.2");
    assert_eq!(text(&out, "host").unwrap(), "backend:80");
    assert_eq!(text(&out, "x-proxy").unwrap(), "road7");
    assert_eq!(out.len(), 4);
}

#[test]
fn breaker_keys() {
    assert_eq!(circuit_breaker_key("http://a"), "http://a:circuit_breaker");
}

#[test]
fn retry_statuses() {
    for s in [408u16, 429, 500, 502, 503, 504] {
        assert!(is_retry_status(s));
    }
    for s in [200u16, 304, 404, 501] {
        assert!(!is_retry_status(s));
    }
}

fn breaker() -> CircuitBreaker {
    CircuitBreaker::new_at(&CircuitBreakerConfig { max_failures: 2, reset_timeout_seconds: 1, half_open_attempts: 1 }, 0)
}

#[test]
fn retry_loop_stops_after_max_attempts() {
    let mut b = breaker();
    let mut l = RetryLoop::new(3);
    let mut attempts = 0;
    let mut last = None;
    while l.should_attempt() {
        attempts += 1;
        last = Some(l.on_outcome(AttemptOutcome::Answered(503), &mut b, 10));
    }
    assert_eq!(attempts, 3);
    assert!(matches!(last, Some(RetryDecision::Retry { wait: false })));
    let e = RetryLoop::exhausted(&mut b, 10);
    assert!(matches!(e, ProxyError::ServiceUnavailable(ref m) if m == "Maximum retries exceeded"));
    assert_eq!(b.failure_count(), 1);
}

#[test]
fn retry_loop_delivers_and_closes_breaker() {
    let mut b = breaker();
    let mut l = RetryLoop::new(3);
    assert!(matches!(l.on_outcome(AttemptOutcome::Answered(503), &mut b, 0), RetryDecision::Retry { wait: true }));
    assert!(matches!(l.on_outcome(AttemptOutcome::Answered(200), &mut b, 0), RetryDecision::Deliver));
    assert_eq!(b.get_state(), CircuitState::Closed);
}

#[test]
fn retry_loop_gives_up_on_failures_and_timeouts() {
    let mut b = breaker();
    let mut l = RetryLoop::new(1);
    match l.on_outcome(AttemptOutcome::Failed("refused".to_string()), &mut b, 0) {
        RetryDecision::GiveUp(ProxyError::InternalServerError(m)) => assert_eq!(m, "refused"),
        _ => panic!("expected an internal error"),
    }
    assert_eq!(b.failure_count(), 1);
    let mut l = RetryLoop::new(5);
    assert!(matches!(
        l.on_outcome(AttemptOutcome::TimedOut { deadline_passed: true }, &mut b, 0),
        RetryDecision::GiveUp(ProxyError::Timeout)
    ));
    assert_eq!(b.get_state(), CircuitState::Open);
}

#[test]
fn cors_headers_only_when_enabled() {
    let enabled = Some(CorsConfig { enabled: true, allow_origin: Some("*".to_string()), allow_headers: None, allow_methods: Some("GET".to_string()) });
    let disabled = Some(CorsConfig { enabled: false, allow_origin: Some("*".to_string()), allow_headers: None, allow_methods: None });
    let mut h = Headers::new();
    apply_cors_headers(&mut h, &None, &enabled);
    assert_eq!(text(&h, "access-control-allow-origin").unwrap(), "*");
    assert_eq!(text(&h, "access-control-allow-methods").unwrap(), "GET");
    assert!(h.get("access-control-allow-headers").is_none());
    let mut h = Headers::new();
    apply_cors_headers(&mut h, &disabled, &enabled);
    assert_eq!(h.len(), 0);
}

#[test]
fn cached_answers_carry_validators() {
    let mut stored = Headers::new();
    stored.insert("content-type", b"text/plain".to_vec());
    let cors = Some(CorsConfig { enabled: true, allow_origin: None, allow_headers: None, allow_methods: None });
    let e = CacheEntry::from_response(200, stored, b"hi".to_vec(), &cors, 0);
    let h = cached_response_headers(&e);
    assert_eq!(text(&h, "content-type").unwrap(), "text/plain");
    assert_eq!(text(&h, "access-control-allow-origin").unwrap(), "*");
    assert_eq!(text(&h, "etag").unwrap(), e.etag.clone().unwrap());
    let mut req = Headers::new();
    add_conditional_headers(&mut req, &e);
    assert_eq!(text(&req, "if-none-match").unwrap(), e.etag.unwrap());
    assert!(req.get("if-modified-since").is_none());
}

fn cache(ttl_seconds: u64) -> road7::cache::Cache {
    road7::cache::Cache::new(&road7::cache::CacheConfig { ttl_seconds, max_size: 10, serialize: false, cleanup_interval_seconds: 60 })
}

#[test]
fn stored_response_is_found_until_it_expires() {
    let mut c = cache(2);
    let req = Headers::new();
    assert!(matches!(lookup_cached(&mut c, "http://b", "/x", &req, 0), CacheLookup::Miss));
    store_response(&mut c, 200, Headers::new(), b"body".to_vec(), &None, "http://b", "/x", &req, 1_000);
    match lookup_cached(&mut c, "http://b", "/x", &req, 2_999) {
        CacheLookup::Hit(e) => assert_eq!(e.response, b"body".to_vec()),
        _ => panic!("expected a hit"),
    }
    assert!(matches!(lookup_cached(&mut c, "http://b", "/x", &req, 3_000), CacheLookup::Miss));
}

#[test]
fn varying_response_is_stored_under_its_varied_key() {
    let mut c = cache(60);
    let mut req = Headers::new();
    req.insert("accept-language", b"fr".to_vec());
    let mut resp = Headers::new();
    resp.insert("vary", b"Accept-Language".to_vec());
    store_response(&mut c, 200, resp, b"bonjour".to_vec(), &None, "http://b", "/x", &req, 0);
    assert!(matches!(lookup_cached(&mut c, "http://b", "/x", &req, 1), CacheLookup::Miss));
    store_response(&mut c, 200, Headers::new(), b"plain".to_vec(), &None, "http://b", "/x", &req, 0);
    match lookup_cached(&mut c, "http://b", "/x", &req, 1) {
        CacheLookup::Hit(e) => assert_eq!(e.response, b"plain".to_vec()),
        _ => panic!("expected a hit"),
    }
}

#[test]
fn upstream_request_sets_host_from_the_uri() {
    let h = Headers::from_entries(vec![("accept".to_string(), b"a".to_vec())]);
    let (uri, out) = upstream_request(&h, "http://backend:8080", "/api/users", 4, "id=1", "2.2.2.2").unwrap();
    assert_eq!(uri, "http://backend:8080/users?id=1");
    assert_eq!(text(&out, "host").unwrap(), "backend:8080");
    assert_eq!(text(&out, "x-forwarded-for").unwrap(), "2.2.2.2");
    assert_eq!(text(&out, "accept").unwrap(), "a");
    assert_eq!(text(&out, "x-proxy").unwrap(), "road7");
}

#[test]
fn upstream_request_without_authority_sets_no_host() {
    let (uri, out) = upstream_request(&Headers::new(), "", "/api/users", 4, "", "2.2.2.2").unwrap();
    assert_eq!(uri, "/users");
    assert_eq!(text(&out, "host"), None);
}

#[test]
fn upstream_request_refuses_a_text_that_is_no_uri() {
    assert!(upstream_request(&Headers::new(), "http://bad host", "/x", 0, "", "2.2.2.2").is_none());
}
